//! Stateless CSRF tokens: an HMAC over the token id and a random nonce.

use vstd::prelude::*;

use crate::security::codec::{constant_time_eq, hmac_sha256, hmac_sha256_of, random_bytes};
use crate::security::error::SecurityError;
use crate::text::{chars_of, find_char, first_index, hex_digit, lemma_char_code_injective, hex_lower, hex_lower_chars, push_all, string_of, sub_chars, utf8_bytes, utf8_encode};

verus! {

/// Default HTML form field name for the CSRF token.
pub const CSRF_FIELD_NAME: &'static str = "_token";

/// Number of random bytes in a token's nonce.
pub const NONCE_BYTES: usize = 16;

/// Issued CSRF token: intention id and the value placed in the form field.
#[derive(Debug, Clone, PartialEq, Eq)]
pub struct CsrfToken {
    id: String,
    value: String,
}

impl CsrfToken {
    /// Intention / form id.
    pub closed spec fn spec_id(&self) -> Seq<char> {
        self.id@
    }

    /// Value for the form field.
    pub closed spec fn spec_value(&self) -> Seq<char> {
        self.value@
    }

    /// A token with intention `id` and field value `value`.
    pub fn new(id: &str, value: &str) -> (r: Self)
        ensures
            r.spec_id() == id@,
            r.spec_value() == value@,
    {
        CsrfToken { id: id.to_owned(), value: value.to_owned() }
    }

    /// Intention / form id.
    pub fn id(&self) -> (r: &str)
        ensures
            r@ == self.spec_id(),
    {
        self.id.as_str()
    }

    /// Value placed in the CSRF form field.
    pub fn value(&self) -> (r: &str)
        ensures
            r@ == self.spec_value(),
    {
        self.value.as_str()
    }
}

/// Issues and validates CSRF tokens; applications may supply their own.
pub trait CsrfTokenManager {
    /// A new token for `token_id` (usually the form name).
    fn get_token(&self, token_id: &str) -> Result<CsrfToken, SecurityError>;

    /// Whether `token` was issued for its id.
    fn is_token_valid(&self, token: &CsrfToken) -> bool;
}

/// The bytes a token's MAC covers: the id, a colon, and the nonce in hex.
pub open spec fn signed_message(id: Seq<char>, nonce_hex: Seq<char>) -> Seq<u8> {
    utf8_encode(id) + seq![58u8] + utf8_encode(nonce_hex)
}

/// The MAC of a token, in lower-case hex.
pub open spec fn signature(secret: Seq<u8>, id: Seq<char>, nonce_hex: Seq<char>) -> Seq<char> {
    hex_lower(hmac_sha256_of(secret, signed_message(id, nonce_hex)))
}

/// The field value issued for `id` with `nonce`: `{nonce_hex}.{mac_hex}`.
pub open spec fn issued_value(secret: Seq<u8>, id: Seq<char>, nonce: Seq<u8>) -> Seq<char> {
    hex_lower(nonce) + seq!['.'] + signature(secret, id, hex_lower(nonce))
}

/// Whether `value` is `{nonce_hex}.{mac_hex}` (split at the first dot, both
/// parts non-empty) with `mac_hex` the MAC of `id` and `nonce_hex`,
/// compared as bytes.
pub open spec fn token_matches(secret: Seq<u8>, id: Seq<char>, value: Seq<char>) -> bool {
    match first_index(value, '.') {
        None => false,
        Some(p) => {
            let nonce_hex = value.take(p);
            let mac_hex = value.skip(p + 1);
            &&& nonce_hex.len() > 0
            &&& mac_hex.len() > 0
            &&& utf8_encode(signature(secret, id, nonce_hex)) == utf8_encode(mac_hex)
        },
    }
}

proof fn lemma_hex_has_no_dot(b: Seq<u8>)
    ensures
        forall|i: int| 0 <= i < hex_lower(b).len() ==> hex_lower(b)[i] != '.',
        hex_lower(b).len() == 2 * b.len(),
    decreases b.len(),
{
    if b.len() > 0 {
        lemma_hex_has_no_dot(b.drop_last());
    }
}

proof fn lemma_hex_digit_injective(x: int, y: int)
    requires
        0 <= x < 16,
        0 <= y < 16,
        hex_digit(x, false) == hex_digit(y, false),
    ensures
        x == y,
{
}

proof fn lemma_hex_digit_ascii(x: int)
    requires
        0 <= x < 16,
    ensures
        (hex_digit(x, false) as u32) < 0x80,
{
}

/// Lower-case hex tells bytes apart, and holds ASCII characters only.
proof fn lemma_hex_lower_injective(a: Seq<u8>, b: Seq<u8>)
    ensures
        hex_lower(a) == hex_lower(b) ==> a == b,
        forall|i: int| 0 <= i < hex_lower(a).len() ==> (hex_lower(a)[i] as u32) < 0x80,
    decreases a.len(),
{
    lemma_hex_has_no_dot(a);
    lemma_hex_has_no_dot(b);
    if a.len() > 0 {
        let la = a.last();
        lemma_hex_digit_ascii((la / 16) as int);
        lemma_hex_digit_ascii((la % 16) as int);
        if b.len() > 0 {
            lemma_hex_lower_injective(a.drop_last(), b.drop_last());
        } else {
            lemma_hex_lower_injective(a.drop_last(), a.drop_last());
        }
        if hex_lower(a) == hex_lower(b) {
            let lb = b.last();
            let ha = hex_lower(a);
            let hb = hex_lower(b);
            let n = ha.len();
            assert(ha[n - 2] == hb[n - 2] && ha[n - 1] == hb[n - 1]);
            assert(hex_lower(a.drop_last()) =~= ha.take(n - 2));
            assert(hex_lower(b.drop_last()) =~= hb.take(n - 2));
            lemma_hex_digit_injective((la / 16) as int, (lb / 16) as int);
            lemma_hex_digit_injective((la % 16) as int, (lb % 16) as int);
            assert(la == lb);
            assert(a =~= a.drop_last().push(la));
            assert(b =~= b.drop_last().push(lb));
        }
    } else if b.len() > 0 {
        assert(hex_lower(a).len() != hex_lower(b).len());
    }
}

/// UTF-8 tells ASCII texts apart.
proof fn lemma_utf8_ascii_injective(x: Seq<char>, y: Seq<char>)
    requires
        forall|i: int| 0 <= i < x.len() ==> (x[i] as u32) < 0x80,
        forall|i: int| 0 <= i < y.len() ==> (y[i] as u32) < 0x80,
        utf8_encode(x) == utf8_encode(y),
    ensures
        x == y,
    decreases x.len(),
{
    lemma_utf8_ascii_len(x);
    lemma_utf8_ascii_len(y);
    if x.len() > 0 {
        let ex = utf8_encode(x);
        let n = ex.len();
        assert(utf8_encode(x.drop_last()) =~= ex.take(n - 1));
        assert(utf8_encode(y.drop_last()) =~= utf8_encode(y).take(n - 1));
        lemma_utf8_ascii_injective(x.drop_last(), y.drop_last());
        assert(ex[n - 1] == (x.last() as u32) as u8);
        assert(utf8_encode(y)[n - 1] == (y.last() as u32) as u8);
        let a = x.last() as u32;
        let b = y.last() as u32;
        assert(a < 0x80 && b < 0x80);
        assert((a as u8) as u32 == a) by (bit_vector)
            requires
                a < 0x80,
        ;
        assert((b as u8) as u32 == b) by (bit_vector)
            requires
                b < 0x80,
        ;
        assert(a == b);
        if x.last() != y.last() {
            lemma_char_code_injective(x.last(), y.last());
        }
        assert(x =~= x.drop_last().push(x.last()));
        assert(y =~= y.drop_last().push(y.last()));
    }
}

proof fn lemma_utf8_ascii_len(x: Seq<char>)
    requires
        forall|i: int| 0 <= i < x.len() ==> (x[i] as u32) < 0x80,
    ensures
        utf8_encode(x).len() == x.len(),
    decreases x.len(),
{
    if x.len() > 0 {
        lemma_utf8_ascii_len(x.drop_last());
    }
}

/// Where the first dot of an issued value is: right after the nonce's hex,
/// with the MAC's hex after it.
proof fn lemma_issued_value_parts(secret: Seq<u8>, id: Seq<char>, nonce: Seq<u8>)
    ensures
        first_index(issued_value(secret, id, nonce), '.') == Some(hex_lower(nonce).len() as int),
        issued_value(secret, id, nonce).take(hex_lower(nonce).len() as int) == hex_lower(nonce),
        issued_value(secret, id, nonce).skip(hex_lower(nonce).len() as int + 1) == signature(secret, id, hex_lower(nonce)),
{
    let v = issued_value(secret, id, nonce);
    let n = hex_lower(nonce);
    lemma_hex_has_no_dot(nonce);
    assert(v[n.len() as int] == '.');
    assert forall|j: int| 0 <= j < n.len() implies v[j] != '.' by {
        assert(v[j] == n[j]);
    }
    let p = first_index(v, '.')->0;
    assert(first_index(v, '.') is Some);
    assert(p == n.len()) by {
        if p < n.len() {
            assert(v[p] == n[p]);
        } else if p > n.len() {
            assert(v[n.len() as int] == '.');
        }
    }
    assert(v.take(p) =~= n);
    assert(v.skip(p + 1) =~= signature(secret, id, n));
}

/// A token issued for one id under one secret is refused for any other id
/// or secret, unless the MACs of the two collide: the value carries the MAC
/// of its own id and nonce, and a different MAC reads differently.
pub proof fn law_token_only_valid_for_its_id_and_secret(
    secret: Seq<u8>,
    id: Seq<char>,
    nonce: Seq<u8>,
    other_secret: Seq<u8>,
    other_id: Seq<char>,
)
    requires
        hmac_sha256_of(other_secret, signed_message(other_id, hex_lower(nonce)))
            != hmac_sha256_of(secret, signed_message(id, hex_lower(nonce))),
    ensures
        !token_matches(other_secret, other_id, issued_value(secret, id, nonce)),
{
    let n = hex_lower(nonce);
    lemma_issued_value_parts(secret, id, nonce);
    let mine = hmac_sha256_of(secret, signed_message(id, n));
    let theirs = hmac_sha256_of(other_secret, signed_message(other_id, n));
    lemma_hex_lower_injective(theirs, mine);
    lemma_hex_lower_injective(mine, theirs);
    if utf8_encode(hex_lower(theirs)) == utf8_encode(hex_lower(mine)) {
        lemma_utf8_ascii_injective(hex_lower(theirs), hex_lower(mine));
    }
}

/// HMAC-SHA256 CSRF manager keyed by an application secret that stays the
/// same across requests.
#[derive(Debug, Clone)]
pub struct HmacCsrfTokenManager {
    secret: Vec<u8>,
}

impl HmacCsrfTokenManager {
    /// The key.
    pub closed spec fn spec_secret(&self) -> Seq<u8> {
        self.secret@
    }

    /// A manager keyed by `secret` (use a long random application secret).
    pub fn new(secret: &[u8]) -> (r: Self)
        ensures
            r.spec_secret() == secret@,
    {
        HmacCsrfTokenManager { secret: vstd::slice::slice_to_vec(secret) }
    }

    /// The MAC of `token_id` and `nonce_hex`, in hex.
    fn sign(&self, token_id: &str, nonce_hex: &[char]) -> (r: Vec<char>)
        ensures
            r@ == signature(self.spec_secret(), token_id@, nonce_hex@),
            r@.len() == 64,
    {
        let mut message = utf8_bytes(chars_of(token_id).as_slice());
        message.push(58u8);
        let nonce_bytes = utf8_bytes(nonce_hex);
        let mut i: usize = 0;
        let ghost head = message@;
        while i < nonce_bytes.len()
            invariant
                0 <= i <= nonce_bytes@.len(),
                message@ == head + nonce_bytes@.take(i as int),
            decreases nonce_bytes@.len() - i,
        {
            message.push(nonce_bytes[i]);
            i = i + 1;
            assert(message@ =~= head + nonce_bytes@.take(i as int));
        }
        assert(nonce_bytes@.take(nonce_bytes@.len() as int) =~= nonce_bytes@);
        assert(message@ =~= signed_message(token_id@, nonce_hex@));
        let tag = hmac_sha256(self.secret.as_slice(), message.as_slice());
        hex_lower_chars(tag.as_slice())
    }

    /// The token issued for `token_id` with the random `nonce`.
    pub fn token_for_nonce(&self, token_id: &str, nonce: &[u8]) -> (r: CsrfToken)
        ensures
            r.spec_id() == token_id@,
            r.spec_value() == issued_value(self.spec_secret(), token_id@, nonce@),
            nonce@.len() > 0 ==> token_matches(self.spec_secret(), token_id@, r.spec_value()),
    {
        let nonce_hex = hex_lower_chars(nonce);
        let mac_hex = self.sign(token_id, nonce_hex.as_slice());
        let mut value = nonce_hex.clone();
        value.push('.');
        push_all(&mut value, mac_hex.as_slice());
        proof {
            assert(value@ =~= issued_value(self.spec_secret(), token_id@, nonce@));
            lemma_issued_value_parts(self.spec_secret(), token_id@, nonce@);
            lemma_hex_has_no_dot(nonce@);
        }
        CsrfToken { id: token_id.to_owned(), value: string_of(value.as_slice()) }
    }
}

impl CsrfTokenManager for HmacCsrfTokenManager {
    fn get_token(&self, token_id: &str) -> (r: Result<CsrfToken, SecurityError>)
        ensures
            r matches Ok(t) ==> t.spec_id() == token_id@ && token_matches(self.spec_secret(), token_id@, t.spec_value())
                && exists|nonce: Seq<u8>| nonce.len() == NONCE_BYTES && t.spec_value() == #[trigger] issued_value(self.spec_secret(), token_id@, nonce),
            r matches Err(e) ==> e is CsrfGeneration,
    {
        match random_bytes(NONCE_BYTES) {
            Some(nonce) => Ok(self.token_for_nonce(token_id, nonce.as_slice())),
            None => Err(SecurityError::CsrfGeneration),
        }
    }

    fn is_token_valid(&self, token: &CsrfToken) -> (r: bool)
        ensures
            r == token_matches(self.spec_secret(), token.spec_id(), token.spec_value()),
    {
        let value = chars_of(token.value.as_str());
        let dot = match find_char(value.as_slice(), '.') {
            Some(p) => p,
            None => return false,
        };
        let n = value.len();
        assert(dot < n);
        let nonce_hex = sub_chars(value.as_slice(), 0, dot);
        let mac_hex = sub_chars(value.as_slice(), dot + 1, n);
        proof {
            assert(nonce_hex@ =~= value@.take(dot as int));
            assert(mac_hex@ =~= value@.skip(dot + 1));
        }
        if nonce_hex.len() == 0 || mac_hex.len() == 0 {
            return false;
        }
        let expected = self.sign(token.id.as_str(), nonce_hex.as_slice());
        let expected_bytes = utf8_bytes(expected.as_slice());
        let given_bytes = utf8_bytes(mac_hex.as_slice());
        constant_time_eq(expected_bytes.as_slice(), given_bytes.as_slice())
    }
}

} // verus!
