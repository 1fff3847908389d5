//! Hashing, message authentication, encoding and randomness, as the
//! outside crates provide them.

use base64::Engine;
use hmac::Mac;
use sha2::Digest;
use vstd::prelude::*;

verus! {

/// The SHA-256 digest of `data`.
pub uninterp spec fn sha256_of(data: Seq<u8>) -> Seq<u8>;

/// The HMAC-SHA256 tag of `data` under `key`.
pub uninterp spec fn hmac_sha256_of(key: Seq<u8>, data: Seq<u8>) -> Seq<u8>;

/// The URL-safe, unpadded base64 text of `data`.
pub uninterp spec fn base64url_of(data: Seq<u8>) -> Seq<char>;

/// The bytes URL-safe, unpadded base64 decoding gives for `text`, or the
/// text of its error.
pub uninterp spec fn base64url_decoded(text: Seq<char>) -> Result<Seq<u8>, Seq<char>>;

/// What `serde_json::from_slice` gives for `payload`, read for its string
/// member `sub`: the error's text when `payload` is not JSON, else the
/// member when it is present and a string.
pub uninterp spec fn json_sub_claim(payload: Seq<u8>) -> Result<Option<Seq<char>>, Seq<char>>;

/// The plain values of a decoding result.
pub open spec fn bytes_or_message(r: Result<Vec<u8>, String>) -> Result<Seq<u8>, Seq<char>> {
    match r {
        Ok(b) => Ok(b@),
        Err(m) => Err(m@),
    }
}

/// The plain values of an optional-claim result.
pub open spec fn claim_or_message(r: Result<Option<String>, String>) -> Result<Option<Seq<char>>, Seq<char>> {
    match r {
        Ok(Some(s)) => Ok(Some(s@)),
        Ok(None) => Ok(None),
        Err(m) => Err(m@),
    }
}

/// `sha2::Sha256::digest`: a 32-byte digest.
#[verifier::external_body]
pub(crate) fn sha256(data: &[u8]) -> (r: Vec<u8>)
    ensures
        r@ == sha256_of(data@),
        r@.len() == 32,
{
    sha2::Sha256::digest(data).to_vec()
}

/// `hmac::Hmac<Sha256>` keyed with `key` (any length is accepted), fed
/// `data`, finalized: a 32-byte tag.
#[verifier::external_body]
pub(crate) fn hmac_sha256(key: &[u8], data: &[u8]) -> (r: Vec<u8>)
    ensures
        r@ == hmac_sha256_of(key@, data@),
        r@.len() == 32,
{
    let Ok(mut mac) = <hmac::Hmac<sha2::Sha256> as hmac::KeyInit>::new_from_slice(key) else {
        return Vec::new();
    };
    mac.update(data);
    mac.finalize().into_bytes().to_vec()
}

/// `URL_SAFE_NO_PAD.encode`.
#[verifier::external_body]
pub(crate) fn base64url_encode(data: &[u8]) -> (r: String)
    ensures
        r@ == base64url_of(data@),
{
    base64::engine::general_purpose::URL_SAFE_NO_PAD.encode(data)
}

/// `URL_SAFE_NO_PAD.decode`, keeping the error's text.
#[verifier::external_body]
pub(crate) fn base64url_decode(text: &str) -> (r: Result<Vec<u8>, String>)
    ensures
        bytes_or_message(r) == base64url_decoded(text@),
{
    base64::engine::general_purpose::URL_SAFE_NO_PAD.decode(text).map_err(|e| e.to_string())
}

/// `serde_json::from_slice`, then the string member `sub`.
#[verifier::external_body]
pub(crate) fn sub_claim(payload: &[u8]) -> (r: Result<Option<String>, String>)
    ensures
        claim_or_message(r) == json_sub_claim(payload@),
{
    let value: serde_json::Value = serde_json::from_slice(payload).map_err(|e| e.to_string())?;
    Ok(value.get("sub").and_then(serde_json::Value::as_str).map(str::to_owned))
}

/// `n` bytes from `getrandom::fill`, or `None` when the system source
/// fails. Which bytes come back is up to chance.
#[verifier::external_body]
pub(crate) fn random_bytes(n: usize) -> (r: Option<Vec<u8>>)
    ensures
        r matches Some(v) ==> v@.len() == n,
{
    let mut buf = vec![0u8; n];
    getrandom::fill(&mut buf).ok()?;
    Some(buf)
}

/// `subtle::ConstantTimeEq::ct_eq` on byte slices: equal lengths and equal
/// bytes.
#[verifier::external_body]
pub(crate) fn constant_time_eq(a: &[u8], b: &[u8]) -> (r: bool)
    ensures
        r == (a@ == b@),
{
    subtle::ConstantTimeEq::ct_eq(a, b).into()
}

} // verus!
