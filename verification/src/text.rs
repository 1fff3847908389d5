//! Character-level text helpers shared by every component.

use vstd::prelude::*;

verus! {

/// The characters of `s`, in order.
#[verifier::external_body]
pub(crate) fn chars_of(s: &str) -> (r: Vec<char>)
    ensures
        r@ == s@,
{
    s.chars().collect()
}

/// A `String` holding exactly the characters `v`.
#[verifier::external_body]
pub(crate) fn string_of(v: &[char]) -> (r: String)
    ensures
        r@ == v@,
{
    v.iter().collect()
}

/// Whether two character sequences are equal.
pub fn chars_equal(a: &[char], b: &[char]) -> (r: bool)
    ensures
        r == (a@ == b@),
{
    if a.len() != b.len() {
        return false;
    }
    let mut i: usize = 0;
    while i < a.len()
        invariant
            a@.len() == b@.len(),
            0 <= i <= a@.len(),
            forall|j: int| 0 <= j < i ==> a@[j] == b@[j],
        decreases a@.len() - i,
    {
        if a[i] != b[i] {
            return false;
        }
        i = i + 1;
    }
    assert(a@ =~= b@);
    true
}


/// Unicode `White_Space`: the characters `char::is_whitespace` accepts.
pub open spec fn is_space(c: char) -> bool {
    let u = c as u32;
    ||| 0x09 <= u <= 0x0d
    ||| u == 0x20
    ||| u == 0x85
    ||| u == 0xa0
    ||| u == 0x1680
    ||| 0x2000 <= u <= 0x200a
    ||| u == 0x2028
    ||| u == 0x2029
    ||| u == 0x202f
    ||| u == 0x205f
    ||| u == 0x3000
}

/// Whether `c` is Unicode white space.
pub fn space_char(c: char) -> (r: bool)
    ensures
        r == is_space(c),
{
    let u = c as u32;
    (0x09 <= u && u <= 0x0d) || u == 0x20 || u == 0x85 || u == 0xa0 || u == 0x1680 || (0x2000
        <= u && u <= 0x200a) || u == 0x2028 || u == 0x2029 || u == 0x202f || u == 0x205f || u
        == 0x3000
}

/// The maximal runs of non-space characters of `s`, left to right
/// (what `str::split_whitespace` yields).
pub open spec fn words(s: Seq<char>) -> Seq<Seq<char>>
    decreases s.len(),
{
    if s.len() == 0 {
        seq![]
    } else {
        let rest = words(s.drop_last());
        let c = s.last();
        if is_space(c) {
            rest
        } else if s.len() >= 2 && !is_space(s[s.len() - 2]) && rest.len() > 0 {
            rest.drop_last().push(rest.last().push(c))
        } else {
            rest.push(seq![c])
        }
    }
}

/// The views of a vector of character vectors.
pub open spec fn views_of(v: Seq<Vec<char>>) -> Seq<Seq<char>> {
    v.map_values(|t: Vec<char>| t@)
}

/// The character views of strings.
pub open spec fn string_views(s: Seq<String>) -> Seq<Seq<char>> {
    s.map_values(|t: String| t@)
}

/// Whether `s` holds an element equal to `x`.
pub open spec fn mentions(s: Seq<Seq<char>>, x: Seq<char>) -> bool {
    exists|i: int| 0 <= i < s.len() && s[i] == x
}

/// Whether some string of `items` equals `wanted`.
pub fn any_equal(items: &[String], wanted: &str) -> (r: bool)
    ensures
        r == mentions(string_views(items@), wanted@),
{
    let w = chars_of(wanted);
    let mut i: usize = 0;
    while i < items.len()
        invariant
            0 <= i <= items@.len(),
            w@ == wanted@,
            forall|j: int| 0 <= j < i ==> (#[trigger] items@[j])@ != wanted@,
        decreases items@.len() - i,
    {
        let c = chars_of(items[i].as_str());
        if chars_equal(c.as_slice(), w.as_slice()) {
            assert(string_views(items@)[i as int] == wanted@);
            return true;
        }
        i = i + 1;
    }
    proof {
        if mentions(string_views(items@), wanted@) {
            let j = choose|j: int| 0 <= j < string_views(items@).len() && string_views(items@)[j] == wanted@;
            assert(items@[j]@ == wanted@);
        }
    }
    false
}

/// Splits `s` at Unicode white space, dropping empty pieces.
pub fn split_words(s: &[char]) -> (r: Vec<Vec<char>>)
    ensures
        views_of(r@) == words(s@),
{
    let mut out: Vec<Vec<char>> = Vec::new();
    let mut i: usize = 0;
    while i < s.len()
        invariant
            0 <= i <= s@.len(),
            views_of(out@) == words(s@.take(i as int)),
        decreases s@.len() - i,
    {
        let c = s[i];
        proof {
            assert(s@.take(i as int + 1).drop_last() =~= s@.take(i as int));
        }
        if !space_char(c) {
            if i > 0 && !space_char(s[i - 1]) && out.len() > 0 {
                let mut last = out.pop().unwrap();
                last.push(c);
                out.push(last);
                proof {
                    assert(views_of(out@) =~= words(s@.take(i as int)).drop_last().push(
                        words(s@.take(i as int)).last().push(c),
                    ));
                }
            } else {
                let mut w: Vec<char> = Vec::new();
                w.push(c);
                out.push(w);
                proof {
                    assert(views_of(out@) =~= words(s@.take(i as int)).push(seq![c]));
                }
            }
        }
        i = i + 1;
    }
    assert(s@.take(s@.len() as int) =~= s@);
    out
}


/// Number of non-overlapping occurrences of `n` in `h`, scanning from the
/// left and resuming after each match (what repeated `str::find` counts).
pub open spec fn occurrences(h: Seq<char>, n: Seq<char>) -> nat
    decreases h.len(),
{
    if n.len() == 0 || h.len() < n.len() {
        0
    } else if h.take(n.len() as int) == n {
        1 + occurrences(h.skip(n.len() as int), n)
    } else {
        occurrences(h.drop_first(), n)
    }
}

/// Whether `n` occurs in `h` starting at index `i`.
pub open spec fn matches_at(h: Seq<char>, n: Seq<char>, i: int) -> bool {
    0 <= i && i + n.len() <= h.len() && h.subrange(i, i + n.len()) == n
}

/// Whether `n` occurs at position `i` of `h`.
pub fn match_at(h: &[char], n: &[char], i: usize) -> (r: bool)
    ensures
        r == matches_at(h@, n@, i as int),
{
    if i > h.len() || n.len() > h.len() - i {
        return false;
    }
    let mut k: usize = 0;
    while k < n.len()
        invariant
            i + n@.len() <= h@.len(),
            h@.len() == h.len(),
            n@.len() == n.len(),
            0 <= k <= n@.len(),
            forall|j: int| 0 <= j < k ==> h@[i + j] == n@[j],
        decreases n@.len() - k,
    {
        if h[i + k] != n[k] {
            assert(h@.subrange(i as int, i + n@.len())[k as int] != n@[k as int]);
            return false;
        }
        k = k + 1;
    }
    assert(h@.subrange(i as int, i + n@.len()) =~= n@);
    true
}

/// `u32` addition that stops at `u32::MAX`.
pub open spec fn sat_add(a: int, b: int) -> int {
    if a + b > u32::MAX { u32::MAX as int } else { a + b }
}

/// Number of non-overlapping occurrences of `needle` in `hay`, saturated at
/// `u32::MAX`; zero for an empty needle.
pub fn count_occurrences(hay: &[char], needle: &[char]) -> (r: u32)
    ensures
        r as int == if occurrences(hay@, needle@) > u32::MAX {
            u32::MAX as int
        } else {
            occurrences(hay@, needle@) as int
        },
{
    if needle.len() == 0 {
        return 0;
    }
    let mut count: u32 = 0;
    let mut i: usize = 0;
    assert(hay@.skip(0) =~= hay@);
    while i < hay.len()
        invariant
            needle@.len() > 0,
            0 <= i <= hay@.len(),
            count == u32::MAX ==> occurrences(hay@, needle@) >= u32::MAX,
            count < u32::MAX ==> occurrences(hay@, needle@) == occurrences(
                hay@.skip(i as int),
                needle@,
            ) + count,
        decreases hay@.len() - i,
    {
        let ghost rest = hay@.skip(i as int);
        if match_at(hay, needle, i) {
            proof {
                assert(rest.take(needle@.len() as int) =~= hay@.subrange(
                    i as int,
                    i + needle@.len(),
                ));
                assert(rest.skip(needle@.len() as int) =~= hay@.skip(i + needle@.len()));
            }
            if count < u32::MAX {
                count = count + 1;
            }
            i = i + needle.len();
        } else {
            proof {
                if rest.len() >= needle@.len() {
                    assert(rest.take(needle@.len() as int) =~= hay@.subrange(
                        i as int,
                        i + needle@.len(),
                    ));
                }
                assert(rest.drop_first() =~= hay@.skip(i + 1));
            }
            i = i + 1;
        }
    }
    assert(hay@.skip(i as int).len() == 0);
    count
}


/// What `str::to_lowercase` returns for a string with characters `s`.
pub uninterp spec fn lowercase(s: Seq<char>) -> Seq<char>;

/// `str::to_lowercase`: the Unicode lower-case mapping of `s`, taken as a
/// function of its characters (it depends on no locale).
#[verifier::external_body]
pub(crate) fn to_lowercase(s: &str) -> (r: String)
    ensures
        r@ == lowercase(s@),
{
    s.to_lowercase()
}

/// `parts` joined with `sep` between neighbours (what `[String]::join` builds).
pub open spec fn join(parts: Seq<Seq<char>>, sep: Seq<char>) -> Seq<char>
    decreases parts.len(),
{
    if parts.len() == 0 {
        seq![]
    } else if parts.len() == 1 {
        parts[0]
    } else {
        join(parts.drop_last(), sep) + sep + parts.last()
    }
}

/// Appends the characters of `src` to `dst`.
pub fn push_all(dst: &mut Vec<char>, src: &[char])
    ensures
        final(dst)@ == old(dst)@ + src@,
{
    let mut i: usize = 0;
    while i < src.len()
        invariant
            0 <= i <= src@.len(),
            dst@ == old(dst)@ + src@.take(i as int),
        decreases src@.len() - i,
    {
        dst.push(src[i]);
        i = i + 1;
        proof {
            assert(src@.take(i as int) =~= src@.take(i - 1).push(src@[i - 1]));
        }
    }
    assert(src@.take(src@.len() as int) =~= src@);
}

/// `parts` joined with `sep`.
pub fn join_chars(parts: &Vec<Vec<char>>, sep: &[char]) -> (r: Vec<char>)
    ensures
        r@ == join(views_of(parts@), sep@),
{
    let mut out: Vec<char> = Vec::new();
    let mut i: usize = 0;
    while i < parts.len()
        invariant
            0 <= i <= parts@.len(),
            out@ == join(views_of(parts@).take(i as int), sep@),
        decreases parts@.len() - i,
    {
        proof {
            let t = views_of(parts@).take(i + 1);
            assert(t.drop_last() =~= views_of(parts@).take(i as int));
        }
        if i > 0 {
            push_all(&mut out, sep);
        }
        push_all(&mut out, parts[i].as_slice());
        proof {
            if i == 0 {
                assert(out@ =~= views_of(parts@).take(1)[0]);
            }
        }
        i = i + 1;
    }
    assert(views_of(parts@).take(parts@.len() as int) =~= views_of(parts@));
    out
}

/// Lexicographic order on characters by code point, which is also the
/// byte order of their UTF-8 encodings (the order of `String`).
pub open spec fn lex_lt(a: Seq<char>, b: Seq<char>) -> bool
    decreases a.len(),
{
    if a.len() == 0 {
        b.len() > 0
    } else if b.len() == 0 {
        false
    } else if a[0] != b[0] {
        (a[0] as u32) < (b[0] as u32)
    } else {
        lex_lt(a.drop_first(), b.drop_first())
    }
}

/// No sequence precedes itself.
pub proof fn lemma_lex_irreflexive(a: Seq<char>)
    ensures
        !lex_lt(a, a),
    decreases a.len(),
{
    if a.len() > 0 {
        lemma_lex_irreflexive(a.drop_first());
    }
}

/// The order is transitive.
pub proof fn lemma_lex_transitive(a: Seq<char>, b: Seq<char>, c: Seq<char>)
    requires
        lex_lt(a, b),
        lex_lt(b, c),
    ensures
        lex_lt(a, c),
    decreases a.len(),
{
    if a.len() > 0 && b.len() > 0 && c.len() > 0 {
        if a[0] == b[0] && b[0] == c[0] {
            lemma_lex_transitive(a.drop_first(), b.drop_first(), c.drop_first());
        }
    }
}

/// Two distinct sequences are ordered one way or the other.
pub proof fn lemma_lex_total(a: Seq<char>, b: Seq<char>)
    requires
        a != b,
    ensures
        lex_lt(a, b) || lex_lt(b, a),
    decreases a.len(),
{
    if a.len() > 0 && b.len() > 0 && a[0] == b[0] {
        if a.drop_first() == b.drop_first() {
            assert(a =~= seq![a[0]] + a.drop_first());
            assert(b =~= seq![b[0]] + b.drop_first());
        }
        lemma_lex_total(a.drop_first(), b.drop_first());
    } else if a.len() > 0 && b.len() > 0 {
        lemma_char_code_injective(a[0], b[0]);
    } else if a.len() == 0 && b.len() == 0 {
        assert(a =~= b);
    }
}

/// Distinct characters have distinct code points.
pub proof fn lemma_char_code_injective(x: char, y: char)
    requires
        x != y,
    ensures
        (x as u32) != (y as u32),
{
    assert((x as u32) as int == x as int);
    assert((y as u32) as int == y as int);
}

/// Whether `a` precedes `b` lexicographically.
pub fn chars_less(a: &[char], b: &[char]) -> (r: bool)
    ensures
        r == lex_lt(a@, b@),
{
    let mut i: usize = 0;
    assert(a@.skip(0) =~= a@);
    assert(b@.skip(0) =~= b@);
    while i < a.len() && i < b.len()
        invariant
            0 <= i <= a@.len(),
            i <= b@.len(),
            lex_lt(a@, b@) == lex_lt(a@.skip(i as int), b@.skip(i as int)),
        decreases a@.len() - i,
    {
        if a[i] != b[i] {
            let ca = a[i];
            let cb = b[i];
            let x = ca as u32;
            let y = cb as u32;
            proof {
                assert(a@.skip(i as int)[0] == ca);
                assert(b@.skip(i as int)[0] == cb);
            }
            return x < y;
        }
        proof {
            assert(a@.skip(i as int).drop_first() =~= a@.skip(i + 1));
            assert(b@.skip(i as int).drop_first() =~= b@.skip(i + 1));
        }
        i = i + 1;
    }
    i < b.len()
}


/// `s` with every non-overlapping occurrence of the non-empty `pat`, taken
/// from the left, replaced by `rep` (what `str::replace` returns).
pub open spec fn replace_all(s: Seq<char>, pat: Seq<char>, rep: Seq<char>) -> Seq<char>
    decreases s.len(),
{
    if pat.len() == 0 || s.len() < pat.len() {
        s
    } else if s.take(pat.len() as int) == pat {
        rep + replace_all(s.skip(pat.len() as int), pat, rep)
    } else {
        seq![s[0]] + replace_all(s.drop_first(), pat, rep)
    }
}

/// Replaces every occurrence of `pat` (non-empty) in `s` by `rep`.
pub fn replace_chars(s: &[char], pat: &[char], rep: &[char]) -> (r: Vec<char>)
    requires
        pat@.len() > 0,
    ensures
        r@ == replace_all(s@, pat@, rep@),
{
    let mut out: Vec<char> = Vec::new();
    let mut i: usize = 0;
    assert(s@.skip(0) =~= s@);
    while i < s.len()
        invariant
            pat@.len() > 0,
            0 <= i <= s@.len(),
            out@ + replace_all(s@.skip(i as int), pat@, rep@) == replace_all(s@, pat@, rep@),
        decreases s@.len() - i,
    {
        let ghost rest = s@.skip(i as int);
        if match_at(s, pat, i) {
            proof {
                assert(rest.take(pat@.len() as int) =~= s@.subrange(i as int, i + pat@.len()));
                assert(rest.skip(pat@.len() as int) =~= s@.skip(i + pat@.len()));
                assert(out@ + rep@ + replace_all(s@.skip(i + pat@.len()), pat@, rep@) =~= out@ + (
                rep@ + replace_all(s@.skip(i + pat@.len()), pat@, rep@)));
            }
            push_all(&mut out, rep);
            i = i + pat.len();
        } else {
            proof {
                if rest.len() >= pat@.len() {
                    assert(rest.take(pat@.len() as int) =~= s@.subrange(i as int, i + pat@.len()));
                    assert(rest.drop_first() =~= s@.skip(i + 1));
                    assert(out@.push(s@[i as int]) + replace_all(s@.skip(i + 1), pat@, rep@)
                        =~= out@ + (seq![s@[i as int]] + replace_all(
                        s@.skip(i + 1),
                        pat@,
                        rep@,
                    )));
                } else {
                    assert(replace_all(rest, pat@, rep@) == rest);
                    assert(rest.drop_first() =~= s@.skip(i + 1));
                    assert(s@.skip(i + 1).len() < pat@.len());
                    assert(replace_all(s@.skip(i + 1), pat@, rep@) == s@.skip(i + 1));
                    assert(out@.push(s@[i as int]) + s@.skip(i + 1) =~= out@ + rest);
                }
            }
            out.push(s[i]);
            i = i + 1;
        }
    }
    assert(replace_all(s@.skip(i as int), pat@, rep@) =~= seq![]);
    assert(out@ + seq![] =~= out@);
    out
}

/// Index of the first `c` in `s`, if any.
pub open spec fn first_index(s: Seq<char>, c: char) -> Option<int> {
    if exists|i: int| 0 <= i < s.len() && s[i] == c {
        Some(choose|i: int| 0 <= i < s.len() && s[i] == c && forall|j: int| 0 <= j < i ==> s[j] != c)
    } else {
        None
    }
}

/// Position of the first `c` in `s`.
pub fn find_char(s: &[char], c: char) -> (r: Option<usize>)
    ensures
        match r {
            Some(i) => i < s@.len() && s@[i as int] == c && forall|j: int| 0 <= j < i ==> s@[j] != c,
            None => forall|j: int| 0 <= j < s@.len() ==> s@[j] != c,
        },
        r matches Some(i) ==> first_index(s@, c) == Some(i as int),
        r is None ==> first_index(s@, c) is None,
{
    let mut i: usize = 0;
    while i < s.len()
        invariant
            0 <= i <= s@.len(),
            forall|j: int| 0 <= j < i ==> s@[j] != c,
        decreases s@.len() - i,
    {
        if s[i] == c {
            proof {
                let k = choose|k: int| 0 <= k < s@.len() && s@[k] == c && forall|j: int| 0 <= j < k ==> s@[j] != c;
                assert(k == i as int) by {
                    if k < i {
                        assert(s@[k] != c);
                    } else if k > i {
                        assert(s@[i as int] != c);
                    }
                }
            }
            return Some(i);
        }
        i = i + 1;
    }
    None
}

/// The decimal digit for `d < 10`.
pub open spec fn digit_char(d: int) -> char {
    if d == 0 { '0' }
    else if d == 1 { '1' }
    else if d == 2 { '2' }
    else if d == 3 { '3' }
    else if d == 4 { '4' }
    else if d == 5 { '5' }
    else if d == 6 { '6' }
    else if d == 7 { '7' }
    else if d == 8 { '8' }
    else { '9' }
}

/// Decimal representation of `n` without sign or leading zeros (what
/// `Display` prints for an unsigned integer).
pub open spec fn decimal(n: nat) -> Seq<char>
    decreases n,
{
    if n < 10 {
        seq![digit_char(n as int)]
    } else {
        decimal(n / 10).push(digit_char((n % 10) as int))
    }
}

fn digit_of(d: u128) -> (c: char)
    requires
        d < 10,
    ensures
        c == digit_char(d as int),
{
    if d == 0 { '0' }
    else if d == 1 { '1' }
    else if d == 2 { '2' }
    else if d == 3 { '3' }
    else if d == 4 { '4' }
    else if d == 5 { '5' }
    else if d == 6 { '6' }
    else if d == 7 { '7' }
    else if d == 8 { '8' }
    else { '9' }
}

/// Decimal digits of `n`.
pub fn decimal_chars(n: u128) -> (r: Vec<char>)
    ensures
        r@ == decimal(n as nat),
    decreases n,
{
    if n < 10 {
        let mut v: Vec<char> = Vec::new();
        v.push(digit_of(n));
        assert(v@ =~= seq![digit_char(n as int)]);
        v
    } else {
        let mut v = decimal_chars(n / 10);
        v.push(digit_of(n % 10));
        v
    }
}

/// Value of the decimal digit `c`, if it is one.
pub open spec fn digit_value(c: char) -> Option<nat> {
    if c == '0' { Some(0) }
    else if c == '1' { Some(1) }
    else if c == '2' { Some(2) }
    else if c == '3' { Some(3) }
    else if c == '4' { Some(4) }
    else if c == '5' { Some(5) }
    else if c == '6' { Some(6) }
    else if c == '7' { Some(7) }
    else if c == '8' { Some(8) }
    else if c == '9' { Some(9) }
    else { None }
}

/// Whether every character of `s` is a decimal digit.
pub open spec fn all_digits(s: Seq<char>) -> bool {
    forall|i: int| 0 <= i < s.len() ==> digit_value(#[trigger] s[i]) is Some
}

/// Value of a run of decimal digits.
pub open spec fn digits_value(s: Seq<char>) -> nat
    decreases s.len(),
{
    if s.len() == 0 {
        0
    } else {
        digits_value(s.drop_last()) * 10 + digit_value(s.last()).unwrap_or(0)
    }
}

/// What `str::parse` yields for an unsigned integer type whose largest
/// value is `max`: an optional `+`, then at least one decimal digit, and a
/// value that fits.
pub open spec fn parse_unsigned(s: Seq<char>, max: nat) -> Option<nat> {
    let d = if s.len() > 0 && s[0] == '+' { s.drop_first() } else { s };
    if d.len() > 0 && all_digits(d) && digits_value(d) <= max {
        Some(digits_value(d))
    } else {
        None
    }
}

proof fn lemma_digits_value_monotone(s: Seq<char>, i: int)
    requires
        0 <= i <= s.len(),
    ensures
        digits_value(s.take(i)) <= digits_value(s),
    decreases s.len(),
{
    if i < s.len() {
        assert(s.drop_last().take(i) =~= s.take(i));
        lemma_digits_value_monotone(s.drop_last(), i);
        assert(digits_value(s) >= digits_value(s.drop_last()) * 10) by (nonlinear_arith)
            requires
                digits_value(s) == digits_value(s.drop_last()) * 10 + digit_value(
                    s.last(),
                ).unwrap_or(0),
        ;
        assert(digits_value(s.drop_last()) * 10 >= digits_value(s.drop_last())) by (nonlinear_arith);
    } else {
        assert(s.take(i) =~= s);
    }
}

fn digit_value_of(c: char) -> (r: Option<u128>)
    ensures
        match digit_value(c) {
            Some(v) => r == Some(v as u128),
            None => r is None,
        },
{
    if c == '0' { Some(0) }
    else if c == '1' { Some(1) }
    else if c == '2' { Some(2) }
    else if c == '3' { Some(3) }
    else if c == '4' { Some(4) }
    else if c == '5' { Some(5) }
    else if c == '6' { Some(6) }
    else if c == '7' { Some(7) }
    else if c == '8' { Some(8) }
    else if c == '9' { Some(9) }
    else { None }
}

/// Parses an unsigned integer no larger than `max`, as `str::parse` does.
pub fn parse_unsigned_chars(s: &[char], max: u128) -> (r: Option<u128>)
    requires
        max >= 9,
    ensures
        match parse_unsigned(s@, max as nat) {
            Some(v) => r == Some(v as u128),
            None => r is None,
        },
{
    let start: usize = if s.len() > 0 && s[0] == '+' { 1 } else { 0 };
    let ghost d = if s@.len() > 0 && s@[0] == '+' { s@.drop_first() } else { s@ };
    assert(d =~= s@.skip(start as int));
    if start >= s.len() {
        return None;
    }
    let mut value: u128 = 0;
    let mut i: usize = start;
    assert(d.take(0) =~= seq![]);
    while i < s.len()
        invariant
            start <= i <= s@.len(),
            d =~= s@.skip(start as int),
            d == (if s@.len() > 0 && s@[0] == '+' { s@.drop_first() } else { s@ }),
            d.len() > 0,
            all_digits(d.take(i - start)),
            value as nat == digits_value(d.take(i - start)),
            value <= max,
            max >= 9,
        decreases s@.len() - i,
    {
        let k: usize = i - start;
        proof {
            assert(d.take(k + 1).drop_last() =~= d.take(k as int));
            assert(d[k as int] == s@[i as int]);
        }
        match digit_value_of(s[i]) {
            None => {
                proof {
                    assert(digit_value(d[k as int]) is None);
                    assert(!all_digits(d));
                    assert(parse_unsigned(s@, max as nat) is None);
                }
                return None;
            },
            Some(dv) => {
                if value > (max - dv) / 10 {
                    proof {
                        assert(value * 10 + dv > max) by (nonlinear_arith)
                            requires
                                value > (max - dv) / 10,
                                dv <= max,
                        ;
                        lemma_digits_value_monotone(d, k + 1);
                        assert(digits_value(d.take(k + 1)) == value * 10 + dv);
                        assert(digits_value(d) > max);
                        assert(parse_unsigned(s@, max as nat) is None);
                    }
                    return None;
                }
                assert(value * 10 + dv <= max) by (nonlinear_arith)
                    requires
                        value <= (max - dv) / 10,
                        dv <= 9,
                        dv <= max || value == 0,
                ;
                value = value * 10 + dv;
                i = i + 1;
                proof {
                    assert forall|j: int| 0 <= j < d.take(i - start).len() implies digit_value(
                        #[trigger] d.take(i - start)[j],
                    ) is Some by {
                        if j < k {
                            assert(d.take(i - start)[j] == d.take(k as int)[j]);
                        }
                    }
                }
            },
        }
    }
    assert(d.take(i - start) =~= d);
    Some(value)
}


/// The hexadecimal digit for `n < 16`, lower case when `upper` is false.
pub open spec fn hex_digit(n: int, upper: bool) -> char {
    if n < 10 {
        digit_char(n)
    } else if n == 10 {
        if upper { 'A' } else { 'a' }
    } else if n == 11 {
        if upper { 'B' } else { 'b' }
    } else if n == 12 {
        if upper { 'C' } else { 'c' }
    } else if n == 13 {
        if upper { 'D' } else { 'd' }
    } else if n == 14 {
        if upper { 'E' } else { 'e' }
    } else {
        if upper { 'F' } else { 'f' }
    }
}

fn hex_digit_of(n: u8, upper: bool) -> (c: char)
    requires
        n < 16,
    ensures
        c == hex_digit(n as int, upper),
{
    if n < 10 {
        digit_of(n as u128)
    } else if n == 10 {
        if upper { 'A' } else { 'a' }
    } else if n == 11 {
        if upper { 'B' } else { 'b' }
    } else if n == 12 {
        if upper { 'C' } else { 'c' }
    } else if n == 13 {
        if upper { 'D' } else { 'd' }
    } else if n == 14 {
        if upper { 'E' } else { 'e' }
    } else {
        if upper { 'F' } else { 'f' }
    }
}

/// Two lower-case hexadecimal digits per byte, high nibble first.
pub open spec fn hex_lower(bytes: Seq<u8>) -> Seq<char>
    decreases bytes.len(),
{
    if bytes.len() == 0 {
        seq![]
    } else {
        let b = bytes.last();
        hex_lower(bytes.drop_last()).push(hex_digit((b / 16) as int, false)).push(
            hex_digit((b % 16) as int, false),
        )
    }
}

/// Lower-case hexadecimal encoding of `bytes`.
pub fn hex_lower_chars(bytes: &[u8]) -> (r: Vec<char>)
    ensures
        r@ == hex_lower(bytes@),
        r@.len() == 2 * bytes@.len(),
{
    let mut out: Vec<char> = Vec::new();
    let mut i: usize = 0;
    while i < bytes.len()
        invariant
            0 <= i <= bytes@.len(),
            out@ == hex_lower(bytes@.take(i as int)),
            out@.len() == 2 * i,
        decreases bytes@.len() - i,
    {
        let b = bytes[i];
        proof {
            assert(bytes@.take(i + 1).drop_last() =~= bytes@.take(i as int));
        }
        out.push(hex_digit_of(b / 16, false));
        out.push(hex_digit_of(b % 16, false));
        i = i + 1;
    }
    assert(bytes@.take(bytes@.len() as int) =~= bytes@);
    out
}

/// Bytes that URL encoding keeps as they are: ASCII letters, digits, `-`,
/// `_`, `.` and `~`.
pub open spec fn is_unreserved(b: u8) -> bool {
    (65 <= b <= 90) || (97 <= b <= 122) || (48 <= b <= 57) || b == 45 || b == 95 || b == 46
        || b == 126
}

/// URL (percent) encoding of one byte.
pub open spec fn percent_byte(b: u8) -> Seq<char> {
    if is_unreserved(b) {
        seq![b as char]
    } else {
        seq!['%', hex_digit((b / 16) as int, true), hex_digit((b % 16) as int, true)]
    }
}

/// URL (percent) encoding of `bytes`, byte by byte.
pub open spec fn percent_encoded(bytes: Seq<u8>) -> Seq<char>
    decreases bytes.len(),
{
    if bytes.len() == 0 {
        seq![]
    } else {
        percent_encoded(bytes.drop_last()) + percent_byte(bytes.last())
    }
}

/// Appends the URL encoding of `bytes` to `out`.
pub fn push_percent_encoded(out: &mut Vec<char>, bytes: &[u8])
    ensures
        final(out)@ == old(out)@ + percent_encoded(bytes@),
{
    let mut i: usize = 0;
    while i < bytes.len()
        invariant
            0 <= i <= bytes@.len(),
            out@ == old(out)@ + percent_encoded(bytes@.take(i as int)),
        decreases bytes@.len() - i,
    {
        let b = bytes[i];
        proof {
            assert(bytes@.take(i + 1).drop_last() =~= bytes@.take(i as int));
        }
        let ghost before = out@;
        if (65 <= b && b <= 90) || (97 <= b && b <= 122) || (48 <= b && b <= 57) || b == 45 || b
            == 95 || b == 46 || b == 126 {
            out.push(b as char);
        } else {
            out.push('%');
            out.push(hex_digit_of(b / 16, true));
            out.push(hex_digit_of(b % 16, true));
        }
        proof {
            assert(out@ =~= before + percent_byte(b));
            assert(old(out)@ + percent_encoded(bytes@.take(i + 1)) =~= old(out)@
                + percent_encoded(bytes@.take(i as int)) + percent_byte(b));
        }
        i = i + 1;
    }
    assert(bytes@.take(bytes@.len() as int) =~= bytes@);
}

/// ASCII lower-casing of one character.
pub open spec fn ascii_lower(c: char) -> char {
    if 'A' <= c && c <= 'Z' {
        (((c as u8) + 32) as u8) as char
    } else {
        c
    }
}

/// Equality up to ASCII case (what `str::eq_ignore_ascii_case` decides).
pub open spec fn eq_ignore_ascii_case(a: Seq<char>, b: Seq<char>) -> bool {
    a.len() == b.len() && forall|i: int| 0 <= i < a.len() ==> ascii_lower(a[i]) == ascii_lower(
        b[i],
    )
}

fn ascii_lower_of(c: char) -> (r: char)
    ensures
        r == ascii_lower(c),
{
    if 'A' <= c && c <= 'Z' {
        let b = c as u8;
        (b + 32) as char
    } else {
        c
    }
}

/// Whether `a` and `b` are equal up to ASCII case.
pub fn chars_eq_ignore_ascii_case(a: &[char], b: &[char]) -> (r: bool)
    ensures
        r == eq_ignore_ascii_case(a@, b@),
{
    if a.len() != b.len() {
        return false;
    }
    let mut i: usize = 0;
    while i < a.len()
        invariant
            a@.len() == b@.len(),
            0 <= i <= a@.len(),
            forall|j: int| 0 <= j < i ==> ascii_lower(a@[j]) == ascii_lower(b@[j]),
        decreases a@.len() - i,
    {
        if ascii_lower_of(a[i]) != ascii_lower_of(b[i]) {
            return false;
        }
        i = i + 1;
    }
    true
}


/// `s` without its leading white space.
pub open spec fn trim_start(s: Seq<char>) -> Seq<char>
    decreases s.len(),
{
    if s.len() > 0 && is_space(s[0]) {
        trim_start(s.drop_first())
    } else {
        s
    }
}

/// `s` without its trailing white space.
pub open spec fn trim_end(s: Seq<char>) -> Seq<char>
    decreases s.len(),
{
    if s.len() > 0 && is_space(s.last()) {
        trim_end(s.drop_last())
    } else {
        s
    }
}

/// `s` without leading and trailing white space (what `str::trim` keeps).
pub open spec fn trim(s: Seq<char>) -> Seq<char> {
    trim_end(trim_start(s))
}

/// `s` without leading and trailing white space.
pub fn trim_chars(s: &[char]) -> (r: Vec<char>)
    ensures
        r@ == trim(s@),
{
    let mut a: usize = 0;
    assert(s@.skip(0) =~= s@);
    while a < s.len()
        invariant
            0 <= a <= s@.len(),
            trim_start(s@) == trim_start(s@.skip(a as int)),
        ensures
            0 <= a <= s@.len(),
            trim_start(s@) == s@.skip(a as int),
        decreases s@.len() - a,
    {
        if !space_char(s[a]) {
            break;
        }
        assert(s@.skip(a as int).drop_first() =~= s@.skip(a + 1));
        a = a + 1;
    }
    let mut b: usize = s.len();
    assert(s@.skip(a as int) =~= s@.subrange(a as int, b as int));
    while b > a
        invariant
            0 <= a <= b <= s@.len(),
            trim(s@) == trim_end(s@.subrange(a as int, b as int)),
        ensures
            0 <= a <= b <= s@.len(),
            trim(s@) == s@.subrange(a as int, b as int),
        decreases b - a,
    {
        if !space_char(s[b - 1]) {
            break;
        }
        assert(s@.subrange(a as int, b as int).drop_last() =~= s@.subrange(a as int, b - 1));
        b = b - 1;
    }
    sub_chars(s, a, b)
}

/// Number of bytes of the UTF-8 encoding of `c`.
pub open spec fn utf8_width(c: char) -> nat {
    let u = c as u32;
    if u < 0x80 {
        1
    } else if u < 0x800 {
        2
    } else if u < 0x10000 {
        3
    } else {
        4
    }
}

/// Number of bytes of the UTF-8 encoding of `s`.
pub open spec fn utf8_size(s: Seq<char>) -> nat
    decreases s.len(),
{
    if s.len() == 0 {
        0
    } else {
        utf8_size(s.drop_last()) + utf8_width(s.last())
    }
}

/// Number of bytes of the UTF-8 encoding of `c`.
pub fn utf8_width_of(c: char) -> (r: usize)
    ensures
        r == utf8_width(c),
{
    let u = c as u32;
    if u < 0x80 {
        1
    } else if u < 0x800 {
        2
    } else if u < 0x10000 {
        3
    } else {
        4
    }
}

/// The UTF-8 encoding of `c`.
pub open spec fn utf8_char(c: char) -> Seq<u8> {
    let u = c as u32;
    if u < 0x80 {
        seq![u as u8]
    } else if u < 0x800 {
        seq![(0xC0 | (u >> 6)) as u8, (0x80 | (u & 0x3F)) as u8]
    } else if u < 0x10000 {
        seq![(0xE0 | (u >> 12)) as u8, (0x80 | ((u >> 6) & 0x3F)) as u8, (0x80 | (u & 0x3F)) as u8]
    } else {
        seq![
            (0xF0 | (u >> 18)) as u8,
            (0x80 | ((u >> 12) & 0x3F)) as u8,
            (0x80 | ((u >> 6) & 0x3F)) as u8,
            (0x80 | (u & 0x3F)) as u8,
        ]
    }
}

/// The UTF-8 encoding of `s` (what `str::as_bytes` holds).
pub open spec fn utf8_encode(s: Seq<char>) -> Seq<u8>
    decreases s.len(),
{
    if s.len() == 0 {
        seq![]
    } else {
        utf8_encode(s.drop_last()) + utf8_char(s.last())
    }
}

/// The UTF-8 encoding of `s`.
pub fn utf8_bytes(s: &[char]) -> (r: Vec<u8>)
    ensures
        r@ == utf8_encode(s@),
{
    let mut out: Vec<u8> = Vec::new();
    let mut i: usize = 0;
    while i < s.len()
        invariant
            0 <= i <= s@.len(),
            out@ == utf8_encode(s@.take(i as int)),
        decreases s@.len() - i,
    {
        proof {
            assert(s@.take(i + 1).drop_last() =~= s@.take(i as int));
        }
        let ghost before = out@;
        let u = s[i] as u32;
        if u < 0x80 {
            out.push(u as u8);
        } else if u < 0x800 {
            out.push((0xC0 | (u >> 6)) as u8);
            out.push((0x80 | (u & 0x3F)) as u8);
        } else if u < 0x10000 {
            out.push((0xE0 | (u >> 12)) as u8);
            out.push((0x80 | ((u >> 6) & 0x3F)) as u8);
            out.push((0x80 | (u & 0x3F)) as u8);
        } else {
            out.push((0xF0 | (u >> 18)) as u8);
            out.push((0x80 | ((u >> 12) & 0x3F)) as u8);
            out.push((0x80 | ((u >> 6) & 0x3F)) as u8);
            out.push((0x80 | (u & 0x3F)) as u8);
        }
        proof {
            assert(out@ =~= before + utf8_char(s@[i as int]));
        }
        i = i + 1;
    }
    assert(s@.take(s@.len() as int) =~= s@);
    out
}

/// The characters of `s` from index `start` up to (not including) `end`.
pub fn sub_chars(s: &[char], start: usize, end: usize) -> (r: Vec<char>)
    requires
        start <= end <= s@.len(),
    ensures
        r@ == s@.subrange(start as int, end as int),
{
    let mut out: Vec<char> = Vec::new();
    let mut i: usize = start;
    while i < end
        invariant
            start <= i <= end <= s@.len(),
            out@ == s@.subrange(start as int, i as int),
        decreases end - i,
    {
        out.push(s[i]);
        i = i + 1;
        proof {
            assert(out@ =~= s@.subrange(start as int, i as int));
        }
    }
    out
}

proof fn lemma_digit_roundtrip(k: int)
    requires
        0 <= k < 10,
    ensures
        digit_value(digit_char(k)) == Some(k as nat),
{
    if k == 0 {
    } else if k == 1 {
    } else if k == 2 {
    } else if k == 3 {
    } else if k == 4 {
    } else if k == 5 {
    } else if k == 6 {
    } else if k == 7 {
    } else if k == 8 {
    } else {
    }
}

/// Every character of a decimal representation is a digit; none is `+`
/// or `:`, and the digits read back as the number.
pub proof fn lemma_decimal_digits(n: nat)
    ensures
        all_digits(decimal(n)),
        digits_value(decimal(n)) == n,
        decimal(n).len() > 0,
        forall|i: int| 0 <= i < decimal(n).len() ==> #[trigger] decimal(n)[i] != ':' && decimal(n)[i]
            != '+',
    decreases n,
{
    lemma_digit_roundtrip((n % 10) as int);
    if n < 10 {
        assert(decimal(n).drop_last() =~= seq![]);
        assert(digits_value(decimal(n)) == digits_value(decimal(n).drop_last()) * 10 + digit_value(
            decimal(n).last(),
        ).unwrap_or(0));
    }
    if n >= 10 {
        lemma_decimal_digits(n / 10);
        let d = decimal(n);
        assert(d.drop_last() =~= decimal(n / 10));
        assert(d.last() == digit_char((n % 10) as int));
        assert(digits_value(d) == digits_value(d.drop_last()) * 10 + digit_value(d.last()).unwrap_or(
            0,
        ));
        assert(digits_value(d) == (n / 10) * 10 + n % 10);
        assert(all_digits(d)) by {
            assert forall|i: int| 0 <= i < d.len() implies digit_value(#[trigger] d[i]) is Some by {
                if i < d.len() - 1 {
                    assert(d[i] == decimal(n / 10)[i]);
                }
            }
        }
        assert forall|i: int| 0 <= i < d.len() implies #[trigger] d[i] != ':' && d[i] != '+' by {
            if i < d.len() - 1 {
                assert(d[i] == decimal(n / 10)[i]);
            }
        }
    }
}

/// A decimal representation parses back to its number.
pub proof fn lemma_parse_decimal(n: nat, max: nat)
    requires
        n <= max,
    ensures
        parse_unsigned(decimal(n), max) == Some(n),
{
    lemma_decimal_digits(n);
    assert(decimal(n)[0] != '+');
}

} // verus!
