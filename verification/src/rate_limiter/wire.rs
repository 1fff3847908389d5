//! Text encoding of [`WindowState`] with wall-clock milliseconds, for
//! storages shared between processes.
//!
//! Instants are bridged at this boundary: a stored timestamp is the wall
//! clock reading that corresponds to the instant, given one pair of
//! simultaneous readings (`now_instant`, `now_wall_ms`).

use vstd::prelude::*;

use super::error::{RateLimiterError, is_invalid_tokens, is_storage_error};
use super::policy::{NANOS_PER_MILLI, Policy, RateLimit, WindowState, consume_defined, consume_outcome};
use crate::text::{
    chars_equal, chars_of, decimal, decimal_chars, find_char, first_index, lemma_decimal_digits,
    lemma_parse_decimal, parse_unsigned, parse_unsigned_chars, push_all, string_of, sub_chars,
};

verus! {

/// Wall-clock milliseconds for `instant`, saturating at the ends of `u64`.
pub open spec fn wall_ms_of(instant: u128, now_instant: u128, now_wall_ms: u64) -> u64 {
    if instant <= now_instant {
        let delta = (now_instant - instant) / (NANOS_PER_MILLI as int);
        let delta = if delta > u64::MAX { u64::MAX as int } else { delta };
        if now_wall_ms >= delta { (now_wall_ms - delta) as u64 } else { 0 }
    } else {
        let delta = (instant - now_instant) / (NANOS_PER_MILLI as int);
        let delta = if delta > u64::MAX { u64::MAX as int } else { delta };
        if now_wall_ms + delta > u64::MAX { u64::MAX } else { (now_wall_ms + delta) as u64 }
    }
}

/// The instant for a stored wall-clock reading; `now_instant` when the
/// instant cannot be represented.
pub open spec fn instant_of(stored_ms: u64, now_instant: u128, now_wall_ms: u64) -> u128 {
    if stored_ms <= now_wall_ms {
        let delta = (now_wall_ms - stored_ms) * NANOS_PER_MILLI;
        if delta <= now_instant { (now_instant - delta) as u128 } else { now_instant }
    } else {
        let delta = (stored_ms - now_wall_ms) * NANOS_PER_MILLI;
        if now_instant + delta <= u128::MAX { (now_instant + delta) as u128 } else { now_instant }
    }
}

/// Converts `instant` to wall-clock milliseconds.
pub fn instant_to_wall_ms(instant: u128, now_instant: u128, now_wall_ms: u64) -> (r: u64)
    ensures
        r == wall_ms_of(instant, now_instant, now_wall_ms),
{
    if instant <= now_instant {
        let delta = (now_instant - instant) / NANOS_PER_MILLI;
        let delta_ms: u64 = if delta > u64::MAX as u128 { u64::MAX } else { delta as u64 };
        if now_wall_ms >= delta_ms { now_wall_ms - delta_ms } else { 0 }
    } else {
        let delta = (instant - now_instant) / NANOS_PER_MILLI;
        let delta_ms: u64 = if delta > u64::MAX as u128 { u64::MAX } else { delta as u64 };
        if now_wall_ms > u64::MAX - delta_ms { u64::MAX } else { now_wall_ms + delta_ms }
    }
}

/// Converts a stored wall-clock reading back to an instant.
pub fn wall_ms_to_instant(stored_ms: u64, now_instant: u128, now_wall_ms: u64) -> (r: u128)
    ensures
        r == instant_of(stored_ms, now_instant, now_wall_ms),
{
    if stored_ms <= now_wall_ms {
        let delta: u128 = (now_wall_ms - stored_ms) as u128 * NANOS_PER_MILLI;
        if delta <= now_instant { now_instant - delta } else { now_instant }
    } else {
        let delta: u128 = (stored_ms - now_wall_ms) as u128 * NANOS_PER_MILLI;
        if now_instant <= u128::MAX - delta { now_instant + delta } else { now_instant }
    }
}

/// The text stored for `state`: `tb:{tokens_scaled}:{millis}` or
/// `fw:{count}:{millis}`.
pub open spec fn encoded(state: WindowState, now_instant: u128, now_wall_ms: u64) -> Seq<char> {
    match state {
        WindowState::TokenBucket { tokens_scaled, updated_at } => "tb:"@ + decimal(tokens_scaled as nat)
            + ":"@ + decimal(wall_ms_of(updated_at, now_instant, now_wall_ms) as nat),
        WindowState::FixedWindow { count, window_start } => "fw:"@ + decimal(count as nat) + ":"@
            + decimal(wall_ms_of(window_start, now_instant, now_wall_ms) as nat),
    }
}

/// Encodes `state` for storage.
pub fn encode_state(state: &WindowState, now_instant: u128, now_wall_ms: u64) -> (r: String)
    ensures
        r@ == encoded(*state, now_instant, now_wall_ms),
{
    let (kind, number, at) = match *state {
        WindowState::TokenBucket { tokens_scaled, updated_at } => ("tb:", tokens_scaled, updated_at),
        WindowState::FixedWindow { count, window_start } => ("fw:", count as u128, window_start),
    };
    let ms = instant_to_wall_ms(at, now_instant, now_wall_ms);
    let mut out = chars_of(kind);
    let digits = decimal_chars(number);
    push_all(&mut out, digits.as_slice());
    out.push(':');
    let ms_digits = decimal_chars(ms as u128);
    push_all(&mut out, ms_digits.as_slice());
    proof {
        reveal_strlit(":");
        assert(out@ =~= encoded(*state, now_instant, now_wall_ms));
    }
    string_of(out.as_slice())
}

/// What a stored text decodes to: a window, or the reason it is corrupt.
pub open spec fn decoded(raw: Seq<char>, now_instant: u128, now_wall_ms: u64) -> Result<WindowState, Seq<char>> {
    match first_index(raw, ':') {
        None => Err("missing fields"@),
        Some(i) => {
            let kind = raw.take(i);
            let rest = raw.skip(i + 1);
            match first_index(rest, ':') {
                None => Err("missing timestamp"@),
                Some(j) => {
                    let mid = rest.take(j);
                    let tail = rest.skip(j + 1);
                    if kind == "tb"@ {
                        match parse_unsigned(mid, u128::MAX as nat) {
                            None => Err("bad tokens"@),
                            Some(t) => match parse_unsigned(tail, u64::MAX as nat) {
                                None => Err("bad millis"@),
                                Some(ms) => Ok(
                                    WindowState::TokenBucket {
                                        tokens_scaled: t as u128,
                                        updated_at: instant_of(ms as u64, now_instant, now_wall_ms),
                                    },
                                ),
                            },
                        }
                    } else if kind == "fw"@ {
                        match parse_unsigned(mid, u32::MAX as nat) {
                            None => Err("bad count"@),
                            Some(c) => match parse_unsigned(tail, u64::MAX as nat) {
                                None => Err("bad millis"@),
                                Some(ms) => Ok(
                                    WindowState::FixedWindow {
                                        count: c as u32,
                                        window_start: instant_of(ms as u64, now_instant, now_wall_ms),
                                    },
                                ),
                            },
                        }
                    } else {
                        Err("unknown kind"@)
                    }
                },
            }
        },
    }
}

/// The storage error for a corrupt stored value.
pub fn corrupt(detail: &str) -> (r: RateLimiterError)
    ensures
        is_storage_error(r, "corrupt rate-limiter redis value: "@ + detail@),
{
    let mut message = String::new();
    message.append("corrupt rate-limiter redis value: ");
    message.append(detail);
    RateLimiterError::Storage { message }
}

/// Decodes a stored value into a window; a value that is not one is a
/// storage error naming what is wrong.
pub fn decode_state(raw: &str, now_instant: u128, now_wall_ms: u64) -> (r: Result<WindowState, RateLimiterError>)
    ensures
        match decoded(raw@, now_instant, now_wall_ms) {
            Ok(ws) => r == Ok::<WindowState, RateLimiterError>(ws),
            Err(detail) => r is Err && is_storage_error(
                r->Err_0,
                "corrupt rate-limiter redis value: "@ + detail,
            ),
        },
{
    let s = chars_of(raw);
    let i = match find_char(s.as_slice(), ':') {
        None => return Err(corrupt("missing fields")),
        Some(i) => i,
    };
    assert(i < s.len());
    let kind = sub_chars(s.as_slice(), 0, i);
    let rest = sub_chars(s.as_slice(), i + 1, s.len());
    proof {
        assert(kind@ =~= raw@.take(i as int));
        assert(rest@ =~= raw@.skip(i + 1));
    }
    let j = match find_char(rest.as_slice(), ':') {
        None => return Err(corrupt("missing timestamp")),
        Some(j) => j,
    };
    let mid = sub_chars(rest.as_slice(), 0, j);
    let tail = sub_chars(rest.as_slice(), j + 1, rest.len());
    proof {
        assert(mid@ =~= rest@.take(j as int));
        assert(tail@ =~= rest@.skip(j + 1));
    }
    let tb = chars_of("tb");
    let fw = chars_of("fw");
    if chars_equal(kind.as_slice(), tb.as_slice()) {
        let tokens = match parse_unsigned_chars(mid.as_slice(), u128::MAX) {
            None => return Err(corrupt("bad tokens")),
            Some(t) => t,
        };
        let ms = match parse_unsigned_chars(tail.as_slice(), u64::MAX as u128) {
            None => return Err(corrupt("bad millis")),
            Some(m) => m as u64,
        };
        Ok(
            WindowState::TokenBucket {
                tokens_scaled: tokens,
                updated_at: wall_ms_to_instant(ms, now_instant, now_wall_ms),
            },
        )
    } else if chars_equal(kind.as_slice(), fw.as_slice()) {
        let count = match parse_unsigned_chars(mid.as_slice(), u32::MAX as u128) {
            None => return Err(corrupt("bad count")),
            Some(c) => c as u32,
        };
        let ms = match parse_unsigned_chars(tail.as_slice(), u64::MAX as u128) {
            None => return Err(corrupt("bad millis")),
            Some(m) => m as u64,
        };
        Ok(
            WindowState::FixedWindow {
                count,
                window_start: wall_ms_to_instant(ms, now_instant, now_wall_ms),
            },
        )
    } else {
        Err(corrupt("unknown kind"))
    }
}

/// Compare-and-set attempts a shared store makes before giving up.
pub const MAX_CAS_ATTEMPTS: u32 = 32;

/// What a shared store does after a compare-and-set attempt.
#[derive(Clone, Copy, Debug, PartialEq, Eq, Structural)]
pub enum CasStep {
    /// The write went through: return the decision.
    Applied,
    /// Another writer won the race: read again and retry.
    Retry,
    /// Every attempt lost a race: give up with [`cas_exhausted`].
    Exhausted,
}

/// The step after attempt number `attempt` (counting from one): stop when
/// the write was applied, retry while attempts are left, else give up.
pub fn cas_step(attempt: u32, applied: bool) -> (r: CasStep)
    requires
        1 <= attempt <= MAX_CAS_ATTEMPTS,
    ensures
        applied ==> r == CasStep::Applied,
        !applied && attempt < MAX_CAS_ATTEMPTS ==> r == CasStep::Retry,
        !applied && attempt == MAX_CAS_ATTEMPTS ==> r == CasStep::Exhausted,
{
    if applied {
        CasStep::Applied
    } else if attempt < MAX_CAS_ATTEMPTS {
        CasStep::Retry
    } else {
        CasStep::Exhausted
    }
}

/// The storage error after every compare-and-set attempt lost a race.
pub fn cas_exhausted() -> (r: RateLimiterError)
    ensures
        is_storage_error(r, "redis compare-and-set retries exhausted"@),
{
    RateLimiterError::Storage { message: "redis compare-and-set retries exhausted".to_owned() }
}

/// Key of subject `id` under `prefix`.
pub fn shared_key(prefix: &str, id: &str) -> (r: String)
    ensures
        r@ == prefix@ + id@,
{
    let mut key = String::new();
    key.append(prefix);
    key.append(id);
    key
}

/// The window a stored text stands for: none when nothing is stored.
pub open spec fn observed_window(observed: Option<Seq<char>>, now_instant: u128, now_wall_ms: u64) -> Result<Option<WindowState>, Seq<char>> {
    match observed {
        None => Ok(None),
        Some(raw) => match decoded(raw, now_instant, now_wall_ms) {
            Ok(ws) => Ok(Some(ws)),
            Err(detail) => Err(detail),
        },
    }
}

/// One compare-and-set attempt on a shared store: decode the observed text
/// (none when nothing is stored), apply `policy` at `now`, and encode the
/// new window. A corrupt text, or a window whose arithmetic the policy
/// cannot carry, is a storage error; a refused consume is the policy's error.
pub fn plan_stored_update(observed: Option<&str>, policy: &Policy, tokens: u32, now: u128, now_wall_ms: u64) -> (r: Result<(RateLimit, String), RateLimiterError>)
    ensures
        match observed_window(
            match observed { Some(s) => Some(s@), None => None },
            now,
            now_wall_ms,
        ) {
            Err(detail) => r is Err && is_storage_error(r->Err_0, "corrupt rate-limiter redis value: "@ + detail),
            Ok(state) => if !consume_defined(*policy, state, now) {
                r is Err && is_storage_error(r->Err_0, "rate-limiter window out of range"@)
            } else {
                match consume_outcome(*policy, state, tokens, now) {
                    (Ok(decision), Some(next)) => r matches Ok(plan) && plan.0 == decision
                        && plan.1@ == encoded(next, now, now_wall_ms),
                    (Ok(decision), None) => r is Err,
                    (Err((t, m)), _) => r is Err && is_invalid_tokens(r->Err_0, t, m),
                }
            },
        },
{
    let mut state = match observed {
        None => None,
        Some(raw) => match decode_state(raw, now, now_wall_ms) {
            Ok(ws) => Some(ws),
            Err(e) => return Err(e),
        },
    };
    if !policy.can_consume(&state, now) {
        return Err(RateLimiterError::Storage { message: "rate-limiter window out of range".to_owned() });
    }
    let decision = match policy.consume(&mut state, tokens, now) {
        Ok(d) => d,
        Err(e) => return Err(e),
    };
    match state {
        Some(next) => Ok((decision, encode_state(&next, now, now_wall_ms))),
        None => Err(RateLimiterError::Storage { message: "policy left no window".to_owned() }),
    }
}

/// Milliseconds for a key expiry of `duration` nanoseconds: at least one,
/// at most `i64::MAX`.
pub fn duration_to_px_ms(duration: u128) -> (r: i64)
    ensures
        r as int == if (duration as int) / (NANOS_PER_MILLI as int) > i64::MAX {
            i64::MAX as int
        } else if (duration as int) / (NANOS_PER_MILLI as int) < 1 {
            1
        } else {
            (duration as int) / (NANOS_PER_MILLI as int)
        },
{
    let ms = duration / NANOS_PER_MILLI;
    if ms > i64::MAX as u128 {
        i64::MAX
    } else if ms < 1 {
        1
    } else {
        ms as i64
    }
}

proof fn lemma_first_colon(k: Seq<char>, rest: Seq<char>)
    requires
        forall|i: int| 0 <= i < k.len() ==> k[i] != ':',
    ensures
        first_index(k + ":"@ + rest, ':') == Some(k.len() as int),
{
    reveal_strlit(":");
    let s = k + ":"@ + rest;
    assert(s[k.len() as int] == ':');
    assert forall|j: int| 0 <= j < k.len() implies s[j] != ':' by {
        assert(s[j] == k[j]);
    }
    let c = choose|i: int| 0 <= i < s.len() && s[i] == ':' && forall|j: int| 0 <= j < i ==> s[j] != ':';
    assert(c == k.len()) by {
        if c < k.len() {
            assert(s[c] == k[c]);
        } else if c > k.len() {
            assert(s[k.len() as int] != ':');
        }
    }
}

/// The instant a window carries after its timestamp went to the wall clock
/// and back.
pub open spec fn window_at(state: WindowState, at: u128) -> WindowState {
    match state {
        WindowState::TokenBucket { tokens_scaled, .. } => WindowState::TokenBucket { tokens_scaled, updated_at: at },
        WindowState::FixedWindow { count, .. } => WindowState::FixedWindow { count, window_start: at },
    }
}

/// The timestamp of a window.
pub open spec fn window_instant(state: WindowState) -> u128 {
    match state {
        WindowState::TokenBucket { updated_at, .. } => updated_at,
        WindowState::FixedWindow { window_start, .. } => window_start,
    }
}

/// Decoding what was encoded gives back the window at every instant, its
/// timestamp cut to whole milliseconds from `now_instant`: when the
/// wall-clock reading does not saturate, the decoded timestamp lies within a
/// millisecond of the original, on the side of `now_instant`.
pub proof fn law_wire_round_trip_truncates(state: WindowState, now_instant: u128, now_wall_ms: u64)
    ensures
        ({
            let at = window_instant(state);
            let back = instant_of(wall_ms_of(at, now_instant, now_wall_ms), now_instant, now_wall_ms);
            &&& decoded(encoded(state, now_instant, now_wall_ms), now_instant, now_wall_ms) == Ok::<
                WindowState,
                Seq<char>,
            >(window_at(state, back))
            &&& at <= now_instant && (now_instant - at) / (NANOS_PER_MILLI as int) <= now_wall_ms ==> at <= back
                < at + NANOS_PER_MILLI
            &&& at > now_instant && now_wall_ms + (at - now_instant) / (NANOS_PER_MILLI as int) <= u64::MAX ==> at
                - NANOS_PER_MILLI < back <= at
        }),
{
    reveal_strlit("tb:");
    reveal_strlit("fw:");
    reveal_strlit("tb");
    reveal_strlit("fw");
    reveal_strlit(":");
    let (kind, number, at, max): (Seq<char>, nat, u128, nat) = match state {
        WindowState::TokenBucket { tokens_scaled, updated_at } => (
            "tb"@,
            tokens_scaled as nat,
            updated_at,
            u128::MAX as nat,
        ),
        WindowState::FixedWindow { count, window_start } => (
            "fw"@,
            count as nat,
            window_start,
            u32::MAX as nat,
        ),
    };
    let ms = wall_ms_of(at, now_instant, now_wall_ms);
    let a = decimal(number);
    let b = decimal(ms as nat);
    lemma_decimal_digits(number);
    lemma_decimal_digits(ms as nat);
    let raw = encoded(state, now_instant, now_wall_ms);
    assert(raw =~= kind + ":"@ + (a + ":"@ + b));
    assert(kind.len() == 2);
    assert(forall|i: int| 0 <= i < kind.len() ==> kind[i] != ':');
    lemma_first_colon(kind, a + ":"@ + b);
    assert(first_index(raw, ':') == Some(2int));
    assert(raw.take(2) =~= kind);
    let rest = raw.skip(3);
    assert(rest =~= a + ":"@ + b);
    lemma_first_colon(a, b);
    assert(first_index(rest, ':') == Some(a.len() as int));
    assert(rest.take(a.len() as int) =~= a);
    assert(rest.skip(a.len() as int + 1) =~= b);
    lemma_parse_decimal(number, max);
    lemma_parse_decimal(ms as nat, u64::MAX as nat);
    assert(parse_unsigned(a, max) == Some(number));
    assert(parse_unsigned(b, u64::MAX as nat) == Some(ms as nat));
    let back = instant_of(ms, now_instant, now_wall_ms);
    if at <= now_instant && (now_instant - at) / (NANOS_PER_MILLI as int) <= now_wall_ms {
        assert(at <= back < at + NANOS_PER_MILLI) by (nonlinear_arith)
            requires
                ms == wall_ms_of(at, now_instant, now_wall_ms),
                back == instant_of(ms, now_instant, now_wall_ms),
                at <= now_instant,
                (now_instant - at) / (NANOS_PER_MILLI as int) <= now_wall_ms,
                NANOS_PER_MILLI == 1_000_000,
        ;
    }
    if at > now_instant && now_wall_ms + (at - now_instant) / (NANOS_PER_MILLI as int) <= u64::MAX {
        assert(at - NANOS_PER_MILLI < back <= at) by (nonlinear_arith)
            requires
                ms == wall_ms_of(at, now_instant, now_wall_ms),
                back == instant_of(ms, now_instant, now_wall_ms),
                at > now_instant,
                now_wall_ms + (at - now_instant) / (NANOS_PER_MILLI as int) <= u64::MAX,
                NANOS_PER_MILLI == 1_000_000,
        ;
    }
    assert("fw"@ != "tb"@) by {
        assert("fw"@[0] != "tb"@[0]);
    }
    match state {
        WindowState::TokenBucket { tokens_scaled, updated_at } => {
            assert(kind == "tb"@);
            assert(decoded(raw, now_instant, now_wall_ms) == Ok::<WindowState, Seq<char>>(
                WindowState::TokenBucket { tokens_scaled: number as u128, updated_at: back },
            ));
        },
        WindowState::FixedWindow { count, window_start } => {
            assert(kind == "fw"@);
            assert(decoded(raw, now_instant, now_wall_ms) == Ok::<WindowState, Seq<char>>(
                WindowState::FixedWindow { count: number as u32, window_start: back },
            ));
        },
    }
}

/// Decoding what was encoded gives back the window, when its timestamp is
/// a whole number of milliseconds from `now_instant` and the wall-clock
/// reading does not saturate.
pub proof fn law_wire_round_trip(state: WindowState, now_instant: u128, now_wall_ms: u64)
    requires
        ({
            let at = match state {
                WindowState::TokenBucket { updated_at, .. } => updated_at,
                WindowState::FixedWindow { window_start, .. } => window_start,
            };
            if at <= now_instant {
                (now_instant - at) % (NANOS_PER_MILLI as int) == 0 && (now_instant - at) / (
                NANOS_PER_MILLI as int) <= now_wall_ms
            } else {
                (at - now_instant) % (NANOS_PER_MILLI as int) == 0 && now_wall_ms + (at - now_instant)
                    / (NANOS_PER_MILLI as int) <= u64::MAX
            }
        }),
    ensures
        decoded(encoded(state, now_instant, now_wall_ms), now_instant, now_wall_ms) == Ok::<
            WindowState,
            Seq<char>,
        >(state),
{
    law_wire_round_trip_truncates(state, now_instant, now_wall_ms);
    let at = window_instant(state);
    let ms = wall_ms_of(at, now_instant, now_wall_ms);
    assert(instant_of(ms, now_instant, now_wall_ms) == at) by (nonlinear_arith)
        requires
            ms == wall_ms_of(at, now_instant, now_wall_ms),
            at <= now_instant ==> (now_instant - at) % (NANOS_PER_MILLI as int) == 0 && (
            now_instant - at) / (NANOS_PER_MILLI as int) <= now_wall_ms,
            at > now_instant ==> (at - now_instant) % (NANOS_PER_MILLI as int) == 0 && now_wall_ms
                + (at - now_instant) / (NANOS_PER_MILLI as int) <= u64::MAX,
            NANOS_PER_MILLI == 1_000_000,
    ;
    assert(window_at(state, at) == state);
}

} // verus!
