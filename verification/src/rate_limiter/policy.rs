//! Limiter policies, window state and consume decisions.

use vstd::prelude::*;

use super::error::{RateLimiterError, is_invalid_tokens};

verus! {

/// Tokens are tracked in millionths so that partial refills accumulate.
pub const SCALE: u128 = 1_000_000;

/// The longest length of time a `std::time::Duration` holds, in nanoseconds.
pub const MAX_DURATION_NANOS: u128 = 18_446_744_073_709_551_615_999_999_999;

/// Nanoseconds per millisecond.
pub const NANOS_PER_MILLI: u128 = 1_000_000;

/// Persisted window for one limiter subject.
#[derive(Clone, Copy, Debug, PartialEq, Eq, Structural)]
pub enum WindowState {
    /// Token-bucket snapshot (scaled integer tokens).
    TokenBucket {
        /// Available tokens multiplied by [`SCALE`].
        tokens_scaled: u128,
        /// Last refill instant (nanoseconds).
        updated_at: u128,
    },
    /// Fixed-window snapshot.
    FixedWindow {
        /// Tokens consumed in the current window.
        count: u32,
        /// Instant the current window started (nanoseconds).
        window_start: u128,
    },
}

/// Accept / reject decision with remaining budget.
#[derive(Clone, Copy, Debug, PartialEq, Eq, Structural)]
pub struct RateLimit {
    accepted: bool,
    limit: u32,
    remaining_tokens: u32,
    retry_after: Option<u128>,
}

impl RateLimit {
    /// The decision with the given fields.
    pub closed spec fn spec_new(
        accepted: bool,
        limit: u32,
        remaining_tokens: u32,
        retry_after: Option<u128>,
    ) -> RateLimit {
        RateLimit { accepted, limit, remaining_tokens, retry_after }
    }

    /// Whether the consume was accepted.
    pub closed spec fn spec_accepted(&self) -> bool {
        self.accepted
    }

    /// Configured limit.
    pub closed spec fn spec_limit(&self) -> u32 {
        self.limit
    }

    /// Tokens remaining after the decision.
    pub closed spec fn spec_remaining(&self) -> u32 {
        self.remaining_tokens
    }

    /// Suggested wait (nanoseconds).
    pub closed spec fn spec_retry_after(&self) -> Option<u128> {
        self.retry_after
    }

    /// What each accessor of a decision built from given fields reads.
    pub broadcast proof fn lemma_decision_fields(
        accepted: bool,
        limit: u32,
        remaining_tokens: u32,
        retry_after: Option<u128>,
    )
        ensures
            ({
                let d = #[trigger] RateLimit::spec_new(accepted, limit, remaining_tokens, retry_after);
                &&& d.spec_accepted() == accepted
                &&& d.spec_limit() == limit
                &&& d.spec_remaining() == remaining_tokens
                &&& d.spec_retry_after() == retry_after
            }),
    {
    }

    /// An accepted decision.
    pub fn accepted(limit: u32, remaining_tokens: u32, retry_after: Option<u128>) -> (r: Self)
        ensures
            r == Self::spec_new(true, limit, remaining_tokens, retry_after),
    {
        RateLimit { accepted: true, limit, remaining_tokens, retry_after }
    }

    /// A rejected decision.
    pub fn rejected(limit: u32, remaining_tokens: u32, retry_after: Option<u128>) -> (r: Self)
        ensures
            r == Self::spec_new(false, limit, remaining_tokens, retry_after),
    {
        RateLimit { accepted: false, limit, remaining_tokens, retry_after }
    }

    /// Whether the consume was accepted.
    pub fn is_accepted(&self) -> (r: bool)
        ensures
            r == self.spec_accepted(),
    {
        self.accepted
    }

    /// Configured limit for this policy.
    pub fn limit(&self) -> (r: u32)
        ensures
            r == self.spec_limit(),
    {
        self.limit
    }

    /// Tokens remaining after this decision.
    pub fn remaining_tokens(&self) -> (r: u32)
        ensures
            r == self.spec_remaining(),
    {
        self.remaining_tokens
    }

    /// Suggested wait before retrying when rejected (nanoseconds).
    pub fn retry_after(&self) -> (r: Option<u128>)
        ensures
            r == self.spec_retry_after(),
    {
        self.retry_after
    }
}

/// How tokens are granted over time.
#[derive(Clone, Copy, Debug, PartialEq, Eq, Structural)]
pub enum Policy {
    /// Refills continuously up to `limit` over each `interval`.
    TokenBucket {
        /// Maximum tokens (burst size).
        limit: u32,
        /// Time to fully refill an empty bucket (nanoseconds).
        interval: u128,
    },
    /// Resets the counter to zero at the end of each `interval`.
    FixedWindow {
        /// Maximum tokens per window.
        limit: u32,
        /// Window length (nanoseconds).
        interval: u128,
    },
}

/// `a * b`, or `u128::MAX` when the product does not fit.
pub open spec fn sat_mul(a: int, b: int) -> int {
    if a * b > u128::MAX { u128::MAX as int } else { a * b }
}

/// Smallest integer no less than `a / b`, for `b > 0`.
pub open spec fn div_ceil(a: int, b: int) -> int {
    if a % b == 0 { a / b } else { a / b + 1 }
}

/// Scaled tokens regained after `elapsed` nanoseconds.
pub open spec fn refill_scaled(elapsed: int, limit_scaled: int, interval: int) -> int {
    sat_mul(elapsed, limit_scaled) / (if interval > 0 { interval } else { 1 })
}

/// Whole tokens in a scaled amount, capped at `u32::MAX`.
pub open spec fn scaled_to_tokens(tokens_scaled: int) -> u32 {
    if tokens_scaled / (SCALE as int) > u32::MAX { u32::MAX } else { (tokens_scaled / (SCALE as int)) as u32 }
}

/// Wait (nanoseconds, at most `u64::MAX`) until `missing_scaled` tokens refill.
pub open spec fn retry_after_for_refill(missing_scaled: int, limit_scaled: int, interval: int) -> u128 {
    let wait = div_ceil(
        sat_mul(missing_scaled, interval),
        if limit_scaled > 1 { limit_scaled } else { 1 },
    );
    if wait > u64::MAX { u64::MAX as u128 } else { wait as u128 }
}

/// Token-bucket balance and refill instant before a consume at `now`.
pub open spec fn tb_refilled(state: Option<WindowState>, limit: u32, interval: u128, now: u128) -> (int, u128) {
    let limit_scaled = limit * SCALE;
    let (available, updated) = match state {
        Some(WindowState::TokenBucket { tokens_scaled, updated_at }) => (tokens_scaled as int, updated_at),
        _ => (limit_scaled as int, now),
    };
    if now > updated {
        let refilled = available + refill_scaled(now - updated, limit_scaled, interval as int);
        (if refilled < limit_scaled { refilled } else { limit_scaled as int }, now)
    } else {
        (available, updated)
    }
}

/// Whether a token-bucket consume at `now` stays within `u128` arithmetic.
pub open spec fn tb_defined(state: Option<WindowState>, limit: u32, interval: u128, now: u128) -> bool {
    match state {
        Some(WindowState::TokenBucket { tokens_scaled, updated_at }) => now > updated_at
            ==> tokens_scaled + refill_scaled(now - updated_at, limit * SCALE, interval as int)
            <= u128::MAX,
        _ => true,
    }
}

/// Decision and new state of a token-bucket consume.
pub open spec fn tb_outcome(
    state: Option<WindowState>,
    limit: u32,
    interval: u128,
    tokens: u32,
    now: u128,
) -> (RateLimit, WindowState) {
    let limit_scaled = limit * SCALE;
    let (available, updated) = tb_refilled(state, limit, interval, now);
    let need = tokens * SCALE;
    if available >= need {
        (
            RateLimit::spec_new(true, limit, scaled_to_tokens(available - need), None),
            WindowState::TokenBucket { tokens_scaled: (available - need) as u128, updated_at: updated },
        )
    } else {
        (
            RateLimit::spec_new(
                false,
                limit,
                scaled_to_tokens(available),
                Some(retry_after_for_refill(need - available, limit_scaled as int, interval as int)),
            ),
            WindowState::TokenBucket { tokens_scaled: available as u128, updated_at: updated },
        )
    }
}

/// Fixed-window count and window start before a consume at `now`.
pub open spec fn fw_current(state: Option<WindowState>, interval: u128, now: u128) -> (u32, u128) {
    let (count, started) = match state {
        Some(WindowState::FixedWindow { count, window_start }) => (count, window_start),
        _ => (0u32, now),
    };
    let since = if now >= started { now - started } else { 0 };
    if since >= interval { (0u32, now) } else { (count, started) }
}

/// Decision and new state of a fixed-window consume, or `None` when the
/// count would overflow.
pub open spec fn fw_outcome(
    state: Option<WindowState>,
    limit: u32,
    interval: u128,
    tokens: u32,
    now: u128,
) -> Option<(RateLimit, WindowState)> {
    let (count, started) = fw_current(state, interval, now);
    if count + tokens > u32::MAX {
        None
    } else if count + tokens <= limit {
        Some(
            (
                RateLimit::spec_new(true, limit, (limit - (count + tokens)) as u32, None),
                WindowState::FixedWindow { count: (count + tokens) as u32, window_start: started },
            ),
        )
    } else {
        let elapsed = if now >= started { now - started } else { 0 };
        Some(
            (
                RateLimit::spec_new(
                    false,
                    limit,
                    if limit >= count { (limit - count) as u32 } else { 0 },
                    Some(if interval >= elapsed { (interval - elapsed) as u128 } else { 0 }),
                ),
                WindowState::FixedWindow { count, window_start: started },
            ),
        )
    }
}

fn sat_mul_u128(a: u128, b: u128) -> (r: u128)
    ensures
        r == sat_mul(a as int, b as int),
{
    match a.checked_mul(b) {
        Some(p) => p,
        None => u128::MAX,
    }
}

fn refill(elapsed: u128, limit_scaled: u128, interval: u128) -> (r: u128)
    ensures
        r == refill_scaled(elapsed as int, limit_scaled as int, interval as int),
{
    let interval_ns: u128 = if interval > 0 { interval } else { 1 };
    sat_mul_u128(elapsed, limit_scaled) / interval_ns
}

fn to_tokens(tokens_scaled: u128) -> (r: u32)
    ensures
        r == scaled_to_tokens(tokens_scaled as int),
{
    let whole = tokens_scaled / SCALE;
    if whole > u32::MAX as u128 {
        u32::MAX
    } else {
        whole as u32
    }
}

fn retry_for_refill(missing_scaled: u128, limit_scaled: u128, interval: u128) -> (r: u128)
    ensures
        r == retry_after_for_refill(missing_scaled as int, limit_scaled as int, interval as int),
{
    let product = sat_mul_u128(missing_scaled, interval);
    let divisor: u128 = if limit_scaled > 1 { limit_scaled } else { 1 };
    let wait: u128 = if product % divisor == 0 {
        product / divisor
    } else {
        assert(divisor >= 2);
        assert(product / divisor <= product) by (nonlinear_arith)
            requires
                divisor >= 2,
        ;
        assert(product / divisor < u128::MAX) by (nonlinear_arith)
            requires
                divisor >= 2,
                product <= u128::MAX,
        ;
        product / divisor + 1
    };
    if wait > u64::MAX as u128 {
        u64::MAX as u128
    } else {
        wait
    }
}

fn consume_token_bucket(
    state: &mut Option<WindowState>,
    limit: u32,
    interval: u128,
    tokens: u32,
    now: u128,
) -> (r: RateLimit)
    requires
        tb_defined(*old(state), limit, interval, now),
    ensures
        r == tb_outcome(*old(state), limit, interval, tokens, now).0,
        *final(state) == Some(tb_outcome(*old(state), limit, interval, tokens, now).1),
{
    let limit_scaled: u128 = limit as u128 * SCALE;
    let (mut available, mut updated) = match state {
        Some(WindowState::TokenBucket { tokens_scaled, updated_at }) => (*tokens_scaled, *updated_at),
        _ => (limit_scaled, now),
    };
    if now > updated {
        let refilled = available + refill(now - updated, limit_scaled, interval);
        available = if refilled < limit_scaled { refilled } else { limit_scaled };
        updated = now;
    }
    let need: u128 = tokens as u128 * SCALE;
    if available >= need {
        available = available - need;
        *state = Some(WindowState::TokenBucket { tokens_scaled: available, updated_at: updated });
        return RateLimit::accepted(limit, to_tokens(available), None);
    }
    let missing = need - available;
    let retry_after = retry_for_refill(missing, limit_scaled, interval);
    *state = Some(WindowState::TokenBucket { tokens_scaled: available, updated_at: updated });
    RateLimit::rejected(limit, to_tokens(available), Some(retry_after))
}

fn consume_fixed_window(
    state: &mut Option<WindowState>,
    limit: u32,
    interval: u128,
    tokens: u32,
    now: u128,
) -> (r: Result<RateLimit, RateLimiterError>)
    ensures
        match fw_outcome(*old(state), limit, interval, tokens, now) {
            None => is_invalid_tokens(r->Err_0, tokens, "token count overflow"@) && r is Err
                && *final(state) == *old(state),
            Some((rl, ws)) => r == Ok::<RateLimit, RateLimiterError>(rl) && *final(state) == Some(ws),
        },
{
    let (mut count, mut started) = match state {
        Some(WindowState::FixedWindow { count, window_start }) => (*count, *window_start),
        _ => (0u32, now),
    };
    let since: u128 = if now >= started { now - started } else { 0 };
    if since >= interval {
        count = 0;
        started = now;
    }
    let next = match count.checked_add(tokens) {
        Some(n) => n,
        None => {
            return Err(
                RateLimiterError::InvalidTokens {
                    tokens,
                    message: "token count overflow".to_string(),
                },
            );
        },
    };
    if next <= limit {
        count = next;
        *state = Some(WindowState::FixedWindow { count, window_start: started });
        return Ok(RateLimit::accepted(limit, limit - count, None));
    }
    let elapsed: u128 = if now >= started { now - started } else { 0 };
    let retry_after: u128 = if interval >= elapsed { interval - elapsed } else { 0 };
    *state = Some(WindowState::FixedWindow { count, window_start: started });
    let remaining: u32 = if limit >= count { limit - count } else { 0 };
    Ok(RateLimit::rejected(limit, remaining, Some(retry_after)))
}

/// Result and new window of a consume of `tokens` at `now`: a decision, or
/// the token count and reason of an `InvalidTokens` refusal.
pub open spec fn consume_outcome(
    policy: Policy,
    state: Option<WindowState>,
    tokens: u32,
    now: u128,
) -> (Result<RateLimit, (u32, Seq<char>)>, Option<WindowState>) {
    if tokens == 0 {
        (Err((0u32, "consume requires at least one token"@)), state)
    } else {
        match policy {
            Policy::TokenBucket { limit, interval } => {
                let (d, ws) = tb_outcome(state, limit, interval, tokens, now);
                (Ok(d), Some(ws))
            },
            Policy::FixedWindow { limit, interval } => match fw_outcome(
                state,
                limit,
                interval,
                tokens,
                now,
            ) {
                None => (Err((tokens, "token count overflow"@)), state),
                Some((d, ws)) => (Ok(d), Some(ws)),
            },
        }
    }
}

/// Whether the returned `r` is the result that `o` describes.
pub open spec fn outcome_holds(
    r: Result<RateLimit, RateLimiterError>,
    o: Result<RateLimit, (u32, Seq<char>)>,
) -> bool {
    match o {
        Ok(d) => r == Ok::<RateLimit, RateLimiterError>(d),
        Err((t, m)) => r is Err && is_invalid_tokens(r->Err_0, t, m),
    }
}

/// Whether a consume of this policy at `now` stays within machine arithmetic.
pub open spec fn consume_defined(policy: Policy, state: Option<WindowState>, now: u128) -> bool {
    match policy {
        Policy::TokenBucket { limit, interval } => tb_defined(state, limit, interval, now),
        Policy::FixedWindow { .. } => true,
    }
}

fn validate_policy(limit: u32, interval: u128) -> (r: Result<(), RateLimiterError>)
    ensures
        limit == 0 ==> is_invalid_tokens(r->Err_0, 0, "policy limit must be greater than zero"@)
            && r is Err,
        limit != 0 && interval == 0 ==> is_invalid_tokens(
            r->Err_0,
            limit,
            "policy interval must be greater than zero"@,
        ) && r is Err,
        limit != 0 && interval != 0 ==> r is Ok,
{
    if limit == 0 {
        return Err(
            RateLimiterError::InvalidTokens {
                tokens: 0,
                message: "policy limit must be greater than zero".to_string(),
            },
        );
    }
    if interval == 0 {
        return Err(
            RateLimiterError::InvalidTokens {
                tokens: limit,
                message: "policy interval must be greater than zero".to_string(),
            },
        );
    }
    Ok(())
}

impl Policy {
    /// Configured limit.
    pub open spec fn spec_limit(&self) -> u32 {
        match *self {
            Policy::TokenBucket { limit, .. } => limit,
            Policy::FixedWindow { limit, .. } => limit,
        }
    }

    /// Configured interval (nanoseconds).
    pub open spec fn spec_interval(&self) -> u128 {
        match *self {
            Policy::TokenBucket { interval, .. } => interval,
            Policy::FixedWindow { interval, .. } => interval,
        }
    }

    /// Twice the interval, saturated at the longest duration.
    pub open spec fn spec_storage_ttl(&self) -> u128 {
        if 2 * self.spec_interval() > MAX_DURATION_NANOS {
            MAX_DURATION_NANOS
        } else {
            (2 * self.spec_interval()) as u128
        }
    }

    /// Token-bucket policy.
    ///
    /// Rejected with `InvalidTokens` when `limit` or `interval` is zero.
    pub fn token_bucket(limit: u32, interval: u128) -> (r: Result<Self, RateLimiterError>)
        requires
            interval <= MAX_DURATION_NANOS,
        ensures
            limit == 0 ==> is_invalid_tokens(r->Err_0, 0, "policy limit must be greater than zero"@)
                && r is Err,
            limit != 0 && interval == 0 ==> is_invalid_tokens(
                r->Err_0,
                limit,
                "policy interval must be greater than zero"@,
            ) && r is Err,
            limit != 0 && interval != 0 ==> r == Ok::<Policy, RateLimiterError>(
                Policy::TokenBucket { limit, interval },
            ),
    {
        match validate_policy(limit, interval) {
            Ok(()) => Ok(Policy::TokenBucket { limit, interval }),
            Err(e) => Err(e),
        }
    }

    /// Fixed-window policy.
    ///
    /// Rejected with `InvalidTokens` when `limit` or `interval` is zero.
    pub fn fixed_window(limit: u32, interval: u128) -> (r: Result<Self, RateLimiterError>)
        requires
            interval <= MAX_DURATION_NANOS,
        ensures
            limit == 0 ==> is_invalid_tokens(r->Err_0, 0, "policy limit must be greater than zero"@)
                && r is Err,
            limit != 0 && interval == 0 ==> is_invalid_tokens(
                r->Err_0,
                limit,
                "policy interval must be greater than zero"@,
            ) && r is Err,
            limit != 0 && interval != 0 ==> r == Ok::<Policy, RateLimiterError>(
                Policy::FixedWindow { limit, interval },
            ),
    {
        match validate_policy(limit, interval) {
            Ok(()) => Ok(Policy::FixedWindow { limit, interval }),
            Err(e) => Err(e),
        }
    }

    /// Configured limit (burst / window max).
    pub fn limit(&self) -> (r: u32)
        ensures
            r == self.spec_limit(),
    {
        match *self {
            Policy::TokenBucket { limit, .. } => limit,
            Policy::FixedWindow { limit, .. } => limit,
        }
    }

    /// Configured interval (nanoseconds).
    pub fn interval(&self) -> (r: u128)
        ensures
            r == self.spec_interval(),
    {
        match *self {
            Policy::TokenBucket { interval, .. } => interval,
            Policy::FixedWindow { interval, .. } => interval,
        }
    }

    /// Suggested storage TTL for this policy (2× interval, saturating).
    pub fn storage_ttl(&self) -> (r: u128)
        ensures
            r == self.spec_storage_ttl(),
    {
        let interval = self.interval();
        if interval > MAX_DURATION_NANOS / 2 {
            MAX_DURATION_NANOS
        } else {
            2 * interval
        }
    }

    /// Whether a consume at `now` from `state` stays within the arithmetic
    /// the policy uses (a token bucket whose balance plus refill fits `u128`).
    pub fn can_consume(&self, state: &Option<WindowState>, now: u128) -> (r: bool)
        ensures
            r == consume_defined(*self, *state, now),
    {
        match self {
            Policy::TokenBucket { limit, interval } => match state {
                Some(WindowState::TokenBucket { tokens_scaled, updated_at }) => {
                    if now > *updated_at {
                        let limit_scaled: u128 = *limit as u128 * SCALE;
                        let gained = refill(now - *updated_at, limit_scaled, *interval);
                        *tokens_scaled <= u128::MAX - gained
                    } else {
                        true
                    }
                },
                _ => true,
            },
            Policy::FixedWindow { .. } => true,
        }
    }

    /// Applies one consume of `tokens` at instant `now` to `state`.
    ///
    /// Zero tokens are refused and leave `state` as it was; a fixed-window
    /// count that would overflow `u32` is refused the same way.
    pub fn consume(&self, state: &mut Option<WindowState>, tokens: u32, now: u128) -> (r: Result<
        RateLimit,
        RateLimiterError,
    >)
        requires
            consume_defined(*self, *old(state), now),
        ensures
            outcome_holds(r, consume_outcome(*self, *old(state), tokens, now).0),
            *final(state) == consume_outcome(*self, *old(state), tokens, now).1,
    {
        if tokens == 0 {
            return Err(
                RateLimiterError::InvalidTokens {
                    tokens: 0,
                    message: "consume requires at least one token".to_string(),
                },
            );
        }
        match *self {
            Policy::TokenBucket { limit, interval } => {
                Ok(consume_token_bucket(state, limit, interval, tokens, now))
            },
            Policy::FixedWindow { limit, interval } => {
                consume_fixed_window(state, limit, interval, tokens, now)
            },
        }
    }
}


/// A subject with no stored window may spend up to its whole limit at once,
/// under either policy, and is left with `limit - tokens`.
pub proof fn law_fresh_subject_allows_burst(policy: Policy, tokens: u32, now: u128)
    requires
        0 < tokens <= policy.spec_limit(),
    ensures
        match policy {
            Policy::TokenBucket { limit, interval } => {
                let d = tb_outcome(None, limit, interval, tokens, now).0;
                d.spec_accepted() && d.spec_remaining() == limit - tokens
            },
            Policy::FixedWindow { limit, interval } => match fw_outcome(None, limit, interval, tokens, now) {
                Some((d, _)) => d.spec_accepted() && d.spec_remaining() == limit - tokens,
                None => false,
            },
        },
{
    match policy {
        Policy::TokenBucket { limit, interval } => {
            let ls = limit * SCALE;
            assert(ls - tokens * SCALE == (limit - tokens) * SCALE) by (nonlinear_arith)
                requires
                    ls == limit * SCALE,
            ;
            assert(((limit - tokens) * SCALE) / (SCALE as int) == limit - tokens) by (nonlinear_arith)
                requires
                    SCALE > 0,
            ;
            assert(tokens * SCALE <= ls) by (nonlinear_arith)
                requires
                    tokens <= limit,
                    ls == limit * SCALE,
                    SCALE > 0,
            ;
        },
        Policy::FixedWindow { .. } => {},
    }
}

/// A bucket never holds more than its limit: starting from a balance within
/// the limit, any consume leaves the balance and the reported remainder
/// within it.
pub proof fn law_token_bucket_balance_bounded(
    state: Option<WindowState>,
    limit: u32,
    interval: u128,
    tokens: u32,
    now: u128,
)
    requires
        state matches Some(WindowState::TokenBucket { tokens_scaled, .. }) ==> tokens_scaled <= limit
            * SCALE,
    ensures
        tb_outcome(state, limit, interval, tokens, now).1 matches WindowState::TokenBucket {
            tokens_scaled,
            ..
        } && tokens_scaled <= limit * SCALE,
        tb_outcome(state, limit, interval, tokens, now).0.spec_remaining() <= limit,
{
    let (available, _) = tb_refilled(state, limit, interval, now);
    assert(available <= limit * SCALE);
    assert(0 <= available);
    assert(available / (SCALE as int) <= limit) by (nonlinear_arith)
        requires
            available <= limit * SCALE,
            0 <= available,
    ;
    assert(tokens * SCALE >= 0) by (nonlinear_arith);
    if available >= tokens * SCALE {
        assert((available - tokens * SCALE) / (SCALE as int) <= available / (SCALE as int))
            by (nonlinear_arith)
            requires
                available - tokens * SCALE <= available,
                0 <= available - tokens * SCALE,
        ;
    }
}

/// Within a window no more than `limit` tokens are granted: a count within
/// the limit stays within it, and a consume is accepted exactly when the
/// window's count plus `tokens` fits the limit.
pub proof fn law_fixed_window_count_bounded(
    state: Option<WindowState>,
    limit: u32,
    interval: u128,
    tokens: u32,
    now: u128,
)
    requires
        state matches Some(WindowState::FixedWindow { count, .. }) ==> count <= limit,
    ensures
        match fw_outcome(state, limit, interval, tokens, now) {
            Some((d, WindowState::FixedWindow { count, .. })) => count <= limit && d.spec_accepted()
                == (fw_current(state, interval, now).0 + tokens <= limit),
            Some(_) => false,
            None => fw_current(state, interval, now).0 + tokens > u32::MAX,
        },
{
}

/// After a fixed-window rejection, waiting the suggested `retry_after`
/// opens a new window in which any consume up to the limit is accepted.
pub proof fn law_fixed_window_retry_after_reopens(
    state: Option<WindowState>,
    limit: u32,
    interval: u128,
    tokens: u32,
    now: u128,
    again: u32,
)
    requires
        fw_outcome(state, limit, interval, tokens, now) matches Some((d, _)) && !d.spec_accepted(),
        state matches Some(WindowState::FixedWindow { window_start, .. }) ==> window_start <= now,
        0 < again <= limit,
        now + fw_outcome(state, limit, interval, tokens, now)->Some_0.0.spec_retry_after()->Some_0
            <= u128::MAX,
    ensures
        ({
            let (d, ws) = fw_outcome(state, limit, interval, tokens, now)->Some_0;
            let later = (now + d.spec_retry_after()->Some_0) as u128;
            fw_outcome(Some(ws), limit, interval, again, later) matches Some((d2, _))
                && d2.spec_accepted()
        }),
{
}

/// After a token-bucket rejection, waiting the suggested `retry_after`
/// refills enough for the same consume, when the arithmetic involved stays
/// below its caps.
pub proof fn law_token_bucket_retry_after_suffices(
    state: Option<WindowState>,
    limit: u32,
    interval: u128,
    tokens: u32,
    now: u128,
)
    requires
        limit > 0,
        interval > 0,
        state matches Some(WindowState::TokenBucket { updated_at, .. }) ==> updated_at <= now,
        !tb_outcome(state, limit, interval, tokens, now).0.spec_accepted(),
        tokens <= limit,
        ({
            let (available, _) = tb_refilled(state, limit, interval, now);
            let missing = tokens * SCALE - available;
            let wait = div_ceil(missing * interval, limit * SCALE);
            &&& missing * interval <= u128::MAX
            &&& wait <= u64::MAX
            &&& now + wait <= u128::MAX
            &&& wait * (limit * SCALE) <= u128::MAX
        }),
    ensures
        ({
            let (d, ws) = tb_outcome(state, limit, interval, tokens, now);
            let later = (now + d.spec_retry_after()->Some_0) as u128;
            tb_outcome(Some(ws), limit, interval, tokens, later).0.spec_accepted()
        }),
{
    let ls = limit * SCALE;
    let (available, updated) = tb_refilled(state, limit, interval, now);
    let need = tokens * SCALE;
    let missing = need - available;
    assert(ls >= SCALE) by (nonlinear_arith)
        requires
            limit >= 1,
            ls == limit * SCALE,
            SCALE > 0,
    ;
    assert(need <= ls) by (nonlinear_arith)
        requires
            tokens <= limit,
            ls == limit * SCALE,
            need == tokens * SCALE,
            SCALE > 0,
    ;
    assert(missing > 0);
    assert(missing * interval >= 0) by (nonlinear_arith)
        requires
            missing > 0,
            interval > 0,
    ;
    assert(sat_mul(missing, interval as int) == missing * interval);
    let wait = div_ceil(missing * interval, ls);
    assert(wait * ls >= missing * interval) by (nonlinear_arith)
        requires
            wait == div_ceil(missing * interval, ls),
            ls > 0,
            missing * interval >= 0,
    ;
    assert(missing * interval > 0) by (nonlinear_arith)
        requires
            missing > 0,
            interval > 0,
    ;
    assert(wait > 0) by (nonlinear_arith)
        requires
            wait * ls >= missing * interval,
            missing * interval > 0,
            ls > 0,
    ;
    let (d, ws) = tb_outcome(state, limit, interval, tokens, now);
    assert(d.spec_retry_after() == Some(wait as u128));
    let later = (now + wait) as u128;
    assert(updated == now);
    assert(later > updated);
    assert(sat_mul(wait, ls as int) == wait * ls);
    let r = (wait * ls) / (interval as int);
    assert(r >= missing) by (nonlinear_arith)
        requires
            wait * ls >= missing * interval,
            interval > 0,
            r == (wait * ls) / (interval as int),
            missing > 0,
    ;
    assert(refill_scaled(later - updated, ls as int, interval as int) == r);
}

/// A token-bucket rejection spends nothing, and its `retry_after` is the
/// least sufficient wait: the bucket keeps its refilled balance, and the same
/// consume one nanosecond before the suggested instant is still rejected
/// (when the arithmetic involved stays below its caps).
pub proof fn law_token_bucket_retry_after_is_least(
    state: Option<WindowState>,
    limit: u32,
    interval: u128,
    tokens: u32,
    now: u128,
)
    requires
        limit > 0,
        interval > 0,
        state matches Some(WindowState::TokenBucket { updated_at, .. }) ==> updated_at <= now,
        !tb_outcome(state, limit, interval, tokens, now).0.spec_accepted(),
        tokens <= limit,
        ({
            let (available, _) = tb_refilled(state, limit, interval, now);
            let missing = tokens * SCALE - available;
            let wait = div_ceil(missing * interval, limit * SCALE);
            &&& missing * interval <= u128::MAX
            &&& wait <= u64::MAX
            &&& now + wait <= u128::MAX
            &&& wait * (limit * SCALE) <= u128::MAX
        }),
    ensures
        ({
            let (available, updated) = tb_refilled(state, limit, interval, now);
            tb_outcome(state, limit, interval, tokens, now).1 == WindowState::TokenBucket {
                tokens_scaled: available as u128,
                updated_at: updated,
            }
        }),
        ({
            let (d, ws) = tb_outcome(state, limit, interval, tokens, now);
            let sooner = (now + d.spec_retry_after()->Some_0 - 1) as u128;
            !tb_outcome(Some(ws), limit, interval, tokens, sooner).0.spec_accepted()
        }),
{
    let ls = limit * SCALE;
    let (available, updated) = tb_refilled(state, limit, interval, now);
    let need = tokens * SCALE;
    let missing = need - available;
    assert(ls >= SCALE) by (nonlinear_arith)
        requires
            limit >= 1,
            ls == limit * SCALE,
            SCALE > 0,
    ;
    assert(missing > 0);
    assert(missing * interval > 0) by (nonlinear_arith)
        requires
            missing > 0,
            interval > 0,
    ;
    assert(sat_mul(missing, interval as int) == missing * interval);
    let wait = div_ceil(missing * interval, ls);
    assert(wait * ls >= missing * interval) by (nonlinear_arith)
        requires
            wait == div_ceil(missing * interval, ls),
            ls > 0,
            missing * interval >= 0,
    ;
    assert(wait > 0) by (nonlinear_arith)
        requires
            wait * ls >= missing * interval,
            missing * interval > 0,
            ls > 0,
    ;
    assert((wait - 1) * ls < missing * interval) by (nonlinear_arith)
        requires
            wait == div_ceil(missing * interval, ls),
            ls > 0,
            missing * interval > 0,
    ;
    let (d, ws) = tb_outcome(state, limit, interval, tokens, now);
    assert(d.spec_retry_after() == Some(wait as u128));
    assert(updated == now);
    let sooner = (now + wait - 1) as u128;
    if wait > 1 {
        assert((wait - 1) * ls >= 0) by (nonlinear_arith)
            requires
                wait > 1,
                ls > 0,
        ;
        assert((wait - 1) * ls <= wait * ls) by (nonlinear_arith)
            requires
                ls > 0,
        ;
        assert(sat_mul(wait - 1, ls as int) == (wait - 1) * ls);
        let g = ((wait - 1) * ls) / (interval as int);
        assert(g < missing) by (nonlinear_arith)
            requires
                (wait - 1) * ls < missing * interval,
                (wait - 1) * ls >= 0,
                interval > 0,
                g == ((wait - 1) * ls) / (interval as int),
        ;
        assert(refill_scaled(sooner - updated, ls as int, interval as int) == g);
    }
}

} // verus!
