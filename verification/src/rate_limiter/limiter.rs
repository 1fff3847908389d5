//! Named limiters, their factory, and app-facing consume helpers.

use vstd::prelude::*;

use super::error::{RateLimiterError, is_invalid_key};
use super::policy::{MAX_DURATION_NANOS, Policy, RateLimit, consume_defined, consume_outcome, outcome_holds};
use super::storage::{RateLimiterStorage, validate_key};
use crate::text::{chars_of, string_of};

verus! {

/// Crate version for diagnostics.
pub fn version() -> (r: &'static str)
    ensures
        r@ == "0.1.0"@,
{
    "0.1.0"
}

/// Nanoseconds since the Unix epoch on the system clock; zero when the
/// clock reads earlier than the epoch. What it returns depends on the time.
#[verifier::external_body]
fn clock_nanos() -> (r: u128)
    ensures
        r <= MAX_DURATION_NANOS,
{
    std::time::SystemTime::now().duration_since(std::time::UNIX_EPOCH).map(|d| d.as_nanos()).unwrap_or(0)
}

/// Whether `r`, and `after`, are what a limiter with storage id `id` and
/// `policy` gives on a consume of `tokens` at `now` through storage that was
/// `before`, which it asks to keep the window for twice the interval:
/// an `InvalidKey` error for an empty id, an error for zero tokens; and,
/// where the storage always answers, the policy's answer on the stored
/// window, that window's successor stored until `now` plus the interval
/// twice over, and every other subject's window untouched.
pub open spec fn limiter_consumed<S: RateLimiterStorage>(
    id: Seq<char>,
    policy: Policy,
    before: S,
    after: S,
    tokens: u32,
    now: u128,
    r: Result<RateLimit, RateLimiterError>,
) -> bool {
    let o = consume_outcome(policy, before.stored_window(id, now), tokens, now);
    &&& id.len() == 0 ==> r is Err && is_invalid_key(r->Err_0, id, "key must not be empty"@)
    &&& id.len() > 0 && tokens == 0 ==> r is Err
    &&& after.always_answers() == before.always_answers()
    &&& before.always_answers() && id.len() > 0 ==> outcome_holds(r, o.0)
    &&& before.always_answers() && id.len() > 0 && o.0 is Ok ==> forall|t: u128|
        now <= t < now + policy.spec_storage_ttl() ==> #[trigger] after.stored_window(id, t) == o.1
    &&& before.always_answers() ==> forall|other: Seq<char>, t: u128|
        other != id ==> #[trigger] after.stored_window(other, t) == before.stored_window(other, t)
}

/// Limiter bound to one subject key (`{limiterName}-{key}`) and a policy.
#[derive(Clone, Debug)]
pub struct RateLimiter {
    id: String,
    policy: Policy,
}

impl RateLimiter {
    /// Storage id of this limiter.
    pub closed spec fn spec_id(&self) -> Seq<char> {
        self.id@
    }

    /// Policy of this limiter.
    pub closed spec fn spec_policy(&self) -> Policy {
        self.policy
    }

    /// A limiter for storage id `id` and `policy`.
    pub fn new(id: String, policy: Policy) -> (r: Self)
        ensures
            r.spec_id() == id@,
            r.spec_policy() == policy,
    {
        RateLimiter { id, policy }
    }

    /// Storage id (`{limiterName}-{key}`).
    pub fn id(&self) -> (r: &str)
        ensures
            r@ == self.spec_id(),
    {
        self.id.as_str()
    }

    /// Policy used by this limiter.
    pub fn policy(&self) -> (r: &Policy)
        ensures
            *r == self.spec_policy(),
    {
        &self.policy
    }

    /// Consumes `tokens` at instant `now` from the window in `storage`,
    /// asking for an expiry of twice the interval.
    pub fn consume_at<S: RateLimiterStorage>(&self, storage: &mut S, tokens: u32, now: u128) -> (r:
        Result<RateLimit, RateLimiterError>)
        requires
            consume_defined(self.spec_policy(), old(storage).stored_window(self.spec_id(), now), now),
            now <= MAX_DURATION_NANOS,
        ensures
            limiter_consumed(self.spec_id(), self.spec_policy(), *old(storage), *final(storage), tokens, now, r),
    {
        let ttl = self.policy.storage_ttl();
        storage.consume(self.id.as_str(), &self.policy, tokens, now, Some(ttl))
    }

    /// Consumes `tokens` now (system clock).
    pub fn consume<S: RateLimiterStorage>(&self, storage: &mut S, tokens: u32) -> (r: Result<
        RateLimit,
        RateLimiterError,
    >)
        requires
            forall|now: u128|
                now <= MAX_DURATION_NANOS ==> consume_defined(
                    self.spec_policy(),
                    #[trigger] old(storage).stored_window(self.spec_id(), now),
                    now,
                ),
        ensures
            exists|now: u128| now <= MAX_DURATION_NANOS && #[trigger] limiter_consumed(
                self.spec_id(),
                self.spec_policy(),
                *old(storage),
                *final(storage),
                tokens,
                now,
                r,
            ),
    {
        let now = clock_nanos();
        let r = self.consume_at(storage, tokens, now);
        assert(limiter_consumed(self.spec_id(), self.spec_policy(), *old(storage), *storage, tokens, now, r));
        r
    }

    /// Clears stored state for this subject.
    pub fn reset<S: RateLimiterStorage>(&self, storage: &mut S) -> (r: Result<(), RateLimiterError>)
        ensures
            self.spec_id().len() == 0 ==> r is Err,
            final(storage).always_answers() == old(storage).always_answers(),
            old(storage).always_answers() && self.spec_id().len() > 0 ==> r is Ok,
            r is Ok ==> forall|now: u128| #[trigger] final(storage).stored_window(self.spec_id(), now) is None,
            old(storage).always_answers() ==> forall|other: Seq<char>, t: u128|
                other != self.spec_id() ==> #[trigger] final(storage).stored_window(other, t) == old(storage).stored_window(other, t),
    {
        storage.reset(self.id.as_str())
    }
}

/// Builds [`RateLimiter`]s that share one name and policy.
#[derive(Clone, Debug)]
pub struct RateLimiterFactory {
    name: String,
    policy: Policy,
}

impl RateLimiterFactory {
    /// Limiter name.
    pub closed spec fn spec_name(&self) -> Seq<char> {
        self.name@
    }

    /// Shared policy.
    pub closed spec fn spec_policy(&self) -> Policy {
        self.policy
    }

    /// Factory for limiter `name` using `policy`; an empty name is refused
    /// with `InvalidKey`.
    pub fn new(name: &str, policy: Policy) -> (r: Result<Self, RateLimiterError>)
        ensures
            name@.len() == 0 ==> r is Err && is_invalid_key(r->Err_0, name@, "key must not be empty"@),
            name@.len() > 0 ==> (r matches Ok(f) && f.spec_name() == name@ && f.spec_policy() == policy),
    {
        validate_key(name)?;
        Ok(RateLimiterFactory { name: name.to_owned(), policy })
    }

    /// Limiter name prefix.
    pub fn name(&self) -> (r: &str)
        ensures
            r@ == self.spec_name(),
    {
        self.name.as_str()
    }

    /// Shared policy.
    pub fn policy(&self) -> (r: &Policy)
        ensures
            *r == self.spec_policy(),
    {
        &self.policy
    }

    /// Creates a limiter for subject `key`, with storage id `{name}-{key}`;
    /// an empty key is refused with `InvalidKey`.
    pub fn create(&self, key: &str) -> (r: Result<RateLimiter, RateLimiterError>)
        ensures
            key@.len() == 0 ==> r is Err && is_invalid_key(r->Err_0, key@, "key must not be empty"@),
            key@.len() > 0 ==> (r matches Ok(l) && l.spec_id() == self.spec_name() + seq!['-'] + key@
                && l.spec_policy() == self.spec_policy()),
    {
        validate_key(key)?;
        let mut id = chars_of(self.name.as_str());
        id.push('-');
        let key_chars = chars_of(key);
        crate::text::push_all(&mut id, key_chars.as_slice());
        Ok(RateLimiter::new(string_of(id.as_slice()), self.policy))
    }
}

/// Rejected consume that still carries the [`RateLimit`] snapshot.
#[derive(Clone, Copy, Debug, PartialEq, Eq)]
pub struct RateLimitExceeded {
    /// Decision returned by the limiter.
    pub rate_limit: RateLimit,
}

impl RateLimitExceeded {
    /// Suggested wait before retrying (nanoseconds).
    pub fn retry_after(&self) -> (r: Option<u128>)
        ensures
            r == self.rate_limit.spec_retry_after(),
    {
        self.rate_limit.retry_after()
    }
}

/// Returns `Ok(rate_limit)` when accepted, otherwise [`RateLimitExceeded`].
pub fn require_accepted(rate_limit: RateLimit) -> (r: Result<RateLimit, RateLimitExceeded>)
    ensures
        rate_limit.spec_accepted() ==> r == Ok::<RateLimit, RateLimitExceeded>(rate_limit),
        !rate_limit.spec_accepted() ==> r == Err::<RateLimit, RateLimitExceeded>(
            RateLimitExceeded { rate_limit },
        ),
{
    if rate_limit.is_accepted() {
        Ok(rate_limit)
    } else {
        Err(RateLimitExceeded { rate_limit })
    }
}

/// Error from [`consume_or_exceed`].
#[derive(Clone, Debug, PartialEq, Eq)]
pub enum ConsumeOrExceedError {
    /// Underlying limiter failure.
    Limiter(RateLimiterError),
    /// Policy rejected the consume.
    Exceeded(RateLimitExceeded),
}

/// What `consume_or_exceed` answers when the limiter answered `c`: an
/// accepted decision as it is, a rejected one as `Exceeded`, and a limiter
/// error as `Limiter`.
pub open spec fn exceed_answer(c: Result<RateLimit, RateLimiterError>, r: Result<RateLimit, ConsumeOrExceedError>) -> bool {
    match c {
        Ok(d) => if d.spec_accepted() {
            r == Ok::<RateLimit, ConsumeOrExceedError>(d)
        } else {
            r == Err::<RateLimit, ConsumeOrExceedError>(ConsumeOrExceedError::Exceeded(RateLimitExceeded { rate_limit: d }))
        },
        Err(e) => r == Err::<RateLimit, ConsumeOrExceedError>(ConsumeOrExceedError::Limiter(e)),
    }
}

/// Consumes `tokens` once through `limiter` and requires acceptance.
pub fn consume_or_exceed<S: RateLimiterStorage>(limiter: &RateLimiter, storage: &mut S, tokens: u32) -> (r:
    Result<RateLimit, ConsumeOrExceedError>)
    requires
        forall|now: u128|
            now <= MAX_DURATION_NANOS ==> consume_defined(
                limiter.spec_policy(),
                #[trigger] old(storage).stored_window(limiter.spec_id(), now),
                now,
            ),
    ensures
        exists|now: u128, c: Result<RateLimit, RateLimiterError>| now <= MAX_DURATION_NANOS && #[trigger] limiter_consumed(
            limiter.spec_id(),
            limiter.spec_policy(),
            *old(storage),
            *final(storage),
            tokens,
            now,
            c,
        ) && exceed_answer(c, r),
{
    let c = limiter.consume(storage, tokens);
    let ghost gc = c;
    let r = match c {
        Ok(rate_limit) => match require_accepted(rate_limit) {
            Ok(d) => Ok(d),
            Err(e) => Err(ConsumeOrExceedError::Exceeded(e)),
        },
        Err(e) => Err(ConsumeOrExceedError::Limiter(e)),
    };
    assert(exceed_answer(gc, r));
    r
}

} // verus!
