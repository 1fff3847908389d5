//! Storage contract for limiter windows and the in-process storage.

use vstd::prelude::*;

use super::error::{RateLimiterError, is_invalid_key};
use super::policy::{
    Policy, RateLimit, WindowState, consume_defined, consume_outcome, law_fresh_subject_allows_burst,
    outcome_holds,
};
use crate::strmap::StringMap;

verus! {

/// Rejects empty limiter keys with `InvalidKey` ("key must not be empty").
pub fn validate_key(key: &str) -> (r: Result<(), RateLimiterError>)
    ensures
        key@.len() == 0 ==> r is Err && is_invalid_key(r->Err_0, key@, "key must not be empty"@),
        key@.len() > 0 ==> r is Ok,
{
    if key.is_empty() {
        return Err(
            RateLimiterError::InvalidKey {
                key: key.to_owned(),
                message: "key must not be empty".to_string(),
            },
        );
    }
    Ok(())
}

/// Persists per-subject limiter windows.
pub trait RateLimiterStorage {
    /// The window a consume of subject `id` at `now` starts from.
    ///
    /// It is read only where [`RateLimiterStorage::always_answers`] holds;
    /// the default describes nothing.
    closed spec fn stored_window(&self, id: Seq<char>, now: u128) -> Option<WindowState> {
        None
    }

    /// Whether this storage keeps its windows where [`stored_window`] reads
    /// them and answers every request itself, with no backend that can fail.
    /// Then a consume gives exactly the policy's answer on the stored window
    /// and stores the window the policy leaves, and a reset of a non-empty id
    /// succeeds and deletes the window.
    ///
    /// The default claims no such thing: storage behind a server may fail,
    /// and what it holds is not modelled.
    ///
    /// [`stored_window`]: RateLimiterStorage::stored_window
    closed spec fn always_answers(&self) -> bool {
        false
    }

    /// Applies `policy.consume` to the window stored for `id`, and keeps the
    /// window it leaves until `now + ttl`.
    ///
    /// An empty `id` is refused with `InvalidKey`, and zero tokens are
    /// refused, as `Policy::consume` refuses them.
    fn consume(
        &mut self,
        id: &str,
        policy: &Policy,
        tokens: u32,
        now: u128,
        ttl: Option<u128>,
    ) -> (r: Result<RateLimit, RateLimiterError>)
        requires
            consume_defined(*policy, old(self).stored_window(id@, now), now),
            ttl matches Some(d) ==> now + d <= u128::MAX,
        ensures
            id@.len() == 0 ==> r is Err && is_invalid_key(r->Err_0, id@, "key must not be empty"@),
            id@.len() > 0 && tokens == 0 ==> r is Err,
            final(self).always_answers() == old(self).always_answers(),
            old(self).always_answers() && id@.len() > 0 ==> outcome_holds(
                r,
                consume_outcome(*policy, old(self).stored_window(id@, now), tokens, now).0,
            ),
            old(self).always_answers() && id@.len() > 0 && consume_outcome(
                *policy,
                old(self).stored_window(id@, now),
                tokens,
                now,
            ).0 is Ok ==> forall|t: u128|
                now <= t && (ttl matches Some(d) ==> t < now + d) ==> #[trigger] final(self).stored_window(id@, t)
                    == consume_outcome(*policy, old(self).stored_window(id@, now), tokens, now).1,
            old(self).always_answers() ==> forall|other: Seq<char>, t: u128|
                other != id@ ==> #[trigger] final(self).stored_window(other, t) == old(self).stored_window(other, t),
    ;

    /// Deletes any stored window for `id`.
    fn reset(&mut self, id: &str) -> (r: Result<(), RateLimiterError>)
        ensures
            id@.len() == 0 ==> r is Err && is_invalid_key(r->Err_0, id@, "key must not be empty"@),
            final(self).always_answers() == old(self).always_answers(),
            old(self).always_answers() && id@.len() > 0 ==> r is Ok,
            r is Ok ==> forall|now: u128| #[trigger] final(self).stored_window(id@, now) is None,
            old(self).always_answers() ==> forall|other: Seq<char>, t: u128|
                other != id@ ==> #[trigger] final(self).stored_window(other, t) == old(self).stored_window(other, t),
    ;
}

/// A stored window and the instant it expires at, if any.
pub type StoredEntry = (Option<WindowState>, Option<u128>);

/// The window that an entry still holds at `now`.
pub open spec fn live_window(entries: Map<Seq<char>, StoredEntry>, id: Seq<char>, now: u128) -> Option<
    WindowState,
> {
    if entries.dom().contains(id) && !(entries[id].1 matches Some(at) && at <= now) {
        entries[id].0
    } else {
        None
    }
}

/// The expiry that an entry still holds at `now`.
pub open spec fn live_expiry(entries: Map<Seq<char>, StoredEntry>, id: Seq<char>, now: u128) -> Option<u128> {
    if entries.dom().contains(id) && !(entries[id].1 matches Some(at) && at <= now) {
        entries[id].1
    } else {
        None
    }
}

/// The entries after a consume of `tokens` for `id` at `now` with `ttl`.
pub open spec fn entries_after_consume(
    entries: Map<Seq<char>, StoredEntry>,
    id: Seq<char>,
    policy: Policy,
    tokens: u32,
    now: u128,
    ttl: Option<u128>,
) -> Map<Seq<char>, StoredEntry> {
    let o = consume_outcome(policy, live_window(entries, id, now), tokens, now);
    let expiry = if o.0 is Ok {
        match ttl {
            Some(d) => Some((now + d) as u128),
            None => None,
        }
    } else {
        live_expiry(entries, id, now)
    };
    entries.insert(id, (o.1, expiry))
}

/// In-process rate-limiter storage.
pub struct InMemoryRateLimiterStorage {
    windows: StringMap<StoredEntry>,
}

impl InMemoryRateLimiterStorage {
    /// The stored entries by subject id.
    pub closed spec fn view(&self) -> Map<Seq<char>, StoredEntry> {
        self.windows@
    }

    /// Empty storage.
    pub fn new() -> (r: Self)
        ensures
            r@ == Map::<Seq<char>, StoredEntry>::empty(),
    {
        InMemoryRateLimiterStorage { windows: StringMap::new() }
    }

    /// Applies `policy.consume` to the window stored for `id`, treating an
    /// expired window as absent, and stamps a new expiry of `now + ttl`
    /// when the consume succeeds.
    pub fn consume_window(
        &mut self,
        id: &str,
        policy: &Policy,
        tokens: u32,
        now: u128,
        ttl: Option<u128>,
    ) -> (r: Result<RateLimit, RateLimiterError>)
        requires
            consume_defined(*policy, live_window(old(self)@, id@, now), now),
            ttl matches Some(d) ==> now + d <= u128::MAX,
        ensures
            id@.len() == 0 ==> r is Err && is_invalid_key(r->Err_0, id@, "key must not be empty"@)
                && final(self)@ == old(self)@,
            id@.len() > 0 ==> outcome_holds(
                r,
                consume_outcome(*policy, live_window(old(self)@, id@, now), tokens, now).0,
            ) && final(self)@ == entries_after_consume(old(self)@, id@, *policy, tokens, now, ttl),
    {
        validate_key(id)?;
        let (mut state, mut expires_at) = match self.windows.get(id) {
            Some(entry) => *entry,
            None => (None, None),
        };
        let expired = match expires_at {
            Some(at) => at <= now,
            None => false,
        };
        if expired {
            state = None;
            expires_at = None;
        }
        let result = policy.consume(&mut state, tokens, now);
        if result.is_ok() {
            expires_at = match ttl {
                Some(d) => Some(now + d),
                None => None,
            };
        }
        let mut windows = StringMap::new();
        std::mem::swap(&mut windows, &mut self.windows);
        let _ = windows.insert(id.to_owned(), (state, expires_at));
        self.windows = windows;
        result
    }

    /// Deletes any stored window for `id`.
    pub fn reset_window(&mut self, id: &str) -> (r: Result<(), RateLimiterError>)
        ensures
            id@.len() == 0 ==> r is Err && is_invalid_key(r->Err_0, id@, "key must not be empty"@)
                && final(self)@ == old(self)@,
            id@.len() > 0 ==> r is Ok && final(self)@ == old(self)@.remove(id@),
    {
        validate_key(id)?;
        let mut windows = StringMap::new();
        std::mem::swap(&mut windows, &mut self.windows);
        let _ = windows.remove(id);
        self.windows = windows;
        Ok(())
    }
}

impl RateLimiterStorage for InMemoryRateLimiterStorage {
    open spec fn stored_window(&self, id: Seq<char>, now: u128) -> Option<WindowState> {
        live_window(self@, id, now)
    }

    open spec fn always_answers(&self) -> bool {
        true
    }

    fn consume(
        &mut self,
        id: &str,
        policy: &Policy,
        tokens: u32,
        now: u128,
        ttl: Option<u128>,
    ) -> (r: Result<RateLimit, RateLimiterError>) {
        self.consume_window(id, policy, tokens, now, ttl)
    }

    fn reset(&mut self, id: &str) -> (r: Result<(), RateLimiterError>) {
        self.reset_window(id)
    }
}

/// Subjects are isolated: a consume for one id leaves every other id's
/// window as it was.
pub proof fn law_subjects_isolated(
    entries: Map<Seq<char>, StoredEntry>,
    id: Seq<char>,
    other: Seq<char>,
    policy: Policy,
    tokens: u32,
    now: u128,
    ttl: Option<u128>,
    later: u128,
)
    requires
        id != other,
    ensures
        live_window(entries_after_consume(entries, id, policy, tokens, now, ttl), other, later)
            == live_window(entries, other, later),
{
}

/// After a reset, the next consume of the subject starts from no window,
/// as a subject never seen does.
pub proof fn law_reset_clears_budget(entries: Map<Seq<char>, StoredEntry>, id: Seq<char>, now: u128)
    ensures
        live_window(entries.remove(id), id, now) is None,
{
}

/// A consume after a reset is accepted: once the subject's window is gone,
/// any consume up to the limit is accepted and leaves `limit - tokens`, under
/// either policy.
pub proof fn law_consume_after_reset<S: RateLimiterStorage>(after_reset: S, id: Seq<char>, policy: Policy, tokens: u32, now: u128)
    requires
        after_reset.stored_window(id, now) is None,
        0 < tokens <= policy.spec_limit(),
    ensures
        consume_outcome(policy, after_reset.stored_window(id, now), tokens, now).0 matches Ok(d)
            && d.spec_accepted() && d.spec_remaining() == policy.spec_limit() - tokens,
{
    law_fresh_subject_allows_burst(policy, tokens, now);
}

/// An expired in-memory window counts as new: from its expiry on, a consume
/// starts from no window.
pub proof fn law_expired_window_is_fresh(entries: Map<Seq<char>, StoredEntry>, id: Seq<char>, at: u128, now: u128)
    requires
        entries.dom().contains(id),
        entries[id].1 == Some(at),
        at <= now,
    ensures
        live_window(entries, id, now) is None,
{
}

} // verus!
