//! Instants and the clocks that read them.
//!
//! An instant is a signed count of nanoseconds from the Unix epoch, within
//! the range a `SystemTime` can hold (whole seconds fit an `i64`).

use vstd::prelude::*;

verus! {

/// Nanoseconds per second.
pub const NANOS_PER_SECOND: i128 = 1_000_000_000;

/// Latest instant: `i64::MAX` seconds and 999 999 999 nanoseconds after the epoch.
pub const MAX_INSTANT: i128 = 9_223_372_036_854_775_807_999_999_999;

/// Earliest instant: `i64::MIN` seconds from the epoch.
pub const MIN_INSTANT: i128 = -9_223_372_036_854_775_808_000_000_000;

/// Whether `t` is an instant a clock can read.
pub open spec fn is_instant(t: int) -> bool {
    MIN_INSTANT <= t <= MAX_INSTANT
}

/// Source of "now" for a scheduler.
pub trait Clock {
    /// Whether this clock may read `t` now.
    ///
    /// The default admits any instant: a clock that keeps it, such as the
    /// wall clock, claims nothing of which instant it reads.
    closed spec fn may_read(&self, t: i128) -> bool {
        true
    }

    /// Current instant used for due checks.
    fn now(&self) -> (r: i128)
        ensures
            is_instant(r as int),
            self.may_read(r),
    ;
}

/// How far the system clock reads from the epoch: `Ok` with the nanoseconds
/// after it, or `Err` with the nanoseconds before it. What it returns
/// depends on the time.
#[verifier::external_body]
fn system_offset() -> (r: Result<u128, u128>)
{
    match std::time::SystemTime::now().duration_since(std::time::UNIX_EPOCH) {
        Ok(d) => Ok(d.as_nanos()),
        Err(e) => Err(e.duration().as_nanos()),
    }
}

/// Wall clock; a reading outside the instant range is clamped to its end.
#[derive(Clone, Copy, Debug, Default)]
pub struct SystemClock;

impl Clock for SystemClock {
    fn now(&self) -> (r: i128) {
        match system_offset() {
            Ok(n) => if n > MAX_INSTANT as u128 {
                MAX_INSTANT
            } else {
                n as i128
            },
            Err(n) => if n >= (0 - MIN_INSTANT) as u128 {
                MIN_INSTANT
            } else {
                0 - (n as i128)
            },
        }
    }
}

/// Clock with an explicit current instant, moved by hand.
#[derive(Debug)]
pub struct ManualClock {
    now: i128,
}

impl ManualClock {
    #[verifier::type_invariant]
    closed spec fn in_range(&self) -> bool {
        is_instant(self.now as int)
    }

    /// The instant this clock reads.
    pub closed spec fn spec_now(&self) -> i128 {
        self.now
    }

    /// Starts at `now`.
    pub fn new(now: i128) -> (r: Self)
        requires
            is_instant(now as int),
        ensures
            r.spec_now() == now,
    {
        ManualClock { now }
    }

    /// Advances the clock by `delta` nanoseconds.
    pub fn advance(&mut self, delta: u128)
        requires
            is_instant(old(self).spec_now() + delta),
        ensures
            final(self).spec_now() == old(self).spec_now() + delta,
    {
        proof {
            use_type_invariant(&*self);
        }
        let d = delta as i128;
        assert(d == delta);
        self.now = self.now + d;
    }

    /// Sets the clock to `now`.
    pub fn set(&mut self, now: i128)
        requires
            is_instant(now as int),
        ensures
            final(self).spec_now() == now,
    {
        self.now = now;
    }
}

impl Clock for ManualClock {
    open spec fn may_read(&self, t: i128) -> bool {
        t == self.spec_now()
    }

    fn now(&self) -> (r: i128)
        ensures
            r == self.spec_now(),
    {
        proof {
            use_type_invariant(self);
        }
        self.now
    }
}

} // verus!
