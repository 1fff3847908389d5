//! When a schedule fires.

use vstd::prelude::*;

use crate::scheduler::clock::{is_instant, MAX_INSTANT, NANOS_PER_SECOND};
use crate::scheduler::error::SchedulerError;

verus! {

/// Instant armed when the next fire cannot be computed: `u32::MAX` days
/// after the epoch.
pub const FAR_FUTURE: i128 = 371_085_174_288_000_000_000_000;

/// The last whole second chrono represents, 262142-12-31T23:59:59 UTC, as
/// seconds from the epoch. A cron search starts one second after the instant
/// it is given, so it is run only from instants before this second.
pub const LAST_CHRONO_SECOND: i128 = 8_210_266_876_799;

/// The text of the error `cron::Schedule::from_str` reports for `expr`, or
/// `None` when `expr` parses.
pub uninterp spec fn cron_parse_error(expr: Seq<char>) -> Option<Seq<char>>;

/// The first fire of the cron expression `expr` strictly after the instant
/// `secs` seconds and `nanos` nanoseconds from the epoch, as its
/// `(timestamp, subsec_nanos)`; `None` when `expr` does not parse, the
/// instant is outside chrono's range, or the schedule has no later fire.
pub uninterp spec fn cron_fire_after(expr: Seq<char>, secs: i64, nanos: u32) -> Option<(i64, u32)>;

/// The characters of an optional string.
pub open spec fn opt_chars(s: Option<String>) -> Option<Seq<char>> {
    match s {
        Some(t) => Some(t@),
        None => None,
    }
}

/// Parses `expr` with `cron::Schedule::from_str`, keeping the error text.
#[verifier::external_body]
pub(crate) fn cron_error(expr: &str) -> (r: Option<String>)
    ensures
        opt_chars(r) == cron_parse_error(expr@),
{
    expr.parse::<cron::Schedule>().err().map(|e| e.to_string())
}

/// `cron::Schedule::after(..).next()` for `expr` at the UTC instant
/// `secs`.`nanos`. The cron crate searches from one second past the given
/// instant at whole-second resolution, so a fire's timestamp is later than
/// `secs`; that second must exist for chrono, or the search panics.
#[verifier::external_body]
fn cron_next_fire(expr: &str, secs: i64, nanos: u32) -> (r: Option<(i64, u32)>)
    requires
        secs < LAST_CHRONO_SECOND,
        nanos < 1_000_000_000,
    ensures
        r == cron_fire_after(expr@, secs, nanos),
        r matches Some(f) ==> f.0 > secs,
{
    let schedule = expr.parse::<cron::Schedule>().ok()?;
    let after = chrono::DateTime::from_timestamp(secs, nanos)?;
    schedule.after(&after).next().map(|d| (d.timestamp(), d.timestamp_subsec_nanos()))
}

/// When a schedule should fire.
#[derive(Clone, Debug)]
pub enum Trigger {
    /// Fire `every` nanoseconds after the instant of arming.
    Interval {
        /// Delay between fires, in nanoseconds.
        every: u128,
    },
    /// Six-field cron expression (`sec min hour day month dow`), in UTC.
    Cron {
        /// The expression, known to parse.
        expression: String,
    },
}

/// `now + d` when it is an instant, as `SystemTime::checked_add` gives.
pub open spec fn add_nanos(now: int, d: int) -> Option<int> {
    if now + d <= MAX_INSTANT {
        Some(now + d)
    } else {
        None
    }
}

/// The instant of the first cron fire after `now`, if any: instants before
/// the epoch, and those from chrono's last second on, have none.
pub open spec fn cron_next_instant(expr: Seq<char>, now: int) -> Option<int> {
    if now < 0 || now / NANOS_PER_SECOND as int >= LAST_CHRONO_SECOND {
        None
    } else {
        match cron_fire_after(expr, (now / NANOS_PER_SECOND as int) as i64, (now % NANOS_PER_SECOND as int) as u32) {
            Some(f) => {
                let secs: int = if f.0 < 0 { 0 } else { f.0 as int };
                let t = secs * NANOS_PER_SECOND + f.1;
                if t <= MAX_INSTANT { Some(t) } else { None }
            },
            None => None,
        }
    }
}

/// The instant `t` arms at `now`: the next fire, or [`FAR_FUTURE`] when
/// there is none.
pub open spec fn next_due(t: Trigger, now: int) -> int {
    match t {
        Trigger::Interval { every } => match add_nanos(now, every as int) {
            Some(x) => x,
            None => FAR_FUTURE as int,
        },
        Trigger::Cron { expression } => match cron_next_instant(expression@, now) {
            Some(x) => x,
            None => FAR_FUTURE as int,
        },
    }
}

/// Whether `t` always arms strictly later than the instant it is armed at
/// (short of [`FAR_FUTURE`]): true of every trigger but a zero interval.
pub open spec fn fires_forward(t: Trigger) -> bool {
    match t {
        Trigger::Interval { every } => every > 0,
        Trigger::Cron { .. } => true,
    }
}

/// Whether `t` can be built by [`Trigger::interval`] or [`Trigger::cron`].
pub open spec fn trigger_valid(t: Trigger) -> bool {
    match t {
        Trigger::Interval { every } => every > 0,
        Trigger::Cron { expression } => cron_parse_error(expression@) is None,
    }
}

/// Why `t` cannot be built by [`Trigger::interval`] or [`Trigger::cron`],
/// or `None` when it can.
pub open spec fn trigger_error(t: Trigger) -> Option<Seq<char>> {
    match t {
        Trigger::Interval { every } => if every == 0 {
            Some("interval must be greater than zero"@)
        } else {
            None
        },
        Trigger::Cron { expression } => cron_parse_error(expression@),
    }
}

/// The first cron fire after `now`.
fn cron_next(expr: &str, now: i128) -> (r: Option<i128>)
    requires
        is_instant(now as int),
    ensures
        match r {
            Some(x) => cron_next_instant(expr@, now as int) == Some(x as int),
            None => cron_next_instant(expr@, now as int) is None,
        },
        r matches Some(x) ==> x > now,
{
    if now < 0 {
        return None;
    }
    let secs = now / NANOS_PER_SECOND;
    let nanos = now % NANOS_PER_SECOND;
    if secs >= LAST_CHRONO_SECOND {
        return None;
    }
    match cron_next_fire(expr, secs as i64, nanos as u32) {
        Some((ts, ns)) => {
            let s: i128 = if ts < 0 {
                0
            } else {
                ts as i128
            };
            let t = s * NANOS_PER_SECOND + ns as i128;
            proof {
                assert(t > now) by (nonlinear_arith)
                    requires
                        s >= secs + 1,
                        secs == now / NANOS_PER_SECOND,
                        now >= 0,
                        ns >= 0,
                        t == s * NANOS_PER_SECOND + ns,
                        NANOS_PER_SECOND == 1_000_000_000,
                ;
            }
            if t <= MAX_INSTANT {
                Some(t)
            } else {
                None
            }
        },
        None => None,
    }
}

impl Trigger {
    /// Interval trigger; a zero interval is rejected.
    pub fn interval(every: u128) -> (r: Result<Self, SchedulerError>)
        ensures
            every == 0 ==> (r matches Err(SchedulerError::InvalidTrigger { message }) && message@
                == "interval must be greater than zero"@),
            every > 0 ==> r == Ok::<Trigger, SchedulerError>(Trigger::Interval { every }),
    {
        if every == 0 {
            return Err(SchedulerError::InvalidTrigger { message: "interval must be greater than zero".to_owned() });
        }
        Ok(Trigger::Interval { every })
    }

    /// Cron trigger from a six-field expression (`sec min hour day month dow`);
    /// an expression that does not parse is rejected with the parser's message.
    pub fn cron(expr: &str) -> (r: Result<Self, SchedulerError>)
        ensures
            match cron_parse_error(expr@) {
                Some(m) => r matches Err(SchedulerError::InvalidTrigger { message }) && message@ == m,
                None => r matches Ok(Trigger::Cron { expression }) && expression@ == expr@,
            },
    {
        match cron_error(expr) {
            Some(message) => Err(SchedulerError::InvalidTrigger { message }),
            None => Ok(Trigger::Cron { expression: expr.to_owned() }),
        }
    }

    /// `Ok` when this trigger could be built by [`Trigger::interval`] or
    /// [`Trigger::cron`], else the `InvalidTrigger` error they give.
    pub fn validate(&self) -> (r: Result<(), SchedulerError>)
        ensures
            match trigger_error(*self) {
                None => r is Ok,
                Some(m) => r matches Err(SchedulerError::InvalidTrigger { message }) && message@ == m,
            },
    {
        match self {
            Trigger::Interval { every } => if *every == 0 {
                Err(SchedulerError::InvalidTrigger { message: "interval must be greater than zero".to_owned() })
            } else {
                Ok(())
            },
            Trigger::Cron { expression } => match cron_error(expression.as_str()) {
                Some(message) => Err(SchedulerError::InvalidTrigger { message }),
                None => Ok(()),
            },
        }
    }

    /// Instant of the first fire when armed at `now`.
    pub fn first_due(&self, now: i128) -> (r: i128)
        requires
            is_instant(now as int),
        ensures
            r == next_due(*self, now as int),
            is_instant(r as int),
            fires_forward(*self) && now < FAR_FUTURE ==> r > now,
    {
        self.arm(now)
    }

    /// Instant of the next fire after one at `after`, re-armed from `now` so
    /// a long pause does not cause a burst of catch-up fires.
    pub fn next_after(&self, after: i128, now: i128) -> (r: i128)
        requires
            is_instant(now as int),
        ensures
            r == next_due(*self, now as int),
            is_instant(r as int),
            fires_forward(*self) && now < FAR_FUTURE ==> r > now,
    {
        self.arm(now)
    }

    fn arm(&self, now: i128) -> (r: i128)
        requires
            is_instant(now as int),
        ensures
            r == next_due(*self, now as int),
            is_instant(r as int),
            fires_forward(*self) && now < FAR_FUTURE ==> r > now,
    {
        match self {
            Trigger::Interval { every } => {
                let room = (MAX_INSTANT - now) as u128;
                if *every <= room {
                    now + (*every as i128)
                } else {
                    FAR_FUTURE
                }
            },
            Trigger::Cron { expression } => match cron_next(expression.as_str(), now) {
                Some(x) => x,
                None => FAR_FUTURE,
            },
        }
    }
}

} // verus!
