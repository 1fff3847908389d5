//! Named schedule definitions and due jobs.

use vstd::prelude::*;

use crate::scheduler::error::SchedulerError;
use crate::scheduler::trigger::{trigger_error, Trigger};

verus! {

/// Whether `e` is the error for an empty id `id`.
pub open spec fn is_empty_id_error(e: SchedulerError, id: Seq<char>) -> bool {
    &&& e matches SchedulerError::InvalidId { id: i, message: m }
    &&& e->InvalidId_id@ == id
    &&& e->InvalidId_message@ == "id must not be empty"@
}

/// Rejects empty schedule ids.
pub fn validate_id(id: &str) -> (r: Result<(), SchedulerError>)
    ensures
        r is Ok <==> id@.len() > 0,
        r matches Err(e) ==> is_empty_id_error(e, id@),
{
    if id.is_empty() {
        return Err(SchedulerError::InvalidId { id: id.to_owned(), message: "id must not be empty".to_owned() });
    }
    Ok(())
}

/// Named recurring schedule; its id is not empty.
#[derive(Debug)]
pub struct Schedule {
    id: String,
    trigger: Trigger,
}

impl Schedule {
    #[verifier::type_invariant]
    closed spec fn named(&self) -> bool {
        &&& self.id@.len() > 0
        &&& trigger_error(self.trigger) is None
    }

    /// Schedule id.
    pub closed spec fn spec_id(&self) -> Seq<char> {
        self.id@
    }

    /// Trigger definition.
    pub closed spec fn spec_trigger(&self) -> Trigger {
        self.trigger
    }

    /// Builds a schedule with `id` and `trigger`; an empty id is rejected,
    /// and so is a trigger that [`Trigger::interval`] or [`Trigger::cron`]
    /// would have refused.
    pub fn new(id: &str, trigger: Trigger) -> (r: Result<Self, SchedulerError>)
        ensures
            id@.len() == 0 ==> (r matches Err(e) && is_empty_id_error(e, id@)),
            id@.len() > 0 ==> match trigger_error(trigger) {
                None => r matches Ok(s) && s.spec_id() == id@ && s.spec_trigger() == trigger,
                Some(m) => r matches Err(SchedulerError::InvalidTrigger { message }) && message@ == m,
            },
    {
        match validate_id(id) {
            Ok(()) => {},
            Err(e) => return Err(e),
        }
        match trigger.validate() {
            Ok(()) => {},
            Err(e) => return Err(e),
        }
        Ok(Schedule { id: id.to_owned(), trigger })
    }

    /// Schedule id.
    pub fn id(&self) -> (r: &str)
        ensures
            r@ == self.spec_id(),
            r@.len() > 0,
    {
        proof {
            use_type_invariant(self);
        }
        self.id.as_str()
    }

    /// Trigger definition.
    pub fn trigger(&self) -> (r: &Trigger)
        ensures
            *r == self.spec_trigger(),
    {
        &self.trigger
    }

    /// Consumes the schedule into `(id, trigger)`.
    pub fn into_parts(self) -> (r: (String, Trigger))
        ensures
            r.0@ == self.spec_id(),
            r.1 == self.spec_trigger(),
            r.0@.len() > 0,
    {
        proof {
            use_type_invariant(&self);
        }
        let Schedule { id, trigger } = self;
        (id, trigger)
    }
}

/// A schedule that became due on a tick.
#[derive(Clone, Debug, PartialEq, Eq)]
pub struct DueJob {
    id: String,
    scheduled_for: i128,
}

/// The id and armed instant of a due job.
pub open spec fn job_view(j: DueJob) -> (Seq<char>, i128) {
    (j.spec_id(), j.spec_scheduled_for())
}

/// The ids and armed instants of due jobs.
pub open spec fn job_views(s: Seq<DueJob>) -> Seq<(Seq<char>, i128)> {
    s.map_values(|j: DueJob| job_view(j))
}

impl DueJob {
    /// Schedule id that fired.
    pub closed spec fn spec_id(&self) -> Seq<char> {
        self.id@
    }

    /// Instant this fire was armed for.
    pub closed spec fn spec_scheduled_for(&self) -> i128 {
        self.scheduled_for
    }

    /// A due job for schedule `id` armed for `scheduled_for`.
    pub fn new(id: String, scheduled_for: i128) -> (r: Self)
        ensures
            r.spec_id() == id@,
            r.spec_scheduled_for() == scheduled_for,
    {
        DueJob { id, scheduled_for }
    }

    /// Schedule id that fired.
    pub fn id(&self) -> (r: &str)
        ensures
            r@ == self.spec_id(),
    {
        self.id.as_str()
    }

    /// Instant this fire was armed for.
    pub fn scheduled_for(&self) -> (r: i128)
        ensures
            r == self.spec_scheduled_for(),
    {
        self.scheduled_for
    }
}

} // verus!
