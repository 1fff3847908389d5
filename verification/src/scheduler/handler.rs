//! Sync handlers for due schedules.

use std::sync::Arc;

use vstd::prelude::*;

use crate::scheduler::error::SchedulerError;
use crate::scheduler::schedule::{is_empty_id_error, validate_id, DueJob};
use crate::strmap::StringMap;

verus! {

/// Invoked when a named schedule becomes due; applications implement it.
pub trait ScheduleHandler {
    /// Whether this handler may answer `r` to `job`.
    ///
    /// The default admits every answer: a handler that keeps it claims
    /// nothing of what it does.
    closed spec fn may_handle(&self, job: DueJob, r: Result<(), SchedulerError>) -> bool {
        true
    }

    /// Handles one due job.
    fn on_due(&self, job: &DueJob) -> (r: Result<(), SchedulerError>)
        ensures
            self.may_handle(*job, r),
    ;
}

/// Closure-backed [`ScheduleHandler`].
pub struct FnScheduleHandler<F: Fn(&DueJob) -> Result<(), SchedulerError>> {
    inner: F,
}

impl<F: Fn(&DueJob) -> Result<(), SchedulerError>> FnScheduleHandler<F> {
    #[verifier::type_invariant]
    closed spec fn callable(&self) -> bool {
        forall|j: &DueJob| #[trigger] call_requires(self.inner, (j,))
    }

    /// The wrapped closure.
    pub closed spec fn spec_inner(&self) -> F {
        self.inner
    }

    /// Wraps `inner`, which must accept every job.
    pub fn new(inner: F) -> (r: Self)
        requires
            forall|j: &DueJob| #[trigger] call_requires(inner, (j,)),
        ensures
            r.spec_inner() == inner,
    {
        FnScheduleHandler { inner }
    }
}

impl<F: Fn(&DueJob) -> Result<(), SchedulerError>> ScheduleHandler for FnScheduleHandler<F> {
    open spec fn may_handle(&self, job: DueJob, r: Result<(), SchedulerError>) -> bool {
        call_ensures(self.spec_inner(), (&job,), r)
    }

    fn on_due(&self, job: &DueJob) -> (r: Result<(), SchedulerError>)
    {
        proof {
            use_type_invariant(self);
        }
        (self.inner)(job)
    }
}

impl ScheduleHandler for Arc<dyn ScheduleHandler> {
    open spec fn may_handle(&self, job: DueJob, r: Result<(), SchedulerError>) -> bool {
        (**self).may_handle(job, r)
    }

    fn on_due(&self, job: &DueJob) -> (r: Result<(), SchedulerError>) {
        (**self).on_due(job)
    }
}

/// Whether `r` is what dispatching `job` through `handlers` may give: the
/// answer of its handler, or a missing-handler error when it has none.
pub open spec fn dispatch_answer<H: ScheduleHandler>(handlers: Map<Seq<char>, H>, job: DueJob, r: Result<(), SchedulerError>) -> bool {
    if handlers.dom().contains(job.spec_id()) {
        handlers[job.spec_id()].may_handle(job, r)
    } else {
        r matches Err(SchedulerError::MissingHandler { id }) && id@ == job.spec_id()
    }
}

/// Maps schedule ids to handlers.
pub struct HandlerMap<H> {
    handlers: StringMap<H>,
}

impl<H: ScheduleHandler> HandlerMap<H> {
    /// The registered handlers by schedule id.
    pub closed spec fn handlers(&self) -> Map<Seq<char>, H> {
        self.handlers.view()
    }

    /// Schedule ids with a registered handler.
    pub open spec fn ids(&self) -> Set<Seq<char>> {
        self.handlers().dom()
    }

    /// Empty map.
    pub fn new() -> (r: Self)
        ensures
            r.handlers() == Map::<Seq<char>, H>::empty(),
            r.ids().finite(),
    {
        HandlerMap { handlers: StringMap::new() }
    }

    /// Number of registered handlers.
    pub fn len(&self) -> (r: usize)
        ensures
            r == self.ids().len(),
            self.ids().finite(),
    {
        self.handlers.len()
    }

    /// Whether no handlers are registered.
    pub fn is_empty(&self) -> (r: bool)
        ensures
            r == (self.ids().len() == 0),
    {
        self.handlers.len() == 0
    }

    /// Registers `handler` for schedule `id`; an empty or registered id is rejected.
    pub fn insert(&mut self, id: &str, handler: H) -> (r: Result<(), SchedulerError>)
        ensures
            id@.len() == 0 ==> (r matches Err(e) && is_empty_id_error(e, id@) && final(self).ids() == old(self).ids()),
            id@.len() > 0 && old(self).ids().contains(id@) ==> (r matches Err(SchedulerError::InvalidId { id: i, message })
                && i@ == id@ && message@ == "schedule handler id already registered"@ && final(self).ids() == old(self).ids()),
            id@.len() > 0 && !old(self).ids().contains(id@) ==> (r is Ok && final(self).handlers()
                == old(self).handlers().insert(id@, handler)),
            r is Err ==> final(self).handlers() == old(self).handlers(),
            final(self).ids().finite(),
            r is Ok ==> final(self).ids().len() == old(self).ids().len() + 1,
    {
        let _ = self.handlers.len();
        match validate_id(id) {
            Ok(()) => {},
            Err(e) => return Err(e),
        }
        if self.handlers.contains_key(id) {
            return Err(SchedulerError::InvalidId {
                id: id.to_owned(),
                message: "schedule handler id already registered".to_owned(),
            });
        }
        let _ = self.handlers.insert(id.to_owned(), handler);
        Ok(())
    }

    /// Removes the handler for `id`; returns whether one was registered.
    pub fn remove(&mut self, id: &str) -> (r: bool)
        ensures
            r == old(self).ids().contains(id@),
            final(self).handlers() == old(self).handlers().remove(id@),
            final(self).ids().finite(),
            r ==> final(self).ids().len() == old(self).ids().len() - 1,
            !r ==> final(self).ids().len() == old(self).ids().len(),
    {
        let _ = self.handlers.len();
        let r = self.handlers.remove(id).is_some();
        let _ = self.handlers.len();
        r
    }

    /// Dispatches `job` to its registered handler; a job without one is
    /// reported as missing.
    pub fn dispatch(&self, job: &DueJob) -> (r: Result<(), SchedulerError>)
        ensures
            dispatch_answer(self.handlers(), *job, r),
    {
        match self.handlers.get(job.id()) {
            Some(handler) => handler.on_due(job),
            None => Err(SchedulerError::MissingHandler { id: job.id().to_owned() }),
        }
    }
}

} // verus!
