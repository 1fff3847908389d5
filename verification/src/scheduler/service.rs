//! The scheduler service shared by an application, the run-loop decision,
//! and the names the container and console use.

use vstd::prelude::*;

use crate::scheduler::clock::{is_instant, Clock};
use crate::scheduler::error::SchedulerError;
use crate::scheduler::handler::{dispatch_answer, HandlerMap, ScheduleHandler};
use crate::scheduler::runner::{due_at, earliest, has_id, rearmed_at, EntryView, Scheduler};
use crate::scheduler::trigger::next_due;
use crate::scheduler::schedule::{job_views, DueJob, Schedule};
use crate::text::{any_equal, mentions, string_views};

verus! {

/// Crate version for diagnostics.
pub fn version() -> (r: &'static str)
    ensures
        r@ == "0.1.0"@,
{
    "0.1.0"
}

/// Service tag applied to scheduler definitions.
pub const SCHEDULER_TAG: &'static str = "scheduler";

/// Container id of the default scheduler.
pub const DEFAULT_SCHEDULER_SERVICE: &'static str = "scheduler";

/// Longest sleep between two ticks of the run loop: one minute.
pub const MAX_LOOP_SLEEP: u128 = 60_000_000_000;

/// A scheduler and the handlers of its schedules, shared by an application
/// and its console command.
pub struct SchedulerService<H> {
    scheduler: Scheduler,
    handlers: HandlerMap<H>,
}

impl<H: ScheduleHandler> SchedulerService<H> {
    /// Registered schedules.
    pub closed spec fn entries(&self) -> Seq<EntryView> {
        self.scheduler.entries()
    }

    /// Registered handlers by schedule id.
    pub closed spec fn handlers(&self) -> Map<Seq<char>, H> {
        self.handlers.handlers()
    }

    /// Schedule ids with a handler.
    pub open spec fn handler_ids(&self) -> Set<Seq<char>> {
        self.handlers().dom()
    }

    /// Empty scheduler and handler map.
    pub fn new() -> (r: Self)
        ensures
            r.entries().len() == 0,
            r.handlers() == Map::<Seq<char>, H>::empty(),
    {
        SchedulerService { scheduler: Scheduler::new(), handlers: HandlerMap::new() }
    }

    /// Registers a schedule, arming it from `clock.now()`.
    pub fn add<C: Clock>(&mut self, schedule: Schedule, clock: &C) -> (r: Result<(), SchedulerError>)
        ensures
            final(self).handlers() == old(self).handlers(),
            has_id(old(self).entries(), schedule.spec_id()) ==> (r matches Err(SchedulerError::InvalidId { id, message })
                && id@ == schedule.spec_id() && message@ == "schedule id already registered"@
                && final(self).entries() == old(self).entries()),
            !has_id(old(self).entries(), schedule.spec_id()) ==> (r is Ok && exists|now: i128| is_instant(now as int)
                && clock.may_read(now) && final(self).entries() == old(self).entries().push(
                (schedule.spec_id(), schedule.spec_trigger(), #[trigger] next_due(schedule.spec_trigger(), now as int) as i128),
            )),
    {
        self.scheduler.add(schedule, clock)
    }

    /// Registers a handler for schedule `id`.
    pub fn insert_handler(&mut self, id: &str, handler: H) -> (r: Result<(), SchedulerError>)
        ensures
            final(self).entries() == old(self).entries(),
            r is Ok <==> (id@.len() > 0 && !old(self).handler_ids().contains(id@)),
            r is Ok ==> final(self).handlers() == old(self).handlers().insert(id@, handler),
            r is Ok ==> final(self).handler_ids().len() == old(self).handler_ids().len() + 1,
            r is Err ==> final(self).handlers() == old(self).handlers(),
            final(self).handler_ids().finite(),
    {
        self.handlers.insert(id, handler)
    }

    /// Earliest armed instant across all schedules.
    pub fn next_wake(&self) -> (r: Option<i128>)
        ensures
            r == earliest(self.entries()),
            r matches Some(w) ==> is_instant(w as int),
    {
        self.scheduler.next_wake()
    }

    /// Whether no schedules are registered.
    pub fn is_empty(&self) -> (r: bool)
        ensures
            r == (self.entries().len() == 0),
    {
        self.scheduler.is_empty()
    }

    /// Ticks at `now` and dispatches each due job to its handler in order,
    /// stopping at the first failure. The schedules are re-armed whatever
    /// the handlers do.
    pub fn tick_and_dispatch_at(&mut self, now: i128) -> (r: Result<Vec<DueJob>, SchedulerError>)
        requires
            is_instant(now as int),
        ensures
            final(self).entries() == rearmed_at(old(self).entries(), now as int),
            final(self).handlers() == old(self).handlers(),
            exists|jobs: Seq<DueJob>| job_views(jobs) == due_at(old(self).entries(), now as int)
                && #[trigger] dispatched(old(self).handlers(), jobs, r),
    {
        let due = self.scheduler.tick_at(now);
        let mut i: usize = 0;
        while i < due.len()
            invariant
                0 <= i <= due@.len(),
                self.scheduler.entries() == rearmed_at(old(self).entries(), now as int),
                self.handlers.handlers() == old(self).handlers(),
                job_views(due@) == due_at(old(self).entries(), now as int),
                forall|j: int| 0 <= j < i ==> dispatch_answer(old(self).handlers(), #[trigger] due@[j], Ok(())),
            decreases due@.len() - i,
        {
            let answer = self.handlers.dispatch(&due[i]);
            if let Err(e) = answer {
                assert(dispatched(old(self).handlers(), due@, Err(e)));
                return Err(e);
            }
            assert(answer is Ok && answer->Ok_0 == ());
            i = i + 1;
        }
        assert(dispatched(old(self).handlers(), due@, Ok::<Vec<DueJob>, SchedulerError>(due)));
        Ok(due)
    }

    /// Ticks at `clock.now()` and dispatches the due jobs.
    pub fn tick_and_dispatch<C: Clock>(&mut self, clock: &C) -> (r: Result<Vec<DueJob>, SchedulerError>)
        ensures
            final(self).handlers() == old(self).handlers(),
            exists|now: i128| clock.may_read(now) && #[trigger] ticked_at(
                old(self).handlers(),
                old(self).entries(),
                final(self).entries(),
                now,
                r,
            ),
    {
        let now = clock.now();
        let r = self.tick_and_dispatch_at(now);
        assert(ticked_at(old(self).handlers(), old(self).entries(), self.entries(), now, r));
        r
    }
}

/// Whether a tick at `now` took the schedules `before` to `after` (every
/// due one re-armed) and dispatched the due jobs, in order, through
/// `handlers` with result `r`.
pub open spec fn ticked_at<H: ScheduleHandler>(
    handlers: Map<Seq<char>, H>,
    before: Seq<EntryView>,
    after: Seq<EntryView>,
    now: i128,
    r: Result<Vec<DueJob>, SchedulerError>,
) -> bool {
    &&& is_instant(now as int)
    &&& after == rearmed_at(before, now as int)
    &&& exists|jobs: Seq<DueJob>| job_views(jobs) == due_at(before, now as int) && #[trigger] dispatched(handlers, jobs, r)
}

/// Whether `r` is the loop step after a tick whose dispatch gave
/// `dispatch`: the dispatch error, or the decision for the schedules
/// `entries` at an instant the clock may read.
pub open spec fn loop_answer<C: Clock>(
    clock: C,
    once: bool,
    entries: Seq<EntryView>,
    dispatch: Result<Vec<DueJob>, SchedulerError>,
    r: Result<LoopStep, SchedulerError>,
) -> bool {
    match dispatch {
        Err(e) => r == Err::<LoopStep, SchedulerError>(e),
        Ok(_) => r matches Ok(step) && exists|later: i128| is_instant(later as int) && clock.may_read(later)
            && step == #[trigger] loop_decision(once, entries, later as int),
    }
}

/// Whether `r` is what dispatching the due `jobs` in order through
/// `handlers` gives: all of them when every dispatch succeeds, else the
/// error of the first one that fails, after those before it succeeded.
pub open spec fn dispatched<H: ScheduleHandler>(handlers: Map<Seq<char>, H>, jobs: Seq<DueJob>, r: Result<Vec<DueJob>, SchedulerError>) -> bool {
    match r {
        Ok(v) => v@ == jobs && forall|i: int| 0 <= i < jobs.len() ==> dispatch_answer(handlers, #[trigger] jobs[i], Ok(())),
        Err(e) => exists|k: int| 0 <= k < jobs.len() && (forall|i: int| 0 <= i < k ==> dispatch_answer(handlers, #[trigger] jobs[i], Ok(())))
            && #[trigger] dispatch_answer(handlers, jobs[k], Err(e)),
    }
}

/// What the run loop does after a tick.
#[derive(Debug, PartialEq, Eq)]
pub enum LoopStep {
    /// Sleep `sleep` nanoseconds, then tick again.
    Continue {
        /// How long to sleep before the next tick, in nanoseconds.
        sleep: u128,
    },
    /// Stop the loop.
    Done,
}

/// The step after a tick: stop after a single requested tick or when no
/// schedule is left, else sleep until the earliest armed instant, at most
/// [`MAX_LOOP_SLEEP`] and at least zero.
pub open spec fn loop_decision(once: bool, entries: Seq<EntryView>, now: int) -> LoopStep {
    if once || entries.len() == 0 {
        LoopStep::Done
    } else {
        let wake = earliest(entries)->0;
        let gap: int = if wake > now { wake - now } else { 0 };
        LoopStep::Continue { sleep: (if gap < MAX_LOOP_SLEEP { gap } else { MAX_LOOP_SLEEP as int }) as u128 }
    }
}

/// The run-loop step after a tick, for the schedules of `service` at `now`.
pub fn next_loop_step<H: ScheduleHandler>(service: &SchedulerService<H>, now: i128, once: bool) -> (r: LoopStep)
    requires
        is_instant(now as int),
    ensures
        r == loop_decision(once, service.entries(), now as int),
{
    if once || service.is_empty() {
        return LoopStep::Done;
    }
    proof {
        lemma_earliest_some(service.entries());
    }
    let wake = match service.next_wake() {
        Some(w) => w,
        None => return LoopStep::Done,
    };
    let gap: u128 = if wake > now {
        (wake - now) as u128
    } else {
        0
    };
    let sleep = if gap < MAX_LOOP_SLEEP {
        gap
    } else {
        MAX_LOOP_SLEEP
    };
    LoopStep::Continue { sleep }
}

/// One run-loop tick: tick and dispatch at `clock.now()`, then decide the
/// next step from a second reading of the clock. A failed dispatch is
/// returned as it came.
pub fn scheduler_loop_step<H: ScheduleHandler, C: Clock>(service: &mut SchedulerService<H>, clock: &C, once: bool) -> (r: Result<LoopStep, SchedulerError>)
    ensures
        final(service).handlers() == old(service).handlers(),
        exists|now: i128, dispatch: Result<Vec<DueJob>, SchedulerError>| clock.may_read(now) && #[trigger] ticked_at(
            old(service).handlers(),
            old(service).entries(),
            final(service).entries(),
            now,
            dispatch,
        ) && loop_answer(*clock, once, final(service).entries(), dispatch, r),
{
    let dispatch = service.tick_and_dispatch(clock);
    let ghost d = dispatch;
    match dispatch {
        Ok(_) => {},
        Err(e) => {
            assert(loop_answer(*clock, once, service.entries(), d, Err::<LoopStep, SchedulerError>(e)));
            return Err(e);
        },
    }
    let now = clock.now();
    let step = next_loop_step(service, now, once);
    assert(loop_answer(*clock, once, service.entries(), d, Ok::<LoopStep, SchedulerError>(step)));
    Ok(step)
}

proof fn lemma_earliest_some(s: Seq<EntryView>)
    requires
        s.len() > 0,
    ensures
        earliest(s) is Some,
{
}

/// Registers the default scheduler service when none is defined.
#[derive(Clone, Copy, Debug, Default)]
pub struct RegisterDefaultSchedulerPass;

impl RegisterDefaultSchedulerPass {
    /// Name of the pass.
    pub fn name(&self) -> (r: &'static str)
        ensures
            r@ == "register_default_scheduler"@,
    {
        "register_default_scheduler"
    }

    /// Whether the default scheduler must be registered, given the ids of
    /// the services already defined.
    pub fn should_register(&self, defined: &[String]) -> (r: bool)
        ensures
            r == !mentions(string_views(defined@), DEFAULT_SCHEDULER_SERVICE@),
    {
        !any_equal(defined, DEFAULT_SCHEDULER_SERVICE)
    }
}

/// The `serenade:scheduler:run` console command.
#[derive(Clone, Copy, Debug, Default)]
pub struct RunSchedulerCommand;

impl RunSchedulerCommand {
    /// Command name.
    pub fn name(&self) -> (r: &'static str)
        ensures
            r@ == "serenade:scheduler:run"@,
    {
        "serenade:scheduler:run"
    }

    /// Command description.
    pub fn description(&self) -> (r: &'static str)
        ensures
            r@ == "Run the scheduler tick loop (use --once for a single tick)"@,
    {
        "Run the scheduler tick loop (use --once for a single tick)"
    }

    /// Whether the arguments ask for a single tick (`--once`).
    pub fn once_requested(&self, args: &[String]) -> (r: bool)
        ensures
            r == mentions(string_views(args@), "--once"@),
    {
        any_equal(args, "--once")
    }
}

} // verus!
