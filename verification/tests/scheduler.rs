use std::sync::atomic::{AtomicUsize, Ordering};
use std::sync::Arc;
use std::time::{Duration, SystemTime, UNIX_EPOCH};

use serenade::scheduler::{
    scheduler_loop_step, Clock, DueJob, FnScheduleHandler, HandlerMap, LoopStep, ManualClock,
    RegisterDefaultSchedulerPass, RunSchedulerCommand, Schedule, ScheduleHandler, Scheduler,
    SchedulerError, SchedulerService, SystemClock, Trigger, DEFAULT_SCHEDULER_SERVICE,
};

fn epoch_plus(secs: u64) -> i128 {
    Duration::from_secs(secs).as_nanos() as i128
}

fn nanos(d: Duration) -> u128 {
    d.as_nanos()
}

fn system_nanos(t: SystemTime) -> i128 {
    match t.duration_since(UNIX_EPOCH) {
        Ok(d) => d.as_nanos() as i128,
        Err(e) => -(e.duration().as_nanos() as i128),
    }
}

fn expected_far_future() -> i128 {
    epoch_plus(u64::from(u32::MAX) * 86_400)
}

#[test]
fn system_clock_returns_wall_time() {
    let before = system_nanos(SystemTime::now());
    let now = SystemClock.now();
    let after = system_nanos(SystemTime::now());
    assert!(now >= before && now <= after);
}

#[test]
fn interval_rejects_zero() {
    assert!(matches!(Trigger::interval(0), Err(SchedulerError::InvalidTrigger { .. })));
}

#[test]
fn cron_rejects_bad_expression() {
    assert!(matches!(Trigger::cron("not a cron"), Err(SchedulerError::InvalidTrigger { .. })));
}

#[test]
fn schedule_rejects_empty_id() {
    let trigger = Trigger::interval(nanos(Duration::from_secs(1))).expect("trigger");
    assert!(matches!(Schedule::new("", trigger), Err(SchedulerError::InvalidId { .. })));
}

#[test]
fn interval_tick_is_deterministic_with_manual_clock() {
    let mut clock = ManualClock::new(epoch_plus(1_000));
    let mut scheduler = Scheduler::new();
    let schedule = Schedule::new("heartbeat", Trigger::interval(nanos(Duration::from_secs(10))).expect("trigger"))
        .expect("schedule");
    assert_eq!(schedule.id(), "heartbeat");
    assert!(matches!(schedule.trigger(), Trigger::Interval { .. }));
    scheduler.add(schedule, &clock).expect("add");
    assert_eq!(scheduler.len(), 1);
    assert!(!scheduler.is_empty());
    assert_eq!(scheduler.next_wake(), Some(epoch_plus(1_010)));

    assert_eq!(scheduler.tick(&clock), []);

    clock.advance(nanos(Duration::from_secs(10)));
    let due = scheduler.tick(&clock);
    assert_eq!(due.len(), 1);
    assert_eq!(due[0].id(), "heartbeat");
    assert_eq!(due[0].scheduled_for(), epoch_plus(1_010));
    assert_eq!(scheduler.next_wake(), Some(epoch_plus(1_020)));

    clock.advance(nanos(Duration::from_secs(5)));
    assert_eq!(scheduler.tick(&clock), []);

    clock.advance(nanos(Duration::from_secs(5)));
    let due = scheduler.tick(&clock);
    assert_eq!(due.len(), 1);
    assert_eq!(due[0].scheduled_for(), epoch_plus(1_020));
}

#[test]
fn duplicate_id_rejected_and_remove_works() {
    let clock = ManualClock::new(epoch_plus(0));
    let mut scheduler = Scheduler::new();
    let trigger = Trigger::interval(nanos(Duration::from_secs(1))).expect("trigger");
    scheduler.add(Schedule::new("a", trigger.clone()).expect("s1"), &clock).expect("add1");
    assert!(matches!(
        scheduler.add(Schedule::new("a", trigger).expect("s2"), &clock),
        Err(SchedulerError::InvalidId { .. })
    ));
    assert!(scheduler.remove("a"));
    assert!(!scheduler.remove("a"));
    assert!(scheduler.is_empty());
}

#[test]
fn cron_fires_on_manual_clock_jump() {
    let trigger = Trigger::cron("0 * * * * *").expect("cron");
    let mut clock = ManualClock::new(epoch_plus(30));
    let mut scheduler = Scheduler::new();
    scheduler.add(Schedule::new("cron-job", trigger).expect("schedule"), &clock).expect("add");

    assert_eq!(scheduler.next_wake(), Some(epoch_plus(60)));
    assert_eq!(scheduler.tick(&clock), []);

    clock.set(epoch_plus(60));
    let due = scheduler.tick(&clock);
    assert_eq!(due.len(), 1);
    assert_eq!(due[0].id(), "cron-job");
    assert_eq!(due[0].scheduled_for(), epoch_plus(60));
    assert_eq!(scheduler.next_wake(), Some(epoch_plus(120)));
}

#[test]
fn long_pause_does_not_storm_interval_catch_up() {
    let mut clock = ManualClock::new(epoch_plus(0));
    let mut scheduler = Scheduler::new();
    scheduler
        .add(Schedule::new("slow", Trigger::interval(nanos(Duration::from_secs(1))).expect("trigger")).expect("schedule"), &clock)
        .expect("add");
    clock.advance(nanos(Duration::from_secs(100)));
    let due = scheduler.tick(&clock);
    assert_eq!(due.len(), 1, "one fire per tick even after a long pause");
    assert_eq!(scheduler.next_wake(), Some(epoch_plus(101)));
    assert_eq!(scheduler.tick(&clock), []);
}

#[test]
fn interval_overflow_arms_far_future() {
    let trigger = Trigger::interval(nanos(Duration::from_secs(10))).expect("trigger");
    let near_end = epoch_plus(i64::MAX as u64);
    assert_eq!(trigger.first_due(near_end), expected_far_future());
    assert_eq!(trigger.next_after(near_end, near_end), expected_far_future());
}

#[test]
fn cron_before_unix_epoch_arms_far_future() {
    let trigger = Trigger::cron("0 * * * * *").expect("cron");
    let before = -epoch_plus(1);
    assert_eq!(trigger.first_due(before), expected_far_future());
    assert_eq!(trigger.next_after(before, before), expected_far_future());
}

#[test]
fn handler_map_dispatches_and_reports_missing() {
    let hits = Arc::new(AtomicUsize::new(0));
    let hits_clone = Arc::clone(&hits);
    let mut handlers: HandlerMap<Arc<dyn ScheduleHandler>> = HandlerMap::new();
    assert!(handlers.is_empty());
    handlers
        .insert(
            "heartbeat",
            Arc::new(FnScheduleHandler::new(move |_job: &DueJob| {
                hits_clone.fetch_add(1, Ordering::SeqCst);
                Ok(())
            })),
        )
        .expect("insert");
    assert_eq!(handlers.len(), 1);
    assert!(matches!(
        handlers.insert("heartbeat", Arc::new(FnScheduleHandler::new(|_: &DueJob| Ok(())))),
        Err(SchedulerError::InvalidId { .. })
    ));

    let mut clock = ManualClock::new(epoch_plus(0));
    let mut scheduler = Scheduler::new();
    scheduler
        .add(Schedule::new("heartbeat", Trigger::interval(nanos(Duration::from_secs(1))).expect("trigger")).expect("schedule"), &clock)
        .expect("add");
    clock.advance(nanos(Duration::from_secs(1)));
    let due = scheduler.tick(&clock);
    assert_eq!(due.len(), 1);
    handlers.dispatch(&due[0]).expect("dispatch");
    assert_eq!(hits.load(Ordering::SeqCst), 1);
    assert!(matches!(
        handlers.dispatch(&DueJob::new("missing".to_owned(), epoch_plus(0))),
        Err(SchedulerError::MissingHandler { .. })
    ));
    assert!(handlers.remove("heartbeat"));
    assert!(!handlers.remove("heartbeat"));
}

#[test]
fn scheduler_service_tick_and_dispatch() {
    let hits = Arc::new(AtomicUsize::new(0));
    let hits_clone = Arc::clone(&hits);
    let mut service: SchedulerService<Arc<dyn ScheduleHandler>> = SchedulerService::new();
    let mut clock = ManualClock::new(epoch_plus(0));
    service
        .add(Schedule::new("job", Trigger::interval(nanos(Duration::from_secs(5))).expect("trigger")).expect("schedule"), &clock)
        .expect("add");
    service
        .insert_handler(
            "job",
            Arc::new(FnScheduleHandler::new(move |_job: &DueJob| {
                hits_clone.fetch_add(1, Ordering::SeqCst);
                Ok(())
            })),
        )
        .expect("handler");
    assert!(!service.is_empty());
    assert_eq!(service.next_wake(), Some(epoch_plus(5)));
    assert_eq!(service.tick_and_dispatch(&clock).expect("idle").len(), 0);
    clock.advance(nanos(Duration::from_secs(5)));
    let due = service.tick_and_dispatch(&clock).expect("due");
    assert_eq!(due.len(), 1);
    assert_eq!(hits.load(Ordering::SeqCst), 1);
}

fn service_with(id: &str, every: Duration) -> (SchedulerService<Arc<dyn ScheduleHandler>>, ManualClock) {
    let mut service: SchedulerService<Arc<dyn ScheduleHandler>> = SchedulerService::new();
    let clock = ManualClock::new(epoch_plus(0));
    service
        .add(Schedule::new(id, Trigger::interval(nanos(every)).expect("trigger")).expect("schedule"), &clock)
        .expect("add");
    service.insert_handler(id, Arc::new(FnScheduleHandler::new(|_: &DueJob| Ok(())))).expect("handler");
    (service, clock)
}

#[test]
fn scheduler_loop_step_reports_continue_sleep() {
    let (mut service, clock) = service_with("later", Duration::from_secs(30));
    match scheduler_loop_step(&mut service, &clock, false).expect("step") {
        LoopStep::Continue { sleep } => assert_eq!(sleep, nanos(Duration::from_secs(30))),
        LoopStep::Done => panic!("expected continue"),
    }
}

#[test]
fn scheduler_loop_step_caps_sleep_at_sixty_seconds() {
    let (mut service, clock) = service_with("far", Duration::from_secs(120));
    match scheduler_loop_step(&mut service, &clock, false).expect("step") {
        LoopStep::Continue { sleep } => assert_eq!(sleep, nanos(Duration::from_secs(60))),
        LoopStep::Done => panic!("expected continue"),
    }
}

#[test]
fn scheduler_loop_step_stops_when_once_or_empty() {
    let (mut service, clock) = service_with("once", Duration::from_secs(1));
    assert_eq!(scheduler_loop_step(&mut service, &clock, true).expect("once"), LoopStep::Done);
    let mut empty: SchedulerService<Arc<dyn ScheduleHandler>> = SchedulerService::new();
    assert_eq!(scheduler_loop_step(&mut empty, &clock, false).expect("empty"), LoopStep::Done);
}

#[test]
fn scheduler_loop_step_sleeps_zero_when_overdue_and_maps_failures() {
    let mut service: SchedulerService<Arc<dyn ScheduleHandler>> = SchedulerService::new();
    let mut clock = ManualClock::new(epoch_plus(0));
    service
        .add(Schedule::new("boom", Trigger::interval(nanos(Duration::from_secs(1))).expect("trigger")).expect("schedule"), &clock)
        .expect("add");
    service
        .insert_handler(
            "boom",
            Arc::new(FnScheduleHandler::new(|job: &DueJob| {
                Err(SchedulerError::Handler { id: job.id().to_owned(), message: "explode".to_owned() })
            })),
        )
        .expect("handler");
    clock.advance(nanos(Duration::from_secs(1)));
    let err = scheduler_loop_step(&mut service, &clock, true).expect_err("handler failure");
    assert_eq!(err.describe(), "schedule handler `boom` failed: explode");
}

#[test]
fn pass_and_command_names() {
    let pass = RegisterDefaultSchedulerPass;
    assert_eq!(pass.name(), "register_default_scheduler");
    assert!(pass.should_register(&["mailer".to_owned()]));
    assert!(!pass.should_register(&[DEFAULT_SCHEDULER_SERVICE.to_owned()]));
    let command = RunSchedulerCommand;
    assert_eq!(command.name(), "serenade:scheduler:run");
    assert!(command.once_requested(&["--once".to_owned()]));
    assert!(!command.once_requested(&[]));
}

#[test]
fn scheduler_error_texts() {
    let e = SchedulerError::MissingHandler { id: "x".to_owned() };
    assert_eq!(e.describe(), "no schedule handler registered for `x`");
    let e = SchedulerError::InvalidId { id: "".to_owned(), message: "id must not be empty".to_owned() };
    assert_eq!(e.describe(), "invalid schedule id ``: id must not be empty");
}

#[test]
fn tick_and_dispatch_stops_at_first_failure_but_rearms_all() {
    let hits = Arc::new(AtomicUsize::new(0));
    let hits_clone = Arc::clone(&hits);
    let mut service: SchedulerService<Arc<dyn ScheduleHandler>> = SchedulerService::new();
    let mut clock = ManualClock::new(epoch_plus(0));
    let every = nanos(Duration::from_secs(1));
    service.add(Schedule::new("first", Trigger::interval(every).expect("trigger")).expect("schedule"), &clock).expect("add");
    service.add(Schedule::new("second", Trigger::interval(every).expect("trigger")).expect("schedule"), &clock).expect("add");
    service
        .insert_handler(
            "first",
            Arc::new(FnScheduleHandler::new(|job: &DueJob| {
                Err(SchedulerError::Handler { id: job.id().to_owned(), message: "boom".to_owned() })
            })),
        )
        .expect("handler");
    service
        .insert_handler(
            "second",
            Arc::new(FnScheduleHandler::new(move |_job: &DueJob| {
                hits_clone.fetch_add(1, Ordering::SeqCst);
                Ok(())
            })),
        )
        .expect("handler");
    clock.advance(every);
    match service.tick_and_dispatch(&clock) {
        Err(SchedulerError::Handler { id, message }) => {
            assert_eq!(id, "first");
            assert_eq!(message, "boom");
        }
        other => panic!("unexpected {other:?}"),
    }
    assert_eq!(hits.load(Ordering::SeqCst), 0);
    assert_eq!(service.next_wake(), Some(epoch_plus(2)));
}

#[test]
fn cron_at_chronos_last_second_arms_far_future() {
    let trigger = Trigger::cron("* * * * * *").expect("cron");
    let last_second: i128 = 8_210_266_876_799 * 1_000_000_000;
    assert_eq!(trigger.first_due(last_second), expected_far_future());
    assert_eq!(trigger.first_due(last_second + 999_999_999), expected_far_future());
    assert_eq!(trigger.first_due(last_second - 1_000_000_000), expected_far_future());
    assert_eq!(trigger.first_due(epoch_plus(10)), epoch_plus(11));
}

#[test]
fn compile_pass_registers_scheduler_and_skips_when_present() {
    let pass = RegisterDefaultSchedulerPass;
    assert_eq!(pass.name(), "register_default_scheduler");
    assert!(pass.should_register(&[]));
    let service: SchedulerService<Arc<dyn ScheduleHandler>> = SchedulerService::new();
    assert!(service.is_empty());
    assert!(!pass.should_register(&[DEFAULT_SCHEDULER_SERVICE.to_owned()]));
}

#[test]
fn schedule_refuses_triggers_the_constructors_refuse() {
    assert!(matches!(
        Schedule::new("x", Trigger::Cron { expression: "not cron".to_owned() }),
        Err(SchedulerError::InvalidTrigger { .. })
    ));
    match Schedule::new("x", Trigger::Interval { every: 0 }) {
        Err(SchedulerError::InvalidTrigger { message }) => assert_eq!(message, "interval must be greater than zero"),
        other => panic!("unexpected {other:?}"),
    }
    assert!(Schedule::new("x", Trigger::Interval { every: 1 }).is_ok());
}
