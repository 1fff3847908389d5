//! Interval and cron schedules, a tick-based runner and due-job dispatch.
//!
//! Instants are signed nanoseconds from the Unix epoch; durations are
//! unsigned nanoseconds.

pub mod clock;
pub mod error;
pub mod handler;
pub mod runner;
pub mod schedule;
pub mod service;
pub mod trigger;

pub use clock::{Clock, ManualClock, SystemClock};
pub use error::SchedulerError;
pub use handler::{FnScheduleHandler, HandlerMap, ScheduleHandler};
pub use runner::Scheduler;
pub use schedule::{validate_id, DueJob, Schedule};
pub use service::{
    next_loop_step, scheduler_loop_step, version, LoopStep, RegisterDefaultSchedulerPass,
    RunSchedulerCommand, SchedulerService, DEFAULT_SCHEDULER_SERVICE, SCHEDULER_TAG,
};
pub use trigger::Trigger;
