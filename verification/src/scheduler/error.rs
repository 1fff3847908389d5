//! Scheduler errors.

use vstd::prelude::*;


verus! {

/// Failure while building or running a schedule.
#[derive(Debug, Clone, PartialEq, Eq)]
pub enum SchedulerError {
    /// Schedule id is empty or otherwise invalid.
    InvalidId {
        /// Id that failed validation.
        id: String,
        /// Reason text.
        message: String,
    },
    /// Trigger configuration is invalid.
    InvalidTrigger {
        /// Reason text.
        message: String,
    },
    /// No handler is registered for a due schedule id.
    MissingHandler {
        /// Schedule id that fired without a handler.
        id: String,
    },
    /// A registered handler failed while processing a due job.
    Handler {
        /// Schedule id being handled.
        id: String,
        /// Reason text.
        message: String,
    },
}

/// The human-readable text of an error.
pub open spec fn error_text(e: SchedulerError) -> Seq<char> {
    match e {
        SchedulerError::InvalidId { id, message } => "invalid schedule id `"@ + id@ + "`: "@ + message@,
        SchedulerError::InvalidTrigger { message } => "invalid schedule trigger: "@ + message@,
        SchedulerError::MissingHandler { id } => "no schedule handler registered for `"@ + id@ + "`"@,
        SchedulerError::Handler { id, message } => "schedule handler `"@ + id@ + "` failed: "@ + message@,
    }
}

impl SchedulerError {
    /// The human-readable text of this error.
    pub fn describe(&self) -> (r: String)
        ensures
            r@ == error_text(*self),
    {
        let mut out = String::new();
        match self {
            SchedulerError::InvalidId { id, message } => {
                out.append("invalid schedule id `");
                out.append(id.as_str());
                out.append("`: ");
                out.append(message.as_str());
            },
            SchedulerError::InvalidTrigger { message } => {
                out.append("invalid schedule trigger: ");
                out.append(message.as_str());
            },
            SchedulerError::MissingHandler { id } => {
                out.append("no schedule handler registered for `");
                out.append(id.as_str());
                out.append("`");
            },
            SchedulerError::Handler { id, message } => {
                out.append("schedule handler `");
                out.append(id.as_str());
                out.append("` failed: ");
                out.append(message.as_str());
            },
        }
        out
    }
}

} // verus!
