//! Token-bucket and fixed-window rate limiting.
//!
//! Durations and instants are whole nanoseconds (`u128`): an interval is a
//! length of time, an instant a reading of a monotonic clock.

pub mod error;
pub mod policy;
pub mod storage;
pub mod limiter;
pub mod wire;
pub mod service;
