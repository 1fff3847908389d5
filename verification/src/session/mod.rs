//! Session attribute bags and their persistence.

pub mod session;
pub mod store;
