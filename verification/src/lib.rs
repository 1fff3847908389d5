//! Serenade: rate limiting, scheduling, search, security, serialization and
//! session components with verified contracts.

pub mod strmap;
pub mod text;
pub mod rate_limiter;
pub mod session;
pub mod search;
pub mod scheduler;
pub mod security;
pub mod serializer;
