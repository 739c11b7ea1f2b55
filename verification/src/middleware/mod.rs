//! Request-level policies: rate limiting and request/response transformation.

pub mod rate_limit;
pub mod transform;
