//! What the gateway's client reads back.
use vstd::prelude::*;

verus! {

/// The gateway's health report.
#[derive(Debug)]
pub struct HealthStatus {
    pub status: String,
    pub timestamp: String,
    pub version: String,
    pub uptime_seconds: u64,
}

} // verus!
