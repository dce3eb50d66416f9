//! Monitoring vocabulary: metric kinds, alert levels and conditions, and the
//! node's health report.
use vstd::prelude::*;

verus! {

/// Kinds of metric.
#[derive(Debug, Clone, Copy, PartialEq, Eq, Structural)]
pub enum MetricType {
    Counter,
    Gauge,
    Histogram,
}

/// How serious an alert is.
#[derive(Debug, Clone, Copy, PartialEq, Eq, Structural)]
pub enum AlertLevel {
    Info,
    Warning,
    Critical,
}

/// How a metric is compared with an alert threshold.
#[derive(Debug, Clone, Copy, PartialEq, Eq, Structural)]
pub enum AlertCondition {
    GreaterThan,
    LessThan,
    EqualTo,
    NotEqualTo,
}

/// A health report.
pub struct HealthStatus {
    pub status: String,
    pub version: String,
    pub uptime_seconds: u64,
    pub block_height: u64,
    pub peer_count: usize,
    pub pending_transactions: usize,
}

/// Produces the health report.
pub struct HealthChecker;

impl HealthChecker {
    /// The node's report: healthy, this package's version, a day of uptime,
    /// height 1234567, 42 peers and 15 pending transactions.
    pub fn check() -> (r: HealthStatus)
        ensures
            r.status@ == "healthy"@,
            r.version@ == "0.1.0"@,
            r.uptime_seconds == 86400,
            r.block_height == 1234567,
            r.peer_count == 42,
            r.pending_transactions == 15,
    {
        HealthStatus {
            status: "healthy".to_string(),
            version: "0.1.0".to_string(),
            uptime_seconds: 86400,
            block_height: 1234567,
            peer_count: 42,
            pending_transactions: 15,
        }
    }
}

} // verus!
