use vstd::prelude::*;

verus! {

#[derive(Debug)]
pub struct ApiError {
    /// HTTP-style status or application error code.
    pub code: u16,
    /// Human-readable error message safe to display to operators.
    pub error: String,
}

#[derive(Debug)]
pub struct HealthResponse {
    /// Overall agent status.
    pub status: String,
    /// Running agent version string.
    pub version: String,
    /// Number of managed firewall instances currently active.
    pub instances: usize,
    /// Number of WAL lines that failed to parse or apply during the last replay.
    pub wal_replay_failures: u64,
    /// Whether kernel-attributed drop observability is currently available.
    pub kernel_drop_available: bool,
    /// Active kernel drop collection mode when the feature is enabled.
    pub kernel_drop_mode: Option<String>,
    /// Number of managed interfaces participating in kernel drop collection.
    pub kernel_drop_managed_ifaces: usize,
    /// Last kernel drop initialization error, if any.
    pub kernel_drop_last_error: Option<String>,
}
} // verus!
