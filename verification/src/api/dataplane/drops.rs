use vstd::prelude::*;

verus! {

#[derive(Debug)]
pub struct DropStatsEntry {
    pub reason: String,
    pub direction: String,
    pub proto: String,
    pub src_group: String,
    pub src_id: u32,
    pub dst_group: String,
    pub dst_id: u32,
    pub packets: u64,
    pub bytes: u64,
}

#[derive(Debug)]
pub struct DropStatsResponse {
    pub drops: Vec<DropStatsEntry>,
}

#[derive(Debug)]
pub struct DropFlushResponse {
    pub flushed: u64,
}

#[derive(Debug, Clone, Default)]
pub struct KernelDropQuery {
    /// Optional managed instance name filter.
    pub instance: Option<String>,
    /// Optional interface name filter.
    pub iface: Option<String>,
    /// Optional interface index filter.
    pub ifindex: Option<u32>,
    /// Optional numeric kernel drop reason code filter.
    pub reason: Option<u16>,
    /// Maximum number of aggregated results to return.
    pub top: Option<usize>,
    /// Include drop entries that could not be mapped back to a managed instance.
    pub include_unattributed: bool,
}

#[derive(Debug, Clone)]
pub struct KernelDropStatsEntry {
    pub instance: Option<String>,
    pub iface: Option<String>,
    pub ifindex: u32,
    pub reason_code: Option<u16>,
    pub reason: String,
    pub proto: String,
    pub packets: u64,
    pub bytes: u64,
    pub last_seen_ns: u64,
    pub last_location: Option<u64>,
    pub location: Option<String>,
    pub location_hint: Option<String>,
    pub source: String,
}

#[derive(Debug)]
pub struct KernelDropStatsResponse {
    pub drops: Vec<KernelDropStatsEntry>,
}

#[derive(Debug)]
pub struct KernelDropFlushResponse {
    pub flushed: u64,
}
} // verus!
