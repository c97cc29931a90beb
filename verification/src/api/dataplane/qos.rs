use vstd::prelude::*;

verus! {

broadcast use vstd::string::group_string_axioms;

/// Default enforcement mode of a QoS rule: policing.
pub fn default_mode_string() -> (r: String)
    ensures
        r@ == "policing"@,
{
    "policing".to_string()
}

#[derive(Debug, Clone)]
pub struct QosEntry {
    /// Group name the QoS rule applies to.
    pub group: String,
    /// Numeric identifier of the matched group.
    pub group_id: u32,
    /// Traffic direction: `ingress` or `egress`.
    pub direction: String,
    /// Rate limit in bits per second after unit parsing.
    pub rate_bps: u64,
    /// Burst budget in bytes.
    pub burst_bytes: u64,
    /// Scheduling priority applied to matched packets.
    pub priority: u8,
    /// Enforcement mode, typically `policing` or `shaping`.
    pub mode: String,
}

#[derive(Debug)]
pub struct QosListResponse {
    /// Configured QoS rules for the instance.
    pub rules: Vec<QosEntry>,
}

#[derive(Debug)]
pub struct AddQosRequest {
    /// Group name the QoS rule applies to.
    pub group: String,
    /// Traffic direction: `ingress` or `egress`.
    pub direction: String,
    /// Human-readable rate value such as `100mbit` or `10gbit`.
    pub rate: String,
    /// Optional burst size such as `1mb`; empty string keeps the default.
    pub burst: String,
    /// Scheduling priority applied to matched packets.
    pub priority: u8,
    /// Enforcement mode, typically `policing` or `shaping`.
    pub mode: String,
}

#[derive(Debug)]
pub struct DeleteQosRequest {
    /// Group name the QoS rule applies to.
    pub group: String,
    /// Traffic direction: `ingress` or `egress`.
    pub direction: String,
}

#[derive(Debug)]
pub struct QosStatsEntry {
    pub group: String,
    pub group_id: u32,
    pub direction: String,
    pub passed_packets: u64,
    pub passed_bytes: u64,
    pub dropped_packets: u64,
    pub dropped_bytes: u64,
    pub shaped_packets: u64,
    pub shaped_bytes: u64,
}

#[derive(Debug)]
pub struct QosStatsResponse {
    pub rules: Vec<QosStatsEntry>,
}

#[derive(Debug, Clone)]
pub struct QosWithStatsEntry {
    pub group: String,
    pub group_id: u32,
    pub direction: String,
    pub rate_bps: u64,
    pub burst_bytes: u64,
    pub priority: u8,
    pub mode: String,
    pub passed_packets: u64,
    pub passed_bytes: u64,
    pub dropped_packets: u64,
    pub dropped_bytes: u64,
    pub shaped_packets: u64,
    pub shaped_bytes: u64,
}

#[derive(Debug)]
pub struct QosWithStatsResponse {
    pub rules: Vec<QosWithStatsEntry>,
}
} // verus!
