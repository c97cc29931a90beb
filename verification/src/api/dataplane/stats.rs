use vstd::prelude::*;

verus! {

#[derive(Debug)]
pub struct StatsOverview {
    /// Number of configured groups.
    pub groups: usize,
    /// Number of configured ACL policies.
    pub policies: usize,
    /// Number of configured QoS rules.
    pub qos_rules: usize,
    /// Number of configured mirror rules.
    pub mirror_rules: usize,
    /// Active IPv4 conntrack entries.
    pub conntrack_v4: u64,
    /// Active IPv6 conntrack entries.
    pub conntrack_v6: u64,
}

#[derive(Debug)]
pub struct RuleStatsEntry {
    pub src_group: String,
    pub src_id: u32,
    pub dst_group: String,
    pub dst_id: u32,
    pub proto: String,
    pub direction: String,
    pub packets: u64,
    pub bytes: u64,
    pub dropped_packets: u64,
    pub dropped_bytes: u64,
}

#[derive(Debug)]
pub struct RuleStatsResponse {
    pub rules: Vec<RuleStatsEntry>,
}

#[derive(Debug)]
pub struct FlowEntry {
    pub src_ip: String,
    pub dst_ip: String,
    pub src_port: u16,
    pub dst_port: u16,
    pub proto: String,
    pub packets: u64,
    pub bytes: u64,
}

#[derive(Debug)]
pub struct FlowStatsResponse {
    pub flows: Vec<FlowEntry>,
}

#[derive(Debug)]
pub struct GroupStatsEntry {
    pub group: String,
    pub group_id: u32,
    pub direction: String,
    pub packets: u64,
    pub bytes: u64,
}

#[derive(Debug)]
pub struct GroupStatsResponse {
    pub groups: Vec<GroupStatsEntry>,
}

#[derive(Debug)]
pub struct LbStatsEntry {
    pub service_id: u32,
    pub backend_slot: u16,
    pub lb_algo: String,
    pub affinity_hit: bool,
    pub packets: u64,
    pub bytes: u64,
}

#[derive(Debug)]
pub struct LbStatsResponse {
    pub entries: Vec<LbStatsEntry>,
}
} // verus!
