use vstd::prelude::*;

verus! {

#[derive(Debug, Clone)]
pub struct GroupEntry {
    /// Stable numeric identifier allocated to the group.
    pub id: u32,
    /// Human-readable group name referenced by ACL, QoS, and mirror rules.
    pub name: String,
    /// CIDR members contained in the group.
    pub cidrs: Vec<String>,
}

#[derive(Debug)]
pub struct GroupsResponse {
    /// Configured address groups for the instance.
    pub groups: Vec<GroupEntry>,
}

#[derive(Debug)]
pub struct AddGroupRequest {
    /// Group name to create or extend.
    pub name: String,
    /// CIDR to add to the group.
    pub cidr: String,
}

#[derive(Debug)]
pub struct AddGroupResponse {
    /// Stable numeric identifier assigned to the group.
    pub id: u32,
    /// Name of the created or extended group.
    pub name: String,
}

#[derive(Debug, Clone)]
pub struct GroupWithStatsEntry {
    /// Stable numeric identifier allocated to the group.
    pub id: u32,
    /// Human-readable group name.
    pub name: String,
    /// CIDR members contained in the group.
    pub cidrs: Vec<String>,
    /// Total ingress packets matched to the group.
    pub ingress_packets: u64,
    /// Total ingress bytes matched to the group.
    pub ingress_bytes: u64,
    /// Total egress packets matched to the group.
    pub egress_packets: u64,
    /// Total egress bytes matched to the group.
    pub egress_bytes: u64,
}

#[derive(Debug)]
pub struct GroupsWithStatsResponse {
    /// Groups enriched with aggregated per-direction traffic counters.
    pub groups: Vec<GroupWithStatsEntry>,
}
} // verus!
