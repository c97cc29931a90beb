use vstd::prelude::*;
use crate::api::platform::metadata::{ResourceCreateMetadata, ResourceUpdateMetadata};
use crate::api::platform::metadata::ResourceMetadata;

verus! {

/// A single mirror rule within a MirrorPolicy.
#[derive(Debug, Clone)]
pub struct MirrorPolicyRule {
    /// Source IP group ID, or `"any"` for wildcard.
    pub src_ip_group_id: String,
    /// Destination IP group ID, or `"any"` for wildcard.
    pub dst_ip_group_id: String,
    /// L4 protocol number: 0 = any, 6 = TCP, 17 = UDP.
    pub proto: u8,
    /// Traffic direction: 0 = ingress, 1 = egress.
    pub direction: u8,
    /// Target interface ifindex that receives mirrored packets.
    pub target_ifindex: u32,
    /// Target interface name (informational).
    pub target_iface: String,
    /// If true, rule is written to MIRROR_GLOBAL (ignores src/dst/proto).
    pub is_global: bool,
}

#[derive(Debug, Clone)]
pub struct MirrorPolicySpec {
    /// Owning tenant.
    pub tenant_id: String,
    /// Logical network that owns the policy.
    pub network_id: String,
    /// Human-readable policy name, unique within the network.
    pub name: String,
    /// Mirror rules.
    pub rules: Vec<MirrorPolicyRule>,
}

#[derive(Debug, Clone)]
pub struct MirrorPolicyStatus {
    /// Lifecycle phase.
    pub phase: String,
    /// Number of rules in the policy.
    pub rule_count: usize,
}

#[derive(Debug, Clone)]
pub struct MirrorPolicyResource {
    pub metadata: ResourceMetadata,
    pub spec: MirrorPolicySpec,
    pub status: MirrorPolicyStatus,
}

#[derive(Debug, Clone)]
pub struct MirrorPolicyListResponse {
    pub items: Vec<MirrorPolicyResource>,
    pub next_page_token: Option<String>,
    pub total_count: usize,
}

#[derive(Debug, Clone)]
pub struct CreateMirrorPolicyRequest {
    pub metadata: Option<ResourceCreateMetadata>,
    pub spec: MirrorPolicySpec,
}

#[derive(Debug, Clone)]
pub struct UpdateMirrorPolicyRequest {
    pub metadata: Option<ResourceUpdateMetadata>,
    pub spec: MirrorPolicySpec,
}
} // verus!
