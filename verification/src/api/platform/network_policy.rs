use vstd::prelude::*;
use crate::api::platform::metadata::{ResourceCreateMetadata, ResourceUpdateMetadata};
use crate::api::platform::metadata::ResourceMetadata;

verus! {

/// A single ACL rule within a NetworkPolicy.
#[derive(Debug, Clone)]
pub struct NetworkPolicyRule {
    /// Source IP group ID (references an IpGroup in the same network).
    pub src_ip_group_id: String,
    /// Destination IP group ID (references an IpGroup in the same network).
    pub dst_ip_group_id: String,
    /// Protocol: 0 = wildcard, 6 = TCP, 17 = UDP, 1 = ICMP.
    pub proto: u8,
    /// Direction: 0 = ingress, 1 = egress.
    pub direction: u8,
    /// Action: 0 = allow, 1 = deny.
    pub action: u8,
    /// Port filter expression, e.g. "80,443" or "1000-2000". None = all ports.
    pub ports: Option<String>,
}

#[derive(Debug, Clone)]
pub struct NetworkPolicySpec {
    /// Owning tenant.
    pub tenant_id: String,
    /// Logical network that owns the policy.
    pub network_id: String,
    /// Human-readable policy name, unique within the network.
    pub name: String,
    /// Ordered list of ACL rules.
    pub rules: Vec<NetworkPolicyRule>,
}

#[derive(Debug, Clone)]
pub struct NetworkPolicyStatus {
    /// Lifecycle phase.
    pub phase: String,
    /// Number of rules in the policy.
    pub rule_count: usize,
}

#[derive(Debug, Clone)]
pub struct NetworkPolicyResource {
    pub metadata: ResourceMetadata,
    pub spec: NetworkPolicySpec,
    pub status: NetworkPolicyStatus,
}

#[derive(Debug, Clone)]
pub struct NetworkPolicyListResponse {
    pub items: Vec<NetworkPolicyResource>,
    pub next_page_token: Option<String>,
    pub total_count: usize,
}

#[derive(Debug, Clone)]
pub struct CreateNetworkPolicyRequest {
    pub metadata: Option<ResourceCreateMetadata>,
    pub spec: NetworkPolicySpec,
}

#[derive(Debug, Clone)]
pub struct UpdateNetworkPolicyRequest {
    pub metadata: Option<ResourceUpdateMetadata>,
    pub spec: NetworkPolicySpec,
}
} // verus!
