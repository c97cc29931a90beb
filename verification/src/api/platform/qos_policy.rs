use vstd::prelude::*;
use crate::api::platform::metadata::{ResourceCreateMetadata, ResourceUpdateMetadata};
use crate::api::platform::metadata::ResourceMetadata;

verus! {

/// A single QoS rate-limit rule within a QosPolicy.
#[derive(Debug, Clone)]
pub struct QosPolicyRule {
    /// IP group ID (references an IpGroup in the same network).
    pub ip_group_id: String,
    /// Direction: 0 = ingress, 1 = egress.
    pub direction: u8,
    /// Rate limit in bits per second.
    pub rate_bps: u64,
    /// Burst size in bytes.
    pub burst_bytes: u64,
    /// Priority level (lower = higher priority).
    pub priority: u8,
    /// Mode: 0 = policing (drop), 1 = shaping (delay).
    pub mode: u8,
}

#[derive(Debug, Clone)]
pub struct QosPolicySpec {
    /// Owning tenant.
    pub tenant_id: String,
    /// Logical network that owns the policy.
    pub network_id: String,
    /// Human-readable policy name, unique within the network.
    pub name: String,
    /// Ordered list of QoS rate-limit rules.
    pub rules: Vec<QosPolicyRule>,
}

#[derive(Debug, Clone)]
pub struct QosPolicyStatus {
    /// Lifecycle phase.
    pub phase: String,
    /// Number of rules in the policy.
    pub rule_count: usize,
}

#[derive(Debug, Clone)]
pub struct QosPolicyResource {
    pub metadata: ResourceMetadata,
    pub spec: QosPolicySpec,
    pub status: QosPolicyStatus,
}

#[derive(Debug, Clone)]
pub struct QosPolicyListResponse {
    pub items: Vec<QosPolicyResource>,
    pub next_page_token: Option<String>,
    pub total_count: usize,
}

#[derive(Debug, Clone)]
pub struct CreateQosPolicyRequest {
    pub metadata: Option<ResourceCreateMetadata>,
    pub spec: QosPolicySpec,
}

#[derive(Debug, Clone)]
pub struct UpdateQosPolicyRequest {
    pub metadata: Option<ResourceUpdateMetadata>,
    pub spec: QosPolicySpec,
}
} // verus!
