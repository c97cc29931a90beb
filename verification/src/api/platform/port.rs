use vstd::prelude::*;
use crate::api::platform::metadata::{ResourceCreateMetadata, ResourceUpdateMetadata};
use crate::api::platform::metadata::ResourceMetadata;

verus! {

#[derive(Debug, Clone)]
pub struct PortSpec {
    /// Owning tenant identifier.
    pub tenant_id: String,
    /// Logical network identifier the port belongs to.
    pub network_id: String,
    /// Optional segment identifier under the network.
    pub segment_id: Option<String>,
    /// Optional bound instance identifier.
    pub instance_id: Option<String>,
    /// Optional hosting node identifier.
    pub node_id: Option<String>,
    /// Port MAC address.
    pub mac_address: String,
    /// Fixed addresses assigned to the port.
    pub fixed_ips: Vec<String>,
    /// Attached security groups.
    pub security_group_ids: Vec<String>,
    /// Additional addresses allowed beyond the fixed set.
    pub allowed_address_pairs: Vec<String>,
    /// Whether anti-spoof protection is enabled.
    pub anti_spoof_enabled: bool,
    /// Administrative up/down state.
    pub admin_state_up: bool,
}

#[derive(Debug, Clone)]
pub struct PortStatus {
    /// Lifecycle phase as observed by the platform.
    pub phase: String,
    /// High-level attachment state for the port.
    pub attachment_state: Option<String>,
}

#[derive(Debug, Clone)]
pub struct PortResource {
    pub metadata: ResourceMetadata,
    pub spec: PortSpec,
    pub status: PortStatus,
}

#[derive(Debug, Clone)]
pub struct PortListResponse {
    pub items: Vec<PortResource>,
    pub next_page_token: Option<String>,
    pub total_count: usize,
}

#[derive(Debug, Clone)]
pub struct CreatePortRequest {
    pub metadata: Option<ResourceCreateMetadata>,
    pub spec: PortSpec,
}

#[derive(Debug, Clone)]
pub struct UpdatePortRequest {
    pub metadata: Option<ResourceUpdateMetadata>,
    pub spec: PortSpec,
}
} // verus!
