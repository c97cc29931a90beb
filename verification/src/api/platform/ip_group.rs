use vstd::prelude::*;
use crate::api::platform::metadata::{ResourceCreateMetadata, ResourceUpdateMetadata};
use crate::api::platform::metadata::ResourceMetadata;

verus! {

#[derive(Debug, Clone)]
pub struct IpGroupSpec {
    /// Owning tenant.
    pub tenant_id: String,
    /// Logical network that owns the group.
    pub network_id: String,
    /// Human-readable group name, unique within the network.
    pub name: String,
    /// CIDR prefixes belonging to this group.
    pub cidrs: Vec<String>,
}

#[derive(Debug, Clone)]
pub struct IpGroupStatus {
    /// Lifecycle phase.
    pub phase: String,
    /// Number of CIDR prefixes in the group.
    pub cidr_count: usize,
}

#[derive(Debug, Clone)]
pub struct IpGroupResource {
    pub metadata: ResourceMetadata,
    pub spec: IpGroupSpec,
    pub status: IpGroupStatus,
}

#[derive(Debug, Clone)]
pub struct IpGroupListResponse {
    pub items: Vec<IpGroupResource>,
    pub next_page_token: Option<String>,
    pub total_count: usize,
}

#[derive(Debug, Clone)]
pub struct CreateIpGroupRequest {
    pub metadata: Option<ResourceCreateMetadata>,
    pub spec: IpGroupSpec,
}

#[derive(Debug, Clone)]
pub struct UpdateIpGroupRequest {
    pub metadata: Option<ResourceUpdateMetadata>,
    pub spec: IpGroupSpec,
}
} // verus!
