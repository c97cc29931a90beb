use vstd::prelude::*;
use crate::api::platform::metadata::{ResourceCreateMetadata, ResourceUpdateMetadata};
use crate::api::platform::metadata::ResourceMetadata;

verus! {

#[derive(Debug, Clone)]
pub struct NetworkSpec {
    /// Owning tenant identifier.
    pub tenant_id: String,
    /// Human-readable network name.
    pub name: String,
    /// Network mode such as `l2`, `l3`, or `overlay`.
    pub network_type: String,
    /// Whether IPv4 addressing is enabled.
    pub ipv4_enabled: bool,
    /// Whether IPv6 addressing is enabled.
    pub ipv6_enabled: bool,
    /// Route execution mode such as `native`, `overlay`, or `hybrid`.
    pub route_mode: String,
}

#[derive(Debug, Clone)]
pub struct NetworkStatus {
    /// Lifecycle phase as observed by the platform.
    pub phase: String,
}

#[derive(Debug, Clone)]
pub struct NetworkResource {
    pub metadata: ResourceMetadata,
    pub spec: NetworkSpec,
    pub status: NetworkStatus,
}

#[derive(Debug, Clone)]
pub struct NetworkListResponse {
    pub items: Vec<NetworkResource>,
    pub next_page_token: Option<String>,
    pub total_count: usize,
}

#[derive(Debug, Clone)]
pub struct CreateNetworkRequest {
    pub metadata: Option<ResourceCreateMetadata>,
    pub spec: NetworkSpec,
}

#[derive(Debug, Clone)]
pub struct UpdateNetworkRequest {
    pub metadata: Option<ResourceUpdateMetadata>,
    pub spec: NetworkSpec,
}
} // verus!
