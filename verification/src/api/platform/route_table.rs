use vstd::prelude::*;
use crate::api::platform::metadata::{ResourceCreateMetadata, ResourceUpdateMetadata};
use crate::api::platform::metadata::ResourceMetadata;

verus! {

#[derive(Debug, Clone)]
pub struct RouteSpec {
    /// Destination prefix.
    pub destination: String,
    /// Next hop type such as `local`, `node`, `gateway`, or `service`.
    pub next_hop_type: String,
    /// Identifier or opaque reference to the selected next hop.
    pub next_hop_ref: String,
    /// Route preference within the table.
    pub preference: u32,
    /// Optional route scope.
    pub scope: Option<String>,
    /// Optional status string for precomputed entries.
    pub status: Option<String>,
}

#[derive(Debug, Clone)]
pub struct RouteTableSpec {
    /// Logical network identifier that owns the table.
    pub network_id: String,
    /// Human-readable route table name.
    pub name: String,
    /// Statically configured routes.
    pub routes: Vec<RouteSpec>,
    /// Optional default route reference.
    pub default_route: Option<String>,
}

#[derive(Debug, Clone)]
pub struct RouteTableStatus {
    /// Lifecycle phase as observed by the platform.
    pub phase: String,
}

#[derive(Debug, Clone)]
pub struct RouteTableResource {
    pub metadata: ResourceMetadata,
    pub spec: RouteTableSpec,
    pub status: RouteTableStatus,
}

#[derive(Debug, Clone)]
pub struct RouteTableListResponse {
    pub items: Vec<RouteTableResource>,
    pub next_page_token: Option<String>,
    pub total_count: usize,
}

#[derive(Debug, Clone)]
pub struct CreateRouteTableRequest {
    pub metadata: Option<ResourceCreateMetadata>,
    pub spec: RouteTableSpec,
}

#[derive(Debug, Clone)]
pub struct UpdateRouteTableRequest {
    pub metadata: Option<ResourceUpdateMetadata>,
    pub spec: RouteTableSpec,
}
} // verus!
