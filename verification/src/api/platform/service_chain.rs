use vstd::prelude::*;
use crate::api::platform::metadata::{ResourceCreateMetadata, ResourceUpdateMetadata};
use crate::api::platform::metadata::ResourceMetadata;

verus! {

/// A single tap binding within a service chain hop.
#[derive(Debug, Clone)]
pub struct ServiceChainTapBinding {
    /// Tap interface name.
    pub tap: String,
    /// Tap role: "in", "out", or "bidirectional".
    pub role: String,
}

/// A single hop within a service chain.
#[derive(Debug, Clone)]
pub struct ServiceChainHop {
    /// Hop name.
    pub name: String,
    /// Hop type: "bridge" or "proxy".
    pub hop_type: String,
    /// Tap bindings associated with the hop.
    pub taps: Vec<ServiceChainTapBinding>,
}

#[derive(Debug, Clone)]
pub struct ServiceChainSpec {
    /// Owning tenant.
    pub tenant_id: String,
    /// Logical network that owns the service chain.
    pub network_id: String,
    /// Human-readable service chain name, unique within the network.
    pub name: String,
    /// Optional operator-facing description.
    pub description: String,
    /// Ordered list of hops in the chain.
    pub hops: Vec<ServiceChainHop>,
}

#[derive(Debug, Clone)]
pub struct ServiceChainStatus {
    /// Lifecycle phase.
    pub phase: String,
    /// Number of hops in the chain.
    pub hop_count: usize,
}

#[derive(Debug, Clone)]
pub struct ServiceChainResource {
    pub metadata: ResourceMetadata,
    pub spec: ServiceChainSpec,
    pub status: ServiceChainStatus,
}

#[derive(Debug, Clone)]
pub struct ServiceChainListResponse {
    pub items: Vec<ServiceChainResource>,
    pub next_page_token: Option<String>,
    pub total_count: usize,
}

#[derive(Debug, Clone)]
pub struct CreateServiceChainRequest {
    pub metadata: Option<ResourceCreateMetadata>,
    pub spec: ServiceChainSpec,
}

#[derive(Debug, Clone)]
pub struct UpdateServiceChainRequest {
    pub metadata: Option<ResourceUpdateMetadata>,
    pub spec: ServiceChainSpec,
}
} // verus!
