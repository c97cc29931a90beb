use vstd::prelude::*;
use crate::api::platform::metadata::{ResourceCreateMetadata, ResourceUpdateMetadata};
use crate::api::platform::metadata::ResourceMetadata;

verus! {

#[derive(Debug, Clone)]
pub struct BackendTargetSpec {
    /// Stable backend member identifier within the backend set.
    pub id: String,
    /// Backend target form such as `port_ref` or `ip`.
    pub target_type: String,
    /// Optional reference to a platform object such as a Port.
    pub target_ref: Option<String>,
    /// Optional direct IP target for legacy or external backends.
    pub ip: Option<String>,
    /// Optional node hint for cross-node forwarding.
    pub node_id: Option<String>,
    /// Backend service port.
    pub port: u16,
    /// Relative scheduling weight.
    pub weight: u16,
    /// Operator-facing administrative state.
    pub admin_state: Option<String>,
    /// Placement hint for node-local vs cross-node forwarding.
    pub locality: Option<String>,
}

#[derive(Debug, Clone)]
pub struct BackendSetSpec {
    /// Owning tenant for the backend set.
    pub tenant_id: String,
    /// Network scope for the backend set.
    pub network_id: String,
    /// Human-readable backend set name.
    pub name: String,
    /// Optional health check policy reference.
    pub health_check_id: Option<String>,
    /// Backend selection policy such as `round_robin` or `maglev`.
    pub policy: String,
    /// Ordered backend members available to the scheduler.
    pub backends: Vec<BackendTargetSpec>,
}

#[derive(Debug, Clone)]
pub struct BackendSetStatus {
    /// Lifecycle phase as observed by the platform.
    pub phase: String,
    /// Total number of configured backends.
    pub backend_count: usize,
    /// Number of backends currently reported healthy.
    pub healthy_backends: usize,
}

#[derive(Debug, Clone)]
pub struct BackendSetResource {
    pub metadata: ResourceMetadata,
    pub spec: BackendSetSpec,
    pub status: BackendSetStatus,
}

#[derive(Debug, Clone)]
pub struct BackendSetListResponse {
    pub items: Vec<BackendSetResource>,
    pub next_page_token: Option<String>,
    pub total_count: usize,
}

#[derive(Debug, Clone)]
pub struct CreateBackendSetRequest {
    pub metadata: Option<ResourceCreateMetadata>,
    pub spec: BackendSetSpec,
}

#[derive(Debug, Clone)]
pub struct UpdateBackendSetRequest {
    pub metadata: Option<ResourceUpdateMetadata>,
    pub spec: BackendSetSpec,
}
} // verus!
