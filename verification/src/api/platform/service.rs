use vstd::prelude::*;
use crate::api::platform::metadata::{ResourceCreateMetadata, ResourceUpdateMetadata};
use crate::api::platform::metadata::ResourceMetadata;

verus! {

#[derive(Debug, Clone)]
pub struct ServicePortSpec {
    /// Optional listener name for multi-port services.
    pub name: Option<String>,
    /// Frontend service port exposed on the VIP.
    pub port: u16,
    /// Optional backend target port override.
    pub target_port: Option<u16>,
}

#[derive(Debug, Clone)]
pub struct ServiceSpec {
    /// Owning tenant for the service.
    pub tenant_id: String,
    /// Network scope for the VIP.
    pub network_id: String,
    /// Human-readable service name.
    pub name: String,
    /// Virtual IP exposed by the service.
    pub vip: String,
    /// Service protocol, initially `tcp` or `udp`.
    pub protocol: String,
    /// Listener ports exposed by the service.
    pub ports: Vec<ServicePortSpec>,
    /// Optional backend set reference bound to the VIP.
    pub backend_set_id: Option<String>,
    /// Optional session affinity policy.
    pub session_affinity: Option<String>,
    /// Load-balancing policy used by the service.
    pub lb_policy: String,
    /// Exposure type such as `internal` or `floating-ip-backed`.
    pub exposure_type: String,
}

#[derive(Debug, Clone)]
pub struct ServiceStatus {
    /// Lifecycle phase as observed by the platform.
    pub phase: String,
    /// Current exposure state for the VIP.
    pub exposure_state: Option<String>,
}

#[derive(Debug, Clone)]
pub struct ServiceResource {
    pub metadata: ResourceMetadata,
    pub spec: ServiceSpec,
    pub status: ServiceStatus,
}

#[derive(Debug, Clone)]
pub struct ServiceListResponse {
    pub items: Vec<ServiceResource>,
    pub next_page_token: Option<String>,
    pub total_count: usize,
}

#[derive(Debug, Clone)]
pub struct CreateServiceRequest {
    pub metadata: Option<ResourceCreateMetadata>,
    pub spec: ServiceSpec,
}

#[derive(Debug, Clone)]
pub struct UpdateServiceRequest {
    pub metadata: Option<ResourceUpdateMetadata>,
    pub spec: ServiceSpec,
}
} // verus!
