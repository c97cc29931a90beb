use vstd::prelude::*;
use crate::api::platform::metadata::{ResourceCreateMetadata, ResourceUpdateMetadata};
use crate::api::platform::metadata::ResourceMetadata;

verus! {

#[derive(Debug, Clone)]
pub struct HealthCheckSpec {
    /// Owning tenant for the health check policy.
    pub tenant_id: String,
    /// Optional network scope. Omit for tenant-global reusable checks.
    pub network_id: Option<String>,
    /// Human-readable health check name.
    pub name: String,
    /// Active probe protocol.
    pub protocol: String,
    /// Probe interval in seconds.
    pub interval_seconds: u32,
    /// Probe timeout in seconds.
    pub timeout_seconds: u32,
    /// Consecutive successes required to mark a backend healthy.
    pub healthy_threshold: u32,
    /// Consecutive failures required to mark a backend unhealthy.
    pub unhealthy_threshold: u32,
    /// Optional override target port for the probe.
    pub target_port: Option<u16>,
    /// Optional request template for future HTTP/TLS probes.
    pub request_template: Option<String>,
}

#[derive(Debug, Clone)]
pub struct HealthCheckStatus {
    /// Lifecycle phase as observed by the platform.
    pub phase: String,
}

#[derive(Debug, Clone)]
pub struct HealthCheckResource {
    pub metadata: ResourceMetadata,
    pub spec: HealthCheckSpec,
    pub status: HealthCheckStatus,
}

#[derive(Debug, Clone)]
pub struct HealthCheckListResponse {
    pub items: Vec<HealthCheckResource>,
    pub next_page_token: Option<String>,
    pub total_count: usize,
}

#[derive(Debug, Clone)]
pub struct CreateHealthCheckRequest {
    pub metadata: Option<ResourceCreateMetadata>,
    pub spec: HealthCheckSpec,
}

#[derive(Debug, Clone)]
pub struct UpdateHealthCheckRequest {
    pub metadata: Option<ResourceUpdateMetadata>,
    pub spec: HealthCheckSpec,
}
} // verus!
