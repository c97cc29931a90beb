use vstd::prelude::*;
use crate::api::platform::metadata::{ResourceCreateMetadata, ResourceUpdateMetadata};
use std::collections::BTreeMap;
use crate::api::platform::metadata::ResourceMetadata;

verus! {

#[derive(Debug, Clone)]
pub struct TenantSpec {
    /// Human-readable tenant name.
    pub name: String,
    /// Optional tenant description.
    pub description: Option<String>,
    /// Optional quota hints enforced by higher-level control logic.
    pub quotas: BTreeMap<String, u64>,
}

#[derive(Debug, Clone)]
pub struct TenantStatus {
    /// Lifecycle phase as observed by the controller.
    pub phase: String,
}

#[derive(Debug, Clone)]
pub struct TenantResource {
    pub metadata: ResourceMetadata,
    pub spec: TenantSpec,
    pub status: TenantStatus,
}

#[derive(Debug, Clone)]
pub struct TenantListResponse {
    pub items: Vec<TenantResource>,
    pub next_page_token: Option<String>,
    pub total_count: usize,
}

#[derive(Debug, Clone)]
pub struct CreateTenantRequest {
    pub metadata: Option<ResourceCreateMetadata>,
    pub spec: TenantSpec,
}

#[derive(Debug, Clone)]
pub struct UpdateTenantRequest {
    pub metadata: Option<ResourceUpdateMetadata>,
    pub spec: TenantSpec,
}
} // verus!
