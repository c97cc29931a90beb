//! Platform (controller-facing) resource types.
use vstd::prelude::*;
use std::collections::BTreeMap;

pub mod backend_set;
pub mod diagnose;
pub mod event;
pub mod health_check;
pub mod ip_group;
pub mod metadata;
pub mod mirror_policy;
pub mod network;
pub mod network_policy;
pub mod node;
pub mod node_config;
pub mod observe;
pub mod port;
pub mod qos_policy;
pub mod query_types;
pub mod route_table;
pub mod security_group;
pub mod service;
pub mod service_chain;
pub mod tenant;

verus! {

/// Error body returned by the platform API.
#[derive(Debug, Clone)]
pub struct PlatformApiError {
    /// Stable machine-readable error code.
    pub code: String,
    /// Human-readable error safe to display to operators.
    pub message: String,
    /// Optional request identifier propagated by the platform.
    pub request_id: Option<String>,
    /// Optional machine-readable context for callers and audits.
    pub details: Option<BTreeMap<String, String>>,
}

/// Controller health summary.
#[derive(Debug, Clone)]
pub struct ControllerHealthResponse {
    /// Overall controller health.
    pub status: String,
    /// Service name reporting the status.
    pub service: String,
    /// Controller version string.
    pub version: String,
    /// Current in-memory object counts by resource kind.
    pub resource_kinds: BTreeMap<String, usize>,
}

} // verus!
