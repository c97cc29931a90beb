//! Southbound (controller to node agent) types that the planner reads.
use vstd::prelude::*;
use std::collections::BTreeMap;
use crate::api::platform::backend_set::BackendSetResource;
use crate::api::platform::health_check::HealthCheckResource;
use crate::api::platform::ip_group::IpGroupResource;
use crate::api::platform::network::NetworkResource;
use crate::api::platform::network_policy::NetworkPolicyResource;
use crate::api::platform::port::PortResource;
use crate::api::platform::qos_policy::QosPolicyResource;
use crate::api::platform::route_table::RouteTableResource;
use crate::api::platform::security_group::SecurityGroupResource;
use crate::api::platform::service::ServiceResource;
use crate::api::platform::tenant::TenantResource;

verus! {

/// An object of the desired state that a node could not apply, and why.
#[derive(Debug, Clone)]
pub struct ApplyObjectFailure {
    pub resource_kind: String,
    pub id: String,
    pub reason: String,
}

/// What a node's datapath can do, as reported to the controller.
#[derive(Debug, Clone)]
pub struct NodeCapability {
    /// Attach hooks the node supports (such as `xdp` and `tc`).
    pub supported_hooks: Vec<String>,
    pub supports_xdp: bool,
    pub supports_tc: bool,
    pub supports_socket_lb: bool,
    pub supports_trace_ringbuf: bool,
    pub supports_nat: bool,
    pub supports_lb: bool,
    pub supports_encap: bool,
    pub supports_qos_shaping: bool,
    /// Numeric limits, as name and value, such as `max_port_policies`.
    pub limits: Vec<(String, u64)>,
    /// Observability level: `full` or `standard`.
    pub observability_profile: Option<String>,
}

/// The desired state that the controller hands a node: every resource the
/// node should hold, at one generation.
#[derive(Debug, Clone)]
pub struct DesiredStateEnvelope {
    pub generation: String,
    pub issued_at: String,
    /// Whether this envelope replaces all earlier state.
    pub full_sync: bool,
    pub tenants: Vec<TenantResource>,
    pub networks: Vec<NetworkResource>,
    pub security_groups: Vec<SecurityGroupResource>,
    pub health_checks: Vec<HealthCheckResource>,
    pub ports: Vec<PortResource>,
    pub services: Vec<ServiceResource>,
    pub backend_sets: Vec<BackendSetResource>,
    pub route_tables: Vec<RouteTableResource>,
    pub ip_groups: Vec<IpGroupResource>,
    pub network_policies: Vec<NetworkPolicyResource>,
    pub qos_policies: Vec<QosPolicyResource>,
}

/// What the controller last published to a node: its generation, when,
/// whether it was a full sync, and how many objects of each kind it held.
#[derive(Debug, Clone)]
pub struct DesiredStatePublishRecord {
    pub generation: String,
    pub issued_at: String,
    pub full_sync: bool,
    pub object_counts: BTreeMap<String, usize>,
}

/// The controller's summary of whether a node is in sync with its desired
/// state.
#[derive(Debug, Clone)]
pub struct SouthboundSyncStatus {
    /// Sync state, such as `in_sync`.
    pub state: String,
    pub reconcile_required: bool,
    pub reasons: Vec<String>,
}

} // verus!
