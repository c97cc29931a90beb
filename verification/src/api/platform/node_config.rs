use vstd::prelude::*;
use crate::api::platform::metadata::{ResourceCreateMetadata, ResourceUpdateMetadata};
use crate::api::platform::metadata::ResourceMetadata;

verus! {

#[derive(Debug, Clone)]
pub struct NodeConfigSpec {
    /// Target node identifier.
    pub node_id: String,
    /// Enable or disable conntrack for the node.
    pub conntrack_enabled: Option<bool>,
    /// Enable or disable monitoring for the node.
    pub monitoring_enabled: Option<bool>,
    /// Enable or disable ACL enforcement for the node.
    pub acl_enabled: Option<bool>,
    /// Enable or disable QoS enforcement for the node.
    pub qos_enabled: Option<bool>,
    /// Enable or disable mirror rule evaluation for the node.
    pub mirror_enabled: Option<bool>,
    /// Enable or disable TCP-RT observability for the node.
    pub tcprt_enabled: Option<bool>,
    /// Enable or disable load-balancing for the node.
    pub lb_enabled: Option<bool>,
    /// Enable or disable SSL observability for the node.
    pub ssl_enabled: Option<bool>,
    /// Conntrack TCP established timeout in nanoseconds.
    pub ct_tcp_established_ns: Option<u64>,
    /// Conntrack TCP new connection timeout in nanoseconds.
    pub ct_tcp_new_ns: Option<u64>,
    /// Conntrack UDP timeout in nanoseconds.
    pub ct_udp_ns: Option<u64>,
    /// Conntrack ICMP timeout in nanoseconds.
    pub ct_icmp_ns: Option<u64>,
}

#[derive(Debug, Clone)]
pub struct NodeConfigStatus {
    /// Lifecycle phase.
    pub phase: String,
}

#[derive(Debug, Clone)]
pub struct NodeConfigResource {
    pub metadata: ResourceMetadata,
    pub spec: NodeConfigSpec,
    pub status: NodeConfigStatus,
}

#[derive(Debug, Clone)]
pub struct NodeConfigListResponse {
    pub items: Vec<NodeConfigResource>,
    pub next_page_token: Option<String>,
    pub total_count: usize,
}

#[derive(Debug, Clone)]
pub struct CreateNodeConfigRequest {
    pub metadata: Option<ResourceCreateMetadata>,
    pub spec: NodeConfigSpec,
}

#[derive(Debug, Clone)]
pub struct UpdateNodeConfigRequest {
    pub metadata: Option<ResourceUpdateMetadata>,
    pub spec: NodeConfigSpec,
}
} // verus!
