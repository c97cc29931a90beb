use vstd::prelude::*;
use std::collections::BTreeMap;
use crate::api::platform::metadata::{ResourceCreateMetadata, ResourceMetadata, ResourceUpdateMetadata};
use crate::api::southbound::{DesiredStatePublishRecord, SouthboundSyncStatus};

verus! {

#[derive(Debug, Clone)]
pub struct NodeSpec {
    /// Human-readable node name.
    pub name: String,
    /// Management address used for controller-to-agent coordination.
    pub mgmt_address: String,
    /// Availability zone or fault domain label.
    pub az: Option<String>,
}

#[derive(Debug, Clone)]
pub struct CreateNodeRequest {
    pub metadata: Option<ResourceCreateMetadata>,
    pub spec: NodeSpec,
}

#[derive(Debug, Clone)]
pub struct UpdateNodeRequest {
    pub metadata: Option<ResourceUpdateMetadata>,
    pub spec: NodeSpec,
}
/// What the platform knows of a node's agent and its sync progress.
#[derive(Debug, Clone)]
pub struct NodeStatus {
    /// Lifecycle phase as reported by the platform.
    pub phase: String,
    /// Currently observed agent version.
    pub agent_version: Option<String>,
    /// Observed kernel version.
    pub kernel_version: Option<String>,
    /// Datapath capabilities surfaced by the node.
    pub capabilities: Vec<String>,
    /// Latest controller desired-state generation visible in the node view.
    pub desired_generation: Option<String>,
    /// Most recently applied generation reported by the node.
    pub last_applied_generation: Option<String>,
    /// Last southbound observation timestamp for this node.
    pub last_seen_at: Option<String>,
    /// Last reconcile timestamp reported by the agent health heartbeat.
    pub last_reconcile_at: Option<String>,
    /// Sticky runtime error, if any, surfaced by the node health report.
    pub last_error: Option<String>,
    /// Latest lightweight publish summary mirrored from the southbound state plane.
    pub last_publish_summary: Option<DesiredStatePublishRecord>,
    /// Lightweight per-kind object counts that still need reconcile for the current desired generation.
    pub pending_object_counts: BTreeMap<String, usize>,
    /// Lightweight per-kind change summary derived from pending reconcile work for the current generation.
    pub changed_kinds: Vec<String>,
    /// Whether the current desired generation includes explicit deletes.
    pub has_deletes: bool,
    /// Derived controller-side sync summary mirrored from the southbound status plane.
    pub sync_status: Option<SouthboundSyncStatus>,
}

#[derive(Debug, Clone)]
pub struct NodeResource {
    pub metadata: ResourceMetadata,
    pub spec: NodeSpec,
    pub status: NodeStatus,
}

#[derive(Debug, Clone)]
pub struct NodeListResponse {
    pub items: Vec<NodeResource>,
    pub next_page_token: Option<String>,
    pub total_count: usize,
}

} // verus!
