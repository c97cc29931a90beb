//! Intermediate representation of a node's compiled desired state and of
//! the shadow plans, inventories and summaries derived from it.
use vstd::prelude::*;

verus! {

#[derive(Debug, Clone)]
pub struct CompiledPortBinding {
    pub port_id: String,
    pub tenant_id: String,
    pub network_id: String,
    pub segment_id: Option<String>,
    pub security_group_ids: Vec<String>,
    pub fixed_ips: Vec<String>,
    pub allowed_address_pairs: Vec<String>,
    pub mac_address: String,
    pub anti_spoof_enabled: bool,
    pub admin_state_up: bool,
}

#[derive(Debug, Clone)]
pub struct AntiSpoofIr {
    pub address: [u8; 16],
    pub flags: u8,
}

#[derive(Debug, Clone)]
pub struct PortIdentityIr {
    pub port_id: String,
    pub network_id: String,
    pub tap_id: u32,
    pub ifindex: u32,
    pub sg_program_id: u32,
    pub tenant_local_id: u32,
    pub network_local_id: u32,
    pub segment_local_id: u32,
    pub mac: [u8; 6],
    pub primary_ipv4: u32,
    pub primary_ipv6: [u8; 16],
    pub anti_spoof_enabled: bool,
    pub anti_spoof_entries: Vec<AntiSpoofIr>,
    pub shadow_apply_only: bool,
}

#[derive(Debug, Clone)]
pub struct CompiledRouteTableView {
    pub route_table_id: String,
    pub network_id: String,
    pub route_count: usize,
    pub default_route: Option<String>,
}

#[derive(Debug, Clone)]
pub struct RouteIr {
    pub route_table_id: String,
    pub port_id: String,
    pub tap_id: u32,
    pub destination: [u8; 16],
    pub prefix_len: u8,
    pub is_ipv6: bool,
    pub next_hop_type: u8,
    pub next_hop_ref: String,
    pub next_hop_ip: [u8; 16],
    pub egress_ifindex: u32,
    pub route_id: u16,
    pub priority: u8,
    pub shadow_apply_only: bool,
}

#[derive(Debug, Clone)]
pub struct IpGroupIr {
    pub ip_group_id: String,
    pub numeric_id: u32,
    pub network_id: String,
    pub cidrs: Vec<IpGroupCidrIr>,
    pub shadow_apply_only: bool,
}

#[derive(Debug, Clone)]
pub struct IpGroupCidrIr {
    pub cidr: String,
    pub is_ipv6: bool,
    pub address: [u8; 16],
    pub prefix_len: u8,
}

#[derive(Debug, Clone)]
pub struct NetworkPolicyIr {
    pub policy_id: String,
    pub network_id: String,
    pub rules: Vec<NetworkPolicyRuleIr>,
    pub shadow_apply_only: bool,
}

#[derive(Debug, Clone)]
pub struct NetworkPolicyRuleIr {
    pub src_numeric_id: u32,
    pub dst_numeric_id: u32,
    pub proto: u8,
    pub direction: u8,
    pub action: u8,
    pub ports: Option<String>,
}

#[derive(Debug, Clone)]
pub struct QosPolicyIr {
    pub policy_id: String,
    pub network_id: String,
    pub rules: Vec<QosPolicyRuleIr>,
    pub shadow_apply_only: bool,
}

#[derive(Debug, Clone)]
pub struct QosPolicyRuleIr {
    pub ip_group_numeric_id: u32,
    pub direction: u8,
    pub rate_bps: u64,
    pub burst_bytes: u64,
    pub priority: u8,
    pub mode: u8,
}

#[derive(Debug, Clone)]
pub struct MirrorPolicyIr {
    pub policy_id: String,
    pub network_id: String,
    pub rules: Vec<MirrorPolicyRuleIr>,
    pub shadow_apply_only: bool,
}

#[derive(Debug, Clone)]
pub struct MirrorPolicyRuleIr {
    pub src_numeric_id: u32,
    pub dst_numeric_id: u32,
    pub proto: u8,
    pub direction: u8,
    pub target_ifindex: u32,
    pub is_global: bool,
}

#[derive(Debug, Clone)]
pub struct SgRuleIr {
    pub port_id: String,
    pub tap_id: u32,
    pub sg_program_id: u32,
    pub source_security_group_id: String,
    pub direction: u8,
    pub proto: u8,
    pub remote_prefix: [u8; 16],
    pub prefix_len: u8,
    pub action: u8,
    pub priority: u8,
    pub port_start: u16,
    pub port_end: u16,
    pub rule_id: u16,
    pub shadow_apply_only: bool,
}

#[derive(Debug, Clone)]
pub struct CompiledHealthCheckView {
    pub health_check_id: String,
    pub tenant_id: String,
    pub network_id: Option<String>,
    pub protocol: String,
    pub target_port: Option<u16>,
}

#[derive(Debug, Clone)]
pub struct CompiledBackendSetView {
    pub backend_set_id: String,
    pub tenant_id: String,
    pub network_id: String,
    pub health_check_id: Option<String>,
    pub policy: String,
    pub backend_count: usize,
    pub local_backend_count: usize,
    pub remote_backend_count: usize,
}

#[derive(Debug, Clone)]
pub struct CompiledServiceView {
    pub service_id: String,
    pub tenant_id: String,
    pub network_id: String,
    pub backend_set_id: Option<String>,
    pub vip: String,
    pub protocol: String,
    pub port_count: usize,
    pub exposure_type: String,
}

#[derive(Debug, Clone)]
pub struct HealthCheckIr {
    pub health_check_id: String,
    pub tenant_id: String,
    pub network_id: Option<String>,
    pub probe_protocol: String,
    pub interval_seconds: u32,
    pub timeout_seconds: u32,
    pub healthy_threshold: u32,
    pub unhealthy_threshold: u32,
    pub target_port: Option<u16>,
    pub has_request_template: bool,
    pub shadow_apply_only: bool,
}

#[derive(Debug, Clone)]
pub struct BackendMemberIr {
    pub backend_id: String,
    pub target_type: String,
    pub target_ref: Option<String>,
    pub resolved_ip_hint: Option<String>,
    pub service_port: u16,
    pub weight: u16,
    pub admin_state: String,
    pub node_id: Option<String>,
    pub declared_locality: Option<String>,
    pub resolved_locality: String,
    pub forwarding_scope: String,
    pub resolution: String,
    pub shadow_apply_only: bool,
}

#[derive(Debug, Clone)]
pub struct BackendSetIr {
    pub backend_set_id: String,
    pub tenant_id: String,
    pub network_id: String,
    pub selection_policy: String,
    pub health_check_id: Option<String>,
    pub local_backend_count: usize,
    pub remote_backend_count: usize,
    pub backends: Vec<BackendMemberIr>,
    pub shadow_apply_only: bool,
}

#[derive(Debug, Clone)]
pub struct ServiceFrontendPortIr {
    pub name: Option<String>,
    pub service_port: u16,
    pub target_port: Option<u16>,
}

#[derive(Debug, Clone)]
pub struct ServiceFrontendIr {
    pub service_id: String,
    pub tenant_id: String,
    pub network_id: String,
    pub route_mode: String,
    pub vip: String,
    pub protocol: String,
    pub lb_policy: String,
    pub session_affinity: Option<String>,
    pub exposure_type: String,
    pub forwarding_mode: String,
    pub listener_ports: Vec<ServiceFrontendPortIr>,
    pub node_local_forwarding: bool,
    pub cross_node_forwarding: bool,
    pub shadow_apply_only: bool,
}

#[derive(Debug, Clone)]
pub struct ServiceProgramIr {
    pub service_id: String,
    pub backend_set_id: Option<String>,
    pub health_check_id: Option<String>,
    pub frontend: ServiceFrontendIr,
    pub backend_set: Option<BackendSetIr>,
    pub health_check: Option<HealthCheckIr>,
    pub shadow_apply_only: bool,
}

#[derive(Debug, Clone)]
pub struct CompileDomainSummary {
    pub domain: String,
    pub input_objects: usize,
    pub compiled_objects: usize,
    pub failed_objects: usize,
    pub status: String,
    pub shadow_apply_only: bool,
}

#[derive(Debug, Clone)]
pub struct CompiledNodeState {
    pub generation: String,
    pub compiler_version: String,
    pub node_id: String,
    pub capability_profile: String,
    pub full_sync: bool,
    pub issued_at: String,
    pub tenant_ids: Vec<String>,
    pub network_ids: Vec<String>,
    pub security_group_ids: Vec<String>,
    pub port_bindings: Vec<CompiledPortBinding>,
    pub port_identities: Vec<PortIdentityIr>,
    pub route_tables: Vec<CompiledRouteTableView>,
    pub route_entries: Vec<RouteIr>,
    pub sg_rules: Vec<SgRuleIr>,
    pub ip_groups: Vec<IpGroupIr>,
    pub network_policies: Vec<NetworkPolicyIr>,
    pub qos_policies: Vec<QosPolicyIr>,
    pub mirror_policies: Vec<MirrorPolicyIr>,
    pub health_checks: Vec<CompiledHealthCheckView>,
    pub backend_sets: Vec<CompiledBackendSetView>,
    pub services: Vec<CompiledServiceView>,
    pub service_programs: Vec<ServiceProgramIr>,
    pub domain_summaries: Vec<CompileDomainSummary>,
    pub warnings: Vec<String>,
    pub degraded_reasons: Vec<String>,
    pub compiled_at: String,
    pub shadow_apply_only: bool,
}

#[derive(Debug, Clone)]
pub struct ReconcileAction {
    pub domain: String,
    pub operation: String,
    pub object_count: usize,
}

#[derive(Debug, Clone)]
pub struct ReconcilePlan {
    pub generation: String,
    pub previous_generation: Option<String>,
    pub compiled_at: String,
    pub full_reconcile: bool,
    pub changed_kinds: Vec<String>,
    pub actions: Vec<ReconcileAction>,
    pub warnings: Vec<String>,
    pub shadow_apply_only: bool,
}

#[derive(Debug, Clone)]
pub struct AttachBindingPlan {
    pub hook_family: String,
    pub scope: String,
    pub operation: String,
    pub object_count: usize,
}

#[derive(Debug, Clone)]
pub struct AttachPlan {
    pub generation: String,
    pub compiled_at: String,
    pub required_hooks: Vec<String>,
    pub bindings: Vec<AttachBindingPlan>,
    pub required_qdisc: Vec<String>,
    pub shadow_apply_only: bool,
}

#[derive(Debug, Clone)]
pub struct MapPlanEntry {
    pub map_family: String,
    pub operation: String,
    pub object_count: usize,
}

#[derive(Debug, Clone)]
pub struct MapPlan {
    pub generation: String,
    pub compiled_at: String,
    pub entries: Vec<MapPlanEntry>,
    pub shadow_apply_only: bool,
}

#[derive(Debug, Clone)]
pub struct RuntimePlan {
    pub generation: String,
    pub compiled_at: String,
    pub attach_plan: AttachPlan,
    pub map_plan: MapPlan,
    pub shadow_apply_only: bool,
}

#[derive(Debug, Clone)]
pub struct RuntimeInventoryAttach {
    pub domain: String,
    pub hook_family: String,
    pub scope: String,
    pub operation: String,
    pub object_count: usize,
}

#[derive(Debug, Clone)]
pub struct RuntimeInventoryMapEntry {
    pub domain: String,
    pub map_family: String,
    pub operation: String,
    pub object_count: usize,
}

#[derive(Debug, Clone)]
pub struct RuntimeInventoryDomainSummary {
    pub domain: String,
    pub compiled_objects: usize,
    pub failed_objects: usize,
    pub attach_operations: usize,
    pub map_operations: usize,
    pub status: String,
    pub shadow_apply_only: bool,
}

#[derive(Debug, Clone)]
pub struct RuntimeInventory {
    pub generation: String,
    pub previous_generation: Option<String>,
    pub compiled_at: String,
    pub observed_at: String,
    pub compiler_version: String,
    pub required_hooks: Vec<String>,
    pub required_qdisc: Vec<String>,
    pub attach_inventory: Vec<RuntimeInventoryAttach>,
    pub map_inventory: Vec<RuntimeInventoryMapEntry>,
    pub domain_inventory: Vec<RuntimeInventoryDomainSummary>,
    pub shadow_apply_only: bool,
}

#[derive(Debug, Clone)]
pub struct RuntimeInventoryAttachDelta {
    pub domain: String,
    pub hook_family: String,
    pub scope: String,
    pub operation: String,
    pub previous_object_count: usize,
    pub current_object_count: usize,
    pub change_type: String,
}

#[derive(Debug, Clone)]
pub struct RuntimeInventoryMapDelta {
    pub domain: String,
    pub map_family: String,
    pub operation: String,
    pub previous_object_count: usize,
    pub current_object_count: usize,
    pub change_type: String,
}

#[derive(Debug, Clone)]
pub struct RuntimeInventoryDomainDelta {
    pub domain: String,
    pub previous_attach_operations: usize,
    pub current_attach_operations: usize,
    pub previous_map_operations: usize,
    pub current_map_operations: usize,
    pub previous_compiled_objects: usize,
    pub current_compiled_objects: usize,
    pub change_type: String,
}

#[derive(Debug, Clone)]
pub struct RuntimeInventoryDiff {
    pub generation: String,
    pub previous_generation: Option<String>,
    pub observed_at: String,
    pub changed_domains: Vec<String>,
    pub attach_deltas: Vec<RuntimeInventoryAttachDelta>,
    pub map_deltas: Vec<RuntimeInventoryMapDelta>,
    pub domain_deltas: Vec<RuntimeInventoryDomainDelta>,
    pub has_cleanup: bool,
    pub shadow_apply_only: bool,
}

#[derive(Debug, Clone)]
pub struct RuntimeDomainIntent {
    pub domain: String,
    pub desired_action: String,
    pub reason: String,
    pub full_reconcile: bool,
    pub requires_cleanup: bool,
    pub changed: bool,
    pub attach_operations: usize,
    pub map_operations: usize,
    pub compiled_objects: usize,
    pub failed_objects: usize,
    pub shadow_apply_only: bool,
}

#[derive(Debug, Clone)]
pub struct ServiceRuntimeIntentSummary {
    pub service_count: usize,
    pub frontend_listener_count: usize,
    pub frontend_runtime_entry_count: usize,
    pub socket_lb_frontend_count: usize,
    pub packet_lb_frontend_count: usize,
    pub backend_member_count: usize,
    pub backend_runtime_entry_count: usize,
    pub forwarding_projection_count: usize,
    pub node_local_service_count: usize,
    pub cross_node_service_count: usize,
    pub cross_node_native_service_count: usize,
    pub cross_node_overlay_service_count: usize,
    pub cross_node_hybrid_service_count: usize,
    pub revnat_reservation_count: usize,
    pub affinity_reservation_count: usize,
    pub maglev_reservation_count: usize,
    pub desired_action: String,
    pub requires_cleanup: bool,
    pub changed: bool,
    pub shadow_apply_only: bool,
}

#[derive(Debug, Clone)]
pub struct RuntimeIntent {
    pub generation: String,
    pub previous_generation: Option<String>,
    pub compiled_at: String,
    pub observed_at: String,
    pub changed_domains: Vec<String>,
    pub intents: Vec<RuntimeDomainIntent>,
    pub service_intent: Option<ServiceRuntimeIntentSummary>,
    pub shadow_apply_only: bool,
}

#[derive(Debug, Clone)]
pub struct RuntimeExecutionDomainSummary {
    pub domain: String,
    pub planned_action: String,
    pub execution_status: String,
    pub requires_cleanup: bool,
    pub changed: bool,
    pub input_objects: usize,
    pub compiled_objects: usize,
    pub failed_objects: usize,
    pub warnings: Vec<String>,
    pub degraded_reasons: Vec<String>,
    pub shadow_apply_only: bool,
}

#[derive(Debug, Clone)]
pub struct ServiceRuntimeExecutionSummary {
    pub service_count: usize,
    pub frontend_listener_count: usize,
    pub frontend_runtime_entry_count: usize,
    pub socket_lb_frontend_count: usize,
    pub packet_lb_frontend_count: usize,
    pub backend_member_count: usize,
    pub backend_runtime_entry_count: usize,
    pub forwarding_projection_count: usize,
    pub node_local_service_count: usize,
    pub cross_node_service_count: usize,
    pub cross_node_native_service_count: usize,
    pub cross_node_overlay_service_count: usize,
    pub cross_node_hybrid_service_count: usize,
    pub revnat_reservation_count: usize,
    pub affinity_reservation_count: usize,
    pub maglev_reservation_count: usize,
    pub execution_status: String,
    pub planned_action: String,
    pub warnings: Vec<String>,
    pub shadow_apply_only: bool,
}

#[derive(Debug, Clone)]
pub struct RuntimeExecutionSummary {
    pub generation: String,
    pub previous_generation: Option<String>,
    pub compiled_at: String,
    pub observed_at: String,
    pub changed_domains: Vec<String>,
    pub domain_summaries: Vec<RuntimeExecutionDomainSummary>,
    pub service_execution: Option<ServiceRuntimeExecutionSummary>,
    pub shadow_apply_only: bool,
}

#[derive(Debug, Clone)]
pub struct SocketBackendCandidate {
    pub backend_id: String,
    pub target_type: String,
    pub resolved_ip_hint: Option<String>,
    pub port: u16,
    pub weight: u16,
    pub locality: String,
    pub forwarding_scope: String,
    pub health_state: String,
}

#[derive(Debug, Clone)]
pub struct SocketBackendChoiceShape {
    pub total_candidates: usize,
    pub local_candidates: usize,
    pub remote_candidates: usize,
    pub total_weight: u32,
    pub local_weight: u32,
    pub remote_weight: u32,
    pub handoff_type: Option<String>,
    pub candidates: Vec<SocketBackendCandidate>,
}

#[derive(Debug, Clone)]
pub struct SocketSelectionPlanEntry {
    pub service_id: String,
    pub service_name: Option<String>,
    pub vip: String,
    pub protocol: String,
    pub service_port: u16,
    pub target_port: Option<u16>,
    pub lb_policy: String,
    pub session_affinity: Option<String>,
    pub normalized_lb_strategy: String,
    pub normalized_affinity_strategy: String,
    pub forwarding_mode: String,
    pub local_backend_count: usize,
    pub remote_backend_count: usize,
    pub handoff_required: bool,
    pub backend_choice: SocketBackendChoiceShape,
    pub shadow_apply_only: bool,
}

#[derive(Debug, Clone)]
pub struct SocketSelectionPlanSummary {
    pub listener_count: usize,
    pub node_local_listener_count: usize,
    pub cross_node_handoff_listener_count: usize,
    pub random_listener_count: usize,
    pub maglev_listener_count: usize,
    pub deferred_hash_listener_count: usize,
    pub unsupported_policy_listener_count: usize,
    pub affinity_listener_count: usize,
    pub client_ip_affinity_listener_count: usize,
    pub deferred_affinity_listener_count: usize,
    pub unsupported_affinity_listener_count: usize,
    pub total_backend_candidates: usize,
    pub total_local_candidates: usize,
    pub total_remote_candidates: usize,
    pub listeners_with_no_backends: usize,
    pub shadow_apply_only: bool,
}

#[derive(Debug, Clone)]
pub struct SocketSelectionPlan {
    pub generation: String,
    pub previous_generation: Option<String>,
    pub compiled_at: String,
    pub observed_at: String,
    pub entries: Vec<SocketSelectionPlanEntry>,
    pub summary: SocketSelectionPlanSummary,
    pub shadow_apply_only: bool,
}
} // verus!
