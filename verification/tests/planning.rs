use aria_agent::agent::capability::{build_node_capability, capability_profile, PlatformAgentConfig};
use aria_agent::agent::inventory::build_runtime_inventory;
use aria_agent::agent::inventory_diff::build_runtime_inventory_diff;
use aria_agent::agent::ir::{
    BackendMemberIr, BackendSetIr, CompileDomainSummary, CompiledNodeState, CompiledPortBinding, ReconcileAction,
    ReconcilePlan, RuntimeInventory, RuntimeInventoryAttach, RuntimeInventoryDomainSummary, RuntimeInventoryMapEntry,
    ServiceFrontendIr, ServiceFrontendPortIr, ServiceProgramIr,
};
use aria_agent::agent::planner::build_reconcile_plan;
use aria_agent::agent::runtime_intent::{build_runtime_execution_summary, build_runtime_intent};
use aria_agent::agent::runtime_plan::build_runtime_plan;
use aria_agent::agent::socket_plan::{build_backend_choice_shape, build_socket_selection_plan};
use aria_agent::agent::counters::{
    attached_port_count, total_affinity_service_programs, total_cross_node_overlay_service_programs,
    total_cross_node_service_programs, total_maglev_service_programs, total_packet_lb_frontends,
    total_service_backend_members, total_service_forwarding_projections, total_service_listener_ports,
    total_socket_lb_frontends,
};
use aria_agent::api::dataplane::config::default_max_port_policies;
use aria_agent::api::dataplane::mirror::{default_any, default_any_proto};
use aria_agent::api::dataplane::policy::default_direction;
use aria_agent::api::dataplane::qos::default_mode_string;
use std::time::Duration;

fn empty_state(generation: &str) -> CompiledNodeState {
    CompiledNodeState {
        generation: generation.to_string(),
        compiler_version: "v1".to_string(),
        node_id: "node-1".to_string(),
        capability_profile: "tc+xdp:trace=legacy:nat=false".to_string(),
        full_sync: false,
        issued_at: "0".to_string(),
        tenant_ids: vec![],
        network_ids: vec![],
        security_group_ids: vec![],
        port_bindings: vec![],
        port_identities: vec![],
        route_tables: vec![],
        route_entries: vec![],
        sg_rules: vec![],
        ip_groups: vec![],
        network_policies: vec![],
        qos_policies: vec![],
        mirror_policies: vec![],
        health_checks: vec![],
        backend_sets: vec![],
        services: vec![],
        service_programs: vec![],
        domain_summaries: vec![],
        warnings: vec![],
        degraded_reasons: vec![],
        compiled_at: "100".to_string(),
        shadow_apply_only: true,
    }
}

fn binding(port_id: &str) -> CompiledPortBinding {
    CompiledPortBinding {
        port_id: port_id.to_string(),
        tenant_id: "t1".to_string(),
        network_id: "n1".to_string(),
        segment_id: None,
        security_group_ids: vec![],
        fixed_ips: vec![],
        allowed_address_pairs: vec![],
        mac_address: "02:00:00:00:00:01".to_string(),
        anti_spoof_enabled: false,
        admin_state_up: true,
    }
}

fn member(id: &str, locality: &str, weight: u16, admin: &str) -> BackendMemberIr {
    BackendMemberIr {
        backend_id: id.to_string(),
        target_type: "ip".to_string(),
        target_ref: None,
        resolved_ip_hint: Some("10.0.0.9".to_string()),
        service_port: 8080,
        weight,
        admin_state: admin.to_string(),
        node_id: None,
        declared_locality: None,
        resolved_locality: locality.to_string(),
        forwarding_scope: "cross_node".to_string(),
        resolution: "direct_ip".to_string(),
        shadow_apply_only: true,
    }
}

fn backend_set(backends: Vec<BackendMemberIr>, local: usize, remote: usize) -> BackendSetIr {
    BackendSetIr {
        backend_set_id: "bs1".to_string(),
        tenant_id: "t1".to_string(),
        network_id: "n1".to_string(),
        selection_policy: "round_robin".to_string(),
        health_check_id: None,
        local_backend_count: local,
        remote_backend_count: remote,
        backends,
        shadow_apply_only: true,
    }
}

fn program(id: &str, exposure: &str, ports: &[u16], bs: Option<BackendSetIr>) -> ServiceProgramIr {
    ServiceProgramIr {
        service_id: id.to_string(),
        backend_set_id: None,
        health_check_id: None,
        frontend: ServiceFrontendIr {
            service_id: id.to_string(),
            tenant_id: "t1".to_string(),
            network_id: "n1".to_string(),
            route_mode: "native".to_string(),
            vip: "10.96.0.10".to_string(),
            protocol: "tcp".to_string(),
            lb_policy: "round_robin".to_string(),
            session_affinity: Some("client_ip".to_string()),
            exposure_type: exposure.to_string(),
            forwarding_mode: "cross_node_overlay".to_string(),
            listener_ports: ports
                .iter()
                .map(|p| ServiceFrontendPortIr { name: None, service_port: *p, target_port: Some(8080) })
                .collect(),
            node_local_forwarding: false,
            cross_node_forwarding: true,
            shadow_apply_only: true,
        },
        backend_set: bs,
        health_check: None,
        shadow_apply_only: true,
    }
}

fn attach(domain: &str, op: &str, count: usize) -> RuntimeInventoryAttach {
    RuntimeInventoryAttach {
        domain: domain.to_string(),
        hook_family: "tc".to_string(),
        scope: "port-bindings".to_string(),
        operation: op.to_string(),
        object_count: count,
    }
}

fn map_entry(domain: &str, family: &str, op: &str, count: usize) -> RuntimeInventoryMapEntry {
    RuntimeInventoryMapEntry {
        domain: domain.to_string(),
        map_family: family.to_string(),
        operation: op.to_string(),
        object_count: count,
    }
}

fn domain(name: &str, attach_ops: usize, map_ops: usize, compiled: usize) -> RuntimeInventoryDomainSummary {
    RuntimeInventoryDomainSummary {
        domain: name.to_string(),
        compiled_objects: compiled,
        failed_objects: 0,
        attach_operations: attach_ops,
        map_operations: map_ops,
        status: "shadow_inventory_ready".to_string(),
        shadow_apply_only: true,
    }
}

fn inventory(
    generation: &str,
    attach: Vec<RuntimeInventoryAttach>,
    maps: Vec<RuntimeInventoryMapEntry>,
    domains: Vec<RuntimeInventoryDomainSummary>,
) -> RuntimeInventory {
    RuntimeInventory {
        generation: generation.to_string(),
        previous_generation: None,
        compiled_at: "100".to_string(),
        observed_at: "100".to_string(),
        compiler_version: "v1".to_string(),
        required_hooks: vec![],
        required_qdisc: vec![],
        attach_inventory: attach,
        map_inventory: maps,
        domain_inventory: domains,
        shadow_apply_only: true,
    }
}

fn plan(full: bool, domains: &[&str]) -> ReconcilePlan {
    ReconcilePlan {
        generation: "g2".to_string(),
        previous_generation: Some("g1".to_string()),
        compiled_at: "100".to_string(),
        full_reconcile: full,
        changed_kinds: vec![],
        actions: domains
            .iter()
            .map(|d| ReconcileAction { domain: d.to_string(), operation: "refresh".to_string(), object_count: 1 })
            .collect(),
        warnings: vec![],
        shadow_apply_only: true,
    }
}

fn config(trace: &str) -> PlatformAgentConfig {
    PlatformAgentConfig {
        controller_url: "http://controller".to_string(),
        node_id: "node-1".to_string(),
        management_address: None,
        labels: vec![],
        poll_interval: Duration::from_secs(10),
        register_interval: Duration::from_secs(30),
        state_dir: "/var/lib/aria".to_string(),
        pin_path: "/sys/fs/bpf/aria".to_string(),
        trace_backend: trace.to_string(),
        kernel_version: None,
        max_port_policies: 64,
    }
}

#[test]
fn first_reconcile_is_full() {
    let next = empty_state("g1");
    let plan = build_reconcile_plan(None, &next, vec!["w".to_string()]);
    assert!(plan.full_reconcile);
    assert_eq!(plan.previous_generation, None);
    assert_eq!(
        plan.changed_kinds,
        vec![
            "ports", "route_tables", "security_groups", "networks", "tenants", "health_checks", "backend_sets",
            "services", "qos_policies"
        ]
    );
    assert_eq!(plan.actions.len(), 1);
    assert_eq!(plan.actions[0].domain, "core");
    assert_eq!(plan.actions[0].operation, "full_shadow_reconcile");
    assert_eq!(plan.actions[0].object_count, 0);
    assert_eq!(plan.warnings, vec!["w".to_string()]);
}

#[test]
fn unchanged_reconcile_does_nothing() {
    let prev = empty_state("g1");
    let next = empty_state("g1");
    let plan = build_reconcile_plan(Some(&prev), &next, vec![]);
    assert!(!plan.full_reconcile);
    assert!(plan.changed_kinds.is_empty());
    assert!(plan.actions.is_empty());
    assert_eq!(plan.previous_generation, Some("g1".to_string()));
}

#[test]
fn removed_ports_are_cleaned_up() {
    let mut prev = empty_state("g1");
    prev.port_bindings = vec![binding("p1"), binding("p2")];
    let mut next = empty_state("g2");
    next.port_bindings = vec![binding("p2")];
    let plan = build_reconcile_plan(Some(&prev), &next, vec![]);
    assert!(plan.full_reconcile);
    assert_eq!(plan.changed_kinds, vec!["ports"]);
    let actions: Vec<(String, String, usize)> =
        plan.actions.iter().map(|a| (a.domain.clone(), a.operation.clone(), a.object_count)).collect();
    assert_eq!(
        actions,
        vec![
            ("core".to_string(), "full_shadow_reconcile".to_string(), 1),
            ("ports".to_string(), "refresh_shadow_bindings".to_string(), 1),
            ("ports".to_string(), "cleanup_shadow_bindings".to_string(), 1),
        ]
    );
}

#[test]
fn runtime_plan_carries_generation() {
    let next = empty_state("g7");
    let capability = build_node_capability(&config("legacy"));
    let plan = build_runtime_plan(None, &next, &capability);
    assert_eq!(plan.generation, "g7");
    assert_eq!(plan.compiled_at, "100");
    assert!(plan.shadow_apply_only);
    assert_eq!(plan.attach_plan.generation, "g7");
    assert_eq!(plan.map_plan.generation, "g7");
}

#[test]
fn inventory_of_runtime_plan_diffs_to_nothing_against_itself() {
    let next = empty_state("g1");
    let capability = build_node_capability(&config("legacy"));
    let plan = build_runtime_plan(None, &next, &capability);
    let inv = build_runtime_inventory(None, &next, &plan);
    assert_eq!(inv.generation, "g1");
    assert!(inv.observed_at.chars().all(|c| c.is_ascii_digit()));
    let diff = build_runtime_inventory_diff(Some(&inv), &inv);
    assert!(diff.attach_deltas.is_empty());
    assert!(diff.map_deltas.is_empty());
    assert!(diff.domain_deltas.is_empty());
    assert!(diff.changed_domains.is_empty());
    assert!(!diff.has_cleanup);
    assert_eq!(diff.previous_generation, None);
}

#[test]
fn first_inventory_diff_only_adds() {
    let cur = inventory(
        "g1",
        vec![attach("ports", "attach", 2), attach("routes", "attach", 1)],
        vec![map_entry("services", "service_catalog", "upsert", 3)],
        vec![domain("ports", 1, 0, 2), domain("services", 0, 1, 3)],
    );
    let diff = build_runtime_inventory_diff(None, &cur);
    assert_eq!(diff.attach_deltas.len(), 2);
    assert!(diff.attach_deltas.iter().all(|d| d.change_type == "added" && d.previous_object_count == 0));
    assert_eq!(diff.attach_deltas[0].domain, "ports");
    assert_eq!(diff.attach_deltas[1].domain, "routes");
    assert_eq!(diff.map_deltas.len(), 1);
    assert_eq!(diff.map_deltas[0].current_object_count, 3);
    assert_eq!(diff.domain_deltas.len(), 2);
    assert!(diff.domain_deltas.iter().all(|d| d.change_type == "added"));
    assert_eq!(diff.changed_domains, vec!["ports", "routes", "services"]);
    assert!(!diff.has_cleanup);
}

#[test]
fn inventory_diff_reports_removal_and_update() {
    let prev = inventory(
        "g1",
        vec![attach("ports", "attach", 2), attach("routes", "attach", 1)],
        vec![],
        vec![domain("ports", 1, 0, 2), domain("routes", 1, 0, 1)],
    );
    let cur = inventory("g2", vec![attach("ports", "attach", 3)], vec![], vec![domain("ports", 1, 0, 3)]);
    let diff = build_runtime_inventory_diff(Some(&prev), &cur);
    assert_eq!(diff.previous_generation, Some("g1".to_string()));
    let changes: Vec<(String, usize, usize, String)> = diff
        .attach_deltas
        .iter()
        .map(|d| (d.domain.clone(), d.previous_object_count, d.current_object_count, d.change_type.clone()))
        .collect();
    assert_eq!(
        changes,
        vec![
            ("ports".to_string(), 2, 3, "updated".to_string()),
            ("routes".to_string(), 1, 0, "removed".to_string()),
        ]
    );
    let domains: Vec<(String, String)> =
        diff.domain_deltas.iter().map(|d| (d.domain.clone(), d.change_type.clone())).collect();
    assert_eq!(
        domains,
        vec![("ports".to_string(), "updated".to_string()), ("routes".to_string(), "removed".to_string())]
    );
    assert!(diff.has_cleanup);
    assert_eq!(diff.changed_domains, vec!["ports", "routes"]);
}

#[test]
fn inventory_diff_cleanup_operation_needs_cleanup() {
    let prev = inventory("g1", vec![], vec![], vec![]);
    let cur = inventory("g2", vec![], vec![map_entry("qos", "qos_config_map", "cleanup_stale", 1)], vec![]);
    let diff = build_runtime_inventory_diff(Some(&prev), &cur);
    assert_eq!(diff.map_deltas.len(), 1);
    assert_eq!(diff.map_deltas[0].change_type, "added");
    assert!(diff.has_cleanup);
}

#[test]
fn intents_follow_precedence() {
    let state = empty_state("g2");
    let prev = inventory("g1", vec![attach("routes", "attach", 1)], vec![], vec![]);
    let cur = inventory(
        "g2",
        vec![],
        vec![],
        vec![domain("nat", 0, 0, 0), domain("routes", 0, 0, 0), domain("ports", 1, 0, 1), domain("qos", 0, 0, 0)],
    );
    let diff = build_runtime_inventory_diff(Some(&prev), &cur);
    let intent = build_runtime_intent(&state, &plan(false, &["ports"]), &cur, &diff);
    let actions: Vec<(String, String, String)> = intent
        .intents
        .iter()
        .map(|i| (i.domain.clone(), i.desired_action.clone(), i.reason.clone()))
        .collect();
    assert_eq!(
        actions,
        vec![
            ("nat".to_string(), "reserve_shadow".to_string(), "reserved_for_snat_dnat_floating_ip".to_string()),
            ("routes".to_string(), "cleanup_shadow".to_string(), "runtime_cleanup_required".to_string()),
            ("ports".to_string(), "refresh_shadow".to_string(), "runtime_inventory_delta".to_string()),
            ("qos".to_string(), "maintain_shadow".to_string(), "shadow_inventory_stable".to_string()),
        ]
    );
    assert!(intent.service_intent.is_none());
    assert_eq!(intent.changed_domains, vec!["ports", "routes"]);
}

#[test]
fn full_reconcile_with_core_touches_every_domain() {
    let state = empty_state("g2");
    let cur = inventory("g2", vec![], vec![], vec![domain("ports", 1, 0, 1), domain("services", 0, 0, 0)]);
    let diff = build_runtime_inventory_diff(Some(&cur), &cur);
    let intent = build_runtime_intent(&state, &plan(true, &["core"]), &cur, &diff);
    assert!(intent.intents.iter().all(|i| i.full_reconcile && i.desired_action == "full_shadow_reconcile"));
    let service = intent.service_intent.as_ref().expect("services domain present");
    assert_eq!(service.desired_action, "full_shadow_reconcile");
    assert_eq!(service.service_count, 0);

    let summary = build_runtime_execution_summary(&state, &plan(true, &["core"]), &intent);
    assert_eq!(summary.domain_summaries.len(), 2);
    assert_eq!(summary.domain_summaries[0].execution_status, "shadow_execute_planned");
    assert_eq!(summary.domain_summaries[0].degraded_reasons, vec!["full_reconcile_required"]);
    let service_exec = summary.service_execution.as_ref().expect("service execution");
    assert_eq!(service_exec.execution_status, "shadow_execute_planned");
    assert!(service_exec.warnings.is_empty());
}

#[test]
fn execution_summary_marks_reserved_and_degraded() {
    let mut state = empty_state("g2");
    state.domain_summaries = vec![CompileDomainSummary {
        domain: "ports".to_string(),
        input_objects: 3,
        compiled_objects: 2,
        failed_objects: 1,
        status: "shadow_degraded".to_string(),
        shadow_apply_only: true,
    }];
    let cur = inventory("g2", vec![], vec![], vec![domain("nat", 0, 0, 0), domain("ports", 1, 0, 2)]);
    let diff = build_runtime_inventory_diff(Some(&cur), &cur);
    let intent = build_runtime_intent(&state, &plan(false, &[]), &cur, &diff);
    let summary = build_runtime_execution_summary(&state, &plan(false, &[]), &intent);
    let nat = &summary.domain_summaries[0];
    assert_eq!(nat.execution_status, "shadow_reserved");
    assert_eq!(
        nat.warnings,
        vec!["nat shadow reservation present; snat/dnat/floating-ip datapath not materialized yet"]
    );
    let ports = &summary.domain_summaries[1];
    assert_eq!(ports.execution_status, "shadow_execute_degraded");
    assert_eq!(ports.input_objects, 3);
    assert_eq!(ports.failed_objects, 1);
    assert_eq!(ports.degraded_reasons, vec!["compile_or_inventory_failures_present"]);
}

#[test]
fn backend_choice_counts_enabled_backends() {
    let bs = backend_set(
        vec![
            member("b1", "local", 10, "enabled"),
            member("b2", "remote", 20, "enabled"),
            member("b3", "remote", 30, "disabled"),
        ],
        1,
        2,
    );
    let shape = build_backend_choice_shape(Some(&bs), "cross_node_overlay");
    assert_eq!(shape.total_candidates, 2);
    assert_eq!(shape.local_candidates, 1);
    assert_eq!(shape.remote_candidates, 1);
    assert_eq!(shape.total_weight, 30);
    assert_eq!(shape.local_weight, 10);
    assert_eq!(shape.remote_weight, 20);
    assert_eq!(shape.handoff_type, Some("overlay".to_string()));
    assert_eq!(shape.candidates[1].backend_id, "b2");
    assert_eq!(shape.candidates[1].health_state, "unknown");

    let none = build_backend_choice_shape(None, "cross_node_overlay");
    assert_eq!(none.total_candidates, 0);
    assert_eq!(none.handoff_type, None);
}

#[test]
fn socket_plan_lists_internal_listeners() {
    let mut state = empty_state("g2");
    let bs = backend_set(vec![member("b1", "local", 5, "enabled"), member("b2", "remote", 5, "enabled")], 1, 1);
    state.service_programs = vec![
        program("svc-a", "internal", &[80, 443], Some(bs)),
        program("svc-b", "external", &[8080], None),
        program("svc-c", "internal", &[53], None),
    ];
    let prev = empty_state("g1");
    let plan = build_socket_selection_plan(Some(&prev), &state);
    assert_eq!(plan.previous_generation, Some("g1".to_string()));
    let listeners: Vec<(String, u16)> =
        plan.entries.iter().map(|e| (e.service_id.clone(), e.service_port)).collect();
    assert_eq!(
        listeners,
        vec![("svc-a".to_string(), 80), ("svc-a".to_string(), 443), ("svc-c".to_string(), 53)]
    );
    assert!(plan.entries[0].handoff_required);
    assert_eq!(plan.entries[0].normalized_lb_strategy, "random");
    assert_eq!(plan.entries[0].normalized_affinity_strategy, "client_ip");
    assert_eq!(plan.entries[0].backend_choice.total_candidates, 2);
    assert!(!plan.entries[2].handoff_required);
    let s = &plan.summary;
    assert_eq!(s.listener_count, 3);
    assert_eq!(s.node_local_listener_count, 1);
    assert_eq!(s.cross_node_handoff_listener_count, 2);
    assert_eq!(s.random_listener_count, 3);
    assert_eq!(s.client_ip_affinity_listener_count, 3);
    assert_eq!(s.affinity_listener_count, 3);
    assert_eq!(s.total_backend_candidates, 4);
    assert_eq!(s.total_local_candidates, 2);
    assert_eq!(s.total_remote_candidates, 2);
    assert_eq!(s.listeners_with_no_backends, 1);
}

#[test]
fn node_capability_and_profile() {
    let cap = build_node_capability(&config("ringbuf"));
    assert_eq!(cap.supported_hooks, vec!["tc", "xdp"]);
    assert!(cap.supports_trace_ringbuf);
    assert_eq!(cap.observability_profile, Some("full".to_string()));
    assert_eq!(cap.limits, vec![("max_port_policies".to_string(), 64)]);
    assert_eq!(capability_profile(&cap), "tc+xdp:trace=ringbuf:nat=false");

    let legacy = build_node_capability(&config("perf"));
    assert_eq!(legacy.observability_profile, Some("standard".to_string()));
    assert_eq!(capability_profile(&legacy), "tc+xdp:trace=legacy:nat=false");
}

#[test]
fn profile_sorts_hooks() {
    let mut cap = build_node_capability(&config("perf"));
    cap.supported_hooks = vec!["xdp".to_string(), "cgroup".to_string(), "tc".to_string()];
    cap.supports_nat = true;
    assert_eq!(capability_profile(&cap), "cgroup+tc+xdp:trace=legacy:nat=true");
}

#[test]
fn service_counters() {
    let mut state = empty_state("g1");
    let bs = backend_set(vec![member("b1", "local", 5, "enabled"), member("b2", "remote", 5, "disabled")], 1, 1);
    let mut maglev = program("svc-m", "external", &[443], None);
    maglev.frontend.lb_policy = "maglev".to_string();
    maglev.frontend.session_affinity = Some("none".to_string());
    maglev.frontend.cross_node_forwarding = false;
    maglev.frontend.forwarding_mode = "node_local_only".to_string();
    state.service_programs = vec![program("svc-a", "internal", &[80, 8080], Some(bs)), maglev];
    assert_eq!(total_service_listener_ports(&state), 3);
    assert_eq!(total_socket_lb_frontends(&state), 2);
    assert_eq!(total_packet_lb_frontends(&state), 3);
    assert_eq!(total_service_backend_members(&state), 2);
    assert_eq!(total_service_forwarding_projections(&state), 1);
    assert_eq!(total_cross_node_service_programs(&state), 1);
    assert_eq!(total_cross_node_overlay_service_programs(&state), 1);
    assert_eq!(total_affinity_service_programs(&state), 2);
    assert_eq!(total_maglev_service_programs(&state), 1);
}

#[test]
fn attached_ports_fall_back_to_bindings() {
    let mut state = empty_state("g1");
    state.port_bindings = vec![binding("p1"), binding("p2")];
    assert_eq!(attached_port_count(&state), 2);
}

#[test]
fn api_defaults() {
    assert_eq!(default_max_port_policies(), 16384);
    assert_eq!(default_any(), "any");
    assert_eq!(default_any_proto(), "any");
    assert_eq!(default_direction(), "ingress");
    assert_eq!(default_mode_string(), "policing");
}
