use aria_agent::agent::ir::{CompiledBackendSetView, CompiledHealthCheckView, CompiledServiceView};
use aria_agent::agent::service_programs::build_service_programs;
use aria_agent::agent::state_store::LocalPlatformStateStore;
use aria_agent::api::platform::backend_set::{BackendSetResource, BackendSetSpec, BackendSetStatus, BackendTargetSpec};
use aria_agent::api::platform::health_check::{HealthCheckResource, HealthCheckSpec, HealthCheckStatus};
use aria_agent::api::platform::metadata::ResourceMetadata;
use aria_agent::api::platform::network::{NetworkResource, NetworkSpec, NetworkStatus};
use aria_agent::api::platform::service::{ServicePortSpec, ServiceResource, ServiceSpec, ServiceStatus};
use aria_agent::api::southbound::DesiredStateEnvelope;
use aria_agent::control::ops::unix_ts_string;

fn meta(id: &str) -> ResourceMetadata {
    ResourceMetadata {
        id: id.to_string(),
        resource_version: "1".to_string(),
        created_at: "0".to_string(),
        updated_at: "0".to_string(),
        labels: vec![],
    }
}

fn network(id: &str, route_mode: &str) -> NetworkResource {
    NetworkResource {
        metadata: meta(id),
        spec: NetworkSpec {
            tenant_id: "t1".to_string(),
            name: id.to_string(),
            network_type: "vxlan".to_string(),
            ipv4_enabled: true,
            ipv6_enabled: false,
            route_mode: route_mode.to_string(),
        },
        status: NetworkStatus { phase: "ready".to_string() },
    }
}

fn health_check(id: &str) -> HealthCheckResource {
    HealthCheckResource {
        metadata: meta(id),
        spec: HealthCheckSpec {
            tenant_id: "t1".to_string(),
            network_id: Some("n1".to_string()),
            name: id.to_string(),
            protocol: "tcp".to_string(),
            interval_seconds: 5,
            timeout_seconds: 1,
            healthy_threshold: 2,
            unhealthy_threshold: 3,
            target_port: Some(8080),
            request_template: Some("GET /".to_string()),
        },
        status: HealthCheckStatus { phase: "ready".to_string() },
    }
}

fn backend_target(id: &str, node: &str) -> BackendTargetSpec {
    BackendTargetSpec {
        id: id.to_string(),
        target_type: "ip".to_string(),
        target_ref: None,
        ip: Some("10.0.0.7".to_string()),
        node_id: Some(node.to_string()),
        port: 8080,
        weight: 1,
        admin_state: None,
        locality: None,
    }
}

fn backend_set(id: &str) -> BackendSetResource {
    BackendSetResource {
        metadata: meta(id),
        spec: BackendSetSpec {
            tenant_id: "t1".to_string(),
            network_id: "n1".to_string(),
            name: id.to_string(),
            health_check_id: Some("hc1".to_string()),
            policy: "round_robin".to_string(),
            backends: vec![backend_target("b1", "node-1"), backend_target("b2", "node-2")],
        },
        status: BackendSetStatus { phase: "ready".to_string(), backend_count: 2, healthy_backends: 0 },
    }
}

fn service(id: &str) -> ServiceResource {
    ServiceResource {
        metadata: meta(id),
        spec: ServiceSpec {
            tenant_id: "t1".to_string(),
            network_id: "n1".to_string(),
            name: id.to_string(),
            vip: "10.96.0.1".to_string(),
            protocol: "tcp".to_string(),
            ports: vec![ServicePortSpec { name: Some("http".to_string()), port: 80, target_port: Some(8080) }],
            backend_set_id: Some("bs1".to_string()),
            session_affinity: None,
            lb_policy: "maglev".to_string(),
            exposure_type: "internal".to_string(),
        },
        status: ServiceStatus { phase: "ready".to_string(), exposure_state: None },
    }
}

fn envelope() -> DesiredStateEnvelope {
    DesiredStateEnvelope {
        generation: "g1".to_string(),
        issued_at: "0".to_string(),
        full_sync: false,
        tenants: vec![],
        networks: vec![network("n1", "overlay")],
        security_groups: vec![],
        health_checks: vec![health_check("hc1")],
        ports: vec![],
        services: vec![service("svc1")],
        backend_sets: vec![backend_set("bs1")],
        route_tables: vec![],
        ip_groups: vec![],
        network_policies: vec![],
        qos_policies: vec![],
    }
}

fn compiled_service(id: &str, backend_set: Option<&str>) -> CompiledServiceView {
    CompiledServiceView {
        service_id: id.to_string(),
        tenant_id: "t1".to_string(),
        network_id: "n1".to_string(),
        backend_set_id: backend_set.map(|b| b.to_string()),
        vip: "10.96.0.1".to_string(),
        protocol: "tcp".to_string(),
        port_count: 1,
        exposure_type: "internal".to_string(),
    }
}

fn compiled_backend_set(local: usize, remote: usize) -> CompiledBackendSetView {
    CompiledBackendSetView {
        backend_set_id: "bs1".to_string(),
        tenant_id: "t1".to_string(),
        network_id: "n1".to_string(),
        health_check_id: Some("hc1".to_string()),
        policy: "round_robin".to_string(),
        backend_count: 2,
        local_backend_count: local,
        remote_backend_count: remote,
    }
}

fn compiled_health_check() -> CompiledHealthCheckView {
    CompiledHealthCheckView {
        health_check_id: "hc1".to_string(),
        tenant_id: "t1".to_string(),
        network_id: Some("n1".to_string()),
        protocol: "tcp".to_string(),
        target_port: Some(8080),
    }
}

#[test]
fn service_program_joins_backend_set_and_health_check() {
    let desired = envelope();
    let programs = build_service_programs(
        &desired,
        &vec![compiled_health_check()],
        &vec![compiled_backend_set(1, 1)],
        &vec![compiled_service("svc1", Some("bs1")), compiled_service("unknown", None)],
        "node-1",
    );
    assert_eq!(programs.len(), 1);
    let p = &programs[0];
    assert_eq!(p.service_id, "svc1");
    assert_eq!(p.frontend.route_mode, "overlay");
    assert_eq!(p.frontend.forwarding_mode, "cross_node_overlay");
    assert_eq!(p.frontend.lb_policy, "maglev");
    assert!(p.frontend.node_local_forwarding);
    assert!(p.frontend.cross_node_forwarding);
    assert_eq!(p.frontend.listener_ports.len(), 1);
    assert_eq!(p.frontend.listener_ports[0].service_port, 80);
    let bs = p.backend_set.as_ref().expect("backend set joined");
    assert_eq!(bs.backends.len(), 2);
    assert_eq!(bs.backends[0].resolved_locality, "local");
    assert_eq!(bs.backends[1].resolved_locality, "remote");
    let hc = p.health_check.as_ref().expect("health check joined");
    assert!(hc.has_request_template);
    assert_eq!(p.health_check_id, Some("hc1".to_string()));
}

#[test]
fn service_program_without_compiled_parts() {
    let desired = envelope();
    let programs = build_service_programs(
        &desired,
        &vec![],
        &vec![compiled_backend_set(0, 0)],
        &vec![compiled_service("svc1", Some("bs1"))],
        "node-1",
    );
    let p = &programs[0];
    assert!(p.backend_set.is_some());
    assert!(p.health_check.is_none());
    assert_eq!(p.health_check_id, None);
    assert_eq!(p.frontend.forwarding_mode, "node_local_only");

    let programs = build_service_programs(&desired, &vec![], &vec![], &vec![compiled_service("svc1", None)], "node-1");
    assert!(programs[0].backend_set.is_none());
    assert!(!programs[0].frontend.cross_node_forwarding);
}

#[test]
fn unknown_network_routes_natively() {
    let mut desired = envelope();
    desired.networks.clear();
    let programs = build_service_programs(
        &desired,
        &vec![],
        &vec![compiled_backend_set(0, 2)],
        &vec![compiled_service("svc1", Some("bs1"))],
        "node-1",
    );
    assert_eq!(programs[0].frontend.route_mode, "native");
    assert_eq!(programs[0].frontend.forwarding_mode, "cross_node_native");
}

#[test]
fn state_store_paths() {
    let store = LocalPlatformStateStore::new("/var/lib/aria");
    assert_eq!(store.root, "/var/lib/aria/platform-agent");
    assert_eq!(store.desired_state_path(), "/var/lib/aria/platform-agent/desired-state-cache.json");
    assert_eq!(store.compiled_state_path(), "/var/lib/aria/platform-agent/compiled-node-state.json");
    assert_eq!(store.reconcile_plan_path(), "/var/lib/aria/platform-agent/reconcile-plan.json");
    assert_eq!(store.runtime_plan_path(), "/var/lib/aria/platform-agent/runtime-plan.json");
    assert_eq!(store.runtime_inventory_path(), "/var/lib/aria/platform-agent/runtime-inventory.json");
    assert_eq!(store.runtime_inventory_diff_path(), "/var/lib/aria/platform-agent/runtime-inventory-diff.json");
    assert_eq!(store.runtime_intent_path(), "/var/lib/aria/platform-agent/runtime-intent.json");
    assert_eq!(
        store.runtime_execution_summary_path(),
        "/var/lib/aria/platform-agent/runtime-execution-summary.json"
    );
    assert_eq!(store.socket_selection_plan_path(), "/var/lib/aria/platform-agent/socket-selection-plan.json");
}

#[test]
fn state_store_root_edge_cases() {
    assert_eq!(LocalPlatformStateStore::new("/state/").root, "/state/platform-agent");
    assert_eq!(LocalPlatformStateStore::new("").root, "platform-agent");
}

#[test]
fn timestamps_are_decimal_seconds() {
    let ts = unix_ts_string();
    assert!(!ts.is_empty());
    assert!(ts.chars().all(|c| c.is_ascii_digit()));
    assert!(ts.parse::<u64>().unwrap() > 1_600_000_000);
}
