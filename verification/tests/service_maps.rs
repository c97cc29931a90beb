use std::time::Duration;

use aria_agent::agent::ir::{
    BackendMemberIr, BackendSetIr, HealthCheckIr, ServiceFrontendIr, ServiceFrontendPortIr, ServiceProgramIr,
};
use aria_agent::agent::ir_builders::ipv4_to_v4mapped_bytes;
use aria_agent::agent::service_maps::{lookup_address, protocol_of, service_map_plan};
use aria_agent::health::{BackendTarget, HealthCheckExecutor, ProbeConfig};

fn member(id: &str, ip: Option<&str>, port: u16, locality: &str, admin: &str) -> BackendMemberIr {
    BackendMemberIr {
        backend_id: id.to_string(),
        target_type: "ip".to_string(),
        target_ref: None,
        resolved_ip_hint: ip.map(|s| s.to_string()),
        service_port: port,
        weight: 7,
        admin_state: admin.to_string(),
        node_id: None,
        declared_locality: None,
        resolved_locality: locality.to_string(),
        forwarding_scope: "node_local".to_string(),
        resolution: "direct_ip".to_string(),
        shadow_apply_only: false,
    }
}

fn health_check() -> HealthCheckIr {
    HealthCheckIr {
        health_check_id: "hc1".to_string(),
        tenant_id: "t1".to_string(),
        network_id: None,
        probe_protocol: "tcp".to_string(),
        interval_seconds: 5,
        timeout_seconds: 1,
        healthy_threshold: 1,
        unhealthy_threshold: 1,
        target_port: None,
        has_request_template: false,
        shadow_apply_only: false,
    }
}

fn program(id: &str, vip: &str, proto: &str, lb: &str, ports: &[u16], backends: Vec<BackendMemberIr>,
    checked: bool) -> ServiceProgramIr {
    ServiceProgramIr {
        service_id: id.to_string(),
        backend_set_id: Some("bs1".to_string()),
        health_check_id: None,
        frontend: ServiceFrontendIr {
            service_id: id.to_string(),
            tenant_id: "t1".to_string(),
            network_id: "n1".to_string(),
            route_mode: "native".to_string(),
            vip: vip.to_string(),
            protocol: proto.to_string(),
            lb_policy: lb.to_string(),
            session_affinity: Some("client_ip".to_string()),
            exposure_type: "cluster_ip".to_string(),
            forwarding_mode: "node_local".to_string(),
            listener_ports: ports
                .iter()
                .map(|p| ServiceFrontendPortIr { name: None, service_port: *p, target_port: None })
                .collect(),
            node_local_forwarding: true,
            cross_node_forwarding: false,
            shadow_apply_only: false,
        },
        backend_set: Some(BackendSetIr {
            backend_set_id: "bs1".to_string(),
            tenant_id: "t1".to_string(),
            network_id: "n1".to_string(),
            selection_policy: "round_robin".to_string(),
            health_check_id: None,
            local_backend_count: 0,
            remote_backend_count: 0,
            backends,
            shadow_apply_only: false,
        }),
        health_check: if checked { Some(health_check()) } else { None },
        shadow_apply_only: false,
    }
}

fn v4(text: &str, a: u8, b: u8, c: u8, d: u8) -> (String, [u8; 16]) {
    (text.to_string(), ipv4_to_v4mapped_bytes([a, b, c, d]))
}

fn table() -> Vec<(String, [u8; 16])> {
    vec![
        v4("10.96.0.10", 10, 96, 0, 10),
        v4("10.96.0.11", 10, 96, 0, 11),
        v4("10.0.0.5", 10, 0, 0, 5),
        v4("10.0.0.6", 10, 0, 0, 6),
        v4("10.0.0.7", 10, 0, 0, 7),
    ]
}

fn config() -> ProbeConfig {
    ProbeConfig {
        protocol: "tcp".to_string(),
        interval: Duration::from_secs(5),
        timeout: Duration::from_secs(1),
        healthy_threshold: 1,
        unhealthy_threshold: 1,
        target_port: None,
    }
}

#[test]
fn address_lookup_and_protocols() {
    let t = table();
    assert_eq!(lookup_address(&t, "10.0.0.6"), Some(ipv4_to_v4mapped_bytes([10, 0, 0, 6])));
    assert_eq!(lookup_address(&t, "not-an-ip"), None);
    assert_eq!(protocol_of("tcp"), Some(6));
    assert_eq!(protocol_of("udp"), Some(17));
    assert_eq!(protocol_of("icmp"), None);
}

#[test]
fn frontends_backends_and_revnats() {
    let backends = vec![
        member("b1", Some("10.0.0.5"), 8080, "local", "enabled"),
        member("b2", Some("10.0.0.6"), 8080, "remote", "enabled"),
        member("b3", Some("not-an-ip"), 8080, "local", "enabled"),
        member("b4", Some("10.0.0.7"), 8081, "local", "disabled"),
        member("b5", Some("10.0.0.7"), 8082, "local", "enabled"),
    ];
    let programs = vec![program("svc-web", "10.96.0.10", "tcp", "maglev", &[80], backends, false)];
    let plan = service_map_plan(3, &programs, &HealthCheckExecutor::new(), &table()).unwrap();
    assert_eq!(plan.frontends.len(), 1);
    assert_eq!(plan.frontends[0].port, 80);
    for f in &plan.frontends {
        assert_eq!(f.tap_id, 3);
        assert_eq!(f.service_id, 1);
        assert_eq!(f.proto, 6);
        // b1, b3 and b5 take slots; b3's address does not parse.
        assert_eq!(f.backend_count, 3);
        assert!(f.session_affinity);
        assert!(f.maglev);
        assert_eq!(f.address, ipv4_to_v4mapped_bytes([10, 96, 0, 10]));
    }
    assert_eq!(plan.backends.len(), 2);
    assert_eq!(plan.backends[0].slot, 0);
    assert_eq!(plan.backends[0].address, ipv4_to_v4mapped_bytes([10, 0, 0, 5]));
    assert_eq!(plan.backends[1].slot, 2);
    assert_eq!(plan.backends[1].port, 8082);
    assert_eq!(plan.backends[1].weight, 7);
    assert_eq!(plan.revnats.len(), 2);
    assert_eq!(plan.revnats[1].backend_port, 8082);
}

#[test]
fn listeners_without_backends_give_frontends_only() {
    let programs = vec![program("svc-web", "10.96.0.10", "tcp", "random", &[80, 443], vec![], false)];
    let plan = service_map_plan(3, &programs, &HealthCheckExecutor::new(), &table()).unwrap();
    assert_eq!(plan.frontends.len(), 2);
    assert_eq!(plan.frontends[1].port, 443);
    assert_eq!(plan.frontends[1].backend_count, 0);
    assert!(plan.backends.is_empty());
    assert!(plan.revnats.is_empty());
}

#[test]
fn two_listeners_on_one_backend_port_conflict() {
    let backends = vec![member("b1", Some("10.0.0.5"), 8080, "local", "enabled")];
    let programs = vec![program("svc-web", "10.96.0.10", "tcp", "random", &[80, 443], backends, false)];
    let r = service_map_plan(3, &programs, &HealthCheckExecutor::new(), &table());
    assert_eq!(r.unwrap_err(), "service 'svc-web' has ambiguous revnat mapping for backend port 8080 on tap 3");
}

#[test]
fn one_listener_gives_one_revnat_per_backend() {
    let backends = vec![
        member("b1", Some("10.0.0.5"), 8080, "local", "enabled"),
        member("b2", Some("10.0.0.6"), 8080, "local", "enabled"),
    ];
    let programs = vec![program("svc-web", "10.96.0.10", "tcp", "random", &[80], backends, false)];
    let plan = service_map_plan(9, &programs, &HealthCheckExecutor::new(), &table()).unwrap();
    assert_eq!(plan.revnats.len(), 2);
    assert_eq!(plan.revnats[0].backend_address, ipv4_to_v4mapped_bytes([10, 0, 0, 5]));
    assert_eq!(plan.revnats[0].service_port, 80);
    assert_eq!(plan.revnats[0].service_address, ipv4_to_v4mapped_bytes([10, 96, 0, 10]));
    assert_eq!(plan.revnats[1].backend_address, ipv4_to_v4mapped_bytes([10, 0, 0, 6]));
    assert!(!plan.frontends[0].maglev);
}

#[test]
fn two_services_sharing_a_backend_conflict() {
    let programs = vec![
        program("svc-a", "10.96.0.10", "tcp", "random", &[80], vec![member("b1", Some("10.0.0.5"), 8080, "local", "enabled")], false),
        program("svc-b", "10.96.0.11", "tcp", "random", &[80], vec![member("b1", Some("10.0.0.5"), 8080, "local", "enabled")], false),
    ];
    let r = service_map_plan(1, &programs, &HealthCheckExecutor::new(), &table());
    assert_eq!(r.unwrap_err(), "service 'svc-b' has ambiguous revnat mapping for backend port 8080 on tap 1");
    // Same backend under another protocol is no conflict.
    let programs = vec![
        program("svc-a", "10.96.0.10", "tcp", "random", &[80], vec![member("b1", Some("10.0.0.5"), 8080, "local", "enabled")], false),
        program("svc-b", "10.96.0.11", "udp", "random", &[80], vec![member("b1", Some("10.0.0.5"), 8080, "local", "enabled")], false),
    ];
    let plan = service_map_plan(1, &programs, &HealthCheckExecutor::new(), &table()).unwrap();
    assert_eq!(plan.frontends.len(), 2);
    assert_eq!(plan.frontends[1].service_id, 2);
    assert_eq!(plan.frontends[1].proto, 17);
    assert_eq!(plan.revnats.len(), 2);
}

#[test]
fn unusable_programs_have_no_entries_but_keep_their_number() {
    let programs = vec![
        program("bad-vip", "nowhere", "tcp", "random", &[80], vec![member("b1", Some("10.0.0.5"), 8080, "local", "enabled")], false),
        program("bad-proto", "10.96.0.10", "sctp", "random", &[80], vec![member("b1", Some("10.0.0.5"), 8080, "local", "enabled")], false),
        program("good", "10.96.0.11", "udp", "random", &[53], vec![member("b1", Some("10.0.0.6"), 53, "local", "enabled")], false),
    ];
    let plan = service_map_plan(1, &programs, &HealthCheckExecutor::new(), &table()).unwrap();
    assert_eq!(plan.frontends.len(), 1);
    assert_eq!(plan.frontends[0].service_id, 3);
    assert_eq!(plan.backends.len(), 1);
    assert_eq!(plan.backends[0].service_id, 3);
    assert_eq!(plan.revnats.len(), 1);
}

#[test]
fn unhealthy_backend_leaves_and_returns_to_the_slot_array() {
    let backends = vec![
        member("b1", Some("10.0.0.5"), 8080, "local", "enabled"),
        member("b2", Some("10.0.0.6"), 8080, "local", "enabled"),
    ];
    let programs = vec![program("svc-web", "10.96.0.10", "tcp", "random", &[80], backends, true)];
    let target = BackendTarget {
        service_id: "svc-web".to_string(),
        backend_id: "b1".to_string(),
        address: "10.0.0.5".to_string(),
        port: 8080,
    };
    let mut health = HealthCheckExecutor::new();
    health.record_probe(&target, &config(), false);
    let plan = service_map_plan(1, &programs, &health, &table()).unwrap();
    assert_eq!(plan.frontends[0].backend_count, 1);
    assert_eq!(plan.backends.len(), 1);
    assert_eq!(plan.backends[0].slot, 0);
    assert_eq!(plan.backends[0].address, ipv4_to_v4mapped_bytes([10, 0, 0, 6]));

    health.record_probe(&target, &config(), true);
    let plan = service_map_plan(1, &programs, &health, &table()).unwrap();
    assert_eq!(plan.frontends[0].backend_count, 2);
    assert_eq!(plan.backends.len(), 2);
    assert_eq!(plan.backends[1].slot, 1);

    // Without a health check the state is not consulted.
    let mut unchecked = programs;
    unchecked[0].health_check = None;
    health.record_probe(&target, &config(), false);
    let plan = service_map_plan(1, &unchecked, &health, &table()).unwrap();
    assert_eq!(plan.frontends[0].backend_count, 2);
}
