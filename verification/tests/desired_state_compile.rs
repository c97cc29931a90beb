use std::collections::BTreeMap;

use aria_agent::agent::object_compile::compile_service_objects;
use aria_agent::agent::ir_builders::stable_local_id;
use aria_agent::agent::policy_compile::{
    apply_status, compile_domain_summaries, compile_network_policies, degraded_reasons, failures_of_kind,
    CompileCounts,
};
use aria_agent::agent::port_admission::admit_ports;
use aria_agent::api::platform::network_policy::{
    NetworkPolicyResource, NetworkPolicyRule, NetworkPolicySpec, NetworkPolicyStatus,
};
use aria_agent::api::southbound::ApplyObjectFailure;
use aria_agent::api::platform::backend_set::{BackendSetResource, BackendSetSpec, BackendSetStatus, BackendTargetSpec};
use aria_agent::api::platform::health_check::{HealthCheckResource, HealthCheckSpec, HealthCheckStatus};
use aria_agent::api::platform::service::{ServicePortSpec, ServiceResource, ServiceSpec, ServiceStatus};
use aria_agent::api::platform::metadata::ResourceMetadata;
use aria_agent::api::platform::network::{NetworkResource, NetworkSpec, NetworkStatus};
use aria_agent::api::platform::port::{PortResource, PortSpec, PortStatus};
use aria_agent::api::platform::security_group::{SecurityGroupResource, SecurityGroupSpec, SecurityGroupStatus};
use aria_agent::api::platform::tenant::{TenantResource, TenantSpec, TenantStatus};
use aria_agent::api::southbound::DesiredStateEnvelope;

fn meta(id: &str, labels: &[(&str, &str)]) -> ResourceMetadata {
    ResourceMetadata {
        id: id.to_string(),
        resource_version: "1".to_string(),
        created_at: "0".to_string(),
        updated_at: "0".to_string(),
        labels: labels.iter().map(|(k, v)| (k.to_string(), v.to_string())).collect(),
    }
}

fn port(id: &str, node: Option<&str>, tenant: &str, sgs: &[&str], tap: &str, ifindex: &str, up: bool) -> PortResource {
    PortResource {
        metadata: meta(id, &[("runtime.tap_id", tap), ("runtime.ifindex", ifindex)]),
        spec: PortSpec {
            tenant_id: tenant.to_string(),
            network_id: "n1".to_string(),
            segment_id: Some("seg1".to_string()),
            instance_id: None,
            node_id: node.map(|n| n.to_string()),
            mac_address: "02:00:00:00:00:01".to_string(),
            fixed_ips: vec!["10.0.0.5".to_string()],
            security_group_ids: sgs.iter().map(|s| s.to_string()).collect(),
            allowed_address_pairs: vec![],
            anti_spoof_enabled: true,
            admin_state_up: up,
        },
        status: PortStatus { phase: "active".to_string(), attachment_state: None },
    }
}

fn envelope(ports: Vec<PortResource>) -> DesiredStateEnvelope {
    DesiredStateEnvelope {
        generation: "g1".to_string(),
        issued_at: "0".to_string(),
        full_sync: false,
        tenants: vec![TenantResource {
            metadata: meta("t1", &[]),
            spec: TenantSpec { name: "t1".to_string(), description: None, quotas: BTreeMap::new() },
            status: TenantStatus { phase: "ready".to_string() },
        }],
        networks: vec![NetworkResource {
            metadata: meta("n1", &[]),
            spec: NetworkSpec {
                tenant_id: "t1".to_string(),
                name: "n1".to_string(),
                network_type: "vxlan".to_string(),
                ipv4_enabled: true,
                ipv6_enabled: false,
                route_mode: "overlay".to_string(),
            },
            status: NetworkStatus { phase: "ready".to_string() },
        }],
        security_groups: vec![SecurityGroupResource {
            metadata: meta("sg1", &[]),
            spec: SecurityGroupSpec { tenant_id: "t1".to_string(), name: "sg1".to_string(), description: None, rules: vec![] },
            status: SecurityGroupStatus { phase: "ready".to_string(), rule_count: 0 },
        }],
        health_checks: vec![],
        ports,
        services: vec![],
        backend_sets: vec![],
        route_tables: vec![],
        ip_groups: vec![],
        network_policies: vec![],
        qos_policies: vec![],
    }
}

#[test]
fn ports_are_admitted_refused_and_warned_in_order() {
    let d = envelope(vec![
        port("p1", Some("node-a"), "t1", &["sg1"], "1", "10", true),
        port("p2", Some("node-b"), "t1", &[], "2", "11", true),
        port("p3", None, "t9", &[], "3", "12", true),
        port("p4", Some("node-a"), "t1", &["sg1", "sg9"], "4", "13", true),
        port("p5", Some("node-a"), "t1", &[], "0", "14", true),
        port("p6", Some("node-a"), "t1", &[], "1", "15", true),
        port("p7", Some("node-a"), "t1", &[], "7", "10", true),
        port("p8", Some("node-a"), "t1", &[], "8", "18", false),
        port("p9", None, "t1", &[], "9", "19", true),
    ]);
    let r = admit_ports(&d, "node-a");
    let bound: Vec<&str> = r.bindings.iter().map(|b| b.port_id.as_str()).collect();
    assert_eq!(bound, vec!["p1", "p5", "p6", "p7", "p8", "p9"]);
    assert_eq!(r.bindings[0].segment_id.as_deref(), Some("seg1"));
    assert_eq!(r.bindings[0].security_group_ids, vec!["sg1".to_string()]);
    assert_eq!(r.identified, vec![(0, 1, 10), (8, 9, 19)]);
    let failures: Vec<(&str, &str)> = r.failures.iter().map(|f| (f.id.as_str(), f.reason.as_str())).collect();
    assert_eq!(
        failures,
        vec![
            ("p2", "port bound to node 'node-b' instead of 'node-a'"),
            ("p3", "missing tenant 't9' in desired envelope"),
            ("p4", "missing security group 'sg9' in desired envelope"),
            ("p5", "runtime label 'runtime.tap_id' must be non-zero"),
            ("p6", "runtime.tap_id '1' is already claimed by port 'p1'"),
            ("p7", "runtime.ifindex '10' is already claimed by port 'p1'"),
        ]
    );
    assert!(r.failures.iter().all(|f| f.resource_kind == "port"));
    assert_eq!(
        r.warnings,
        vec![
            "port 'p3' has no explicit node binding; treating it as node-local shadow state".to_string(),
            "port 'p8' is administratively down; skipping phase-3 map materialization until it is enabled".to_string(),
            "port 'p9' has no explicit node binding; treating it as node-local shadow state".to_string(),
        ]
    );
}

#[test]
fn a_refused_port_still_claims_its_tap_id() {
    // p2 claims tap 5 although its interface index is taken, so p3 names p2.
    let d = envelope(vec![
        port("p1", Some("n"), "t1", &[], "1", "10", true),
        port("p2", Some("n"), "t1", &[], "5", "10", true),
        port("p3", Some("n"), "t1", &[], "5", "30", true),
    ]);
    let r = admit_ports(&d, "n");
    assert_eq!(r.identified, vec![(0, 1, 10)]);
    assert_eq!(r.failures[0].reason, "runtime.ifindex '10' is already claimed by port 'p1'");
    assert_eq!(r.failures[1].reason, "runtime.tap_id '5' is already claimed by port 'p2'");
}

fn health_check(id: &str, tenant: &str, network: Option<&str>) -> HealthCheckResource {
    HealthCheckResource {
        metadata: meta(id, &[]),
        spec: HealthCheckSpec {
            tenant_id: tenant.to_string(),
            network_id: network.map(|n| n.to_string()),
            name: id.to_string(),
            protocol: "tcp".to_string(),
            interval_seconds: 5,
            timeout_seconds: 1,
            healthy_threshold: 2,
            unhealthy_threshold: 3,
            target_port: Some(8080),
            request_template: None,
        },
        status: HealthCheckStatus { phase: "ready".to_string() },
    }
}

fn target(id: &str, target_ref: Option<&str>, node: Option<&str>, locality: Option<&str>) -> BackendTargetSpec {
    BackendTargetSpec {
        id: id.to_string(),
        target_type: "port_ref".to_string(),
        target_ref: target_ref.map(|s| s.to_string()),
        ip: None,
        node_id: node.map(|s| s.to_string()),
        port: 8080,
        weight: 1,
        admin_state: None,
        locality: locality.map(|s| s.to_string()),
    }
}

fn backend_set(id: &str, hc: Option<&str>, backends: Vec<BackendTargetSpec>) -> BackendSetResource {
    BackendSetResource {
        metadata: meta(id, &[]),
        spec: BackendSetSpec {
            tenant_id: "t1".to_string(),
            network_id: "n1".to_string(),
            name: id.to_string(),
            health_check_id: hc.map(|s| s.to_string()),
            policy: "round_robin".to_string(),
            backends,
        },
        status: BackendSetStatus { phase: "ready".to_string(), backend_count: 0, healthy_backends: 0 },
    }
}

fn service(id: &str, network: &str, bs: Option<&str>) -> ServiceResource {
    ServiceResource {
        metadata: meta(id, &[]),
        spec: ServiceSpec {
            tenant_id: "t1".to_string(),
            network_id: network.to_string(),
            name: id.to_string(),
            vip: "10.96.0.1".to_string(),
            protocol: "tcp".to_string(),
            ports: vec![ServicePortSpec { name: None, port: 80, target_port: None }],
            backend_set_id: bs.map(|s| s.to_string()),
            session_affinity: None,
            lb_policy: "random".to_string(),
            exposure_type: "internal".to_string(),
        },
        status: ServiceStatus { phase: "ready".to_string(), exposure_state: None },
    }
}

#[test]
fn service_objects_compile_in_stages() {
    let mut d = envelope(vec![
        port("p-here", Some("node-a"), "t1", &[], "1", "10", true),
        port("p-there", Some("node-b"), "t1", &[], "2", "11", true),
        port("p-any", None, "t1", &[], "3", "12", true),
    ]);
    d.health_checks = vec![
        health_check("hc1", "t1", Some("n1")),
        health_check("hc2", "t9", None),
        health_check("hc3", "t1", Some("n9")),
    ];
    d.backend_sets = vec![
        backend_set("bs1", Some("hc1"), vec![
            target("b1", Some("p-here"), None, None),
            target("b2", Some("p-there"), None, None),
            target("b3", Some("p-any"), None, None),
            target("b4", Some("p-gone"), None, None),
            target("b5", None, None, Some("local")),
            target("b6", None, None, None),
        ]),
        backend_set("bs2", Some("hc9"), vec![]),
        backend_set("bs3", None, vec![target("b1", Some("p-gone"), Some("node-a"), None)]),
        backend_set("bs3", None, vec![]),
        // A health check that was refused still exists in the envelope.
        backend_set("bs4", Some("hc2"), vec![]),
    ];
    d.services = vec![
        service("s1", "n1", Some("bs1")),
        service("s2", "n1", Some("bs3")),
        service("s3", "n9", None),
        service("s4", "n1", None),
    ];
    let r = compile_service_objects(&d, "node-a");
    let hcs: Vec<&str> = r.health_checks.iter().map(|h| h.health_check_id.as_str()).collect();
    assert_eq!(hcs, vec!["hc1"]);
    assert_eq!(r.health_checks[0].target_port, Some(8080));
    let sets: Vec<(&str, usize, usize, usize)> = r
        .backend_sets
        .iter()
        .map(|b| (b.backend_set_id.as_str(), b.backend_count, b.local_backend_count, b.remote_backend_count))
        .collect();
    assert_eq!(sets, vec![("bs1", 6, 3, 3), ("bs4", 0, 0, 0)]);
    let services: Vec<&str> = r.services.iter().map(|s| s.service_id.as_str()).collect();
    assert_eq!(services, vec!["s1", "s4"]);
    assert_eq!(r.services[0].port_count, 1);
    let failures: Vec<(&str, &str, &str)> =
        r.failures.iter().map(|f| (f.resource_kind.as_str(), f.id.as_str(), f.reason.as_str())).collect();
    assert_eq!(
        failures,
        vec![
            ("health_check", "hc2", "missing tenant 't9' in desired envelope"),
            ("health_check", "hc3", "missing network 'n9' in desired envelope"),
            ("backend_set", "bs2", "missing health_check 'hc9' in desired envelope"),
            ("backend_set", "bs3", "backend 'b1' references local port 'p-gone' that is missing from desired envelope"),
            ("service", "s2", "missing backend_set 'bs3' in desired envelope"),
            ("service", "s3", "missing network 'n9' in desired envelope"),
        ]
    );
    assert_eq!(
        r.warnings,
        vec!["backend_set 'bs1' backend 'b4' references remote port 'p-gone' outside node-local desired envelope; treating as remote shadow backend".to_string()]
    );
}

fn policy(id: &str, network: &str, rules: Vec<NetworkPolicyRule>) -> NetworkPolicyResource {
    NetworkPolicyResource {
        metadata: meta(id, &[]),
        spec: NetworkPolicySpec { tenant_id: "t1".to_string(), network_id: network.to_string(), name: id.to_string(), rules },
        status: NetworkPolicyStatus { phase: "ready".to_string(), rule_count: 1 },
    }
}

#[test]
fn network_policies_compile_for_known_networks() {
    let mut d = envelope(vec![]);
    let rule = NetworkPolicyRule {
        src_ip_group_id: "ipg-a".to_string(),
        dst_ip_group_id: "ipg-b".to_string(),
        proto: 6,
        direction: 0,
        action: 1,
        ports: Some("80,443".to_string()),
    };
    d.network_policies = vec![policy("np1", "n1", vec![rule.clone()]), policy("np2", "n9", vec![rule])];
    let r = compile_network_policies(&d);
    assert_eq!(r.len(), 1);
    assert_eq!(r[0].policy_id, "np1");
    assert_eq!(r[0].rules[0].src_numeric_id, stable_local_id("ipg-a"));
    assert_eq!(r[0].rules[0].dst_numeric_id, stable_local_id("ipg-b"));
    assert_eq!(r[0].rules[0].action, 1);
    assert_eq!(r[0].rules[0].ports.as_deref(), Some("80,443"));
    assert!(r[0].shadow_apply_only);
}

fn counts() -> CompileCounts {
    CompileCounts {
        tenants: 1, networks: 2, ip_groups: 3, distinct_tenants: 1, distinct_networks: 2, compiled_ip_groups: 2,
        ports: 4, port_identities: 3, port_failures: 1, security_groups: 2, network_policies: 1, sg_rules: 5,
        compiled_network_policies: 1, security_failures: 0, route_tables: 1, route_entries: 2, route_failures: 0,
        health_checks: 1, backend_sets: 1, services: 2, compiled_health_checks: 1, compiled_backend_sets: 1,
        compiled_services: 2, service_failures: 0, overlay_encap_unsupported: true, qos_policies: 0,
        compiled_qos_policies: 0,
    }
}

#[test]
fn compile_summaries_and_status() {
    let s = compile_domain_summaries(&counts());
    let rows: Vec<(&str, usize, usize, usize, &str)> = s
        .iter()
        .map(|x| (x.domain.as_str(), x.input_objects, x.compiled_objects, x.failed_objects, x.status.as_str()))
        .collect();
    assert_eq!(
        rows,
        vec![
            ("identity", 6, 5, 0, "shadow_ready"),
            ("ports", 4, 3, 1, "shadow_degraded"),
            ("security", 3, 6, 0, "shadow_ready"),
            ("routes", 1, 2, 0, "shadow_ready"),
            ("services", 4, 4, 0, "shadow_degraded"),
            ("nat", 0, 0, 0, "shadow_reserved"),
            ("qos", 0, 0, 0, "shadow_reserved"),
        ]
    );
    assert_eq!(degraded_reasons(false, false), vec!["shadow_apply_only".to_string()]);
    assert_eq!(
        degraded_reasons(true, true),
        vec![
            "object_validation_failed".to_string(),
            "overlay_encap_unsupported".to_string(),
            "shadow_apply_only".to_string()
        ]
    );
    assert_eq!(apply_status(0, 0), "partial");
    assert_eq!(apply_status(2, 3), "partial");
    assert_eq!(apply_status(3, 3), "failed");
    let f = |kind: &str| ApplyObjectFailure { resource_kind: kind.to_string(), id: "x".to_string(), reason: "r".to_string() };
    let fs = vec![f("port"), f("service"), f("port"), f("route_table")];
    assert_eq!(failures_of_kind(&fs, "port"), 2);
    assert_eq!(failures_of_kind(&fs, "security_group"), 0);
}
