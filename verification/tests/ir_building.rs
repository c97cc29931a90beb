use aria_agent::agent::ir::{AntiSpoofIr, PortIdentityIr};
use aria_agent::agent::ir_builders::{
    build_backend_member_ir, derive_service_forwarding_mode, extract_ipv4_u32, extract_ipv6_bytes,
    ipv4_to_v4mapped_bytes, is_v4_mapped, next_hop_ip_for_port, parse_mac_address, parse_security_port_range,
    required_runtime_label, stable_local_id, stable_local_id16, strip_cidr_suffix,
};
use aria_agent::api::platform::backend_set::BackendTargetSpec;
use aria_agent::api::platform::metadata::ResourceMetadata;
use aria_agent::api::platform::port::{PortResource, PortSpec, PortStatus};

fn port(id: &str, node: Option<&str>, fixed_ips: &[&str], labels: &[(&str, &str)]) -> PortResource {
    PortResource {
        metadata: ResourceMetadata {
            id: id.to_string(),
            resource_version: "1".to_string(),
            created_at: "0".to_string(),
            updated_at: "0".to_string(),
            labels: labels.iter().map(|(k, v)| (k.to_string(), v.to_string())).collect(),
        },
        spec: PortSpec {
            tenant_id: "t1".to_string(),
            network_id: "n1".to_string(),
            segment_id: None,
            instance_id: None,
            node_id: node.map(|n| n.to_string()),
            mac_address: "02:00:00:00:00:01".to_string(),
            fixed_ips: fixed_ips.iter().map(|s| s.to_string()).collect(),
            security_group_ids: vec![],
            allowed_address_pairs: vec![],
            anti_spoof_enabled: true,
            admin_state_up: true,
        },
        status: PortStatus { phase: "active".to_string(), attachment_state: None },
    }
}

fn backend(id: &str) -> BackendTargetSpec {
    BackendTargetSpec {
        id: id.to_string(),
        target_type: "ip".to_string(),
        target_ref: None,
        ip: None,
        node_id: None,
        port: 8080,
        weight: 10,
        admin_state: None,
        locality: None,
    }
}

fn identity(ipv4: u32, ipv6: [u8; 16]) -> PortIdentityIr {
    PortIdentityIr {
        port_id: "p1".to_string(),
        network_id: "n1".to_string(),
        tap_id: 1,
        ifindex: 2,
        sg_program_id: 1,
        tenant_local_id: 0,
        network_local_id: 0,
        segment_local_id: 0,
        mac: [0; 6],
        primary_ipv4: ipv4,
        primary_ipv6: ipv6,
        anti_spoof_enabled: false,
        anti_spoof_entries: Vec::<AntiSpoofIr>::new(),
        shadow_apply_only: true,
    }
}

#[test]
fn mac_address_parses_hex_octets() {
    assert_eq!(parse_mac_address("02:1a:FF:00:9b:10"), Ok([0x02, 0x1a, 0xff, 0x00, 0x9b, 0x10]));
}

#[test]
fn mac_address_needs_six_octets() {
    assert_eq!(parse_mac_address("02:1a:ff"), Err("mac_address must contain 6 octets".to_string()));
    assert_eq!(parse_mac_address(""), Err("mac_address must contain 6 octets".to_string()));
}

#[test]
fn mac_address_names_first_bad_octet() {
    assert_eq!(parse_mac_address("02:zz:ff:00:9b:100"), Err("invalid mac_address octet 'zz'".to_string()));
    assert_eq!(parse_mac_address("02:00:ff:00:9b:100"), Err("invalid mac_address octet '100'".to_string()));
    assert_eq!(parse_mac_address("02::ff:00:9b:10"), Err("invalid mac_address octet ''".to_string()));
}

#[test]
fn port_range_absent_or_blank_is_zero() {
    assert_eq!(parse_security_port_range(None), Ok((0, 0)));
    assert_eq!(parse_security_port_range(Some("   ")), Ok((0, 0)));
}

#[test]
fn port_range_single_port_and_range() {
    assert_eq!(parse_security_port_range(Some(" 443 ")), Ok((443, 443)));
    assert_eq!(parse_security_port_range(Some("1000 - 2000")), Ok((1000, 2000)));
}

#[test]
fn port_range_errors() {
    let lists = "phase-3 mode-a only supports a single port or a single range".to_string();
    assert_eq!(parse_security_port_range(Some("80,443")), Err(lists.clone()));
    assert_eq!(parse_security_port_range(Some("80:443")), Err(lists));
    assert_eq!(parse_security_port_range(Some("x-10")), Err("invalid port range start".to_string()));
    assert_eq!(parse_security_port_range(Some("10-70000")), Err("invalid port range end".to_string()));
    assert_eq!(parse_security_port_range(Some("20-10")), Err("port range start must be <= end".to_string()));
    assert_eq!(parse_security_port_range(Some("http")), Err("invalid port".to_string()));
}

#[test]
fn stable_local_id_is_fnv1a() {
    assert_eq!(stable_local_id(""), 0x811c9dc5);
    assert_eq!(stable_local_id("a"), 0xe40c292c);
    assert_eq!(stable_local_id("tenant-a"), stable_local_id("tenant-a"));
    assert_ne!(stable_local_id("tenant-a"), stable_local_id("tenant-b"));
}

#[test]
fn stable_local_id16_is_low_half() {
    assert_eq!(stable_local_id16(""), 0x9dc5);
    assert_eq!(stable_local_id16("a"), 0x292c);
}

#[test]
fn v4_mapping_round_trip() {
    let mapped = ipv4_to_v4mapped_bytes([10, 1, 2, 3]);
    assert_eq!(mapped, [0, 0, 0, 0, 0, 0, 0, 0, 0, 0, 0xff, 0xff, 10, 1, 2, 3]);
    assert!(is_v4_mapped(&mapped));
    assert_eq!(extract_ipv4_u32(&mapped), Some(0x0a010203));
    assert_eq!(extract_ipv6_bytes(&mapped), None);
}

#[test]
fn ipv6_extraction() {
    let mut v6 = [0u8; 16];
    v6[0] = 0xfd;
    v6[15] = 1;
    assert!(!is_v4_mapped(&v6));
    assert_eq!(extract_ipv4_u32(&v6), None);
    assert_eq!(extract_ipv6_bytes(&v6), Some(v6));
    assert_eq!(extract_ipv6_bytes(&[0; 16]), None);
}

#[test]
fn next_hop_prefers_ipv4() {
    let mut v6 = [0u8; 16];
    v6[0] = 0xfd;
    let hop = next_hop_ip_for_port(&identity(0xc0a80001, v6));
    assert_eq!(hop, [0, 0, 0, 0, 0, 0, 0, 0, 0, 0, 0xff, 0xff, 192, 168, 0, 1]);
    assert_eq!(extract_ipv4_u32(&hop), Some(0xc0a80001));
    assert_eq!(next_hop_ip_for_port(&identity(0, v6)), v6);
    assert_eq!(next_hop_ip_for_port(&identity(0, [0; 16])), [0; 16]);
}

#[test]
fn strip_cidr_suffix_cases() {
    assert_eq!(strip_cidr_suffix("10.0.0.1/24"), "10.0.0.1");
    assert_eq!(strip_cidr_suffix("fd00::1"), "fd00::1");
    assert_eq!(strip_cidr_suffix("/8"), "");
}

#[test]
fn forwarding_mode_cases() {
    assert_eq!(derive_service_forwarding_mode("overlay", false), "node_local_only");
    assert_eq!(derive_service_forwarding_mode("overlay", true), "cross_node_overlay");
    assert_eq!(derive_service_forwarding_mode("hybrid", true), "cross_node_hybrid");
    assert_eq!(derive_service_forwarding_mode("native", true), "cross_node_native");
    assert_eq!(derive_service_forwarding_mode("other", true), "cross_node_native");
}

#[test]
fn runtime_label_cases() {
    let p = port("p1", None, &[], &[("runtime.tap_id", "7"), ("runtime.ifindex", "0"), ("bad", "x")]);
    assert_eq!(required_runtime_label(&p, "runtime.tap_id"), Ok(7));
    assert_eq!(
        required_runtime_label(&p, "runtime.ifindex"),
        Err("runtime label 'runtime.ifindex' must be non-zero".to_string())
    );
    assert_eq!(required_runtime_label(&p, "bad"), Err("runtime label 'bad' must be a positive integer".to_string()));
    assert_eq!(
        required_runtime_label(&p, "runtime.mtu"),
        Err("missing required runtime label 'runtime.mtu'".to_string())
    );
}

#[test]
fn runtime_label_last_value_wins() {
    let p = port("p1", None, &[], &[("runtime.tap_id", "7"), ("runtime.tap_id", "9")]);
    assert_eq!(required_runtime_label(&p, "runtime.tap_id"), Ok(9));
}

#[test]
fn backend_member_defaults() {
    let m = build_backend_member_ir(&backend("b1"), &vec![], "node-1");
    assert_eq!(m.resolved_locality, "remote");
    assert_eq!(m.forwarding_scope, "cross_node");
    assert_eq!(m.resolution, "literal_target");
    assert_eq!(m.admin_state, "enabled");
    assert_eq!(m.resolved_ip_hint, None);
}

#[test]
fn backend_member_pinned_to_this_node() {
    let mut b = backend("b1");
    b.node_id = Some("node-1".to_string());
    b.ip = Some("10.0.0.9".to_string());
    let m = build_backend_member_ir(&b, &vec![], "node-1");
    assert_eq!(m.resolved_locality, "local");
    assert_eq!(m.forwarding_scope, "node_local");
    assert_eq!(m.resolution, "direct_ip");
    assert_eq!(m.resolved_ip_hint, Some("10.0.0.9".to_string()));
}

#[test]
fn backend_member_resolved_from_port() {
    let mut b = backend("b1");
    b.target_ref = Some("p1".to_string());
    b.locality = Some("remote".to_string());
    let ports = vec![port("p1", None, &["10.1.0.4/24"], &[])];
    let m = build_backend_member_ir(&b, &ports, "node-1");
    assert_eq!(m.resolved_locality, "local");
    assert_eq!(m.resolution, "resolved_from_port_ref");
    assert_eq!(m.resolved_ip_hint, Some("10.1.0.4".to_string()));
    assert_eq!(m.node_id, None);
    assert_eq!(m.declared_locality, Some("remote".to_string()));

    let remote_ports = vec![port("p1", Some("node-2"), &[], &[])];
    let m = build_backend_member_ir(&b, &remote_ports, "node-1");
    assert_eq!(m.resolved_locality, "remote");
    assert_eq!(m.node_id, Some("node-2".to_string()));
}

#[test]
fn backend_member_unknown_reference() {
    let mut b = backend("b1");
    b.target_ref = Some("missing".to_string());
    b.node_id = Some("node-1".to_string());
    let m = build_backend_member_ir(&b, &vec![], "node-1");
    assert_eq!(m.resolution, "shadow_remote_reference");
    assert_eq!(m.resolved_locality, "remote");
}
