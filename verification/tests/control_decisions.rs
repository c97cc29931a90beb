use aria_agent::agent::cycle::{compile_needed, registration_due};
use aria_agent::api::dataplane::drops::KernelDropQuery;
use aria_agent::control::decisions::{
    check_group_unused, mirror_rules_to_delete, plan_config_update, resolve_kernel_drop_target,
    KernelDropInstance, KernelDropTarget, MirrorRuleKey,
};
use aria_agent::control::error::ControlPlaneError;

#[test]
fn group_in_use_checks_policies_then_qos_then_mirrors() {
    let none: Vec<(u32, u32)> = vec![];
    assert!(check_group_unused("web", 7, &none, &vec![], &none).is_ok());
    assert!(check_group_unused("web", 7, &vec![(1, 2)], &vec![3], &vec![(4, 5)]).is_ok());
    match check_group_unused("web", 7, &vec![(1, 7)], &vec![7], &vec![(7, 1)]) {
        Err(ControlPlaneError::GroupInUse(m)) => assert_eq!(m, "Group 'web' is referenced by a policy"),
        other => panic!("unexpected {:?}", other),
    }
    match check_group_unused("web", 7, &none, &vec![7], &vec![(7, 1)]) {
        Err(ControlPlaneError::GroupInUse(m)) => assert_eq!(m, "Group 'web' is referenced by a QoS rule"),
        other => panic!("unexpected {:?}", other),
    }
    let e = check_group_unused("web", 7, &none, &vec![], &vec![(2, 7)]).unwrap_err();
    assert_eq!(e.message(), "Group in use: Group 'web' is referenced by a mirror rule");
    assert_eq!(e.status_code(), 409);
}

#[test]
fn config_update_flags() {
    let u = plan_config_update(None, None, None, None, None, None, Some(true), false, false);
    assert!(u.only_ssl);
    let u = plan_config_update(Some(true), None, Some(false), Some(true), Some(true), None, Some(true), false, true);
    assert!(!u.only_ssl);
    assert_eq!(u.conntrack, Some(true));
    assert_eq!(u.acl, Some(false));
    assert_eq!(u.kernel_qos, Some(false));
    assert_eq!(u.kernel_mirror, Some(true));
    assert_eq!(u.tcprt, None);
    let u = plan_config_update(None, None, None, Some(true), None, None, None, true, false);
    assert_eq!(u.kernel_qos, Some(true));
    assert_eq!(u.kernel_mirror, None);
    assert!(!u.only_ssl);
}

fn rule(src: u32, dst: u32, proto: u8, direction: u8, is_global: bool) -> MirrorRuleKey {
    MirrorRuleKey { src_group_id: src, dst_group_id: dst, proto, direction, is_global }
}

#[test]
fn mirror_rules_named_by_a_delete() {
    let rules = vec![rule(1, 2, 6, 0, false), rule(1, 2, 6, 1, false), rule(0, 0, 0, 0, true), rule(1, 2, 17, 0, false)];
    assert_eq!(mirror_rules_to_delete(&rules, 1, 2, 6, 2).unwrap(), vec![rules[0], rules[1]]);
    assert_eq!(mirror_rules_to_delete(&rules, 1, 2, 6, 1).unwrap(), vec![rules[1]]);
    assert_eq!(mirror_rules_to_delete(&rules, 0, 0, 0, 2).unwrap(), vec![rules[2]]);
    assert_eq!(mirror_rules_to_delete(&rules, 1, 2, 17, 2).unwrap(), vec![rules[3]]);
    match mirror_rules_to_delete(&rules, 1, 3, 6, 0) {
        Err(ControlPlaneError::PolicyNotFound(m)) => assert_eq!(m, "Mirror rule not found"),
        other => panic!("unexpected {:?}", other),
    }
}

fn inst(name: &str, tap: u32, ifindex: Option<u32>, iface: Option<&str>) -> KernelDropInstance {
    KernelDropInstance {
        instance_name: name.to_string(),
        tap_id: tap,
        ifindex,
        iface_name: iface.map(|s| s.to_string()),
    }
}

const UNASSIGNED: u32 = u32::MAX;

fn instances() -> Vec<KernelDropInstance> {
    vec![
        inst("tap-a", 1, Some(10), Some("eth0")),
        inst("tap-b", 2, Some(11), Some("eth1")),
        inst("tap-c", 3, Some(12), Some("eth1")),
        inst("tap-d", UNASSIGNED, None, Some("eth9")),
    ]
}

fn validation(r: Result<KernelDropTarget, ControlPlaneError>) -> String {
    match r {
        Err(ControlPlaneError::ValidationError(m)) => m,
        other => panic!("unexpected {:?}", other),
    }
}

#[test]
fn kernel_drop_target_resolution() {
    let all = instances();
    let mut q = KernelDropQuery::default();
    q.include_unattributed = true;
    assert_eq!(
        resolve_kernel_drop_target(&q, &all, UNASSIGNED).unwrap(),
        KernelDropTarget { tap_id: None, ifindex: None, include_unattributed: true }
    );
    q.instance = Some("tap-a".to_string());
    assert_eq!(
        resolve_kernel_drop_target(&q, &all, UNASSIGNED).unwrap(),
        KernelDropTarget { tap_id: Some(1), ifindex: Some(10), include_unattributed: false }
    );
    q.instance = Some("nope".to_string());
    match resolve_kernel_drop_target(&q, &all, UNASSIGNED) {
        Err(ControlPlaneError::InstanceNotFound(m)) => assert_eq!(m, "nope"),
        other => panic!("unexpected {:?}", other),
    }

    let mut q = KernelDropQuery::default();
    q.iface = Some("eth1".to_string());
    assert_eq!(validation(resolve_kernel_drop_target(&q, &all, UNASSIGNED)), "Interface 'eth1' maps to multiple active instances");
    q.iface = Some("eth7".to_string());
    assert_eq!(validation(resolve_kernel_drop_target(&q, &all, UNASSIGNED)), "Interface 'eth7' is not attached to an active instance");
    q.iface = Some("eth0".to_string());
    q.instance = Some("tap-b".to_string());
    assert_eq!(validation(resolve_kernel_drop_target(&q, &all, UNASSIGNED)), "Instance 'tap-b' does not match interface 'eth0'");

    let mut q = KernelDropQuery::default();
    q.instance = Some("tap-a".to_string());
    q.ifindex = Some(99);
    assert_eq!(validation(resolve_kernel_drop_target(&q, &all, UNASSIGNED)), "Instance 'tap-a' does not match ifindex 99");
    let mut q = KernelDropQuery::default();
    q.iface = Some("eth0".to_string());
    q.ifindex = Some(98);
    assert_eq!(validation(resolve_kernel_drop_target(&q, &all, UNASSIGNED)), "Interface 'eth0' does not match ifindex 98");

    let mut q = KernelDropQuery::default();
    q.instance = Some("tap-d".to_string());
    match resolve_kernel_drop_target(&q, &all, UNASSIGNED) {
        Err(ControlPlaneError::InstanceNotReady(m)) => {
            assert_eq!(m, "Instance 'tap-d' does not have a resolved kernel-drop filter target yet")
        },
        other => panic!("unexpected {:?}", other),
    }
    let mut q = KernelDropQuery::default();
    q.iface = Some("eth9".to_string());
    match resolve_kernel_drop_target(&q, &all, UNASSIGNED) {
        Err(ControlPlaneError::InstanceNotReady(m)) => {
            assert_eq!(m, "Interface 'eth9' does not have a resolved kernel-drop filter target yet")
        },
        other => panic!("unexpected {:?}", other),
    }
    let mut q = KernelDropQuery::default();
    q.ifindex = Some(11);
    q.include_unattributed = true;
    assert_eq!(
        resolve_kernel_drop_target(&q, &all, UNASSIGNED).unwrap(),
        KernelDropTarget { tap_id: None, ifindex: Some(11), include_unattributed: false }
    );
}

#[test]
fn agent_cycle_decisions() {
    assert!(registration_due(None, 30_000));
    assert!(!registration_due(Some(29_999), 30_000));
    assert!(registration_due(Some(30_000), 30_000));
    let g = |s: &str| Some(s.to_string());
    assert!(!compile_needed("7", &vec![g("7"), g("7"), g("7")]));
    assert!(compile_needed("7", &vec![g("7"), None, g("7")]));
    assert!(compile_needed("7", &vec![g("7"), g("6")]));
    assert!(!compile_needed("7", &vec![]));
}
