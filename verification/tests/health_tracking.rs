use std::time::Duration;

use aria_agent::health::{
    probe_action, BackendHealthTracker, BackendTarget, HealthCheckExecutor, HealthState, ProbeAction, ProbeConfig,
};

fn target(backend: &str, port: u16) -> BackendTarget {
    BackendTarget {
        service_id: "svc-web".to_string(),
        backend_id: backend.to_string(),
        address: "10.0.0.5".to_string(),
        port,
    }
}

fn tcp_config(healthy: u32, unhealthy: u32) -> ProbeConfig {
    ProbeConfig {
        protocol: "tcp".to_string(),
        interval: Duration::from_secs(5),
        timeout: Duration::from_secs(1),
        healthy_threshold: healthy,
        unhealthy_threshold: unhealthy,
        target_port: None,
    }
}

#[test]
fn tracker_turns_healthy_at_threshold() {
    let mut t = BackendHealthTracker::new(2, 3);
    assert_eq!(t.state, HealthState::Unknown);
    assert!(!t.record(true));
    assert_eq!(t.state, HealthState::Unknown);
    assert!(t.record(true));
    assert_eq!(t.state, HealthState::Healthy);
    assert_eq!(t.consecutive_successes, 2);
}

#[test]
fn tracker_turns_unhealthy_at_threshold() {
    let mut t = BackendHealthTracker::new(1, 2);
    t.record(true);
    assert_eq!(t.state, HealthState::Healthy);
    assert!(!t.record(false));
    assert_eq!(t.state, HealthState::Healthy);
    assert!(t.record(false));
    assert_eq!(t.state, HealthState::Unhealthy);
    assert_eq!(t.consecutive_successes, 0);
    assert_eq!(t.consecutive_failures, 2);
}

#[test]
fn tracker_failure_resets_success_run() {
    let mut t = BackendHealthTracker::new(3, 3);
    t.record(true);
    t.record(true);
    t.record(false);
    t.record(true);
    assert_eq!(t.consecutive_successes, 1);
    assert_eq!(t.state, HealthState::Unknown);
}

#[test]
fn probe_action_uses_target_port_override() {
    let mut config = tcp_config(1, 1);
    config.target_port = Some(8080);
    match probe_action(&target("b1", 80), &config) {
        ProbeAction::TcpConnect { address, port, timeout } => {
            assert_eq!(address, "10.0.0.5");
            assert_eq!(port, 8080);
            assert_eq!(timeout, Duration::from_secs(1));
        }
        ProbeAction::AssumeHealthy => panic!("tcp config must probe"),
    }
}

#[test]
fn probe_action_defaults_to_backend_port() {
    match probe_action(&target("b1", 443), &tcp_config(1, 1)) {
        ProbeAction::TcpConnect { port, .. } => assert_eq!(port, 443),
        ProbeAction::AssumeHealthy => panic!("tcp config must probe"),
    }
}

#[test]
fn probe_action_assumes_healthy_for_other_protocols() {
    let mut config = tcp_config(1, 1);
    config.protocol = "http".to_string();
    assert!(matches!(probe_action(&target("b1", 80), &config), ProbeAction::AssumeHealthy));
}

#[test]
fn executor_unknown_until_probed() {
    let exec = HealthCheckExecutor::new();
    assert_eq!(exec.get_state(&target("b1", 80)), HealthState::Unknown);
}

#[test]
fn executor_records_and_reports_changes() {
    let mut exec = HealthCheckExecutor::new();
    let config = tcp_config(2, 1);
    let b1 = target("b1", 80);
    assert_eq!(exec.record_probe(&b1, &config, true), None);
    assert_eq!(exec.record_probe(&b1, &config, true), Some(HealthState::Healthy));
    assert_eq!(exec.get_state(&b1), HealthState::Healthy);
    assert_eq!(exec.record_probe(&b1, &config, false), Some(HealthState::Unhealthy));
    assert_eq!(exec.get_state(&b1), HealthState::Unhealthy);
}

#[test]
fn executor_keeps_backends_apart() {
    let mut exec = HealthCheckExecutor::new();
    let config = tcp_config(1, 1);
    exec.record_probe(&target("b1", 80), &config, true);
    exec.record_probe(&target("b2", 80), &config, false);
    assert_eq!(exec.get_state(&target("b1", 80)), HealthState::Healthy);
    assert_eq!(exec.get_state(&target("b2", 80)), HealthState::Unhealthy);
    assert_eq!(exec.get_state(&target("b1", 81)), HealthState::Unknown);
}

#[test]
fn executor_prune_forgets_inactive_backends() {
    let mut exec = HealthCheckExecutor::new();
    let config = tcp_config(1, 1);
    exec.record_probe(&target("b1", 80), &config, true);
    exec.record_probe(&target("b2", 80), &config, true);
    exec.prune(&[target("b2", 80)]);
    assert_eq!(exec.get_state(&target("b1", 80)), HealthState::Unknown);
    assert_eq!(exec.get_state(&target("b2", 80)), HealthState::Healthy);
}

#[test]
fn executor_prune_twice_keeps_only_backends_in_both() {
    let mut exec = HealthCheckExecutor::new();
    let config = tcp_config(1, 1);
    exec.record_probe(&target("b1", 80), &config, true);
    exec.record_probe(&target("b2", 80), &config, false);
    exec.record_probe(&target("b3", 80), &config, true);
    exec.prune(&[target("b1", 80), target("b2", 80)]);
    exec.prune(&[target("b2", 80), target("b3", 80)]);
    assert_eq!(exec.get_state(&target("b1", 80)), HealthState::Unknown);
    assert_eq!(exec.get_state(&target("b2", 80)), HealthState::Unhealthy);
    assert_eq!(exec.get_state(&target("b3", 80)), HealthState::Unknown);
    exec.prune(&[target("b2", 80)]);
    exec.prune(&[target("b2", 80)]);
    assert_eq!(exec.get_state(&target("b2", 80)), HealthState::Unhealthy);
}
