use aria_agent::api::platform::event::EventEnvelope;
use aria_agent::api::platform::observe::ObserveQuery;
use aria_agent::control::error::ControlPlaneError;
use aria_agent::control::observe::{
    event_timestamp_key, lb_algo_name, matches_observe_query, min_timestamp_from, observe_includes, observe_limit,
    observe_timestamp_or_zero, observe_window_ns, parse_uptime_ns, select_observe_events,
};
use aria_agent::control::ops::{next_free_tap_id, next_suggestion, requested_directions};

fn event(id: &str, kind: &str, ts: &str, dst_port: Option<u16>) -> EventEnvelope {
    EventEnvelope {
        event_id: id.to_string(),
        event_type: kind.to_string(),
        timestamp: ts.to_string(),
        node_id: "local".to_string(),
        direction: "unknown".to_string(),
        verdict: "observe".to_string(),
        hook: "tc".to_string(),
        tenant_id: None,
        network_id: None,
        port_id: None,
        instance_id: None,
        flow_id: None,
        service_id: None,
        trace_id: None,
        src_ip: Some("10.0.0.1".to_string()),
        dst_ip: Some("10.0.0.2".to_string()),
        src_port: None,
        dst_port,
        protocol: None,
        payload: serde_json::Value::Null,
    }
}

fn ids(events: &[EventEnvelope]) -> Vec<&str> {
    events.iter().map(|e| e.event_id.as_str()).collect()
}

#[test]
fn error_status_codes() {
    assert_eq!(ControlPlaneError::ValidationError("x".into()).status_code(), 400);
    assert_eq!(ControlPlaneError::InstanceNotFound("x".into()).status_code(), 404);
    assert_eq!(ControlPlaneError::GroupNotFound("x".into()).status_code(), 404);
    assert_eq!(ControlPlaneError::PolicyNotFound("x".into()).status_code(), 404);
    assert_eq!(ControlPlaneError::GroupInUse("x".into()).status_code(), 409);
    assert_eq!(ControlPlaneError::KernelError("x".into()).status_code(), 500);
    assert_eq!(ControlPlaneError::InstanceNotReady("x".into()).status_code(), 503);
}

#[test]
fn error_messages() {
    assert_eq!(ControlPlaneError::InstanceNotFound("tap-a".into()).message(), "Instance not found: tap-a");
    assert_eq!(ControlPlaneError::GroupInUse("web".into()).message(), "Group in use: web");
    assert_eq!(ControlPlaneError::ValidationError("bad".into()).message(), "Validation error: bad");
    assert_eq!(ControlPlaneError::InstanceNotReady("sys".into()).message(), "Instance not ready: sys");
}

#[test]
fn observe_limit_defaults_and_caps() {
    let mut q = ObserveQuery::default();
    assert_eq!(observe_limit(&q), 200);
    q.limit = Some(10);
    assert_eq!(observe_limit(&q), 10);
    q.limit = Some(100_000);
    assert_eq!(observe_limit(&q), 5000);
}

#[test]
fn observe_timestamps_and_algorithms() {
    assert_eq!(observe_timestamp_or_zero(0), "0");
    assert_eq!(observe_timestamp_or_zero(1713676800), "1713676800");
    assert_eq!(lb_algo_name(0), "random");
    assert_eq!(lb_algo_name(1), "maglev");
    assert_eq!(lb_algo_name(2), "hash_src_ip");
    assert_eq!(lb_algo_name(9), "algo_9");
}

#[test]
fn event_timestamp_key_reads_or_zero() {
    assert_eq!(event_timestamp_key(&event("a", "flow", "42", None)), 42);
    assert_eq!(event_timestamp_key(&event("a", "flow", "soon", None)), 0);
}

#[test]
fn query_matching() {
    let e = event("a", "flow", "1", Some(443));
    let mut q = ObserveQuery::default();
    assert!(matches_observe_query(&e, &q));
    q.event_type = Some("flow".to_string());
    q.dst_port = Some(443);
    q.src_ip = Some("10.0.0.1".to_string());
    assert!(matches_observe_query(&e, &q));
    q.dst_ip = Some("10.0.0.3".to_string());
    assert!(!matches_observe_query(&e, &q));
    q.dst_ip = None;
    q.dst_port = Some(80);
    assert!(!matches_observe_query(&e, &q));
    assert!(observe_includes(&q, "flow"));
    assert!(!observe_includes(&q, "ssl"));
    assert!(observe_includes(&ObserveQuery::default(), "ssl"));
}

#[test]
fn observe_window() {
    let mut q = ObserveQuery::default();
    assert!(matches!(observe_window_ns(&q), Ok(None)));
    q.time_range = Some(0);
    match observe_window_ns(&q) {
        Err(e) => {
            assert_eq!(e.status_code(), 400);
            assert_eq!(e.message(), "Validation error: time_range must be greater than 0 seconds");
        }
        Ok(_) => panic!("a zero window is refused"),
    }
    q.time_range = Some(60);
    assert!(matches!(observe_window_ns(&q), Ok(Some(60_000_000_000))));
    q.time_range = Some(u64::MAX);
    assert!(matches!(observe_window_ns(&q), Ok(Some(u64::MAX))));
    assert_eq!(min_timestamp_from(100, 30), 70);
    assert_eq!(min_timestamp_from(10, 30), 0);
}

#[test]
fn select_sorts_newest_first_and_keeps_ties_in_order() {
    let events = vec![
        event("a", "flow", "10", None),
        event("b", "flow", "30", None),
        event("c", "flow", "10", None),
        event("d", "flow", "20", None),
    ];
    let r = select_observe_events(events, &ObserveQuery::default(), None, 200);
    assert_eq!(ids(&r), vec!["b", "d", "a", "c"]);
}

#[test]
fn select_filters_and_truncates() {
    let events = vec![
        event("a", "flow", "10", None),
        event("b", "ssl", "30", None),
        event("c", "flow", "0", None),
        event("d", "flow", "20", None),
        event("e", "flow", "5", None),
    ];
    let mut q = ObserveQuery::default();
    q.event_type = Some("flow".to_string());
    let r = select_observe_events(events, &q, Some(6), 2);
    assert_eq!(ids(&r), vec!["d", "a"]);
}

#[test]
fn select_without_window_keeps_untimed_events() {
    let events = vec![event("a", "lb", "0", None), event("b", "lb", "3", None)];
    let r = select_observe_events(events, &ObserveQuery::default(), None, 10);
    assert_eq!(ids(&r), vec!["b", "a"]);
}

#[test]
fn uptime_parsing() {
    assert_eq!(parse_uptime_ns("12345.67 54321.00\n".split_whitespace().next().unwrap()), Ok(12_345_670_000_000));
    assert_eq!(parse_uptime_ns(" 5 "), Ok(5_000_000_000));
    assert_eq!(parse_uptime_ns("1.123456789123"), Ok(1_123_456_789));
    assert_eq!(parse_uptime_ns("2.x5"), Ok(2_500_000_000));
    assert_eq!(parse_uptime_ns("99999999999999999999"), Err(
        "invalid uptime seconds '99999999999999999999': number too large to fit in target type".to_string()));
    assert_eq!(parse_uptime_ns(""), Err("empty uptime value".to_string()));
    assert_eq!(parse_uptime_ns("abc"), Err("invalid uptime seconds 'abc': invalid digit found in string".to_string()));
    assert_eq!(parse_uptime_ns(".5"), Err("invalid uptime seconds '': cannot parse integer from empty string".to_string()));
    assert_eq!(parse_uptime_ns("18446744073.709551615"), Ok(u64::MAX));
}

#[test]
fn directions_expand_both() {
    assert_eq!(requested_directions(2), vec![0, 1]);
    assert_eq!(requested_directions(0), vec![0]);
    assert_eq!(requested_directions(1), vec![1]);
}

#[test]
fn suggestions_are_not_repeated() {
    let mut s = Vec::new();
    next_suggestion(&mut s, "check drops");
    next_suggestion(&mut s, "check rtt");
    next_suggestion(&mut s, "check drops");
    assert_eq!(s, vec!["check drops".to_string(), "check rtt".to_string()]);
}

#[test]
fn free_tap_id_skips_used() {
    assert_eq!(next_free_tap_id(&vec![], 100), 100);
    assert_eq!(next_free_tap_id(&vec![100, 101, 103], 100), 102);
    assert_eq!(next_free_tap_id(&vec![5, 100], 100), 101);
}

#[test]
fn query_filters_instance_service_and_protocol() {
    let mut a = event("a", "lb", "5", None);
    a.instance_id = Some("tap-a".to_string());
    a.service_id = Some("svc-web".to_string());
    a.protocol = Some("tcp".to_string());
    let mut b = event("b", "lb", "6", None);
    b.instance_id = Some("tap-b".to_string());
    b.service_id = Some("svc-db".to_string());
    b.protocol = Some("udp".to_string());
    let c = event("c", "lb", "7", None);

    let mut q = ObserveQuery::default();
    q.instance_id = Some("tap-a".to_string());
    assert!(matches_observe_query(&a, &q));
    assert!(!matches_observe_query(&b, &q));
    assert!(!matches_observe_query(&c, &q));

    let mut q = ObserveQuery::default();
    q.service_id = Some("svc-db".to_string());
    assert!(!matches_observe_query(&a, &q));
    assert!(matches_observe_query(&b, &q));

    let mut q = ObserveQuery::default();
    q.protocol = Some("tcp".to_string());
    assert!(matches_observe_query(&a, &q));
    assert!(!matches_observe_query(&b, &q));
    assert!(!matches_observe_query(&c, &q));

    let mut q = ObserveQuery::default();
    q.instance_id = Some("tap-b".to_string());
    let events = vec![a, b, c];
    let picked = select_observe_events(events, &q, None, 100);
    assert_eq!(ids(&picked), vec!["b"]);
}
