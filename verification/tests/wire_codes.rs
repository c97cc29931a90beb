use aria_agent::api::helpers::{
    action_from_string, action_to_string, direction_from_string, direction_to_string, proto_from_string,
    proto_to_string,
};

#[test]
fn proto_names_round_trip() {
    for code in [0u8, 1, 6, 17] {
        let name = proto_to_string(code);
        assert_eq!(proto_from_string(&name), Ok(code));
    }
    assert_eq!(proto_to_string(6), "tcp");
    assert_eq!(proto_to_string(17), "udp");
    assert_eq!(proto_to_string(1), "icmp");
    assert_eq!(proto_to_string(0), "any");
}

#[test]
fn proto_unknown_code_is_its_number() {
    assert_eq!(proto_to_string(47), "47");
    assert_eq!(proto_from_string("47"), Ok(47));
}

#[test]
fn proto_names_ignore_case() {
    assert_eq!(proto_from_string("TCP"), Ok(6));
    assert_eq!(proto_from_string("Udp"), Ok(17));
}

#[test]
fn proto_rejects_unknown_name() {
    assert_eq!(proto_from_string("sctp"), Err("Invalid protocol 'sctp'".to_string()));
    assert_eq!(proto_from_string("256"), Err("Invalid protocol '256'".to_string()));
}

#[test]
fn action_names() {
    assert_eq!(action_to_string(0), "allow");
    assert_eq!(action_to_string(1), "drop");
    assert_eq!(action_from_string("accept"), Ok(0));
    assert_eq!(action_from_string("PASS"), Ok(0));
    assert_eq!(action_from_string("deny"), Ok(1));
    assert_eq!(action_from_string("reject"), Err("Invalid action 'reject'".to_string()));
}

#[test]
fn action_names_round_trip() {
    for code in [0u8, 1] {
        assert_eq!(action_from_string(&action_to_string(code)), Ok(code));
    }
}

#[test]
fn direction_names() {
    assert_eq!(direction_to_string(0), "ingress");
    assert_eq!(direction_to_string(1), "egress");
    assert_eq!(direction_to_string(2), "2");
    assert_eq!(direction_from_string("in"), Ok(0));
    assert_eq!(direction_from_string("OUT"), Ok(1));
    assert_eq!(direction_from_string("all"), Ok(2));
    assert_eq!(
        direction_from_string("up"),
        Err("Invalid direction 'up': must be 'ingress', 'egress', or 'both'".to_string())
    );
}

#[test]
fn direction_names_round_trip() {
    for code in [0u8, 1] {
        assert_eq!(direction_from_string(&direction_to_string(code)), Ok(code));
    }
    assert!(direction_from_string(&direction_to_string(2)).is_err());
}
