//! Small naming rules of the planner: socket strategies, inventory domains
//! and the timestamps stamped on plans.
use vstd::prelude::*;
use core::time::Duration;
use crate::text::{decimal, str_eq, u64_to_decimal};

verus! {

broadcast use vstd::string::group_string_axioms;

/// How the socket load-balancing path realises a backend selection policy.
pub open spec fn socket_lb_strategy(lb_policy: Seq<char>) -> Seq<char> {
    if lb_policy == "round_robin"@ || lb_policy == "random"@ { "random"@ }
    else if lb_policy == "maglev"@ { "maglev"@ }
    else if lb_policy == "hash_5tuple"@ || lb_policy == "hash_src_ip"@ { "deferred_hash"@ }
    else { "unsupported"@ }
}

/// How the socket load-balancing path realises a session affinity setting.
pub open spec fn socket_affinity_strategy(session_affinity: Option<Seq<char>>) -> Seq<char> {
    match session_affinity {
        None => "none"@,
        Some(a) => if a == "none"@ { "none"@ }
            else if a == "client_ip"@ { "client_ip"@ }
            else if a == "5tuple"@ { "deferred_5tuple"@ }
            else { "unsupported"@ },
    }
}

/// The inventory domain of an attach binding scope.
pub open spec fn domain_of_scope(scope: Seq<char>) -> Seq<char> {
    if scope == "port-bindings"@ || scope == "anti-spoof-fastpath"@ { "ports"@ }
    else if scope == "route-tables"@ { "routes"@ }
    else { "runtime"@ }
}

/// The inventory domain of a map family.
pub open spec fn domain_of_map_family(f: Seq<char>) -> Seq<char> {
    if f == "tenant_index"@ || f == "network_index"@ { "identity"@ }
    else if f == "sg_rule_map"@ { "security"@ }
    else if f == "port_identity_map"@ || f == "anti_spoof_map"@ { "ports"@ }
    else if f == "route_table_v4"@ || f == "route_table_v6"@ { "routes"@ }
    else if f == "health_check_catalog"@ || f == "backend_set_catalog"@ || f == "service_catalog"@
        || f == "service_frontend_catalog"@ || f == "service_frontend_map"@
        || f == "service_socket_lb_projection"@ || f == "service_packet_lb_projection"@
        || f == "backend_member_catalog"@ || f == "backend_member_map"@
        || f == "service_forwarding_projection"@ || f == "service_revnat_map"@
        || f == "service_affinity_map"@ || f == "service_maglev_map"@ { "services"@ }
    else if f == "nat_program"@ { "nat"@ }
    else if f == "qos_config_map"@ || f == "qos_token_bucket_map"@ || f == "qos_stats_map"@ { "qos"@ }
    else if f == "mirror_policy_map"@ || f == "mirror_global_map"@ { "mirror"@ }
    else { "runtime"@ }
}

/// The socket strategy for a backend selection policy.
pub fn normalize_socket_lb_strategy(lb_policy: &str) -> (r: String)
    ensures
        r@ == socket_lb_strategy(lb_policy@),
{
    if str_eq(lb_policy, "round_robin") || str_eq(lb_policy, "random") {
        "random".to_string()
    } else if str_eq(lb_policy, "maglev") {
        "maglev".to_string()
    } else if str_eq(lb_policy, "hash_5tuple") || str_eq(lb_policy, "hash_src_ip") {
        "deferred_hash".to_string()
    } else {
        "unsupported".to_string()
    }
}

/// The socket strategy for a session affinity setting.
pub fn normalize_socket_affinity_strategy(session_affinity: Option<&str>) -> (r: String)
    ensures
        r@ == socket_affinity_strategy(match session_affinity { Some(a) => Some(a@), None => None }),
{
    match session_affinity {
        None => "none".to_string(),
        Some(a) => {
            if str_eq(a, "none") {
                "none".to_string()
            } else if str_eq(a, "client_ip") {
                "client_ip".to_string()
            } else if str_eq(a, "5tuple") {
                "deferred_5tuple".to_string()
            } else {
                "unsupported".to_string()
            }
        }
    }
}

/// The inventory domain of an attach binding scope.
pub fn inventory_domain_from_scope(scope: &str) -> (r: String)
    ensures
        r@ == domain_of_scope(scope@),
{
    if str_eq(scope, "port-bindings") || str_eq(scope, "anti-spoof-fastpath") {
        "ports".to_string()
    } else if str_eq(scope, "route-tables") {
        "routes".to_string()
    } else {
        "runtime".to_string()
    }
}

/// The inventory domain of a map family.
pub fn inventory_domain_from_map_family(map_family: &str) -> (r: String)
    ensures
        r@ == domain_of_map_family(map_family@),
{
    let f = map_family;
    if str_eq(f, "tenant_index") || str_eq(f, "network_index") {
        "identity".to_string()
    } else if str_eq(f, "sg_rule_map") {
        "security".to_string()
    } else if str_eq(f, "port_identity_map") || str_eq(f, "anti_spoof_map") {
        "ports".to_string()
    } else if str_eq(f, "route_table_v4") || str_eq(f, "route_table_v6") {
        "routes".to_string()
    } else if str_eq(f, "health_check_catalog") || str_eq(f, "backend_set_catalog")
        || str_eq(f, "service_catalog") || str_eq(f, "service_frontend_catalog")
        || str_eq(f, "service_frontend_map") || str_eq(f, "service_socket_lb_projection")
        || str_eq(f, "service_packet_lb_projection") || str_eq(f, "backend_member_catalog")
        || str_eq(f, "backend_member_map") || str_eq(f, "service_forwarding_projection")
        || str_eq(f, "service_revnat_map") || str_eq(f, "service_affinity_map")
        || str_eq(f, "service_maglev_map") {
        "services".to_string()
    } else if str_eq(f, "nat_program") {
        "nat".to_string()
    } else if str_eq(f, "qos_config_map") || str_eq(f, "qos_token_bucket_map") || str_eq(f, "qos_stats_map") {
        "qos".to_string()
    } else if str_eq(f, "mirror_policy_map") || str_eq(f, "mirror_global_map") {
        "mirror".to_string()
    } else {
        "runtime".to_string()
    }
}

/// The system clock's time (std's `SystemTime`), carried unread.
#[verifier::external_type_specification]
#[verifier::external_body]
pub struct ExSystemTime(std::time::SystemTime);

/// The system clock's current time (std's `SystemTime::now`). It depends on
/// the moment of the call, so nothing is stated of it.
#[verifier::external_body]
fn system_now() -> std::time::SystemTime {
    std::time::SystemTime::now()
}

/// How long after the Unix epoch `t` is (std's `SystemTime::duration_since`
/// with `UNIX_EPOCH`); none when `t` is before the epoch. Which of the two
/// comes back depends on the clock's reading, so nothing is stated of it.
#[verifier::external_body]
fn since_unix_epoch(t: std::time::SystemTime) -> Option<Duration> {
    t.duration_since(std::time::UNIX_EPOCH).ok()
}

/// The whole seconds of `d` (std's `Duration::as_secs`). The library has no
/// model of a `Duration`'s value, so nothing is stated of the result.
#[verifier::external_body]
fn whole_seconds(d: Duration) -> u64 {
    d.as_secs()
}

/// Seconds since the Unix epoch by the system clock, zero when the clock
/// reads before the epoch.
pub(crate) fn unix_now_secs() -> u64 {
    match since_unix_epoch(system_now()) {
        Some(d) => whole_seconds(d),
        None => 0,
    }
}

/// The current Unix time in seconds, in decimal.
pub fn unix_timestamp_string() -> (r: String)
    ensures
        exists|secs: nat| r@ == decimal(secs),
{
    let secs = unix_now_secs();
    u64_to_decimal(secs)
}

} // verus!
