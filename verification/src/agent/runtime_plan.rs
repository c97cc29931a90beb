//! The runtime plan: which datapath hooks to attach and which maps to
//! refresh or clean up for a compiled node state.
use vstd::prelude::*;
use crate::agent::counters::{
    anti_spoof_total, has_affinity, is_internal, is_maglev, lemma_sum_of_prefix, lemma_sum_of_take, listener_total, listeners, listeners_where, member_total,
    needs_packet_lb, one_where, projections, route_count, sum_of, totals_fit,
    total_affinity_service_programs, total_anti_spoof_entries, total_maglev_service_programs,
    total_packet_lb_frontends, total_route_v4_entries, total_route_v6_entries,
    total_service_backend_members, total_service_forwarding_projections,
    total_service_listener_ports, total_socket_lb_frontends,
};
use crate::agent::ir::{
    AttachBindingPlan, AttachPlan, CompiledNodeState, MapPlan, MapPlanEntry, MirrorPolicyIr,
    PortIdentityIr, QosPolicyIr, RouteIr, RuntimePlan, ServiceProgramIr,
};
use crate::agent::planner::{
    backend_set_id_list, backend_set_ids, health_check_id_list, health_check_ids, port_id_list, port_ids,
    removed_ids, route_table_id_list, route_table_ids, service_id_list, service_ids,
};
use crate::strset::count_removed;
use crate::api::southbound::NodeCapability;
use crate::order::{sorted_distinct, str_increasing, strs};
use crate::text::str_eq;

verus! {

broadcast use vstd::string::group_string_axioms;

/// Port identities of `s` on network `network`.
pub open spec fn taps_in_network(s: &CompiledNodeState, network: Seq<char>) -> nat {
    sum_of(s.port_identities@, one_where(|p: PortIdentityIr| p.network_id@ == network))
}

/// Rules of a QoS policy times the taps it applies to (at least one).
pub open spec fn qos_rule_taps(s: &CompiledNodeState, q: QosPolicyIr) -> nat {
    let taps = taps_in_network(s, q.network_id@);
    (q.rules.len() * (if taps > 1 { taps } else { 1 })) as nat
}

/// Rules of a mirror policy times the taps it applies to (at least one).
pub open spec fn mirror_rule_taps(s: &CompiledNodeState, m: MirrorPolicyIr) -> nat {
    let taps = taps_in_network(s, m.network_id@);
    (m.rules.len() * (if taps > 1 { taps } else { 1 })) as nat
}

/// Per-tap QoS rule entries of `s`.
pub open spec fn qos_tap_total(s: &CompiledNodeState) -> nat {
    sum_of(s.qos_policies@, |q: QosPolicyIr| qos_rule_taps(s, q))
}

/// Per-tap mirror rule entries of `s`.
pub open spec fn mirror_tap_total(s: &CompiledNodeState) -> nat {
    sum_of(s.mirror_policies@, |m: MirrorPolicyIr| mirror_rule_taps(s, m))
}

/// The counts a runtime plan is made of fit in a `usize`.
pub open spec fn state_fits(s: &CompiledNodeState) -> bool {
    &&& totals_fit(*s)
    &&& qos_tap_total(s) <= usize::MAX
    &&& mirror_tap_total(s) <= usize::MAX
}

/// The counts of a compiled state that the runtime plan compares.
#[derive(Debug, Clone, Copy)]
pub struct PlanCounts {
    pub listeners: usize,
    pub socket_lb: usize,
    pub packet_lb: usize,
    pub members: usize,
    pub projections: usize,
    pub affinity: usize,
    pub maglev: usize,
    pub port_identities: usize,
    pub anti_spoof: usize,
    pub sg_rules: usize,
    pub route_v4: usize,
    pub route_v6: usize,
    pub qos_rules: usize,
    pub mirror_rules: usize,
}

/// The counts of `s`.
pub open spec fn plan_counts(s: &CompiledNodeState) -> PlanCounts {
    PlanCounts {
        listeners: listener_total(*s) as usize,
        socket_lb: sum_of(s.service_programs@, listeners_where(|p: ServiceProgramIr| is_internal(p))) as usize,
        packet_lb: sum_of(s.service_programs@, listeners_where(|p: ServiceProgramIr| needs_packet_lb(p))) as usize,
        members: member_total(*s) as usize,
        projections: sum_of(s.service_programs@, |p: ServiceProgramIr| projections(p)) as usize,
        affinity: sum_of(s.service_programs@, listeners_where(|p: ServiceProgramIr| has_affinity(p))) as usize,
        maglev: sum_of(s.service_programs@, listeners_where(|p: ServiceProgramIr| is_maglev(p))) as usize,
        port_identities: s.port_identities.len(),
        anti_spoof: anti_spoof_total(*s) as usize,
        sg_rules: s.sg_rules.len(),
        route_v4: route_count(*s, false) as usize,
        route_v6: route_count(*s, true) as usize,
        qos_rules: qos_tap_total(s) as usize,
        mirror_rules: mirror_tap_total(s) as usize,
    }
}

/// The counts of the previous state, or all zero without one.
pub open spec fn previous_counts(prev: Option<&CompiledNodeState>) -> PlanCounts {
    match prev {
        Some(p) => plan_counts(p),
        None => PlanCounts {
            listeners: 0, socket_lb: 0, packet_lb: 0, members: 0, projections: 0, affinity: 0,
            maglev: 0, port_identities: 0, anti_spoof: 0, sg_rules: 0, route_v4: 0, route_v6: 0,
            qos_rules: 0, mirror_rules: 0,
        },
    }
}

/// An attach binding: hook family, scope, operation and object count.
pub type BindingView = (Seq<char>, Seq<char>, Seq<char>, nat);

/// The binding, if `due`, otherwise nothing.
pub open spec fn binding_if(due: bool, hook: Seq<char>, scope: Seq<char>, operation: Seq<char>, count: nat)
    -> Seq<BindingView> {
    if due { seq![(hook, scope, operation, count)] } else { Seq::empty() }
}

/// The views of a list of attach bindings.
pub open spec fn binding_views(v: Seq<AttachBindingPlan>) -> Seq<BindingView> {
    v.map_values(|b: AttachBindingPlan| (b.hook_family@, b.scope@, b.operation@, b.object_count as nat))
}

/// The attach bindings of the runtime plan, in order.
pub open spec fn attach_bindings(
    prev: Option<&CompiledNodeState>,
    next: &CompiledNodeState,
    capability: &NodeCapability,
) -> Seq<BindingView> {
    let n = plan_counts(next);
    let ports_removed = removed_ids(prev, next, |s: &CompiledNodeState| port_ids(s));
    let routes_removed = removed_ids(prev, next, |s: &CompiledNodeState| route_table_ids(s));
    binding_if(capability.supports_tc && n.port_identities > 0, "tc_ingress"@, "port-bindings"@,
        "refresh_shadow"@, n.port_identities as nat)
    + binding_if(capability.supports_tc && n.port_identities > 0, "tc_egress"@, "port-bindings"@,
        "refresh_shadow"@, n.port_identities as nat)
    + binding_if(capability.supports_xdp && n.port_identities > 0, "xdp"@, "anti-spoof-fastpath"@,
        "refresh_shadow"@, n.port_identities as nat)
    + binding_if(capability.supports_tc && (n.route_v4 > 0 || n.route_v6 > 0), "tc_egress"@, "route-tables"@,
        "refresh_shadow"@, (n.route_v4 + n.route_v6) as nat)
    + binding_if(capability.supports_tc && ports_removed > 0, "tc"@, "port-bindings"@, "cleanup_shadow"@,
        ports_removed)
    + binding_if(capability.supports_tc && routes_removed > 0, "tc"@, "route-tables"@, "cleanup_shadow"@,
        routes_removed)
}

/// A map plan entry: map family, operation and object count.
pub type MapEntryView = (Seq<char>, Seq<char>, nat);

/// The refresh entry for a map family holding `count` objects, if any.
pub open spec fn refresh_if(family: Seq<char>, count: nat) -> Seq<MapEntryView> {
    if count > 0 { seq![(family, "refresh_shadow"@, count)] } else { Seq::empty() }
}

/// The cleanup entry for a map family that had `before` objects and now has
/// `after`, if it shrank.
pub open spec fn shrink_if(family: Seq<char>, before: nat, after: nat) -> Seq<MapEntryView> {
    if before > after { seq![(family, "cleanup_shadow"@, (before - after) as nat)] } else { Seq::empty() }
}

/// The cleanup entry for a map family that lost `count` objects, if any.
pub open spec fn cleanup_if(family: Seq<char>, count: nat) -> Seq<MapEntryView> {
    if count > 0 { seq![(family, "cleanup_shadow"@, count)] } else { Seq::empty() }
}

/// The views of a list of map plan entries.
pub open spec fn map_entry_views(v: Seq<MapPlanEntry>) -> Seq<MapEntryView> {
    v.map_values(|e: MapPlanEntry| (e.map_family@, e.operation@, e.object_count as nat))
}

/// The identity, security and port entries of the map plan.
pub open spec fn port_map_entries(p: PlanCounts, n: PlanCounts, next: &CompiledNodeState) -> Seq<MapEntryView> {
    refresh_if("tenant_index"@, next.tenant_ids.len() as nat)
    + refresh_if("network_index"@, next.network_ids.len() as nat)
    + refresh_if("sg_rule_map"@, n.sg_rules as nat)
    + refresh_if("port_identity_map"@, n.port_identities as nat)
    + refresh_if("anti_spoof_map"@, n.anti_spoof as nat)
    + shrink_if("port_identity_map"@, p.port_identities as nat, n.port_identities as nat)
    + shrink_if("anti_spoof_map"@, p.anti_spoof as nat, n.anti_spoof as nat)
    + refresh_if("route_table_v4"@, n.route_v4 as nat)
    + refresh_if("route_table_v6"@, n.route_v6 as nat)
    + shrink_if("route_table_v4"@, p.route_v4 as nat, n.route_v4 as nat)
    + shrink_if("route_table_v6"@, p.route_v6 as nat, n.route_v6 as nat)
    + shrink_if("sg_rule_map"@, p.sg_rules as nat, n.sg_rules as nat)
}

/// The refresh entries for the service maps.
pub open spec fn service_refresh_entries(n: PlanCounts, next: &CompiledNodeState) -> Seq<MapEntryView> {
    refresh_if("health_check_catalog"@, next.health_checks.len() as nat)
    + refresh_if("backend_set_catalog"@, next.backend_sets.len() as nat)
    + refresh_if("service_catalog"@, next.services.len() as nat)
    + refresh_if("service_frontend_catalog"@, n.listeners as nat)
    + refresh_if("service_frontend_map"@, n.listeners as nat)
    + refresh_if("service_socket_lb_projection"@, n.socket_lb as nat)
    + refresh_if("service_packet_lb_projection"@, n.packet_lb as nat)
    + refresh_if("backend_member_catalog"@, n.members as nat)
    + refresh_if("backend_member_map"@, n.members as nat)
    + refresh_if("service_forwarding_projection"@, n.projections as nat)
    + refresh_if("service_revnat_map"@, n.listeners as nat)
    + refresh_if("service_affinity_map"@, n.affinity as nat)
    + refresh_if("service_maglev_map"@, n.maglev as nat)
}

/// The cleanup entries for the service maps.
pub open spec fn service_cleanup_entries(
    p: PlanCounts,
    n: PlanCounts,
    prev: Option<&CompiledNodeState>,
    next: &CompiledNodeState,
) -> Seq<MapEntryView> {
    cleanup_if("health_check_catalog"@, removed_ids(prev, next, |s: &CompiledNodeState| health_check_ids(s)))
    + cleanup_if("backend_set_catalog"@, removed_ids(prev, next, |s: &CompiledNodeState| backend_set_ids(s)))
    + cleanup_if("service_catalog"@, removed_ids(prev, next, |s: &CompiledNodeState| service_ids(s)))
    + shrink_if("service_frontend_catalog"@, p.listeners as nat, n.listeners as nat)
    + shrink_if("service_frontend_map"@, p.listeners as nat, n.listeners as nat)
    + shrink_if("service_socket_lb_projection"@, p.socket_lb as nat, n.socket_lb as nat)
    + shrink_if("service_packet_lb_projection"@, p.packet_lb as nat, n.packet_lb as nat)
    + shrink_if("backend_member_catalog"@, p.members as nat, n.members as nat)
    + shrink_if("backend_member_map"@, p.members as nat, n.members as nat)
    + shrink_if("service_forwarding_projection"@, p.projections as nat, n.projections as nat)
    + shrink_if("service_revnat_map"@, p.listeners as nat, n.listeners as nat)
    + shrink_if("service_affinity_map"@, p.affinity as nat, n.affinity as nat)
    + shrink_if("service_maglev_map"@, p.maglev as nat, n.maglev as nat)
}

/// The QoS and mirror entries of the map plan.
pub open spec fn policy_map_entries(p: PlanCounts, n: PlanCounts) -> Seq<MapEntryView> {
    refresh_if("qos_config_map"@, n.qos_rules as nat)
    + refresh_if("qos_token_bucket_map"@, n.qos_rules as nat)
    + shrink_if("qos_config_map"@, p.qos_rules as nat, n.qos_rules as nat)
    + shrink_if("qos_token_bucket_map"@, p.qos_rules as nat, n.qos_rules as nat)
    + refresh_if("mirror_policy_map"@, n.mirror_rules as nat)
    + shrink_if("mirror_policy_map"@, p.mirror_rules as nat, n.mirror_rules as nat)
}

/// All entries of the map plan, in order.
pub open spec fn map_entries(prev: Option<&CompiledNodeState>, next: &CompiledNodeState) -> Seq<MapEntryView> {
    let p = previous_counts(prev);
    let n = plan_counts(next);
    port_map_entries(p, n, next) + service_refresh_entries(n, next) + service_cleanup_entries(p, n, prev, next)
        + policy_map_entries(p, n)
}

/// Whether `s` begins with `prefix`.
pub open spec fn starts_with(s: Seq<char>, prefix: Seq<char>) -> bool {
    prefix.len() <= s.len() && s.take(prefix.len() as int) == prefix
}


proof fn lemma_route_split(s: Seq<RouteIr>)
    ensures
        sum_of(s, one_where(|r: RouteIr| r.is_ipv6 == false)) + sum_of(s, one_where(|r: RouteIr| r.is_ipv6 == true))
            == s.len(),
    decreases s.len(),
{
    if s.len() > 0 {
        lemma_route_split(s.drop_last());
    }
}

fn taps_in_network_exec(s: &CompiledNodeState, network: &String) -> (r: usize)
    ensures
        r == taps_in_network(s, network@),
{
    let ghost f = one_where(|p: PortIdentityIr| p.network_id@ == network@);
    let mut total: usize = 0;
    let mut i: usize = 0;
    while i < s.port_identities.len()
        invariant
            i <= s.port_identities.len(),
            f == one_where(|p: PortIdentityIr| p.network_id@ == network@),
            total == sum_of(s.port_identities@.take(i as int), f),
            total <= i,
        decreases s.port_identities.len() - i,
    {
        proof { lemma_sum_of_take(s.port_identities@, f, i as int); }
        if str_eq(s.port_identities[i].network_id.as_str(), network.as_str()) {
            total = total + 1;
        }
        i = i + 1;
    }
    assert(s.port_identities@.take(i as int) =~= s.port_identities@);
    total
}

fn qos_tap_total_exec(s: &CompiledNodeState) -> (r: usize)
    requires
        qos_tap_total(s) <= usize::MAX,
    ensures
        r == qos_tap_total(s),
{
    let ghost f = |q: QosPolicyIr| qos_rule_taps(s, q);
    let mut total: usize = 0;
    let mut i: usize = 0;
    while i < s.qos_policies.len()
        invariant
            i <= s.qos_policies.len(),
            qos_tap_total(s) <= usize::MAX,
            f == (|q: QosPolicyIr| qos_rule_taps(s, q)),
            total == sum_of(s.qos_policies@.take(i as int), f),
        decreases s.qos_policies.len() - i,
    {
        proof {
            lemma_sum_of_take(s.qos_policies@, f, i as int);
            lemma_sum_of_prefix(s.qos_policies@, f, i + 1);
        }
        let policy = &s.qos_policies[i];
        let taps = taps_in_network_exec(s, &policy.network_id);
        let taps = if taps > 1 { taps } else { 1 };
        let term = policy.rules.len() * taps;
        total = total + term;
        i = i + 1;
    }
    assert(s.qos_policies@.take(i as int) =~= s.qos_policies@);
    total
}

fn mirror_tap_total_exec(s: &CompiledNodeState) -> (r: usize)
    requires
        mirror_tap_total(s) <= usize::MAX,
    ensures
        r == mirror_tap_total(s),
{
    let ghost f = |m: MirrorPolicyIr| mirror_rule_taps(s, m);
    let mut total: usize = 0;
    let mut i: usize = 0;
    while i < s.mirror_policies.len()
        invariant
            i <= s.mirror_policies.len(),
            mirror_tap_total(s) <= usize::MAX,
            f == (|m: MirrorPolicyIr| mirror_rule_taps(s, m)),
            total == sum_of(s.mirror_policies@.take(i as int), f),
        decreases s.mirror_policies.len() - i,
    {
        proof {
            lemma_sum_of_take(s.mirror_policies@, f, i as int);
            lemma_sum_of_prefix(s.mirror_policies@, f, i + 1);
        }
        let policy = &s.mirror_policies[i];
        let taps = taps_in_network_exec(s, &policy.network_id);
        let taps = if taps > 1 { taps } else { 1 };
        let term = policy.rules.len() * taps;
        total = total + term;
        i = i + 1;
    }
    assert(s.mirror_policies@.take(i as int) =~= s.mirror_policies@);
    total
}

/// The counts of `s` that the runtime plan compares.
pub fn count_state(s: &CompiledNodeState) -> (r: PlanCounts)
    requires
        state_fits(s),
    ensures
        r == plan_counts(s),
        r.route_v4 + r.route_v6 == s.route_entries.len(),
{
    proof { lemma_route_split(s.route_entries@); }
    PlanCounts {
        listeners: total_service_listener_ports(s),
        socket_lb: total_socket_lb_frontends(s),
        packet_lb: total_packet_lb_frontends(s),
        members: total_service_backend_members(s),
        projections: total_service_forwarding_projections(s),
        affinity: total_affinity_service_programs(s),
        maglev: total_maglev_service_programs(s),
        port_identities: s.port_identities.len(),
        anti_spoof: total_anti_spoof_entries(s),
        sg_rules: s.sg_rules.len(),
        route_v4: total_route_v4_entries(s),
        route_v6: total_route_v6_entries(s),
        qos_rules: qos_tap_total_exec(s),
        mirror_rules: mirror_tap_total_exec(s),
    }
}


fn push_binding(
    bindings: &mut Vec<AttachBindingPlan>,
    due: bool,
    hook: &str,
    scope: &str,
    operation: &str,
    count: usize,
)
    ensures
        binding_views(final(bindings)@) == binding_views(old(bindings)@)
            + binding_if(due, hook@, scope@, operation@, count as nat),
{
    if due {
        bindings.push(AttachBindingPlan {
            hook_family: hook.to_string(),
            scope: scope.to_string(),
            operation: operation.to_string(),
            object_count: count,
        });
    }
    assert(binding_views(bindings@) =~= binding_views(old(bindings)@)
        + binding_if(due, hook@, scope@, operation@, count as nat));
}

fn push_entry(entries: &mut Vec<MapPlanEntry>, due: bool, family: &str, operation: &str, count: usize)
    ensures
        map_entry_views(final(entries)@) == map_entry_views(old(entries)@)
            + (if due { seq![(family@, operation@, count as nat)] } else { Seq::<MapEntryView>::empty() }),
{
    if due {
        entries.push(MapPlanEntry {
            map_family: family.to_string(),
            operation: operation.to_string(),
            object_count: count,
        });
    }
    assert(map_entry_views(entries@) =~= map_entry_views(old(entries)@)
        + (if due { seq![(family@, operation@, count as nat)] } else { Seq::<MapEntryView>::empty() }));
}

fn push_refresh(entries: &mut Vec<MapPlanEntry>, family: &str, count: usize)
    ensures
        map_entry_views(final(entries)@) == map_entry_views(old(entries)@) + refresh_if(family@, count as nat),
{
    push_entry(entries, count > 0, family, "refresh_shadow", count);
}

fn push_shrink(entries: &mut Vec<MapPlanEntry>, family: &str, before: usize, after: usize)
    ensures
        map_entry_views(final(entries)@) == map_entry_views(old(entries)@)
            + shrink_if(family@, before as nat, after as nat),
{
    let count: usize = if before > after { before - after } else { 0 };
    push_entry(entries, before > after, family, "cleanup_shadow", count);
}

fn push_cleanup(entries: &mut Vec<MapPlanEntry>, family: &str, count: usize)
    ensures
        map_entry_views(final(entries)@) == map_entry_views(old(entries)@) + cleanup_if(family@, count as nat),
{
    push_entry(entries, count > 0, family, "cleanup_shadow", count);
}

fn push_port_entries(entries: &mut Vec<MapPlanEntry>, p: PlanCounts, n: PlanCounts, next: &CompiledNodeState)
    ensures
        map_entry_views(final(entries)@) == map_entry_views(old(entries)@) + port_map_entries(p, n, next),
{
    let ghost start = map_entry_views(entries@);
    push_refresh(entries, "tenant_index", next.tenant_ids.len());
    push_refresh(entries, "network_index", next.network_ids.len());
    push_refresh(entries, "sg_rule_map", n.sg_rules);
    push_refresh(entries, "port_identity_map", n.port_identities);
    push_refresh(entries, "anti_spoof_map", n.anti_spoof);
    push_shrink(entries, "port_identity_map", p.port_identities, n.port_identities);
    push_shrink(entries, "anti_spoof_map", p.anti_spoof, n.anti_spoof);
    push_refresh(entries, "route_table_v4", n.route_v4);
    push_refresh(entries, "route_table_v6", n.route_v6);
    push_shrink(entries, "route_table_v4", p.route_v4, n.route_v4);
    push_shrink(entries, "route_table_v6", p.route_v6, n.route_v6);
    push_shrink(entries, "sg_rule_map", p.sg_rules, n.sg_rules);
    assert(map_entry_views(entries@) =~= start + port_map_entries(p, n, next));
}

fn push_service_refresh_entries(entries: &mut Vec<MapPlanEntry>, n: PlanCounts, next: &CompiledNodeState)
    ensures
        map_entry_views(final(entries)@) == map_entry_views(old(entries)@) + service_refresh_entries(n, next),
{
    let ghost start = map_entry_views(entries@);
    push_refresh(entries, "health_check_catalog", next.health_checks.len());
    push_refresh(entries, "backend_set_catalog", next.backend_sets.len());
    push_refresh(entries, "service_catalog", next.services.len());
    push_refresh(entries, "service_frontend_catalog", n.listeners);
    push_refresh(entries, "service_frontend_map", n.listeners);
    push_refresh(entries, "service_socket_lb_projection", n.socket_lb);
    push_refresh(entries, "service_packet_lb_projection", n.packet_lb);
    push_refresh(entries, "backend_member_catalog", n.members);
    push_refresh(entries, "backend_member_map", n.members);
    push_refresh(entries, "service_forwarding_projection", n.projections);
    push_refresh(entries, "service_revnat_map", n.listeners);
    push_refresh(entries, "service_affinity_map", n.affinity);
    push_refresh(entries, "service_maglev_map", n.maglev);
    assert(map_entry_views(entries@) =~= start + service_refresh_entries(n, next));
}

fn push_service_cleanup_entries(
    entries: &mut Vec<MapPlanEntry>,
    p: PlanCounts,
    n: PlanCounts,
    prev: Option<&CompiledNodeState>,
    next: &CompiledNodeState,
    health_checks_removed: usize,
    backend_sets_removed: usize,
    services_removed: usize,
)
    requires
        health_checks_removed == removed_ids(prev, next, |s: &CompiledNodeState| health_check_ids(s)),
        backend_sets_removed == removed_ids(prev, next, |s: &CompiledNodeState| backend_set_ids(s)),
        services_removed == removed_ids(prev, next, |s: &CompiledNodeState| service_ids(s)),
    ensures
        map_entry_views(final(entries)@) == map_entry_views(old(entries)@)
            + service_cleanup_entries(p, n, prev, next),
{
    let ghost start = map_entry_views(entries@);
    push_cleanup(entries, "health_check_catalog", health_checks_removed);
    push_cleanup(entries, "backend_set_catalog", backend_sets_removed);
    push_cleanup(entries, "service_catalog", services_removed);
    push_shrink(entries, "service_frontend_catalog", p.listeners, n.listeners);
    push_shrink(entries, "service_frontend_map", p.listeners, n.listeners);
    push_shrink(entries, "service_socket_lb_projection", p.socket_lb, n.socket_lb);
    push_shrink(entries, "service_packet_lb_projection", p.packet_lb, n.packet_lb);
    push_shrink(entries, "backend_member_catalog", p.members, n.members);
    push_shrink(entries, "backend_member_map", p.members, n.members);
    push_shrink(entries, "service_forwarding_projection", p.projections, n.projections);
    push_shrink(entries, "service_revnat_map", p.listeners, n.listeners);
    push_shrink(entries, "service_affinity_map", p.affinity, n.affinity);
    push_shrink(entries, "service_maglev_map", p.maglev, n.maglev);
    assert(map_entry_views(entries@) =~= start + service_cleanup_entries(p, n, prev, next));
}

fn push_policy_entries(entries: &mut Vec<MapPlanEntry>, p: PlanCounts, n: PlanCounts)
    ensures
        map_entry_views(final(entries)@) == map_entry_views(old(entries)@) + policy_map_entries(p, n),
{
    let ghost start = map_entry_views(entries@);
    push_refresh(entries, "qos_config_map", n.qos_rules);
    push_refresh(entries, "qos_token_bucket_map", n.qos_rules);
    push_shrink(entries, "qos_config_map", p.qos_rules, n.qos_rules);
    push_shrink(entries, "qos_token_bucket_map", p.qos_rules, n.qos_rules);
    push_refresh(entries, "mirror_policy_map", n.mirror_rules);
    push_shrink(entries, "mirror_policy_map", p.mirror_rules, n.mirror_rules);
    assert(map_entry_views(entries@) =~= start + policy_map_entries(p, n));
}

/// Whether `s` begins with `prefix`.
pub fn starts_with_exec(s: &str, prefix: &str) -> (r: bool)
    ensures
        r == starts_with(s@, prefix@),
{
    let x = crate::text::chars_of(s);
    let y = crate::text::chars_of(prefix);
    if y.len() > x.len() {
        return false;
    }
    let mut i: usize = 0;
    while i < y.len()
        invariant
            x@ == s@,
            y@ == prefix@,
            y.len() <= x.len(),
            i <= y.len(),
            forall|j: int| 0 <= j < i ==> x@[j] == y@[j],
        decreases y.len() - i,
    {
        if x[i] != y[i] {
            assert(s@.take(prefix@.len() as int)[i as int] != prefix@[i as int]);
            return false;
        }
        i = i + 1;
    }
    assert(s@.take(prefix@.len() as int) =~= prefix@);
    true
}

/// The queueing disciplines the bindings need: `clsact` when any hook is a tc hook.
pub open spec fn required_qdiscs(bindings: Seq<BindingView>) -> Seq<Seq<char>> {
    if exists|i: int| 0 <= i < bindings.len() && starts_with(#[trigger] bindings[i].0, "tc"@) {
        seq!["clsact"@]
    } else {
        Seq::empty()
    }
}

fn attach_plan_for(
    previous_state: Option<&CompiledNodeState>,
    next_state: &CompiledNodeState,
    capability: &NodeCapability,
    n: PlanCounts,
    ports_removed: usize,
    routes_removed: usize,
) -> (r: AttachPlan)
    requires
        n == plan_counts(next_state),
        n.route_v4 + n.route_v6 <= usize::MAX,
        ports_removed == removed_ids(previous_state, next_state, |s: &CompiledNodeState| port_ids(s)),
        routes_removed == removed_ids(previous_state, next_state, |s: &CompiledNodeState| route_table_ids(s)),
    ensures
        r.generation == next_state.generation,
        r.compiled_at == next_state.compiled_at,
        r.shadow_apply_only,
        binding_views(r.bindings@) == attach_bindings(previous_state, next_state, capability),
        str_increasing(strs(r.required_hooks@)),
        strs(r.required_hooks@).to_set()
            == attach_bindings(previous_state, next_state, capability).map_values(|b: BindingView| b.0).to_set(),
        strs(r.required_qdisc@) == required_qdiscs(attach_bindings(previous_state, next_state, capability)),
{
    let mut bindings: Vec<AttachBindingPlan> = Vec::new();
    push_binding(&mut bindings, capability.supports_tc && n.port_identities > 0, "tc_ingress", "port-bindings",
        "refresh_shadow", n.port_identities);
    push_binding(&mut bindings, capability.supports_tc && n.port_identities > 0, "tc_egress", "port-bindings",
        "refresh_shadow", n.port_identities);
    push_binding(&mut bindings, capability.supports_xdp && n.port_identities > 0, "xdp", "anti-spoof-fastpath",
        "refresh_shadow", n.port_identities);
    push_binding(&mut bindings, capability.supports_tc && (n.route_v4 > 0 || n.route_v6 > 0), "tc_egress",
        "route-tables", "refresh_shadow", n.route_v4 + n.route_v6);
    push_binding(&mut bindings, capability.supports_tc && ports_removed > 0, "tc", "port-bindings",
        "cleanup_shadow", ports_removed);
    push_binding(&mut bindings, capability.supports_tc && routes_removed > 0, "tc", "route-tables",
        "cleanup_shadow", routes_removed);
    let ghost bviews = attach_bindings(previous_state, next_state, capability);
    assert(binding_views(bindings@) =~= bviews);

    let mut hooks: Vec<String> = Vec::new();
    let mut any_tc = false;
    let mut i: usize = 0;
    while i < bindings.len()
        invariant
            i <= bindings.len(),
            binding_views(bindings@) == bviews,
            strs(hooks@) == bviews.take(i as int).map_values(|b: BindingView| b.0),
            any_tc == exists|j: int| 0 <= j < i && starts_with(#[trigger] bviews[j].0, "tc"@),
        decreases bindings.len() - i,
    {
        let hook = bindings[i].hook_family.clone();
        assert(bviews[i as int].0 == hook@);
        if starts_with_exec(hook.as_str(), "tc") {
            any_tc = true;
        }
        let ghost before = hooks@;
        hooks.push(hook);
        proof {
            assert(strs(hooks@) =~= strs(before).push(bviews[i as int].0));
            assert(bviews.take(i + 1).map_values(|b: BindingView| b.0)
                =~= bviews.take(i as int).map_values(|b: BindingView| b.0).push(bviews[i as int].0));
        }
        i = i + 1;
    }
    assert(bviews.take(i as int) =~= bviews);
    let required_hooks = sorted_distinct(&hooks);
    let mut required_qdisc: Vec<String> = Vec::new();
    if any_tc {
        required_qdisc.push("clsact".to_string());
    }
    assert(strs(required_qdisc@) =~= required_qdiscs(bviews));

    AttachPlan {
        generation: next_state.generation.clone(),
        compiled_at: next_state.compiled_at.clone(),
        required_hooks,
        bindings,
        required_qdisc,
        shadow_apply_only: true,
    }
}

/// The runtime plan for `next_state`, given the previous state (if any)
/// and the node's capability.
pub fn build_runtime_plan(
    previous_state: Option<&CompiledNodeState>,
    next_state: &CompiledNodeState,
    capability: &NodeCapability,
) -> (r: RuntimePlan)
    requires
        state_fits(next_state),
        previous_state matches Some(p) ==> state_fits(p),
    ensures
        r.generation == next_state.generation,
        r.compiled_at == next_state.compiled_at,
        r.shadow_apply_only,
        r.attach_plan.generation == next_state.generation,
        r.attach_plan.compiled_at == next_state.compiled_at,
        r.attach_plan.shadow_apply_only,
        binding_views(r.attach_plan.bindings@) == attach_bindings(previous_state, next_state, capability),
        str_increasing(strs(r.attach_plan.required_hooks@)),
        strs(r.attach_plan.required_hooks@).to_set()
            == attach_bindings(previous_state, next_state, capability).map_values(|b: BindingView| b.0).to_set(),
        strs(r.attach_plan.required_qdisc@) == required_qdiscs(attach_bindings(previous_state, next_state, capability)),
        r.map_plan.generation == next_state.generation,
        r.map_plan.compiled_at == next_state.compiled_at,
        r.map_plan.shadow_apply_only,
        map_entry_views(r.map_plan.entries@) == map_entries(previous_state, next_state),
{
    let n = count_state(next_state);
    let p = match previous_state {
        Some(ps) => count_state(ps),
        None => PlanCounts {
            listeners: 0, socket_lb: 0, packet_lb: 0, members: 0, projections: 0, affinity: 0,
            maglev: 0, port_identities: 0, anti_spoof: 0, sg_rules: 0, route_v4: 0, route_v6: 0,
            qos_rules: 0, mirror_rules: 0,
        },
    };
    assert(p == previous_counts(previous_state));
    let (ports_removed, routes_removed, health_checks_removed, backend_sets_removed, services_removed) =
        match previous_state {
            Some(ps) => (
                count_removed(&port_id_list(ps), &port_id_list(next_state)),
                count_removed(&route_table_id_list(ps), &route_table_id_list(next_state)),
                count_removed(&health_check_id_list(ps), &health_check_id_list(next_state)),
                count_removed(&backend_set_id_list(ps), &backend_set_id_list(next_state)),
                count_removed(&service_id_list(ps), &service_id_list(next_state)),
            ),
            None => (0, 0, 0, 0, 0),
        };
    let attach_plan = attach_plan_for(previous_state, next_state, capability, n, ports_removed, routes_removed);

    let mut entries: Vec<MapPlanEntry> = Vec::new();
    push_port_entries(&mut entries, p, n, next_state);
    push_service_refresh_entries(&mut entries, n, next_state);
    push_service_cleanup_entries(&mut entries, p, n, previous_state, next_state, health_checks_removed,
        backend_sets_removed, services_removed);
    push_policy_entries(&mut entries, p, n);
    assert(map_entry_views(entries@) =~= map_entries(previous_state, next_state));

    let map_plan = MapPlan {
        generation: next_state.generation.clone(),
        compiled_at: next_state.compiled_at.clone(),
        entries,
        shadow_apply_only: true,
    };

    RuntimePlan {
        generation: next_state.generation.clone(),
        compiled_at: next_state.compiled_at.clone(),
        attach_plan,
        map_plan,
        shadow_apply_only: true,
    }
}

/// With tc support, route tables of the previous state that the next state
/// lacks are cleaned up: the attach plan holds a tc cleanup binding for the
/// route tables, counting exactly the ids that went away; and a route-table
/// cleanup binding is only ever planned for ids that went away.
pub proof fn lemma_removed_route_tables_cleaned(
    prev: &CompiledNodeState,
    next: &CompiledNodeState,
    capability: &NodeCapability,
    id: Seq<char>,
)
    requires
        capability.supports_tc,
        route_table_ids(prev).contains(id),
        !route_table_ids(next).contains(id),
    ensures
        ({
            let gone = route_table_ids(prev).to_set().difference(route_table_ids(next).to_set()).len();
            &&& gone > 0
            &&& attach_bindings(Some(prev), next, capability).contains(("tc"@, "route-tables"@, "cleanup_shadow"@, gone))
        }),
{
    let d = route_table_ids(prev).to_set().difference(route_table_ids(next).to_set());
    vstd::seq_lib::seq_to_set_is_finite(route_table_ids(prev));
    assert(d.contains(id));
    assert(d.finite());
    vstd::set::axiom_set_contains_len(d, id);
    let gone = d.len();
    let b = attach_bindings(Some(prev), next, capability);
    assert(b.last() == ("tc"@, "route-tables"@, "cleanup_shadow"@, gone));
    assert(b.contains(b[b.len() - 1]));
}

/// A route-table cleanup binding counts route tables that the previous
/// state had and the next state lacks: there is none without a previous
/// state, and none when no id went away.
pub proof fn lemma_route_cleanup_only_for_removed(
    prev: Option<&CompiledNodeState>,
    next: &CompiledNodeState,
    capability: &NodeCapability,
)
    ensures
        forall|i: int| 0 <= i < attach_bindings(prev, next, capability).len()
            && (#[trigger] attach_bindings(prev, next, capability)[i]).1 == "route-tables"@
            && attach_bindings(prev, next, capability)[i].2 == "cleanup_shadow"@
            ==> prev is Some && attach_bindings(prev, next, capability)[i].3
                == route_table_ids(prev->0).to_set().difference(route_table_ids(next).to_set()).len()
                && attach_bindings(prev, next, capability)[i].3 > 0,
{
    reveal_strlit("route-tables");
    reveal_strlit("port-bindings");
    reveal_strlit("anti-spoof-fastpath");
    reveal_strlit("cleanup_shadow");
    reveal_strlit("refresh_shadow");
    assert("route-tables"@[0] != "port-bindings"@[0]);
    assert("route-tables"@[0] != "anti-spoof-fastpath"@[0]);
    assert("cleanup_shadow"@[0] != "refresh_shadow"@[0]);
}

/// With tc support, port bindings of the previous state that the next state
/// lacks are cleaned up: the attach plan holds a tc cleanup binding for the
/// port bindings, counting exactly the port ids that went away.
pub proof fn lemma_removed_ports_cleaned(
    prev: &CompiledNodeState,
    next: &CompiledNodeState,
    capability: &NodeCapability,
    id: Seq<char>,
)
    requires
        capability.supports_tc,
        port_ids(prev).contains(id),
        !port_ids(next).contains(id),
    ensures
        ({
            let gone = port_ids(prev).to_set().difference(port_ids(next).to_set()).len();
            &&& gone > 0
            &&& attach_bindings(Some(prev), next, capability).contains(("tc"@, "port-bindings"@, "cleanup_shadow"@, gone))
        }),
{
    let d = port_ids(prev).to_set().difference(port_ids(next).to_set());
    vstd::seq_lib::seq_to_set_is_finite(port_ids(prev));
    assert(d.contains(id));
    vstd::set::axiom_set_contains_len(d, id);
    let gone = d.len();
    let n = plan_counts(next);
    let routes_removed = removed_ids(Some(prev), next, |s: &CompiledNodeState| route_table_ids(s));
    let head = binding_if(capability.supports_tc && n.port_identities > 0, "tc_ingress"@, "port-bindings"@,
        "refresh_shadow"@, n.port_identities as nat)
        + binding_if(capability.supports_tc && n.port_identities > 0, "tc_egress"@, "port-bindings"@,
        "refresh_shadow"@, n.port_identities as nat)
        + binding_if(capability.supports_xdp && n.port_identities > 0, "xdp"@, "anti-spoof-fastpath"@,
        "refresh_shadow"@, n.port_identities as nat)
        + binding_if(capability.supports_tc && (n.route_v4 > 0 || n.route_v6 > 0), "tc_egress"@, "route-tables"@,
        "refresh_shadow"@, (n.route_v4 + n.route_v6) as nat);
    let with_ports = head + binding_if(true, "tc"@, "port-bindings"@, "cleanup_shadow"@, gone);
    let b = attach_bindings(Some(prev), next, capability);
    assert(b == with_ports + binding_if(capability.supports_tc && routes_removed > 0, "tc"@, "route-tables"@,
        "cleanup_shadow"@, routes_removed));
    assert(b[head.len() as int] == ("tc"@, "port-bindings"@, "cleanup_shadow"@, gone));
    assert(b.contains(b[head.len() as int]));
}

} // verus!
