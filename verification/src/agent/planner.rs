//! The reconcile plan, the runtime plan and the runtime inventory: what the
//! agent means to refresh or clean up when a newly compiled node state
//! replaces the previous one.
use vstd::prelude::*;
use crate::agent::counters::sum_of;
use crate::agent::ir::{
    CompiledBackendSetView, CompiledHealthCheckView, CompiledNodeState, CompiledPortBinding,
    CompiledRouteTableView, CompiledServiceView, QosPolicyIr, ReconcileAction, ReconcilePlan,
};
use crate::order::strs;
use crate::strset::{count_removed, removed, same_string_set, strings_eq};
use crate::agent::counters::{lemma_sum_of_prefix, lemma_sum_of_take};
use crate::text::str_eq;

verus! {

broadcast use vstd::string::group_string_axioms;

/// Port ids of the bindings of `s`.
pub open spec fn port_ids(s: &CompiledNodeState) -> Seq<Seq<char>> {
    s.port_bindings@.map_values(|b: CompiledPortBinding| b.port_id@)
}

/// Ids of the route tables of `s`.
pub open spec fn route_table_ids(s: &CompiledNodeState) -> Seq<Seq<char>> {
    s.route_tables@.map_values(|t: CompiledRouteTableView| t.route_table_id@)
}

/// Ids of the health checks of `s`.
pub open spec fn health_check_ids(s: &CompiledNodeState) -> Seq<Seq<char>> {
    s.health_checks@.map_values(|h: CompiledHealthCheckView| h.health_check_id@)
}

/// Ids of the backend sets of `s`.
pub open spec fn backend_set_ids(s: &CompiledNodeState) -> Seq<Seq<char>> {
    s.backend_sets@.map_values(|b: CompiledBackendSetView| b.backend_set_id@)
}

/// Ids of the services of `s`.
pub open spec fn service_ids(s: &CompiledNodeState) -> Seq<Seq<char>> {
    s.services@.map_values(|v: CompiledServiceView| v.service_id@)
}

/// Ids of the QoS policies of `s`.
pub open spec fn qos_policy_ids(s: &CompiledNodeState) -> Seq<Seq<char>> {
    s.qos_policies@.map_values(|q: QosPolicyIr| q.policy_id@)
}

/// Ids that the previous state had (if any) and the next one lacks.
pub open spec fn removed_ids(
    prev: Option<&CompiledNodeState>,
    next: &CompiledNodeState,
    ids: spec_fn(&CompiledNodeState) -> Seq<Seq<char>>,
) -> nat {
    match prev {
        Some(p) => removed(ids(p), ids(next)),
        None => 0,
    }
}

/// A full reconcile is owed on a first state, a new generation or
/// capability profile, or a full sync on either side.
pub open spec fn full_reconcile_needed(prev: Option<&CompiledNodeState>, next: &CompiledNodeState) -> bool {
    match prev {
        Some(p) => p.generation@ != next.generation@ || p.capability_profile@ != next.capability_profile@
            || p.full_sync || next.full_sync,
        None => true,
    }
}

/// `kind` if `changed`, otherwise nothing.
pub open spec fn kind_if(changed: bool, kind: Seq<char>) -> Seq<Seq<char>> {
    if changed { seq![kind] } else { Seq::empty() }
}

/// The kinds of object whose set changed between the states: all of them
/// when there is no previous state.
pub open spec fn changed_kinds(prev: Option<&CompiledNodeState>, next: &CompiledNodeState) -> Seq<Seq<char>> {
    let fresh = prev is None;
    let p = prev.unwrap();
    kind_if(fresh || next.port_bindings.len() != p.port_bindings.len()
        || removed_ids(prev, next, |s: &CompiledNodeState| port_ids(s)) > 0, "ports"@)
    + kind_if(fresh || next.route_tables.len() != p.route_tables.len()
        || removed_ids(prev, next, |s: &CompiledNodeState| route_table_ids(s)) > 0, "route_tables"@)
    + kind_if(fresh || strs(next.security_group_ids@) != strs(p.security_group_ids@), "security_groups"@)
    + kind_if(fresh || strs(next.network_ids@) != strs(p.network_ids@), "networks"@)
    + kind_if(fresh || strs(next.tenant_ids@) != strs(p.tenant_ids@), "tenants"@)
    + kind_if(fresh || next.health_checks.len() != p.health_checks.len()
        || removed_ids(prev, next, |s: &CompiledNodeState| health_check_ids(s)) > 0, "health_checks"@)
    + kind_if(fresh || next.backend_sets.len() != p.backend_sets.len()
        || removed_ids(prev, next, |s: &CompiledNodeState| backend_set_ids(s)) > 0, "backend_sets"@)
    + kind_if(fresh || next.services.len() != p.services.len()
        || removed_ids(prev, next, |s: &CompiledNodeState| service_ids(s)) > 0, "services"@)
    + kind_if(fresh || next.qos_policies.len() != p.qos_policies.len()
        || qos_policy_ids(p).to_set() != qos_policy_ids(next).to_set(), "qos_policies"@)
}

/// A reconcile action: domain, operation and object count.
pub type ActionView = (Seq<char>, Seq<char>, nat);

/// The action, if `due`, otherwise nothing.
pub open spec fn action_if(due: bool, domain: Seq<char>, operation: Seq<char>, count: nat) -> Seq<ActionView> {
    if due { seq![(domain, operation, count)] } else { Seq::empty() }
}

/// The views of a list of reconcile actions.
pub open spec fn action_views(v: Seq<ReconcileAction>) -> Seq<ActionView> {
    v.map_values(|a: ReconcileAction| (a.domain@, a.operation@, a.object_count as nat))
}

/// Objects in the core reconcile: ports, route tables, health checks, backend sets and services.
pub open spec fn core_object_count(s: &CompiledNodeState) -> nat {
    (s.port_bindings.len() + s.route_tables.len() + s.health_checks.len() + s.backend_sets.len()
        + s.services.len()) as nat
}

/// Health checks, backend sets and services.
pub open spec fn service_object_count(s: &CompiledNodeState) -> nat {
    (s.health_checks.len() + s.backend_sets.len() + s.services.len()) as nat
}

/// Rules over all QoS policies.
pub open spec fn qos_rule_total(s: &CompiledNodeState) -> nat {
    sum_of(s.qos_policies@, |q: QosPolicyIr| q.rules.len() as nat)
}

/// QoS policies that the previous state had beyond the next one's count.
pub open spec fn qos_policies_dropped(prev: Option<&CompiledNodeState>, next: &CompiledNodeState) -> nat {
    let p = match prev { Some(p) => p.qos_policies.len() as nat, None => 0 };
    if p > next.qos_policies.len() { (p - next.qos_policies.len()) as nat } else { 0 }
}

/// Health checks, backend sets and services that were removed.
pub open spec fn service_objects_removed(prev: Option<&CompiledNodeState>, next: &CompiledNodeState) -> nat {
    removed_ids(prev, next, |s: &CompiledNodeState| health_check_ids(s))
        + removed_ids(prev, next, |s: &CompiledNodeState| backend_set_ids(s))
        + removed_ids(prev, next, |s: &CompiledNodeState| service_ids(s))
}

/// The reconcile actions, in the order the agent applies them.
pub open spec fn reconcile_actions(prev: Option<&CompiledNodeState>, next: &CompiledNodeState) -> Seq<ActionView> {
    let ports_removed = removed_ids(prev, next, |s: &CompiledNodeState| port_ids(s));
    let routes_removed = removed_ids(prev, next, |s: &CompiledNodeState| route_table_ids(s));
    action_if(full_reconcile_needed(prev, next), "core"@, "full_shadow_reconcile"@, core_object_count(next))
    + action_if(next.port_bindings.len() > 0, "ports"@, "refresh_shadow_bindings"@, next.port_bindings.len() as nat)
    + action_if(ports_removed > 0, "ports"@, "cleanup_shadow_bindings"@, ports_removed)
    + action_if(next.route_tables.len() > 0, "routes"@, "refresh_shadow_routes"@, next.route_tables.len() as nat)
    + action_if(routes_removed > 0, "routes"@, "cleanup_shadow_routes"@, routes_removed)
    + action_if(next.security_group_ids.len() > 0, "security"@, "refresh_shadow_security"@,
        next.security_group_ids.len() as nat)
    + action_if(service_object_count(next) > 0, "services"@, "refresh_shadow_services"@, service_object_count(next))
    + action_if(service_objects_removed(prev, next) > 0, "services"@, "cleanup_shadow_services"@,
        service_objects_removed(prev, next))
    + action_if(qos_rule_total(next) > 0, "qos"@, "refresh_shadow_qos"@, next.qos_policies.len() as nat)
    + action_if(qos_policies_dropped(prev, next) > 0, "qos"@, "cleanup_shadow_qos"@, qos_policies_dropped(prev, next))
}

/// The sums that a reconcile plan adds up fit in a `usize`.
pub open spec fn reconcile_fits(prev: Option<&CompiledNodeState>, next: &CompiledNodeState) -> bool {
    &&& core_object_count(next) <= usize::MAX
    &&& qos_rule_total(next) <= usize::MAX
    &&& (prev matches Some(p) ==> service_object_count(p) <= usize::MAX)
}

pub(crate) fn port_id_list(s: &CompiledNodeState) -> (r: Vec<String>)
    ensures
        strs(r@) == port_ids(s),
{
    let mut r: Vec<String> = Vec::new();
    let mut i: usize = 0;
    while i < s.port_bindings.len()
        invariant
            i <= s.port_bindings.len(),
            strs(r@) == port_ids(s).take(i as int),
        decreases s.port_bindings.len() - i,
    {
        let ghost before = r@;
        let id = s.port_bindings[i].port_id.clone();
        r.push(id);
        proof {
            assert(strs(r@) =~= strs(before).push(id@));
            assert(port_ids(s).take(i + 1) =~= port_ids(s).take(i as int).push(id@));
        }
        i = i + 1;
    }
    assert(port_ids(s).take(i as int) =~= port_ids(s));
    r
}

pub(crate) fn route_table_id_list(s: &CompiledNodeState) -> (r: Vec<String>)
    ensures
        strs(r@) == route_table_ids(s),
{
    let mut r: Vec<String> = Vec::new();
    let mut i: usize = 0;
    while i < s.route_tables.len()
        invariant
            i <= s.route_tables.len(),
            strs(r@) == route_table_ids(s).take(i as int),
        decreases s.route_tables.len() - i,
    {
        let ghost before = r@;
        let id = s.route_tables[i].route_table_id.clone();
        r.push(id);
        proof {
            assert(strs(r@) =~= strs(before).push(id@));
            assert(route_table_ids(s).take(i + 1) =~= route_table_ids(s).take(i as int).push(id@));
        }
        i = i + 1;
    }
    assert(route_table_ids(s).take(i as int) =~= route_table_ids(s));
    r
}

pub(crate) fn health_check_id_list(s: &CompiledNodeState) -> (r: Vec<String>)
    ensures
        strs(r@) == health_check_ids(s),
{
    let mut r: Vec<String> = Vec::new();
    let mut i: usize = 0;
    while i < s.health_checks.len()
        invariant
            i <= s.health_checks.len(),
            strs(r@) == health_check_ids(s).take(i as int),
        decreases s.health_checks.len() - i,
    {
        let ghost before = r@;
        let id = s.health_checks[i].health_check_id.clone();
        r.push(id);
        proof {
            assert(strs(r@) =~= strs(before).push(id@));
            assert(health_check_ids(s).take(i + 1) =~= health_check_ids(s).take(i as int).push(id@));
        }
        i = i + 1;
    }
    assert(health_check_ids(s).take(i as int) =~= health_check_ids(s));
    r
}

pub(crate) fn backend_set_id_list(s: &CompiledNodeState) -> (r: Vec<String>)
    ensures
        strs(r@) == backend_set_ids(s),
{
    let mut r: Vec<String> = Vec::new();
    let mut i: usize = 0;
    while i < s.backend_sets.len()
        invariant
            i <= s.backend_sets.len(),
            strs(r@) == backend_set_ids(s).take(i as int),
        decreases s.backend_sets.len() - i,
    {
        let ghost before = r@;
        let id = s.backend_sets[i].backend_set_id.clone();
        r.push(id);
        proof {
            assert(strs(r@) =~= strs(before).push(id@));
            assert(backend_set_ids(s).take(i + 1) =~= backend_set_ids(s).take(i as int).push(id@));
        }
        i = i + 1;
    }
    assert(backend_set_ids(s).take(i as int) =~= backend_set_ids(s));
    r
}

pub(crate) fn service_id_list(s: &CompiledNodeState) -> (r: Vec<String>)
    ensures
        strs(r@) == service_ids(s),
{
    let mut r: Vec<String> = Vec::new();
    let mut i: usize = 0;
    while i < s.services.len()
        invariant
            i <= s.services.len(),
            strs(r@) == service_ids(s).take(i as int),
        decreases s.services.len() - i,
    {
        let ghost before = r@;
        let id = s.services[i].service_id.clone();
        r.push(id);
        proof {
            assert(strs(r@) =~= strs(before).push(id@));
            assert(service_ids(s).take(i + 1) =~= service_ids(s).take(i as int).push(id@));
        }
        i = i + 1;
    }
    assert(service_ids(s).take(i as int) =~= service_ids(s));
    r
}

fn qos_policy_id_list(s: &CompiledNodeState) -> (r: Vec<String>)
    ensures
        strs(r@) == qos_policy_ids(s),
{
    let mut r: Vec<String> = Vec::new();
    let mut i: usize = 0;
    while i < s.qos_policies.len()
        invariant
            i <= s.qos_policies.len(),
            strs(r@) == qos_policy_ids(s).take(i as int),
        decreases s.qos_policies.len() - i,
    {
        let ghost before = r@;
        let id = s.qos_policies[i].policy_id.clone();
        r.push(id);
        proof {
            assert(strs(r@) =~= strs(before).push(id@));
            assert(qos_policy_ids(s).take(i + 1) =~= qos_policy_ids(s).take(i as int).push(id@));
        }
        i = i + 1;
    }
    assert(qos_policy_ids(s).take(i as int) =~= qos_policy_ids(s));
    r
}


fn push_kind(kinds: &mut Vec<String>, changed: bool, kind: &str)
    ensures
        strs(final(kinds)@) == strs(old(kinds)@) + kind_if(changed, kind@),
{
    if changed {
        kinds.push(kind.to_string());
    }
    assert(strs(kinds@) =~= strs(old(kinds)@) + kind_if(changed, kind@));
}

fn push_action(actions: &mut Vec<ReconcileAction>, due: bool, domain: &str, operation: &str, count: usize)
    ensures
        action_views(final(actions)@) == action_views(old(actions)@)
            + action_if(due, domain@, operation@, count as nat),
{
    if due {
        actions.push(ReconcileAction {
            domain: domain.to_string(),
            operation: operation.to_string(),
            object_count: count,
        });
    }
    assert(action_views(actions@) =~= action_views(old(actions)@)
        + action_if(due, domain@, operation@, count as nat));
}

fn qos_rule_count(s: &CompiledNodeState) -> (r: usize)
    requires
        qos_rule_total(s) <= usize::MAX,
    ensures
        r == qos_rule_total(s),
{
    let ghost f = |q: QosPolicyIr| q.rules.len() as nat;
    let mut total: usize = 0;
    let mut i: usize = 0;
    while i < s.qos_policies.len()
        invariant
            i <= s.qos_policies.len(),
            qos_rule_total(s) <= usize::MAX,
            f == (|q: QosPolicyIr| q.rules.len() as nat),
            total == sum_of(s.qos_policies@.take(i as int), f),
        decreases s.qos_policies.len() - i,
    {
        proof {
            lemma_sum_of_take(s.qos_policies@, f, i as int);
            lemma_sum_of_prefix(s.qos_policies@, f, i + 1);
        }
        total = total + s.qos_policies[i].rules.len();
        i = i + 1;
    }
    assert(s.qos_policies@.take(i as int) =~= s.qos_policies@);
    total
}

fn changed_kind_list(
    previous_state: Option<&CompiledNodeState>,
    next_state: &CompiledNodeState,
    ports_removed: usize,
    routes_removed: usize,
    health_checks_removed: usize,
    backend_sets_removed: usize,
    services_removed: usize,
) -> (r: Vec<String>)
    requires
        ports_removed == removed_ids(previous_state, next_state, |s: &CompiledNodeState| port_ids(s)),
        routes_removed == removed_ids(previous_state, next_state, |s: &CompiledNodeState| route_table_ids(s)),
        health_checks_removed == removed_ids(previous_state, next_state, |s: &CompiledNodeState| health_check_ids(s)),
        backend_sets_removed == removed_ids(previous_state, next_state, |s: &CompiledNodeState| backend_set_ids(s)),
        services_removed == removed_ids(previous_state, next_state, |s: &CompiledNodeState| service_ids(s)),
    ensures
        strs(r@) == changed_kinds(previous_state, next_state),
{
    let mut kinds: Vec<String> = Vec::new();
    let ports_changed = match previous_state {
        Some(p) => next_state.port_bindings.len() != p.port_bindings.len() || ports_removed > 0,
        None => true,
    };
    push_kind(&mut kinds, ports_changed, "ports");
    let routes_changed = match previous_state {
        Some(p) => next_state.route_tables.len() != p.route_tables.len() || routes_removed > 0,
        None => true,
    };
    push_kind(&mut kinds, routes_changed, "route_tables");
    let groups_changed = match previous_state {
        Some(p) => !strings_eq(&next_state.security_group_ids, &p.security_group_ids),
        None => true,
    };
    push_kind(&mut kinds, groups_changed, "security_groups");
    let networks_changed = match previous_state {
        Some(p) => !strings_eq(&next_state.network_ids, &p.network_ids),
        None => true,
    };
    push_kind(&mut kinds, networks_changed, "networks");
    let tenants_changed = match previous_state {
        Some(p) => !strings_eq(&next_state.tenant_ids, &p.tenant_ids),
        None => true,
    };
    push_kind(&mut kinds, tenants_changed, "tenants");
    let health_checks_changed = match previous_state {
        Some(p) => next_state.health_checks.len() != p.health_checks.len() || health_checks_removed > 0,
        None => true,
    };
    push_kind(&mut kinds, health_checks_changed, "health_checks");
    let backend_sets_changed = match previous_state {
        Some(p) => next_state.backend_sets.len() != p.backend_sets.len() || backend_sets_removed > 0,
        None => true,
    };
    push_kind(&mut kinds, backend_sets_changed, "backend_sets");
    let services_changed = match previous_state {
        Some(p) => next_state.services.len() != p.services.len() || services_removed > 0,
        None => true,
    };
    push_kind(&mut kinds, services_changed, "services");
    let qos_changed = match previous_state {
        Some(p) => next_state.qos_policies.len() != p.qos_policies.len()
            || !same_string_set(&qos_policy_id_list(p), &qos_policy_id_list(next_state)),
        None => true,
    };
    push_kind(&mut kinds, qos_changed, "qos_policies");
    assert(strs(kinds@) =~= changed_kinds(previous_state, next_state));
    kinds
}

fn reconcile_action_list(
    previous_state: Option<&CompiledNodeState>,
    next_state: &CompiledNodeState,
    full_reconcile: bool,
    ports_removed: usize,
    routes_removed: usize,
    services_cleanup: usize,
) -> (r: Vec<ReconcileAction>)
    requires
        reconcile_fits(previous_state, next_state),
        full_reconcile == full_reconcile_needed(previous_state, next_state),
        ports_removed == removed_ids(previous_state, next_state, |s: &CompiledNodeState| port_ids(s)),
        routes_removed == removed_ids(previous_state, next_state, |s: &CompiledNodeState| route_table_ids(s)),
        services_cleanup == service_objects_removed(previous_state, next_state),
    ensures
        action_views(r@) == reconcile_actions(previous_state, next_state),
{
    let mut actions: Vec<ReconcileAction> = Vec::new();
    push_action(&mut actions, full_reconcile, "core", "full_shadow_reconcile",
        next_state.port_bindings.len() + next_state.route_tables.len() + next_state.health_checks.len()
            + next_state.backend_sets.len() + next_state.services.len());
    push_action(&mut actions, next_state.port_bindings.len() > 0, "ports", "refresh_shadow_bindings",
        next_state.port_bindings.len());
    push_action(&mut actions, ports_removed > 0, "ports", "cleanup_shadow_bindings", ports_removed);
    push_action(&mut actions, next_state.route_tables.len() > 0, "routes", "refresh_shadow_routes",
        next_state.route_tables.len());
    push_action(&mut actions, routes_removed > 0, "routes", "cleanup_shadow_routes", routes_removed);
    push_action(&mut actions, next_state.security_group_ids.len() > 0, "security", "refresh_shadow_security",
        next_state.security_group_ids.len());
    let service_shadow_count = next_state.health_checks.len() + next_state.backend_sets.len()
        + next_state.services.len();
    push_action(&mut actions, service_shadow_count > 0, "services", "refresh_shadow_services",
        service_shadow_count);
    push_action(&mut actions, services_cleanup > 0, "services", "cleanup_shadow_services", services_cleanup);
    let qos_rules = qos_rule_count(next_state);
    push_action(&mut actions, qos_rules > 0, "qos", "refresh_shadow_qos", next_state.qos_policies.len());
    let previous_qos_count: usize = match previous_state {
        Some(p) => p.qos_policies.len(),
        None => 0,
    };
    let qos_removed = if previous_qos_count > next_state.qos_policies.len() {
        previous_qos_count - next_state.qos_policies.len()
    } else {
        0
    };
    push_action(&mut actions, qos_removed > 0, "qos", "cleanup_shadow_qos", qos_removed);
    assert(action_views(actions@) =~= reconcile_actions(previous_state, next_state));
    actions
}

/// The reconcile plan for moving from `previous_state` (if any) to `next_state`.
pub fn build_reconcile_plan(
    previous_state: Option<&CompiledNodeState>,
    next_state: &CompiledNodeState,
    warnings: Vec<String>,
) -> (r: ReconcilePlan)
    requires
        reconcile_fits(previous_state, next_state),
    ensures
        r.generation == next_state.generation,
        r.previous_generation == (match previous_state {
            Some(p) => Some(p.generation),
            None => None::<String>,
        }),
        r.compiled_at == next_state.compiled_at,
        r.full_reconcile == full_reconcile_needed(previous_state, next_state),
        strs(r.changed_kinds@) == changed_kinds(previous_state, next_state),
        action_views(r.actions@) == reconcile_actions(previous_state, next_state),
        r.warnings == warnings,
        r.shadow_apply_only,
{
    let next_ports = port_id_list(next_state);
    let next_routes = route_table_id_list(next_state);
    let next_health_checks = health_check_id_list(next_state);
    let next_backend_sets = backend_set_id_list(next_state);
    let next_services = service_id_list(next_state);

    let (ports_removed, routes_removed, health_checks_removed, backend_sets_removed, services_removed, services_cleanup) =
        match previous_state {
            Some(p) => {
                let a = count_removed(&port_id_list(p), &next_ports);
                let b = count_removed(&route_table_id_list(p), &next_routes);
                let hc = health_check_id_list(p);
                let bs = backend_set_id_list(p);
                let sv = service_id_list(p);
                assert(strs(hc@).len() == hc.len() && health_check_ids(p).len() == p.health_checks.len());
                assert(strs(bs@).len() == bs.len() && backend_set_ids(p).len() == p.backend_sets.len());
                assert(strs(sv@).len() == sv.len() && service_ids(p).len() == p.services.len());
                let c = count_removed(&hc, &next_health_checks);
                let d = count_removed(&bs, &next_backend_sets);
                let e = count_removed(&sv, &next_services);
                (a, b, c, d, e, c + d + e)
            }
            None => (0, 0, 0, 0, 0, 0),
        };

    let previous_generation = match previous_state {
        Some(p) => Some(p.generation.clone()),
        None => None,
    };
    let full_reconcile = match previous_state {
        Some(p) => !str_eq(p.generation.as_str(), next_state.generation.as_str())
            || !str_eq(p.capability_profile.as_str(), next_state.capability_profile.as_str())
            || p.full_sync || next_state.full_sync,
        None => true,
    };
    let changed_kinds = changed_kind_list(previous_state, next_state, ports_removed, routes_removed,
        health_checks_removed, backend_sets_removed, services_removed);
    let actions = reconcile_action_list(previous_state, next_state, full_reconcile, ports_removed,
        routes_removed, services_cleanup);

    ReconcilePlan {
        generation: next_state.generation.clone(),
        previous_generation,
        compiled_at: next_state.compiled_at.clone(),
        full_reconcile,
        changed_kinds,
        actions,
        warnings,
        shadow_apply_only: true,
    }
}


/// With no previous state the plan is a full reconcile that reports every
/// kind of object as changed and starts with the core action over all of
/// the next state's objects.
pub proof fn lemma_first_plan_is_full(next: &CompiledNodeState)
    ensures
        full_reconcile_needed(None, next),
        changed_kinds(None, next) == seq!["ports"@, "route_tables"@, "security_groups"@, "networks"@, "tenants"@,
            "health_checks"@, "backend_sets"@, "services"@, "qos_policies"@],
        reconcile_actions(None, next)[0] == ("core"@, "full_shadow_reconcile"@, core_object_count(next)),
{
    assert(changed_kinds(None, next) =~= seq!["ports"@, "route_tables"@, "security_groups"@, "networks"@, "tenants"@,
        "health_checks"@, "backend_sets"@, "services"@, "qos_policies"@]);
}

proof fn lemma_nothing_removed(ids: Seq<Seq<char>>)
    ensures
        removed(ids, ids) == 0,
{
    assert(ids.to_set().difference(ids.to_set()) =~= Set::<Seq<char>>::empty());
}

/// A state reconciled against itself, without a full sync, needs no full
/// reconcile, reports no changed kind and owes no cleanup.
pub proof fn lemma_same_state_plan_is_quiet(s: &CompiledNodeState)
    requires
        !s.full_sync,
    ensures
        !full_reconcile_needed(Some(s), s),
        changed_kinds(Some(s), s) == Seq::<Seq<char>>::empty(),
        removed_ids(Some(s), s, |t: &CompiledNodeState| port_ids(t)) == 0,
        removed_ids(Some(s), s, |t: &CompiledNodeState| route_table_ids(t)) == 0,
        service_objects_removed(Some(s), s) == 0,
        qos_policies_dropped(Some(s), s) == 0,
{
    lemma_nothing_removed(port_ids(s));
    lemma_nothing_removed(route_table_ids(s));
    lemma_nothing_removed(health_check_ids(s));
    lemma_nothing_removed(backend_set_ids(s));
    lemma_nothing_removed(service_ids(s));
    assert(changed_kinds(Some(s), s) =~= Seq::<Seq<char>>::empty());
}

/// Against a previous state, a full reconcile is owed exactly when the
/// generation or the capability profile changed, or either side asks for a
/// full sync; a full reconcile puts the core full-reconcile action over all
/// of the next state's objects first, and without one no core action is
/// planned at all.
pub proof fn lemma_full_reconcile_on_change(prev: &CompiledNodeState, next: &CompiledNodeState)
    ensures
        prev.capability_profile@ != next.capability_profile@ ==> full_reconcile_needed(Some(prev), next),
        prev.generation@ != next.generation@ ==> full_reconcile_needed(Some(prev), next),
        prev.full_sync || next.full_sync ==> full_reconcile_needed(Some(prev), next),
        prev.generation@ == next.generation@ && prev.capability_profile@ == next.capability_profile@
            && !prev.full_sync && !next.full_sync ==> !full_reconcile_needed(Some(prev), next),
        full_reconcile_needed(Some(prev), next) ==> reconcile_actions(Some(prev), next).len() > 0
            && reconcile_actions(Some(prev), next)[0] == ("core"@, "full_shadow_reconcile"@, core_object_count(next)),
        !full_reconcile_needed(Some(prev), next) ==> forall|i: int| 0 <= i < reconcile_actions(Some(prev), next).len()
            ==> (#[trigger] reconcile_actions(Some(prev), next)[i]).0 != "core"@,
{
    reveal_strlit("core");
    reveal_strlit("ports");
    reveal_strlit("routes");
    reveal_strlit("security");
    reveal_strlit("services");
    reveal_strlit("qos");
    let pr = Some(prev);
    let ports_removed = removed_ids(pr, next, |s: &CompiledNodeState| port_ids(s));
    let routes_removed = removed_ids(pr, next, |s: &CompiledNodeState| route_table_ids(s));
    let a0 = action_if(full_reconcile_needed(pr, next), "core"@, "full_shadow_reconcile"@, core_object_count(next));
    let a1 = action_if(next.port_bindings.len() > 0, "ports"@, "refresh_shadow_bindings"@, next.port_bindings.len() as nat);
    let a2 = action_if(ports_removed > 0, "ports"@, "cleanup_shadow_bindings"@, ports_removed);
    let a3 = action_if(next.route_tables.len() > 0, "routes"@, "refresh_shadow_routes"@, next.route_tables.len() as nat);
    let a4 = action_if(routes_removed > 0, "routes"@, "cleanup_shadow_routes"@, routes_removed);
    let a5 = action_if(next.security_group_ids.len() > 0, "security"@, "refresh_shadow_security"@,
        next.security_group_ids.len() as nat);
    let a6 = action_if(service_object_count(next) > 0, "services"@, "refresh_shadow_services"@, service_object_count(next));
    let a7 = action_if(service_objects_removed(pr, next) > 0, "services"@, "cleanup_shadow_services"@,
        service_objects_removed(pr, next));
    let a8 = action_if(qos_rule_total(next) > 0, "qos"@, "refresh_shadow_qos"@, next.qos_policies.len() as nat);
    let a9 = action_if(qos_policies_dropped(pr, next) > 0, "qos"@, "cleanup_shadow_qos"@, qos_policies_dropped(pr, next));
    assert(reconcile_actions(pr, next) == a0 + a1 + a2 + a3 + a4 + a5 + a6 + a7 + a8 + a9);
    if !full_reconcile_needed(pr, next) {
        let c = "core"@;
        assert("ports"@ != c && "routes"@ != c && "security"@ != c && "services"@ != c && "qos"@ != c) by {
            assert("ports"@[0] != c[0]);
            assert("routes"@[0] != c[0]);
            assert("security"@[0] != c[0]);
            assert("services"@[0] != c[0]);
            assert("qos"@[0] != c[0]);
        }
        lemma_no_domain(a0, a1, c);
        lemma_no_domain(a0 + a1, a2, c);
        lemma_no_domain(a0 + a1 + a2, a3, c);
        lemma_no_domain(a0 + a1 + a2 + a3, a4, c);
        lemma_no_domain(a0 + a1 + a2 + a3 + a4, a5, c);
        lemma_no_domain(a0 + a1 + a2 + a3 + a4 + a5, a6, c);
        lemma_no_domain(a0 + a1 + a2 + a3 + a4 + a5 + a6, a7, c);
        lemma_no_domain(a0 + a1 + a2 + a3 + a4 + a5 + a6 + a7, a8, c);
        lemma_no_domain(a0 + a1 + a2 + a3 + a4 + a5 + a6 + a7 + a8, a9, c);
    }
}

proof fn lemma_no_domain(s: Seq<ActionView>, t: Seq<ActionView>, d: Seq<char>)
    requires
        forall|i: int| 0 <= i < s.len() ==> (#[trigger] s[i]).0 != d,
        t.len() <= 1,
        t.len() == 1 ==> t[0].0 != d,
    ensures
        forall|i: int| 0 <= i < (s + t).len() ==> (#[trigger] (s + t)[i]).0 != d,
{
    assert forall|i: int| 0 <= i < (s + t).len() implies (#[trigger] (s + t)[i]).0 != d by {
        if i < s.len() {
            assert((s + t)[i] == s[i]);
        } else {
            assert((s + t)[i] == t[i - s.len()]);
        }
    }
}

proof fn lemma_actions_split(prev: &CompiledNodeState, next: &CompiledNodeState)
    ensures
        ({
            let pr = Some(prev);
            let ports_removed = removed_ids(pr, next, |s: &CompiledNodeState| port_ids(s));
            let routes_removed = removed_ids(pr, next, |s: &CompiledNodeState| route_table_ids(s));
            let a0 = action_if(full_reconcile_needed(pr, next), "core"@, "full_shadow_reconcile"@, core_object_count(next));
            let a1 = action_if(next.port_bindings.len() > 0, "ports"@, "refresh_shadow_bindings"@,
                next.port_bindings.len() as nat);
            let a2 = action_if(ports_removed > 0, "ports"@, "cleanup_shadow_bindings"@, ports_removed);
            let a3 = action_if(next.route_tables.len() > 0, "routes"@, "refresh_shadow_routes"@,
                next.route_tables.len() as nat);
            let a4 = action_if(routes_removed > 0, "routes"@, "cleanup_shadow_routes"@, routes_removed);
            let acts = reconcile_actions(pr, next);
            &&& ports_removed > 0 ==> acts[(a0 + a1).len() as int] == ("ports"@, "cleanup_shadow_bindings"@, ports_removed)
                && (a0 + a1).len() < acts.len()
            &&& routes_removed > 0 ==> acts[(a0 + a1 + a2 + a3).len() as int] == ("routes"@, "cleanup_shadow_routes"@, routes_removed)
                && (a0 + a1 + a2 + a3).len() < acts.len()
        }),
{
    let pr = Some(prev);
    let ports_removed = removed_ids(pr, next, |s: &CompiledNodeState| port_ids(s));
    let routes_removed = removed_ids(pr, next, |s: &CompiledNodeState| route_table_ids(s));
    let a0 = action_if(full_reconcile_needed(pr, next), "core"@, "full_shadow_reconcile"@, core_object_count(next));
    let a1 = action_if(next.port_bindings.len() > 0, "ports"@, "refresh_shadow_bindings"@, next.port_bindings.len() as nat);
    let a2 = action_if(ports_removed > 0, "ports"@, "cleanup_shadow_bindings"@, ports_removed);
    let a3 = action_if(next.route_tables.len() > 0, "routes"@, "refresh_shadow_routes"@, next.route_tables.len() as nat);
    let a4 = action_if(routes_removed > 0, "routes"@, "cleanup_shadow_routes"@, routes_removed);
    let a5 = action_if(next.security_group_ids.len() > 0, "security"@, "refresh_shadow_security"@,
        next.security_group_ids.len() as nat);
    let a6 = action_if(service_object_count(next) > 0, "services"@, "refresh_shadow_services"@, service_object_count(next));
    let a7 = action_if(service_objects_removed(pr, next) > 0, "services"@, "cleanup_shadow_services"@,
        service_objects_removed(pr, next));
    let a8 = action_if(qos_rule_total(next) > 0, "qos"@, "refresh_shadow_qos"@, next.qos_policies.len() as nat);
    let a9 = action_if(qos_policies_dropped(pr, next) > 0, "qos"@, "cleanup_shadow_qos"@, qos_policies_dropped(pr, next));
    let acts = reconcile_actions(pr, next);
    let p2 = a0 + a1 + a2;
    let p3 = p2 + a3;
    let p4 = p3 + a4;
    let p5 = p4 + a5;
    let p6 = p5 + a6;
    let p7 = p6 + a7;
    let p8 = p7 + a8;
    let p9 = p8 + a9;
    assert(acts == p9);
    if ports_removed > 0 {
        let k = (a0 + a1).len() as int;
        assert(p2[k] == a2[0]);
        assert(p3[k] == p2[k]);
        assert(p4[k] == p3[k]);
        assert(p5[k] == p4[k]);
        assert(p6[k] == p5[k]);
        assert(p7[k] == p6[k]);
        assert(p8[k] == p7[k]);
        assert(p9[k] == p8[k]);
    }
    if routes_removed > 0 {
        let k = p3.len() as int;
        assert(p4[k] == a4[0]);
        assert(p5[k] == p4[k]);
        assert(p6[k] == p5[k]);
        assert(p7[k] == p6[k]);
        assert(p8[k] == p7[k]);
        assert(p9[k] == p8[k]);
    }
}

/// Port bindings of the previous state that the next state lacks are
/// cleaned up: the reconcile plan holds a port cleanup action counting
/// exactly the port ids that went away.
pub proof fn lemma_removed_ports_reconciled(prev: &CompiledNodeState, next: &CompiledNodeState, id: Seq<char>)
    requires
        port_ids(prev).contains(id),
        !port_ids(next).contains(id),
    ensures
        ({
            let gone = port_ids(prev).to_set().difference(port_ids(next).to_set()).len();
            &&& gone > 0
            &&& reconcile_actions(Some(prev), next).contains(("ports"@, "cleanup_shadow_bindings"@, gone))
        }),
{
    let d = port_ids(prev).to_set().difference(port_ids(next).to_set());
    vstd::seq_lib::seq_to_set_is_finite(port_ids(prev));
    assert(d.contains(id));
    vstd::set::axiom_set_contains_len(d, id);
    lemma_actions_split(prev, next);
    let acts = reconcile_actions(Some(prev), next);
    let k = choose|k: int| 0 <= k < acts.len() && acts[k] == ("ports"@, "cleanup_shadow_bindings"@, d.len());
    assert(acts.contains(acts[k]));
}

/// Route tables of the previous state that the next state lacks are
/// cleaned up: the reconcile plan holds a route cleanup action counting
/// exactly the route table ids that went away.
pub proof fn lemma_removed_routes_reconciled(prev: &CompiledNodeState, next: &CompiledNodeState, id: Seq<char>)
    requires
        route_table_ids(prev).contains(id),
        !route_table_ids(next).contains(id),
    ensures
        ({
            let gone = route_table_ids(prev).to_set().difference(route_table_ids(next).to_set()).len();
            &&& gone > 0
            &&& reconcile_actions(Some(prev), next).contains(("routes"@, "cleanup_shadow_routes"@, gone))
        }),
{
    let d = route_table_ids(prev).to_set().difference(route_table_ids(next).to_set());
    vstd::seq_lib::seq_to_set_is_finite(route_table_ids(prev));
    assert(d.contains(id));
    vstd::set::axiom_set_contains_len(d, id);
    lemma_actions_split(prev, next);
    let acts = reconcile_actions(Some(prev), next);
    let k = choose|k: int| 0 <= k < acts.len() && acts[k] == ("routes"@, "cleanup_shadow_routes"@, d.len());
    assert(acts.contains(acts[k]));
}

} // verus!
