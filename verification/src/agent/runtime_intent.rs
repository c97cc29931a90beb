//! What the agent intends to do in each runtime domain, and how that
//! execution is summarised.
use vstd::prelude::*;
use crate::agent::counters::{
    has_affinity, in_mode, is_internal, is_maglev, listener_total, listeners, listeners_where, member_total,
    needs_packet_lb, one_where, projections, sum_of, total_affinity_service_programs,
    total_backend_member_runtime_entries, total_cross_node_hybrid_service_programs,
    total_cross_node_native_service_programs, total_cross_node_overlay_service_programs,
    total_cross_node_service_programs, total_maglev_service_programs, total_node_local_service_programs,
    total_packet_lb_frontends, total_service_backend_members, total_service_forwarding_projections,
    total_service_frontend_runtime_entries, total_service_listener_ports, total_service_revnat_entries,
    total_socket_lb_frontends, totals_fit,
};
use crate::agent::helpers::unix_timestamp_string;
use crate::agent::inventory_diff::op_cleans;
use crate::agent::ir::{
    CompileDomainSummary, CompiledNodeState, RuntimeExecutionDomainSummary, RuntimeExecutionSummary,
    ServiceRuntimeExecutionSummary, ReconcileAction, ReconcilePlan, RuntimeDomainIntent, RuntimeIntent, RuntimeInventory,
    RuntimeInventoryAttachDelta, RuntimeInventoryDiff, RuntimeInventoryDomainSummary, RuntimeInventoryMapDelta,
    ServiceProgramIr, ServiceRuntimeIntentSummary,
};
use crate::order::{sorted_distinct, str_increasing, strs};
use crate::strset::contains_str;
use crate::text::{contains_substring, decimal, str_eq};

verus! {

broadcast use vstd::string::group_string_axioms;

/// The domains named by the actions of a reconcile plan.
pub open spec fn reconcile_domains(plan: &ReconcilePlan) -> Set<Seq<char>> {
    plan.actions@.map_values(|a: ReconcileAction| a.domain@).to_set()
}

/// The domains of attach or map deltas that call for cleanup.
pub open spec fn cleanup_domains(diff: &RuntimeInventoryDiff) -> Set<Seq<char>> {
    Set::new(|d: Seq<char>|
        (exists|i: int| 0 <= i < diff.attach_deltas.len() && (#[trigger] diff.attach_deltas@[i]).domain@ == d
            && op_cleans(diff.attach_deltas@[i].operation@, diff.attach_deltas@[i].change_type@))
        || (exists|i: int| 0 <= i < diff.map_deltas.len() && (#[trigger] diff.map_deltas@[i]).domain@ == d
            && op_cleans(diff.map_deltas@[i].operation@, diff.map_deltas@[i].change_type@)))
}

/// A domain changed: the inventory diff names it, a reconcile action names
/// it, or a full reconcile touches the core domain.
pub open spec fn domain_changed(d: Seq<char>, plan: &ReconcilePlan, diff: &RuntimeInventoryDiff) -> bool {
    ||| strs(diff.changed_domains@).contains(d)
    ||| reconcile_domains(plan).contains(d)
    ||| plan.full_reconcile && reconcile_domains(plan).contains("core"@)
}

/// The NAT domain with nothing compiled, attached, mapped or failed is only
/// reserved.
pub open spec fn reserved_nat(s: RuntimeInventoryDomainSummary) -> bool {
    &&& s.domain@ == "nat"@
    &&& s.compiled_objects == 0
    &&& s.attach_operations == 0
    &&& s.map_operations == 0
    &&& s.failed_objects == 0
}

/// A domain takes part in a full reconcile: the plan is a full reconcile and
/// the domain changed or the core domain is reconciled, unless it is the
/// reserved NAT domain.
pub open spec fn domain_full_reconcile(s: RuntimeInventoryDomainSummary, plan: &ReconcilePlan, diff: &RuntimeInventoryDiff) -> bool {
    !reserved_nat(s) && plan.full_reconcile
        && (domain_changed(s.domain@, plan, diff) || reconcile_domains(plan).contains("core"@))
}

/// The action intended for a domain, by precedence.
pub open spec fn intended_action(reserved: bool, full: bool, cleanup: bool, changed: bool) -> Seq<char> {
    if reserved {
        "reserve_shadow"@
    } else if full {
        "full_shadow_reconcile"@
    } else if cleanup {
        "cleanup_shadow"@
    } else if changed {
        "refresh_shadow"@
    } else {
        "maintain_shadow"@
    }
}

/// The reason given for a domain's intended action.
pub open spec fn intended_reason(reserved: bool, full: bool, cleanup: bool, changed: bool) -> Seq<char> {
    if reserved {
        "reserved_for_snat_dnat_floating_ip"@
    } else if full {
        "generation_or_capability_shift"@
    } else if cleanup {
        "runtime_cleanup_required"@
    } else if changed {
        "runtime_inventory_delta"@
    } else {
        "shadow_inventory_stable"@
    }
}

/// `x` is the intent for the inventory domain `s`.
pub open spec fn intent_for(x: RuntimeDomainIntent, s: RuntimeInventoryDomainSummary, plan: &ReconcilePlan, diff: &RuntimeInventoryDiff) -> bool {
    let reserved = reserved_nat(s);
    let full = domain_full_reconcile(s, plan, diff);
    let cleanup = cleanup_domains(diff).contains(s.domain@);
    let changed = domain_changed(s.domain@, plan, diff);
    &&& x.domain@ == s.domain@
    &&& x.desired_action@ == intended_action(reserved, full, cleanup, changed)
    &&& x.reason@ == intended_reason(reserved, full, cleanup, changed)
    &&& x.full_reconcile == full
    &&& x.requires_cleanup == cleanup
    &&& x.changed == changed
    &&& x.attach_operations == s.attach_operations
    &&& x.map_operations == s.map_operations
    &&& x.compiled_objects == s.compiled_objects
    &&& x.failed_objects == s.failed_objects
    &&& x.shadow_apply_only
}

/// The service counters of a compiled state.
pub open spec fn service_counts_match(s: ServiceRuntimeIntentSummary, state: CompiledNodeState) -> bool {
    let p = state.service_programs@;
    &&& s.service_count == p.len()
    &&& s.frontend_listener_count == listener_total(state)
    &&& s.frontend_runtime_entry_count == listener_total(state)
    &&& s.socket_lb_frontend_count == sum_of(p, listeners_where(|q: ServiceProgramIr| is_internal(q)))
    &&& s.packet_lb_frontend_count == sum_of(p, listeners_where(|q: ServiceProgramIr| needs_packet_lb(q)))
    &&& s.backend_member_count == member_total(state)
    &&& s.backend_runtime_entry_count == member_total(state)
    &&& s.forwarding_projection_count == sum_of(p, |q: ServiceProgramIr| projections(q))
    &&& s.node_local_service_count == sum_of(p, one_where(|q: ServiceProgramIr| q.frontend.node_local_forwarding))
    &&& s.cross_node_service_count == sum_of(p, one_where(|q: ServiceProgramIr| q.frontend.cross_node_forwarding))
    &&& s.cross_node_native_service_count == sum_of(p, one_where(in_mode("cross_node_native"@)))
    &&& s.cross_node_overlay_service_count == sum_of(p, one_where(in_mode("cross_node_overlay"@)))
    &&& s.cross_node_hybrid_service_count == sum_of(p, one_where(in_mode("cross_node_hybrid"@)))
    &&& s.revnat_reservation_count == listener_total(state)
    &&& s.affinity_reservation_count == sum_of(p, listeners_where(|q: ServiceProgramIr| has_affinity(q)))
    &&& s.maglev_reservation_count == sum_of(p, listeners_where(|q: ServiceProgramIr| is_maglev(q)))
}

/// The first intent for the services domain, if any.
pub open spec fn first_services_intent(v: Seq<RuntimeDomainIntent>, i: int) -> bool {
    &&& 0 <= i < v.len()
    &&& v[i].domain@ == "services"@
    &&& forall|j: int| 0 <= j < i ==> (#[trigger] v[j]).domain@ != "services"@
}

/// The service intent follows the first services intent, with the
/// compiled state's service counters; none when no intent is for services.
pub open spec fn service_intent_for(r: Option<ServiceRuntimeIntentSummary>, v: Seq<RuntimeDomainIntent>, state: CompiledNodeState) -> bool {
    match r {
        None => forall|j: int| 0 <= j < v.len() ==> (#[trigger] v[j]).domain@ != "services"@,
        Some(s) => exists|i: int| #[trigger] first_services_intent(v, i) && {
            &&& s.desired_action == v[i].desired_action
            &&& s.requires_cleanup == v[i].requires_cleanup
            &&& s.changed == v[i].changed
            &&& service_counts_match(s, state)
            &&& s.shadow_apply_only
        },
    }
}

fn reconcile_names(plan: &ReconcilePlan, d: &str) -> (r: bool)
    ensures
        r == reconcile_domains(plan).contains(d@),
{
    let ghost m = plan.actions@.map_values(|a: ReconcileAction| a.domain@);
    let mut i: usize = 0;
    while i < plan.actions.len()
        invariant
            i <= plan.actions.len(),
            m == plan.actions@.map_values(|a: ReconcileAction| a.domain@),
            forall|j: int| 0 <= j < i ==> m[j] != d@,
        decreases plan.actions.len() - i,
    {
        if str_eq(plan.actions[i].domain.as_str(), d) {
            assert(m[i as int] == d@);
            return true;
        }
        i = i + 1;
    }
    proof {
        if m.to_set().contains(d@) {
            let k = choose|k: int| 0 <= k < m.len() && m[k] == d@;
            assert(m[k] != d@);
        }
    }
    false
}

fn attach_cleanup_names(v: &Vec<RuntimeInventoryAttachDelta>, d: &str) -> (r: bool)
    ensures
        r == exists|i: int| 0 <= i < v.len() && (#[trigger] v@[i]).domain@ == d@
            && op_cleans(v@[i].operation@, v@[i].change_type@),
{
    proof { reveal_strlit("removed"); }
    let mut i: usize = 0;
    while i < v.len()
        invariant
            i <= v.len(),
            forall|j: int| 0 <= j < i ==> !((#[trigger] v@[j]).domain@ == d@
                && op_cleans(v@[j].operation@, v@[j].change_type@)),
        decreases v.len() - i,
    {
        let e = &v[i];
        if str_eq(e.domain.as_str(), d)
            && (str_eq(e.change_type.as_str(), "removed") || contains_substring(e.operation.as_str(), "cleanup")) {
            assert(v@[i as int].domain@ == d@);
            return true;
        }
        i = i + 1;
    }
    false
}

fn map_cleanup_names(v: &Vec<RuntimeInventoryMapDelta>, d: &str) -> (r: bool)
    ensures
        r == exists|i: int| 0 <= i < v.len() && (#[trigger] v@[i]).domain@ == d@
            && op_cleans(v@[i].operation@, v@[i].change_type@),
{
    let mut i: usize = 0;
    while i < v.len()
        invariant
            i <= v.len(),
            forall|j: int| 0 <= j < i ==> !((#[trigger] v@[j]).domain@ == d@
                && op_cleans(v@[j].operation@, v@[j].change_type@)),
        decreases v.len() - i,
    {
        let e = &v[i];
        if str_eq(e.domain.as_str(), d)
            && (str_eq(e.change_type.as_str(), "removed") || contains_substring(e.operation.as_str(), "cleanup")) {
            assert(v@[i as int].domain@ == d@);
            return true;
        }
        i = i + 1;
    }
    false
}

fn intent_of(s: &RuntimeInventoryDomainSummary, plan: &ReconcilePlan, diff: &RuntimeInventoryDiff, core: bool)
    -> (x: RuntimeDomainIntent)
    requires
        core == reconcile_domains(plan).contains("core"@),
    ensures
        intent_for(x, *s, plan, diff),
{
    let d = s.domain.as_str();
    let changed = contains_str(&diff.changed_domains, d) || reconcile_names(plan, d)
        || (plan.full_reconcile && core);
    let requires_cleanup = attach_cleanup_names(&diff.attach_deltas, d)
        || map_cleanup_names(&diff.map_deltas, d);
    let reserved = str_eq(d, "nat") && s.compiled_objects == 0 && s.attach_operations == 0
        && s.map_operations == 0 && s.failed_objects == 0;
    let full_reconcile = !reserved && plan.full_reconcile && (changed || core);
    let desired_action = if reserved {
        "reserve_shadow".to_string()
    } else if full_reconcile {
        "full_shadow_reconcile".to_string()
    } else if requires_cleanup {
        "cleanup_shadow".to_string()
    } else if changed {
        "refresh_shadow".to_string()
    } else {
        "maintain_shadow".to_string()
    };
    let reason = if reserved {
        "reserved_for_snat_dnat_floating_ip".to_string()
    } else if full_reconcile {
        "generation_or_capability_shift".to_string()
    } else if requires_cleanup {
        "runtime_cleanup_required".to_string()
    } else if changed {
        "runtime_inventory_delta".to_string()
    } else {
        "shadow_inventory_stable".to_string()
    };
    RuntimeDomainIntent {
        domain: s.domain.clone(),
        desired_action,
        reason,
        full_reconcile,
        requires_cleanup,
        changed,
        attach_operations: s.attach_operations,
        map_operations: s.map_operations,
        compiled_objects: s.compiled_objects,
        failed_objects: s.failed_objects,
        shadow_apply_only: true,
    }
}

fn service_summary(state: &CompiledNodeState, intent: &RuntimeDomainIntent) -> (s: ServiceRuntimeIntentSummary)
    requires
        totals_fit(*state),
    ensures
        s.desired_action == intent.desired_action,
        s.requires_cleanup == intent.requires_cleanup,
        s.changed == intent.changed,
        service_counts_match(s, *state),
        s.shadow_apply_only,
{
    ServiceRuntimeIntentSummary {
        service_count: state.service_programs.len(),
        frontend_listener_count: total_service_listener_ports(state),
        frontend_runtime_entry_count: total_service_frontend_runtime_entries(state),
        socket_lb_frontend_count: total_socket_lb_frontends(state),
        packet_lb_frontend_count: total_packet_lb_frontends(state),
        backend_member_count: total_service_backend_members(state),
        backend_runtime_entry_count: total_backend_member_runtime_entries(state),
        forwarding_projection_count: total_service_forwarding_projections(state),
        node_local_service_count: total_node_local_service_programs(state),
        cross_node_service_count: total_cross_node_service_programs(state),
        cross_node_native_service_count: total_cross_node_native_service_programs(state),
        cross_node_overlay_service_count: total_cross_node_overlay_service_programs(state),
        cross_node_hybrid_service_count: total_cross_node_hybrid_service_programs(state),
        revnat_reservation_count: total_service_revnat_entries(state),
        affinity_reservation_count: total_affinity_service_programs(state),
        maglev_reservation_count: total_maglev_service_programs(state),
        desired_action: intent.desired_action.clone(),
        requires_cleanup: intent.requires_cleanup,
        changed: intent.changed,
        shadow_apply_only: true,
    }
}

fn services_intent_of(state: &CompiledNodeState, intents: &Vec<RuntimeDomainIntent>)
    -> (r: Option<ServiceRuntimeIntentSummary>)
    requires
        totals_fit(*state),
    ensures
        service_intent_for(r, intents@, *state),
{
    let mut k: usize = 0;
    while k < intents.len()
        invariant
            k <= intents.len(),
            totals_fit(*state),
            forall|j: int| 0 <= j < k ==> (#[trigger] intents@[j]).domain@ != "services"@,
        decreases intents.len() - k,
    {
        if str_eq(intents[k].domain.as_str(), "services") {
            let s = service_summary(state, &intents[k]);
            assert(first_services_intent(intents@, k as int));
            return Some(s);
        }
        k = k + 1;
    }
    None
}

/// The runtime intent: for each domain of the inventory, what to do with it
/// and why; the service summary of the first services domain; the changed
/// domains of the diff, sorted and without repeats; the previous generation
/// of the inventory, else of the diff; and the observation time, the current
/// Unix time in seconds.
pub fn build_runtime_intent(
    compiled_state: &CompiledNodeState,
    reconcile_plan: &ReconcilePlan,
    runtime_inventory: &RuntimeInventory,
    runtime_inventory_diff: &RuntimeInventoryDiff,
) -> (r: RuntimeIntent)
    requires
        totals_fit(*compiled_state),
    ensures
        r.generation == runtime_inventory.generation,
        r.previous_generation == (match runtime_inventory.previous_generation {
            Some(g) => Some(g),
            None => runtime_inventory_diff.previous_generation,
        }),
        r.compiled_at == runtime_inventory.compiled_at,
        exists|secs: nat| r.observed_at@ == decimal(secs),
        str_increasing(strs(r.changed_domains@)),
        strs(r.changed_domains@).to_set() == strs(runtime_inventory_diff.changed_domains@).to_set(),
        r.intents.len() == runtime_inventory.domain_inventory.len(),
        forall|i: int| 0 <= i < r.intents.len() ==> intent_for(#[trigger] r.intents@[i],
            runtime_inventory.domain_inventory@[i], reconcile_plan, runtime_inventory_diff),
        service_intent_for(r.service_intent, r.intents@, *compiled_state),
        r.shadow_apply_only,
{
    let core = reconcile_names(reconcile_plan, "core");
    let inv = &runtime_inventory.domain_inventory;
    let mut intents: Vec<RuntimeDomainIntent> = Vec::new();
    let mut i: usize = 0;
    while i < inv.len()
        invariant
            i <= inv.len(),
            inv == &runtime_inventory.domain_inventory,
            core == reconcile_domains(reconcile_plan).contains("core"@),
            intents.len() == i,
            forall|j: int| 0 <= j < i ==> intent_for(#[trigger] intents@[j], inv@[j], reconcile_plan,
                runtime_inventory_diff),
        decreases inv.len() - i,
    {
        let x = intent_of(&inv[i], reconcile_plan, runtime_inventory_diff, core);
        intents.push(x);
        i = i + 1;
    }
    let service_intent = services_intent_of(compiled_state, &intents);
    let previous_generation = match &runtime_inventory.previous_generation {
        Some(g) => Some(g.clone()),
        None => match &runtime_inventory_diff.previous_generation {
            Some(g) => Some(g.clone()),
            None => None,
        },
    };
    RuntimeIntent {
        generation: runtime_inventory.generation.clone(),
        previous_generation,
        compiled_at: runtime_inventory.compiled_at.clone(),
        observed_at: unix_timestamp_string(),
        changed_domains: sorted_distinct(&runtime_inventory_diff.changed_domains),
        intents,
        service_intent,
        shadow_apply_only: true,
    }
}

/// The compile summary of domain `d`: the last one filed under it.
pub open spec fn compile_summary_of(s: Seq<CompileDomainSummary>, d: Seq<char>) -> Option<CompileDomainSummary>
    decreases s.len(),
{
    if s.len() == 0 {
        None
    } else if s.last().domain@ == d {
        Some(s.last())
    } else {
        compile_summary_of(s.drop_last(), d)
    }
}

/// `x` when `c` holds, else nothing.
pub open spec fn when(c: bool, x: Seq<char>) -> Seq<Seq<char>> {
    if c { seq![x] } else { Seq::empty() }
}

/// The services domain is degraded by missing overlay encapsulation.
pub open spec fn overlay_unsupported(state: &CompiledNodeState) -> bool {
    strs(state.degraded_reasons@).contains("overlay_encap_unsupported"@)
}

/// The execution status of an intent, by precedence.
pub open spec fn execution_status_of(x: RuntimeDomainIntent, failed: usize, overlay: bool, planned: bool) -> Seq<char> {
    if x.desired_action@ == "reserve_shadow"@ {
        "shadow_reserved"@
    } else if overlay || failed > 0 {
        "shadow_execute_degraded"@
    } else if x.requires_cleanup {
        "shadow_execute_cleanup"@
    } else if x.changed || planned {
        "shadow_execute_planned"@
    } else {
        "shadow_execute_stable"@
    }
}

/// `e` is the execution summary of intent `x`.
pub open spec fn execution_for(e: RuntimeExecutionDomainSummary, x: RuntimeDomainIntent, state: &CompiledNodeState, plan: &ReconcilePlan) -> bool {
    let cs = compile_summary_of(state.domain_summaries@, x.domain@);
    let input = match cs { Some(c) => c.input_objects, None => 0usize };
    let failed = match cs { Some(c) => c.failed_objects, None => x.failed_objects };
    let overlay = x.domain@ == "services"@ && overlay_unsupported(state);
    &&& e.domain@ == x.domain@
    &&& e.planned_action@ == x.desired_action@
    &&& e.execution_status@ == execution_status_of(x, failed, overlay, reconcile_domains(plan).contains(x.domain@))
    &&& e.requires_cleanup == x.requires_cleanup
    &&& e.changed == x.changed
    &&& e.input_objects == input
    &&& e.compiled_objects == x.compiled_objects
    &&& e.failed_objects == failed
    &&& strs(e.degraded_reasons@) == when(failed > 0, "compile_or_inventory_failures_present"@)
        + when(overlay, "overlay_encap_unsupported"@)
        + when(x.requires_cleanup, "cleanup_required"@)
        + when(plan.full_reconcile && x.full_reconcile, "full_reconcile_required"@)
    &&& strs(e.warnings@) == when(x.domain@ == "services"@ && x.changed && x.compiled_objects > 0,
            "services shadow execution planned; node-local and cross-node LB datapath not materialized yet"@)
        + when(x.domain@ == "nat"@ && x.desired_action@ == "reserve_shadow"@,
            "nat shadow reservation present; snat/dnat/floating-ip datapath not materialized yet"@)
    &&& e.shadow_apply_only == x.shadow_apply_only
}

/// The warnings of a service execution summary.
pub open spec fn service_warnings(s: ServiceRuntimeIntentSummary, state: &CompiledNodeState) -> Seq<Seq<char>> {
    when(s.node_local_service_count > 0,
        "node-local service forwarding is still shadow planned; lb datapath not materialized yet"@)
    + when(s.socket_lb_frontend_count > 0,
        "socket lb path is still shadow planned for internal service listeners; socket-level frontend translation is not materialized yet"@)
    + when(s.frontend_runtime_entry_count > 0,
        "service frontend runtime family is still shadow reserved; frontend lookup datapath is not materialized yet"@)
    + when(s.packet_lb_frontend_count > 0,
        "packet lb path is still shadow planned for external or cross-node service listeners; tc packet rewrite path is not materialized yet"@)
    + when(s.backend_runtime_entry_count > 0,
        "backend member runtime family is still shadow reserved; backend selection datapath is not materialized yet"@)
    + when(s.cross_node_service_count > 0,
        "cross-node service forwarding is still shadow planned; handoff datapath not materialized yet"@)
    + when(s.cross_node_native_service_count > 0,
        "native cross-node service forwarding is still shadow planned; route handoff datapath not materialized yet"@)
    + when(s.cross_node_overlay_service_count > 0 && overlay_unsupported(state),
        "overlay cross-node service forwarding requested but node capability supports_encap=false; shadow compiler marked services degraded"@)
    + when(s.cross_node_overlay_service_count > 0 && !overlay_unsupported(state),
        "overlay cross-node service forwarding is still shadow planned; vxlan/geneve handoff datapath not materialized yet"@)
    + when(s.cross_node_hybrid_service_count > 0,
        "hybrid cross-node service forwarding is still shadow planned; overlay/native policy handoff not materialized yet"@)
    + when(s.revnat_reservation_count > 0,
        "service revnat runtime family is still shadow reserved; packet return-path datapath not materialized yet"@)
    + when(s.affinity_reservation_count > 0,
        "service affinity runtime family is still shadow reserved; session stickiness datapath not materialized yet"@)
    + when(s.maglev_reservation_count > 0,
        "service maglev runtime family is still shadow reserved; consistent-hash datapath not materialized yet"@)
}

/// The execution status of the first services summary, else stable.
pub open spec fn services_status(v: Seq<RuntimeExecutionDomainSummary>) -> Seq<char>
    decreases v.len(),
{
    if v.len() == 0 {
        "shadow_execute_stable"@
    } else if v[0].domain@ == "services"@ {
        v[0].execution_status@
    } else {
        services_status(v.drop_first())
    }
}

/// `e` is the service execution summary of service intent `s`.
pub open spec fn service_execution_for(e: ServiceRuntimeExecutionSummary, s: ServiceRuntimeIntentSummary,
    summaries: Seq<RuntimeExecutionDomainSummary>, state: &CompiledNodeState) -> bool {
    &&& e.service_count == s.service_count
    &&& e.frontend_listener_count == s.frontend_listener_count
    &&& e.frontend_runtime_entry_count == s.frontend_runtime_entry_count
    &&& e.socket_lb_frontend_count == s.socket_lb_frontend_count
    &&& e.packet_lb_frontend_count == s.packet_lb_frontend_count
    &&& e.backend_member_count == s.backend_member_count
    &&& e.backend_runtime_entry_count == s.backend_runtime_entry_count
    &&& e.forwarding_projection_count == s.forwarding_projection_count
    &&& e.node_local_service_count == s.node_local_service_count
    &&& e.cross_node_service_count == s.cross_node_service_count
    &&& e.cross_node_native_service_count == s.cross_node_native_service_count
    &&& e.cross_node_overlay_service_count == s.cross_node_overlay_service_count
    &&& e.cross_node_hybrid_service_count == s.cross_node_hybrid_service_count
    &&& e.revnat_reservation_count == s.revnat_reservation_count
    &&& e.affinity_reservation_count == s.affinity_reservation_count
    &&& e.maglev_reservation_count == s.maglev_reservation_count
    &&& e.execution_status@ == services_status(summaries)
    &&& e.planned_action@ == s.desired_action@
    &&& strs(e.warnings@) == service_warnings(s, state)
    &&& e.shadow_apply_only
}

fn compile_summary_exec(s: &Vec<CompileDomainSummary>, d: &str) -> (r: Option<(usize, usize)>)
    ensures
        r == (match compile_summary_of(s@, d@) {
            Some(c) => Some((c.input_objects, c.failed_objects)),
            None => None::<(usize, usize)>,
        }),
{
    let mut i: usize = s.len();
    assert(s@.take(i as int) =~= s@);
    while i > 0
        invariant
            i <= s.len(),
            compile_summary_of(s@, d@) == compile_summary_of(s@.take(i as int), d@),
        decreases i,
    {
        let ghost t = s@.take(i as int);
        assert(t.drop_last() =~= s@.take(i - 1));
        if str_eq(s[i - 1].domain.as_str(), d) {
            return Some((s[i - 1].input_objects, s[i - 1].failed_objects));
        }
        i = i - 1;
    }
    None
}

fn push_when(v: &mut Vec<String>, c: bool, x: &str)
    ensures
        strs(final(v)@) == strs(old(v)@) + when(c, x@),
{
    if c {
        let ghost before = v@;
        v.push(x.to_string());
        assert(strs(v@) =~= strs(before) + when(c, x@));
    } else {
        assert(strs(v@) =~= strs(v@) + when(c, x@));
    }
}

fn execution_of(x: &RuntimeDomainIntent, state: &CompiledNodeState, plan: &ReconcilePlan, overlay_any: bool)
    -> (e: RuntimeExecutionDomainSummary)
    requires
        overlay_any == overlay_unsupported(state),
    ensures
        execution_for(e, *x, state, plan),
{
    let d = x.domain.as_str();
    let cs = compile_summary_exec(&state.domain_summaries, d);
    let input_objects = match cs { Some(c) => c.0, None => 0 };
    let failed_objects = match cs { Some(c) => c.1, None => x.failed_objects };
    let overlay = str_eq(d, "services") && overlay_any;
    let planned = reconcile_names(plan, d);
    let execution_status = if str_eq(x.desired_action.as_str(), "reserve_shadow") {
        "shadow_reserved".to_string()
    } else if overlay || failed_objects > 0 {
        "shadow_execute_degraded".to_string()
    } else if x.requires_cleanup {
        "shadow_execute_cleanup".to_string()
    } else if x.changed || planned {
        "shadow_execute_planned".to_string()
    } else {
        "shadow_execute_stable".to_string()
    };
    let mut degraded_reasons: Vec<String> = Vec::new();
    assert(strs(degraded_reasons@) =~= Seq::<Seq<char>>::empty());
    push_when(&mut degraded_reasons, failed_objects > 0, "compile_or_inventory_failures_present");
    push_when(&mut degraded_reasons, overlay, "overlay_encap_unsupported");
    push_when(&mut degraded_reasons, x.requires_cleanup, "cleanup_required");
    push_when(&mut degraded_reasons, plan.full_reconcile && x.full_reconcile, "full_reconcile_required");
    let mut warnings: Vec<String> = Vec::new();
    assert(strs(warnings@) =~= Seq::<Seq<char>>::empty());
    push_when(&mut warnings, str_eq(d, "services") && x.changed && x.compiled_objects > 0,
        "services shadow execution planned; node-local and cross-node LB datapath not materialized yet");
    push_when(&mut warnings, str_eq(d, "nat") && str_eq(x.desired_action.as_str(), "reserve_shadow"),
        "nat shadow reservation present; snat/dnat/floating-ip datapath not materialized yet");
    proof {
        assert(strs(degraded_reasons@) =~= when(failed_objects > 0, "compile_or_inventory_failures_present"@)
            + when(overlay, "overlay_encap_unsupported"@)
            + when(x.requires_cleanup, "cleanup_required"@)
            + when(plan.full_reconcile && x.full_reconcile, "full_reconcile_required"@));
    }
    RuntimeExecutionDomainSummary {
        domain: x.domain.clone(),
        planned_action: x.desired_action.clone(),
        execution_status,
        requires_cleanup: x.requires_cleanup,
        changed: x.changed,
        input_objects,
        compiled_objects: x.compiled_objects,
        failed_objects,
        warnings,
        degraded_reasons,
        shadow_apply_only: x.shadow_apply_only,
    }
}

fn services_status_exec(v: &Vec<RuntimeExecutionDomainSummary>) -> (r: String)
    ensures
        r@ == services_status(v@),
{
    let mut i: usize = 0;
    assert(v@.skip(0) =~= v@);
    while i < v.len()
        invariant
            i <= v.len(),
            services_status(v@) == services_status(v@.skip(i as int)),
        decreases v.len() - i,
    {
        assert(v@.skip(i as int).drop_first() =~= v@.skip(i + 1));
        if str_eq(v[i].domain.as_str(), "services") {
            return v[i].execution_status.clone();
        }
        i = i + 1;
    }
    "shadow_execute_stable".to_string()
}

fn service_execution_of(s: &ServiceRuntimeIntentSummary, summaries: &Vec<RuntimeExecutionDomainSummary>,
    overlay_any: bool, Ghost(state): Ghost<&CompiledNodeState>) -> (e: ServiceRuntimeExecutionSummary)
    requires
        overlay_any == overlay_unsupported(state),
    ensures
        service_execution_for(e, *s, summaries@, state),
{
    let mut warnings: Vec<String> = Vec::new();
    assert(strs(warnings@) =~= Seq::<Seq<char>>::empty());
    push_when(&mut warnings, s.node_local_service_count > 0,
        "node-local service forwarding is still shadow planned; lb datapath not materialized yet");
    push_when(&mut warnings, s.socket_lb_frontend_count > 0,
        "socket lb path is still shadow planned for internal service listeners; socket-level frontend translation is not materialized yet");
    push_when(&mut warnings, s.frontend_runtime_entry_count > 0,
        "service frontend runtime family is still shadow reserved; frontend lookup datapath is not materialized yet");
    push_when(&mut warnings, s.packet_lb_frontend_count > 0,
        "packet lb path is still shadow planned for external or cross-node service listeners; tc packet rewrite path is not materialized yet");
    push_when(&mut warnings, s.backend_runtime_entry_count > 0,
        "backend member runtime family is still shadow reserved; backend selection datapath is not materialized yet");
    push_when(&mut warnings, s.cross_node_service_count > 0,
        "cross-node service forwarding is still shadow planned; handoff datapath not materialized yet");
    push_when(&mut warnings, s.cross_node_native_service_count > 0,
        "native cross-node service forwarding is still shadow planned; route handoff datapath not materialized yet");
    push_when(&mut warnings, s.cross_node_overlay_service_count > 0 && overlay_any,
        "overlay cross-node service forwarding requested but node capability supports_encap=false; shadow compiler marked services degraded");
    push_when(&mut warnings, s.cross_node_overlay_service_count > 0 && !overlay_any,
        "overlay cross-node service forwarding is still shadow planned; vxlan/geneve handoff datapath not materialized yet");
    push_when(&mut warnings, s.cross_node_hybrid_service_count > 0,
        "hybrid cross-node service forwarding is still shadow planned; overlay/native policy handoff not materialized yet");
    push_when(&mut warnings, s.revnat_reservation_count > 0,
        "service revnat runtime family is still shadow reserved; packet return-path datapath not materialized yet");
    push_when(&mut warnings, s.affinity_reservation_count > 0,
        "service affinity runtime family is still shadow reserved; session stickiness datapath not materialized yet");
    push_when(&mut warnings, s.maglev_reservation_count > 0,
        "service maglev runtime family is still shadow reserved; consistent-hash datapath not materialized yet");
    proof {
        assert(strs(warnings@) =~= service_warnings(*s, state));
    }
    ServiceRuntimeExecutionSummary {
        service_count: s.service_count,
        frontend_listener_count: s.frontend_listener_count,
        frontend_runtime_entry_count: s.frontend_runtime_entry_count,
        socket_lb_frontend_count: s.socket_lb_frontend_count,
        packet_lb_frontend_count: s.packet_lb_frontend_count,
        backend_member_count: s.backend_member_count,
        backend_runtime_entry_count: s.backend_runtime_entry_count,
        forwarding_projection_count: s.forwarding_projection_count,
        node_local_service_count: s.node_local_service_count,
        cross_node_service_count: s.cross_node_service_count,
        cross_node_native_service_count: s.cross_node_native_service_count,
        cross_node_overlay_service_count: s.cross_node_overlay_service_count,
        cross_node_hybrid_service_count: s.cross_node_hybrid_service_count,
        revnat_reservation_count: s.revnat_reservation_count,
        affinity_reservation_count: s.affinity_reservation_count,
        maglev_reservation_count: s.maglev_reservation_count,
        execution_status: services_status_exec(summaries),
        planned_action: s.desired_action.clone(),
        warnings,
        shadow_apply_only: true,
    }
}

/// The execution summary of a runtime intent: for each intent, its status,
/// the counts of its compile summary, and the reasons it is degraded and the
/// warnings it raises; for the service intent, its counters, the status of
/// the services domain and its warnings; and the observation time, the
/// current Unix time in seconds.
pub fn build_runtime_execution_summary(
    compiled_state: &CompiledNodeState,
    reconcile_plan: &ReconcilePlan,
    runtime_intent: &RuntimeIntent,
) -> (r: RuntimeExecutionSummary)
    ensures
        r.generation == runtime_intent.generation,
        r.previous_generation == runtime_intent.previous_generation,
        r.compiled_at == runtime_intent.compiled_at,
        exists|secs: nat| r.observed_at@ == decimal(secs),
        strs(r.changed_domains@) == strs(runtime_intent.changed_domains@),
        r.domain_summaries.len() == runtime_intent.intents.len(),
        forall|i: int| 0 <= i < r.domain_summaries.len() ==> execution_for(#[trigger] r.domain_summaries@[i],
            runtime_intent.intents@[i], compiled_state, reconcile_plan),
        match runtime_intent.service_intent {
            Some(s) => r.service_execution matches Some(e)
                && service_execution_for(e, s, r.domain_summaries@, compiled_state),
            None => r.service_execution is None,
        },
        r.shadow_apply_only,
{
    let overlay_any = contains_str(&compiled_state.degraded_reasons, "overlay_encap_unsupported");
    let intents = &runtime_intent.intents;
    let mut domain_summaries: Vec<RuntimeExecutionDomainSummary> = Vec::new();
    let mut i: usize = 0;
    while i < intents.len()
        invariant
            i <= intents.len(),
            intents == &runtime_intent.intents,
            overlay_any == overlay_unsupported(compiled_state),
            domain_summaries.len() == i,
            forall|j: int| 0 <= j < i ==> execution_for(#[trigger] domain_summaries@[j], intents@[j],
                compiled_state, reconcile_plan),
        decreases intents.len() - i,
    {
        let e = execution_of(&intents[i], compiled_state, reconcile_plan, overlay_any);
        domain_summaries.push(e);
        i = i + 1;
    }
    let service_execution = match &runtime_intent.service_intent {
        Some(s) => Some(service_execution_of(s, &domain_summaries, overlay_any, Ghost(compiled_state))),
        None => None,
    };
    RuntimeExecutionSummary {
        generation: runtime_intent.generation.clone(),
        previous_generation: runtime_intent.previous_generation.clone(),
        compiled_at: runtime_intent.compiled_at.clone(),
        observed_at: unix_timestamp_string(),
        changed_domains: crate::order::clone_strings(&runtime_intent.changed_domains),
        domain_summaries,
        service_execution,
        shadow_apply_only: true,
    }
}


/// The reserved NAT domain is reserved end to end: its intent is to
/// reserve, and its execution reports it reserved.
pub proof fn lemma_reserved_nat_is_reserved(x: RuntimeDomainIntent, s: RuntimeInventoryDomainSummary,
    e: RuntimeExecutionDomainSummary, state: &CompiledNodeState, plan: &ReconcilePlan, diff: &RuntimeInventoryDiff)
    requires
        intent_for(x, s, plan, diff),
        execution_for(e, x, state, plan),
        reserved_nat(s),
    ensures
        x.desired_action@ == "reserve_shadow"@,
        !x.full_reconcile,
        e.execution_status@ == "shadow_reserved"@,
{
}

/// A domain that takes part in a full reconcile is planned as one, and its
/// execution names the full reconcile among the reasons it is degraded.
pub proof fn lemma_full_reconcile_is_reported(x: RuntimeDomainIntent, s: RuntimeInventoryDomainSummary,
    e: RuntimeExecutionDomainSummary, state: &CompiledNodeState, plan: &ReconcilePlan, diff: &RuntimeInventoryDiff)
    requires
        intent_for(x, s, plan, diff),
        execution_for(e, x, state, plan),
        x.full_reconcile,
    ensures
        x.desired_action@ == "full_shadow_reconcile"@,
        strs(e.degraded_reasons@).contains("full_reconcile_required"@),
{
    let d = strs(e.degraded_reasons@);
    assert(d[d.len() - 1] == "full_reconcile_required"@);
}

/// A domain that needs cleanup, is not reserved, has no failures and is not
/// degraded by missing overlay encapsulation executes a cleanup, and says
/// that cleanup is required; and a domain only executes a cleanup when its
/// intent requires one.
pub proof fn lemma_cleanup_is_executed(
    e: RuntimeExecutionDomainSummary,
    x: RuntimeDomainIntent,
    state: &CompiledNodeState,
    plan: &ReconcilePlan,
)
    requires
        execution_for(e, x, state, plan),
    ensures
        x.desired_action@ != "reserve_shadow"@ && e.failed_objects == 0
            && !(x.domain@ == "services"@ && overlay_unsupported(state)) && x.requires_cleanup
            ==> e.execution_status@ == "shadow_execute_cleanup"@ && e.requires_cleanup
                && strs(e.degraded_reasons@).contains("cleanup_required"@),
        e.execution_status@ == "shadow_execute_cleanup"@ ==> x.requires_cleanup,
{
    reveal_strlit("shadow_execute_cleanup");
    reveal_strlit("shadow_reserved");
    reveal_strlit("shadow_execute_degraded");
    reveal_strlit("shadow_execute_planned");
    reveal_strlit("shadow_execute_stable");
    assert("shadow_execute_cleanup"@[1] != "shadow_reserved"@[1] || "shadow_execute_cleanup"@[7] != "shadow_reserved"@[7]);
    assert("shadow_execute_cleanup"@[15] != "shadow_execute_degraded"@[15]);
    assert("shadow_execute_cleanup"@[15] != "shadow_execute_planned"@[15]);
    assert("shadow_execute_cleanup"@[15] != "shadow_execute_stable"@[15]);
    let cs = compile_summary_of(state.domain_summaries@, x.domain@);
    let failed = match cs { Some(c) => c.failed_objects, None => x.failed_objects };
    let overlay = x.domain@ == "services"@ && overlay_unsupported(state);
    let r = when(failed > 0, "compile_or_inventory_failures_present"@) + when(overlay, "overlay_encap_unsupported"@)
        + when(x.requires_cleanup, "cleanup_required"@);
    let full = r + when(plan.full_reconcile && x.full_reconcile, "full_reconcile_required"@);
    if x.requires_cleanup {
        assert(r[r.len() - 1] == "cleanup_required"@);
        assert(full[r.len() - 1] == "cleanup_required"@);
        assert(full.contains(full[r.len() - 1]));
    }
}

/// A domain's intent requires cleanup exactly when the inventory diff has an
/// attach or map delta of that domain that cleans up; such a domain, unless
/// reserved or taking part in a full reconcile, is planned as a cleanup.
pub proof fn lemma_cleanup_intent(x: RuntimeDomainIntent, s: RuntimeInventoryDomainSummary, plan: &ReconcilePlan,
    diff: &RuntimeInventoryDiff)
    requires
        intent_for(x, s, plan, diff),
    ensures
        x.requires_cleanup <==> (
            (exists|i: int| 0 <= i < diff.attach_deltas.len() && (#[trigger] diff.attach_deltas@[i]).domain@ == s.domain@
                && op_cleans(diff.attach_deltas@[i].operation@, diff.attach_deltas@[i].change_type@))
            || (exists|i: int| 0 <= i < diff.map_deltas.len() && (#[trigger] diff.map_deltas@[i]).domain@ == s.domain@
                && op_cleans(diff.map_deltas@[i].operation@, diff.map_deltas@[i].change_type@))),
        x.requires_cleanup && !reserved_nat(s) && !x.full_reconcile ==> x.desired_action@ == "cleanup_shadow"@,
{
}

} // verus!
