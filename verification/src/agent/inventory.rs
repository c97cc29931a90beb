//! The runtime inventory of a plan, and the difference between two
//! inventories.
use vstd::prelude::*;
use crate::agent::counters::{lemma_sum_of_take, one_where, sum_of};
use crate::agent::helpers::{
    domain_of_map_family, domain_of_scope, inventory_domain_from_map_family, inventory_domain_from_scope,
    unix_timestamp_string,
};
use crate::agent::ir::{
    CompileDomainSummary, CompiledNodeState, RuntimeInventory, RuntimeInventoryAttach,
    RuntimeInventoryDomainSummary, RuntimeInventoryMapEntry, RuntimePlan,
};
use crate::agent::runtime_plan::{binding_views, map_entry_views};
use crate::order::clone_strings;
use crate::text::{decimal, str_eq};

verus! {

broadcast use vstd::string::group_string_axioms;

/// An attach inventory entry: domain, hook family, scope, operation, object count.
pub type AttachInvView = (Seq<char>, Seq<char>, Seq<char>, Seq<char>, nat);

/// A map inventory entry: domain, map family, operation, object count.
pub type MapInvView = (Seq<char>, Seq<char>, Seq<char>, nat);

/// A domain inventory entry: domain, compiled objects, failed objects,
/// attach operations, map operations, status.
pub type DomainInvView = (Seq<char>, nat, nat, nat, nat, Seq<char>);

/// The views of an attach inventory.
pub open spec fn attach_inv_views(v: Seq<RuntimeInventoryAttach>) -> Seq<AttachInvView> {
    v.map_values(|e: RuntimeInventoryAttach| (e.domain@, e.hook_family@, e.scope@, e.operation@, e.object_count as nat))
}

/// The views of a map inventory.
pub open spec fn map_inv_views(v: Seq<RuntimeInventoryMapEntry>) -> Seq<MapInvView> {
    v.map_values(|e: RuntimeInventoryMapEntry| (e.domain@, e.map_family@, e.operation@, e.object_count as nat))
}

/// The views of a domain inventory.
pub open spec fn domain_inv_views(v: Seq<RuntimeInventoryDomainSummary>) -> Seq<DomainInvView> {
    v.map_values(|e: RuntimeInventoryDomainSummary| (e.domain@, e.compiled_objects as nat, e.failed_objects as nat,
        e.attach_operations as nat, e.map_operations as nat, e.status@))
}

/// The attach inventory of a plan: its bindings, each under its domain.
pub open spec fn attach_inventory_of(plan: &RuntimePlan) -> Seq<AttachInvView> {
    binding_views(plan.attach_plan.bindings@).map_values(
        |b: (Seq<char>, Seq<char>, Seq<char>, nat)| (domain_of_scope(b.1), b.0, b.1, b.2, b.3))
}

/// The map inventory of a plan: its map entries, each under its domain.
pub open spec fn map_inventory_of(plan: &RuntimePlan) -> Seq<MapInvView> {
    map_entry_views(plan.map_plan.entries@).map_values(
        |e: (Seq<char>, Seq<char>, nat)| (domain_of_map_family(e.0), e.0, e.1, e.2))
}

/// The inventory status of a compiled domain.
pub open spec fn inventory_status(s: CompileDomainSummary) -> Seq<char> {
    if s.status@ == "shadow_reserved"@ { "shadow_inventory_reserved"@ }
    else if s.failed_objects == 0 { "shadow_inventory_ready"@ }
    else { "shadow_inventory_degraded"@ }
}

/// Number of attach entries in domain `d`.
pub open spec fn attach_ops_in(inv: Seq<AttachInvView>, d: Seq<char>) -> nat {
    sum_of(inv, one_where(|e: AttachInvView| e.0 == d))
}

/// Number of map entries in domain `d`.
pub open spec fn map_ops_in(inv: Seq<MapInvView>, d: Seq<char>) -> nat {
    sum_of(inv, one_where(|e: MapInvView| e.0 == d))
}

/// The domain inventory: every compiled domain with its operation counts.
pub open spec fn domain_inventory_of(state: &CompiledNodeState, plan: &RuntimePlan) -> Seq<DomainInvView> {
    state.domain_summaries@.map_values(|s: CompileDomainSummary| (s.domain@, s.compiled_objects as nat,
        s.failed_objects as nat, attach_ops_in(attach_inventory_of(plan), s.domain@),
        map_ops_in(map_inventory_of(plan), s.domain@), inventory_status(s)))
}

fn attach_inventory_list(plan: &RuntimePlan) -> (r: Vec<RuntimeInventoryAttach>)
    ensures
        attach_inv_views(r@) == attach_inventory_of(plan),
{
    let bindings = &plan.attach_plan.bindings;
    let mut r: Vec<RuntimeInventoryAttach> = Vec::new();
    let mut i: usize = 0;
    while i < bindings.len()
        invariant
            i <= bindings.len(),
            bindings == &plan.attach_plan.bindings,
            attach_inv_views(r@) == attach_inventory_of(plan).take(i as int),
        decreases bindings.len() - i,
    {
        let b = &bindings[i];
        let e = RuntimeInventoryAttach {
            domain: inventory_domain_from_scope(b.scope.as_str()),
            hook_family: b.hook_family.clone(),
            scope: b.scope.clone(),
            operation: b.operation.clone(),
            object_count: b.object_count,
        };
        let ghost before = r@;
        r.push(e);
        proof {
            assert(attach_inv_views(r@) =~= attach_inv_views(before).push(attach_inventory_of(plan)[i as int]));
            assert(attach_inventory_of(plan).take(i + 1) =~= attach_inventory_of(plan).take(i as int)
                .push(attach_inventory_of(plan)[i as int]));
        }
        i = i + 1;
    }
    assert(attach_inventory_of(plan).take(i as int) =~= attach_inventory_of(plan));
    r
}

fn map_inventory_list(plan: &RuntimePlan) -> (r: Vec<RuntimeInventoryMapEntry>)
    ensures
        map_inv_views(r@) == map_inventory_of(plan),
{
    let entries = &plan.map_plan.entries;
    let mut r: Vec<RuntimeInventoryMapEntry> = Vec::new();
    let mut i: usize = 0;
    while i < entries.len()
        invariant
            i <= entries.len(),
            entries == &plan.map_plan.entries,
            map_inv_views(r@) == map_inventory_of(plan).take(i as int),
        decreases entries.len() - i,
    {
        let m = &entries[i];
        let e = RuntimeInventoryMapEntry {
            domain: inventory_domain_from_map_family(m.map_family.as_str()),
            map_family: m.map_family.clone(),
            operation: m.operation.clone(),
            object_count: m.object_count,
        };
        let ghost before = r@;
        r.push(e);
        proof {
            assert(map_inv_views(r@) =~= map_inv_views(before).push(map_inventory_of(plan)[i as int]));
            assert(map_inventory_of(plan).take(i + 1) =~= map_inventory_of(plan).take(i as int)
                .push(map_inventory_of(plan)[i as int]));
        }
        i = i + 1;
    }
    assert(map_inventory_of(plan).take(i as int) =~= map_inventory_of(plan));
    r
}

fn count_attach_domain(inv: &Vec<RuntimeInventoryAttach>, d: &String) -> (r: usize)
    ensures
        r == attach_ops_in(attach_inv_views(inv@), d@),
{
    let ghost s = attach_inv_views(inv@);
    let ghost f = one_where(|e: AttachInvView| e.0 == d@);
    let mut n: usize = 0;
    let mut i: usize = 0;
    while i < inv.len()
        invariant
            i <= inv.len(),
            s == attach_inv_views(inv@),
            f == one_where(|e: AttachInvView| e.0 == d@),
            n == sum_of(s.take(i as int), f),
            n <= i,
        decreases inv.len() - i,
    {
        proof { lemma_sum_of_take(s, f, i as int); }
        if str_eq(inv[i].domain.as_str(), d.as_str()) {
            n = n + 1;
        }
        i = i + 1;
    }
    assert(s.take(i as int) =~= s);
    n
}

fn count_map_domain(inv: &Vec<RuntimeInventoryMapEntry>, d: &String) -> (r: usize)
    ensures
        r == map_ops_in(map_inv_views(inv@), d@),
{
    let ghost s = map_inv_views(inv@);
    let ghost f = one_where(|e: MapInvView| e.0 == d@);
    let mut n: usize = 0;
    let mut i: usize = 0;
    while i < inv.len()
        invariant
            i <= inv.len(),
            s == map_inv_views(inv@),
            f == one_where(|e: MapInvView| e.0 == d@),
            n == sum_of(s.take(i as int), f),
            n <= i,
        decreases inv.len() - i,
    {
        proof { lemma_sum_of_take(s, f, i as int); }
        if str_eq(inv[i].domain.as_str(), d.as_str()) {
            n = n + 1;
        }
        i = i + 1;
    }
    assert(s.take(i as int) =~= s);
    n
}

/// The runtime inventory of `runtime_plan` for `compiled_state`; the
/// observation time is the current Unix time in seconds.
pub fn build_runtime_inventory(
    previous_state: Option<&CompiledNodeState>,
    compiled_state: &CompiledNodeState,
    runtime_plan: &RuntimePlan,
) -> (r: RuntimeInventory)
    ensures
        r.generation == runtime_plan.generation,
        r.previous_generation == (match previous_state {
            Some(p) => if p.generation@ != runtime_plan.generation@ { Some(p.generation) } else { None::<String> },
            None => None::<String>,
        }),
        r.compiled_at == runtime_plan.compiled_at,
        exists|secs: nat| r.observed_at@ == decimal(secs),
        r.compiler_version == compiled_state.compiler_version,
        r.required_hooks@ == runtime_plan.attach_plan.required_hooks@,
        r.required_qdisc@ == runtime_plan.attach_plan.required_qdisc@,
        attach_inv_views(r.attach_inventory@) == attach_inventory_of(runtime_plan),
        map_inv_views(r.map_inventory@) == map_inventory_of(runtime_plan),
        domain_inv_views(r.domain_inventory@) == domain_inventory_of(compiled_state, runtime_plan),
        forall|i: int| 0 <= i < r.domain_inventory.len() ==> (#[trigger] r.domain_inventory@[i]).shadow_apply_only,
        r.shadow_apply_only,
{
    let attach_inventory = attach_inventory_list(runtime_plan);
    let map_inventory = map_inventory_list(runtime_plan);
    let summaries = &compiled_state.domain_summaries;
    let ghost target = domain_inventory_of(compiled_state, runtime_plan);
    let mut domain_inventory: Vec<RuntimeInventoryDomainSummary> = Vec::new();
    let mut i: usize = 0;
    while i < summaries.len()
        invariant
            i <= summaries.len(),
            summaries == &compiled_state.domain_summaries,
            target == domain_inventory_of(compiled_state, runtime_plan),
            attach_inv_views(attach_inventory@) == attach_inventory_of(runtime_plan),
            map_inv_views(map_inventory@) == map_inventory_of(runtime_plan),
            domain_inv_views(domain_inventory@) == target.take(i as int),
            forall|j: int| 0 <= j < domain_inventory.len() ==> (#[trigger] domain_inventory@[j]).shadow_apply_only,
        decreases summaries.len() - i,
    {
        let summary = &summaries[i];
        let status = if str_eq(summary.status.as_str(), "shadow_reserved") {
            "shadow_inventory_reserved".to_string()
        } else if summary.failed_objects == 0 {
            "shadow_inventory_ready".to_string()
        } else {
            "shadow_inventory_degraded".to_string()
        };
        let entry = RuntimeInventoryDomainSummary {
            domain: summary.domain.clone(),
            compiled_objects: summary.compiled_objects,
            failed_objects: summary.failed_objects,
            attach_operations: count_attach_domain(&attach_inventory, &summary.domain),
            map_operations: count_map_domain(&map_inventory, &summary.domain),
            status,
            shadow_apply_only: true,
        };
        let ghost before = domain_inventory@;
        domain_inventory.push(entry);
        proof {
            assert(domain_inv_views(domain_inventory@) =~= domain_inv_views(before).push(target[i as int]));
            assert(target.take(i + 1) =~= target.take(i as int).push(target[i as int]));
        }
        i = i + 1;
    }
    assert(target.take(i as int) =~= target);
    let previous_generation = match previous_state {
        Some(p) => if !str_eq(p.generation.as_str(), runtime_plan.generation.as_str()) {
            Some(p.generation.clone())
        } else {
            None
        },
        None => None,
    };
    RuntimeInventory {
        generation: runtime_plan.generation.clone(),
        previous_generation,
        compiled_at: runtime_plan.compiled_at.clone(),
        observed_at: unix_timestamp_string(),
        compiler_version: compiled_state.compiler_version.clone(),
        required_hooks: clone_strings(&runtime_plan.attach_plan.required_hooks),
        required_qdisc: clone_strings(&runtime_plan.attach_plan.required_qdisc),
        attach_inventory,
        map_inventory,
        domain_inventory,
        shadow_apply_only: true,
    }
}

} // verus!
