//! Compiling a node's network policies, and summing up a compilation: the
//! per-domain summaries, why the node is degraded, and the status reported
//! back to the controller.
use vstd::prelude::*;
use crate::agent::ir::{CompileDomainSummary, CompiledRouteTableView, NetworkPolicyIr, NetworkPolicyRuleIr};
use crate::api::platform::route_table::RouteTableResource;
use crate::text::concat3;
use crate::agent::ir_builders::{fnv1a, stable_local_id};
use crate::agent::port_admission::network_ids;
use crate::api::platform::network_policy::{NetworkPolicyResource, NetworkPolicyRule};
use crate::api::southbound::{ApplyObjectFailure, DesiredStateEnvelope};
use crate::text::{clone_opt, opt_view, str_eq};

verus! {

broadcast use vstd::string::group_string_axioms;

/// The node-local id of the name `t`: FNV-1a of its UTF-8 bytes, with zero
/// read as one.
pub open spec fn text_id(t: Seq<char>) -> u32 {
    if fnv1a(vstd::utf8::encode_utf8(t)) == 0 {
        1u32
    } else {
        fnv1a(vstd::utf8::encode_utf8(t))
    }
}

/// Whether `r` is the compiled form of policy rule `rule`: its IP groups by
/// their local ids, the rest as declared.
pub open spec fn rule_ir_of(r: NetworkPolicyRuleIr, rule: NetworkPolicyRule) -> bool {
    &&& r.src_numeric_id == text_id(rule.src_ip_group_id@)
    &&& r.dst_numeric_id == text_id(rule.dst_ip_group_id@)
    &&& r.proto == rule.proto
    &&& r.direction == rule.direction
    &&& r.action == rule.action
    &&& opt_view(r.ports) == opt_view(rule.ports)
}

/// Whether `p` is the compiled form of network policy `np`.
pub open spec fn policy_ir_of(p: NetworkPolicyIr, np: NetworkPolicyResource) -> bool {
    &&& p.policy_id@ == np.metadata.id@
    &&& p.network_id@ == np.spec.network_id@
    &&& p.rules@.len() == np.spec.rules@.len()
    &&& forall|k: int| 0 <= k < p.rules@.len() ==> rule_ir_of(#[trigger] p.rules@[k], np.spec.rules@[k])
    &&& p.shadow_apply_only
}

/// The positions of the first `n` network policies that compile: those of
/// a network in the envelope (the others are skipped silently).
pub open spec fn policies_kept(d: DesiredStateEnvelope, n: int) -> Seq<int>
    decreases n,
{
    if n <= 0 {
        Seq::empty()
    } else if network_ids(d).contains(d.network_policies@[n - 1].spec.network_id@) {
        policies_kept(d, n - 1).push(n - 1)
    } else {
        policies_kept(d, n - 1)
    }
}

fn compile_rule(rule: &NetworkPolicyRule) -> (r: NetworkPolicyRuleIr)
    ensures
        rule_ir_of(r, *rule),
{
    NetworkPolicyRuleIr {
        src_numeric_id: stable_local_id(rule.src_ip_group_id.as_str()),
        dst_numeric_id: stable_local_id(rule.dst_ip_group_id.as_str()),
        proto: rule.proto,
        direction: rule.direction,
        action: rule.action,
        ports: clone_opt(&rule.ports),
    }
}

fn network_listed(d: &DesiredStateEnvelope, id: &str) -> (r: bool)
    ensures
        r == network_ids(*d).contains(id@),
{
    let mut i: usize = 0;
    while i < d.networks.len()
        invariant
            i <= d.networks.len(),
            forall|j: int| 0 <= j < i ==> network_ids(*d)[j] != id@,
        decreases d.networks.len() - i,
    {
        if str_eq(d.networks[i].metadata.id.as_str(), id) {
            assert(network_ids(*d)[i as int] == id@);
            return true;
        }
        i = i + 1;
    }
    false
}

/// The network policies of `desired` compiled for the node, in order: each
/// policy of a network in the envelope, its rules naming IP groups by their
/// local ids.
pub fn compile_network_policies(desired: &DesiredStateEnvelope) -> (r: Vec<NetworkPolicyIr>)
    ensures
        ({
            let kept = policies_kept(*desired, desired.network_policies@.len() as int);
            &&& r@.len() == kept.len()
            &&& forall|k: int| 0 <= k < kept.len() ==> 0 <= #[trigger] kept[k] < desired.network_policies@.len()
                && policy_ir_of(r@[k], desired.network_policies@[kept[k]])
        }),
{
    let mut out: Vec<NetworkPolicyIr> = Vec::new();
    let mut i: usize = 0;
    while i < desired.network_policies.len()
        invariant
            i <= desired.network_policies.len(),
            out@.len() == policies_kept(*desired, i as int).len(),
            forall|k: int| 0 <= k < out@.len() ==> 0 <= #[trigger] policies_kept(*desired, i as int)[k] < i
                && policy_ir_of(out@[k], desired.network_policies@[policies_kept(*desired, i as int)[k]]),
        decreases desired.network_policies.len() - i,
    {
        let np = &desired.network_policies[i];
        if network_listed(desired, np.spec.network_id.as_str()) {
            let mut rules: Vec<NetworkPolicyRuleIr> = Vec::new();
            let mut k: usize = 0;
            while k < np.spec.rules.len()
                invariant
                    k <= np.spec.rules.len(),
                    rules@.len() == k,
                    forall|j: int| 0 <= j < k ==> rule_ir_of(#[trigger] rules@[j], np.spec.rules@[j]),
                decreases np.spec.rules.len() - k,
            {
                rules.push(compile_rule(&np.spec.rules[k]));
                k = k + 1;
            }
            out.push(NetworkPolicyIr {
                policy_id: np.metadata.id.clone(),
                network_id: np.spec.network_id.clone(),
                rules,
                shadow_apply_only: true,
            });
        }
        i = i + 1;
    }
    out
}

/// Whether `v` is the compiled view of route table `t`.
pub open spec fn route_table_view_of(v: CompiledRouteTableView, t: RouteTableResource) -> bool {
    &&& v.route_table_id@ == t.metadata.id@
    &&& v.network_id@ == t.spec.network_id@
    &&& v.route_count == t.spec.routes@.len()
    &&& opt_view(v.default_route) == opt_view(t.spec.default_route)
}

/// The positions of the first `n` route tables whose network is in the
/// envelope.
pub open spec fn route_tables_kept(d: DesiredStateEnvelope, n: int) -> Seq<int>
    decreases n,
{
    if n <= 0 {
        Seq::empty()
    } else if network_ids(d).contains(d.route_tables@[n - 1].spec.network_id@) {
        route_tables_kept(d, n - 1).push(n - 1)
    } else {
        route_tables_kept(d, n - 1)
    }
}

/// The ids of the first `n` route tables refused for a missing network.
pub open spec fn route_tables_refused(d: DesiredStateEnvelope, n: int) -> Seq<Seq<char>>
    decreases n,
{
    if n <= 0 {
        Seq::empty()
    } else if network_ids(d).contains(d.route_tables@[n - 1].spec.network_id@) {
        route_tables_refused(d, n - 1)
    } else {
        route_tables_refused(d, n - 1).push(d.route_tables@[n - 1].metadata.id@)
    }
}

/// The route tables compiled for the node, each of a network in the
/// envelope, and the (id, reason) refusal of each of the others.
pub fn compile_route_tables(desired: &DesiredStateEnvelope) -> (r: (Vec<CompiledRouteTableView>, Vec<(String, String)>))
    ensures
        ({
            let n = desired.route_tables@.len() as int;
            let kept = route_tables_kept(*desired, n);
            let refused = route_tables_refused(*desired, n);
            &&& r.0@.len() == kept.len()
            &&& forall|k: int| 0 <= k < kept.len() ==> 0 <= #[trigger] kept[k] < n
                && route_table_view_of(r.0@[k], desired.route_tables@[kept[k]])
            &&& r.1@.len() == refused.len()
            &&& forall|k: int| 0 <= k < refused.len() ==> (#[trigger] r.1@[k]).0@ == refused[k]
                && r.1@[k].1@ == "missing network '"@ + desired.route_tables@.filter(
                    |t: RouteTableResource| !network_ids(*desired).contains(t.spec.network_id@))[k].spec.network_id@
                    + "' in desired envelope"@
        }),
{
    let ghost pred = |t: RouteTableResource| !network_ids(*desired).contains(t.spec.network_id@);
    let mut views: Vec<CompiledRouteTableView> = Vec::new();
    let mut refusals: Vec<(String, String)> = Vec::new();
    let mut i: usize = 0;
    while i < desired.route_tables.len()
        invariant
            i <= desired.route_tables.len(),
            pred == (|t: RouteTableResource| !network_ids(*desired).contains(t.spec.network_id@)),
            views@.len() == route_tables_kept(*desired, i as int).len(),
            forall|k: int| 0 <= k < views@.len() ==> 0 <= #[trigger] route_tables_kept(*desired, i as int)[k] < i
                && route_table_view_of(views@[k], desired.route_tables@[route_tables_kept(*desired, i as int)[k]]),
            refusals@.len() == route_tables_refused(*desired, i as int).len(),
            refusals@.len() == desired.route_tables@.take(i as int).filter(pred).len(),
            forall|k: int| 0 <= k < refusals@.len() ==> (#[trigger] refusals@[k]).0@ == route_tables_refused(*desired, i as int)[k]
                && refusals@[k].1@ == "missing network '"@ + desired.route_tables@.take(i as int).filter(pred)[k].spec.network_id@
                    + "' in desired envelope"@,
        decreases desired.route_tables.len() - i,
    {
        let t = &desired.route_tables[i];
        proof {
            desired.route_tables@.take(i as int).lemma_filter_push(desired.route_tables@[i as int], pred);
            assert(desired.route_tables@.take(i + 1) =~= desired.route_tables@.take(i as int).push(desired.route_tables@[i as int]));
        }
        if network_listed(desired, t.spec.network_id.as_str()) {
            views.push(CompiledRouteTableView {
                route_table_id: t.metadata.id.clone(),
                network_id: t.spec.network_id.clone(),
                route_count: t.spec.routes.len(),
                default_route: clone_opt(&t.spec.default_route),
            });
        } else {
            let m = concat3("missing network '", t.spec.network_id.as_str(), "' in desired envelope");
            refusals.push((t.metadata.id.clone(), m));
        }
        i = i + 1;
    }
    assert(desired.route_tables@.take(i as int) =~= desired.route_tables@);
    (views, refusals)
}

/// How many failures of `fs` are of kind `kind`.
pub open spec fn kind_count(fs: Seq<ApplyObjectFailure>, kind: Seq<char>) -> nat
    decreases fs.len(),
{
    if fs.len() == 0 {
        0
    } else {
        kind_count(fs.drop_last(), kind) + if fs.last().resource_kind@ == kind { 1nat } else { 0nat }
    }
}

/// How many of `failures` are of kind `kind`.
pub fn failures_of_kind(failures: &Vec<ApplyObjectFailure>, kind: &str) -> (r: usize)
    ensures
        r == kind_count(failures@, kind@),
{
    let mut n: usize = 0;
    let mut i: usize = 0;
    while i < failures.len()
        invariant
            i <= failures.len(),
            n <= i,
            n == kind_count(failures@.take(i as int), kind@),
        decreases failures.len() - i,
    {
        assert(failures@.take(i + 1).drop_last() =~= failures@.take(i as int));
        if str_eq(failures[i].resource_kind.as_str(), kind) {
            n = n + 1;
        }
        i = i + 1;
    }
    assert(failures@.take(i as int) =~= failures@);
    n
}

/// Why a compiled node is degraded, sorted: always because it applies in
/// shadow only, then because objects failed validation, then because
/// overlay forwarding was asked of a node without encapsulation.
pub open spec fn degraded(any_failed: bool, overlay_unsupported: bool) -> Seq<Seq<char>> {
    (if any_failed { seq!["object_validation_failed"@] } else { Seq::empty() })
        + (if overlay_unsupported { seq!["overlay_encap_unsupported"@] } else { Seq::empty() })
        + seq!["shadow_apply_only"@]
}

/// The reasons, in sorted order, why a compiled node is degraded.
pub fn degraded_reasons(any_failed: bool, overlay_unsupported: bool) -> (r: Vec<String>)
    ensures
        r@.map_values(|s: String| s@) == degraded(any_failed, overlay_unsupported),
{
    let mut r: Vec<String> = Vec::new();
    if any_failed {
        r.push("object_validation_failed".to_string());
    }
    if overlay_unsupported {
        r.push("overlay_encap_unsupported".to_string());
    }
    r.push("shadow_apply_only".to_string());
    assert(r@.map_values(|s: String| s@) =~= degraded(any_failed, overlay_unsupported));
    r
}

/// The status of an apply report: failed when some object failed and the
/// failures are at least as many as the compiled objects, else partial.
pub open spec fn apply_status_of(failed: nat, compiled: nat) -> Seq<char> {
    if failed > 0 && compiled <= failed { "failed"@ } else { "partial"@ }
}

/// The status of an apply report with `failed` failed and `compiled`
/// compiled objects.
pub fn apply_status(failed: usize, compiled: usize) -> (r: String)
    ensures
        r@ == apply_status_of(failed as nat, compiled as nat),
{
    if failed == 0 {
        "partial".to_string()
    } else if compiled > failed {
        "partial".to_string()
    } else {
        "failed".to_string()
    }
}

/// The sizes a compilation is summed up from.
#[derive(Debug, Clone, Copy)]
pub struct CompileCounts {
    pub tenants: usize,
    pub networks: usize,
    pub ip_groups: usize,
    pub distinct_tenants: usize,
    pub distinct_networks: usize,
    pub compiled_ip_groups: usize,
    pub ports: usize,
    pub port_identities: usize,
    pub port_failures: usize,
    pub security_groups: usize,
    pub network_policies: usize,
    pub sg_rules: usize,
    pub compiled_network_policies: usize,
    pub security_failures: usize,
    pub route_tables: usize,
    pub route_entries: usize,
    pub route_failures: usize,
    pub health_checks: usize,
    pub backend_sets: usize,
    pub services: usize,
    pub compiled_health_checks: usize,
    pub compiled_backend_sets: usize,
    pub compiled_services: usize,
    pub service_failures: usize,
    pub overlay_encap_unsupported: bool,
    pub qos_policies: usize,
    pub compiled_qos_policies: usize,
}

/// Whether the sums a summary takes fit in a `usize`.
pub open spec fn counts_fit(c: CompileCounts) -> bool {
    &&& c.tenants + c.networks + c.ip_groups <= usize::MAX
    &&& c.distinct_tenants + c.distinct_networks + c.compiled_ip_groups <= usize::MAX
    &&& c.security_groups + c.network_policies <= usize::MAX
    &&& c.sg_rules + c.compiled_network_policies <= usize::MAX
    &&& c.health_checks + c.backend_sets + c.services <= usize::MAX
    &&& c.compiled_health_checks + c.compiled_backend_sets + c.compiled_services <= usize::MAX
}

/// Whether `s` summarizes domain `domain` with these sizes and status.
pub open spec fn summary_is(s: CompileDomainSummary, domain: Seq<char>, input: int, compiled: int, failed: int,
    status: Seq<char>) -> bool {
    &&& s.domain@ == domain
    &&& s.input_objects == input
    &&& s.compiled_objects == compiled
    &&& s.failed_objects == failed
    &&& s.status@ == status
    &&& s.shadow_apply_only
}

/// Ready when nothing failed, else degraded.
pub open spec fn ready_unless(failed: bool) -> Seq<char> {
    if failed { "shadow_degraded"@ } else { "shadow_ready"@ }
}

fn summary(domain: &str, input: usize, compiled: usize, failed: usize, status: &str) -> (r: CompileDomainSummary)
    ensures
        summary_is(r, domain@, input as int, compiled as int, failed as int, status@),
{
    CompileDomainSummary {
        domain: domain.to_string(),
        input_objects: input,
        compiled_objects: compiled,
        failed_objects: failed,
        status: status.to_string(),
        shadow_apply_only: true,
    }
}

/// The summaries of a compilation, one per domain in a fixed order:
/// identity, ports, security, routes, services (degraded also when overlay
/// forwarding is unsupported), nat (reserved), and qos (reserved until a
/// policy compiles).
pub fn compile_domain_summaries(c: &CompileCounts) -> (r: Vec<CompileDomainSummary>)
    requires
        counts_fit(*c),
    ensures
        r@.len() == 7,
        summary_is(r@[0], "identity"@, c.tenants + c.networks + c.ip_groups,
            c.distinct_tenants + c.distinct_networks + c.compiled_ip_groups, 0, "shadow_ready"@),
        summary_is(r@[1], "ports"@, c.ports as int, c.port_identities as int, c.port_failures as int,
            ready_unless(c.port_failures != 0)),
        summary_is(r@[2], "security"@, c.security_groups + c.network_policies,
            c.sg_rules + c.compiled_network_policies, c.security_failures as int, ready_unless(c.security_failures != 0)),
        summary_is(r@[3], "routes"@, c.route_tables as int, c.route_entries as int, c.route_failures as int,
            ready_unless(c.route_failures != 0)),
        summary_is(r@[4], "services"@, c.health_checks + c.backend_sets + c.services,
            c.compiled_health_checks + c.compiled_backend_sets + c.compiled_services, c.service_failures as int,
            ready_unless(c.service_failures != 0 || c.overlay_encap_unsupported)),
        summary_is(r@[5], "nat"@, 0, 0, 0, "shadow_reserved"@),
        summary_is(r@[6], "qos"@, c.qos_policies as int, c.compiled_qos_policies as int, 0,
            if c.compiled_qos_policies == 0 { "shadow_reserved"@ } else { "shadow_ready"@ }),
{
    proof {
        reveal_strlit("shadow_degraded");
        reveal_strlit("shadow_ready");
    }
    let mut r: Vec<CompileDomainSummary> = Vec::new();
    r.push(summary("identity", c.tenants + c.networks + c.ip_groups,
        c.distinct_tenants + c.distinct_networks + c.compiled_ip_groups, 0, "shadow_ready"));
    r.push(summary("ports", c.ports, c.port_identities, c.port_failures,
        if c.port_failures == 0 { "shadow_ready" } else { "shadow_degraded" }));
    r.push(summary("security", c.security_groups + c.network_policies, c.sg_rules + c.compiled_network_policies,
        c.security_failures, if c.security_failures == 0 { "shadow_ready" } else { "shadow_degraded" }));
    r.push(summary("routes", c.route_tables, c.route_entries, c.route_failures,
        if c.route_failures == 0 { "shadow_ready" } else { "shadow_degraded" }));
    r.push(summary("services", c.health_checks + c.backend_sets + c.services,
        c.compiled_health_checks + c.compiled_backend_sets + c.compiled_services, c.service_failures,
        if c.service_failures == 0 && !c.overlay_encap_unsupported { "shadow_ready" } else { "shadow_degraded" }));
    r.push(summary("nat", 0, 0, 0, "shadow_reserved"));
    r.push(summary("qos", c.qos_policies, c.compiled_qos_policies, 0,
        if c.compiled_qos_policies == 0 { "shadow_reserved" } else { "shadow_ready" }));
    r
}

} // verus!
