//! The first stage of compiling a node's desired state: which ports the
//! node takes on. A port is refused when it is bound to another node, when
//! its tenant, network or a security group is missing from the envelope,
//! when its runtime labels are missing or invalid, or when another port has
//! claimed its tap id or interface index; a port that is administratively
//! down is bound but gets no runtime identity.
use vstd::prelude::*;
use std::collections::HashMap;
use crate::agent::ir::CompiledPortBinding;
use crate::agent::ir_builders::{required_runtime_label, runtime_label};
use crate::api::platform::port::PortResource;
use crate::api::southbound::{ApplyObjectFailure, DesiredStateEnvelope};
use crate::order::clone_strings;
use crate::text::{clone_opt, concat3, decimal, opt_view, str_eq, u64_to_decimal};

verus! {

broadcast use {vstd::string::group_string_axioms, vstd::std_specs::hash::group_hash_axioms};

/// The ids of the tenants in `d`.
pub open spec fn tenant_ids(d: DesiredStateEnvelope) -> Seq<Seq<char>> {
    d.tenants@.map_values(|t: crate::api::platform::tenant::TenantResource| t.metadata.id@)
}

/// The ids of the networks in `d`.
pub open spec fn network_ids(d: DesiredStateEnvelope) -> Seq<Seq<char>> {
    d.networks@.map_values(|n: crate::api::platform::network::NetworkResource| n.metadata.id@)
}

/// The ids of the security groups in `d`.
pub open spec fn security_group_ids(d: DesiredStateEnvelope) -> Seq<Seq<char>> {
    d.security_groups@.map_values(|g: crate::api::platform::security_group::SecurityGroupResource| g.metadata.id@)
}

/// The first of `wanted` that `known` lacks.
pub open spec fn first_missing(wanted: Seq<String>, known: Seq<Seq<char>>) -> Option<Seq<char>>
    decreases wanted.len(),
{
    if wanted.len() == 0 {
        None
    } else if !known.contains(wanted[0]@) {
        Some(wanted[0]@)
    } else {
        first_missing(wanted.drop_first(), known)
    }
}

/// What admission has decided so far: the ports bound (by position), the
/// ports given a runtime identity (position, tap id, interface index), the
/// refusals (port id, reason), the warnings, and which port claimed each tap
/// id and each interface index last.
pub type Admission = (
    Seq<int>,
    Seq<(int, u32, u32)>,
    Seq<(Seq<char>, Seq<char>)>,
    Seq<Seq<char>>,
    Map<u32, String>,
    Map<u32, String>,
);

/// `st` with port `id` refused for `reason`.
pub open spec fn refuse(st: Admission, id: Seq<char>, reason: Seq<char>) -> Admission {
    (st.0, st.1, st.2.push((id, reason)), st.3, st.4, st.5)
}

/// `st` with warning `w`.
pub open spec fn warn(st: Admission, w: Seq<char>) -> Admission {
    (st.0, st.1, st.2, st.3.push(w), st.4, st.5)
}

/// Admission after the checks that follow a port's binding: its runtime
/// labels, its claims on a tap id and an interface index, and its
/// administrative state.
pub open spec fn admit_runtime(st: Admission, i: int, p: PortResource) -> Admission {
    let id = p.metadata.id@;
    match runtime_label(p.metadata.labels@, "runtime.tap_id"@) {
        Err(r) => refuse(st, id, r),
        Ok(tap) => match runtime_label(p.metadata.labels@, "runtime.ifindex"@) {
            Err(r) => refuse(st, id, r),
            Ok(ifx) => {
                let st3 = (st.0, st.1, st.2, st.3, st.4.insert(tap, p.metadata.id), st.5);
                if st.4.contains_key(tap) {
                    refuse(st3, id, "runtime.tap_id '"@ + decimal(tap as nat) + "' is already claimed by port '"@
                        + st.4[tap]@ + "'"@)
                } else {
                    let st4 = (st3.0, st3.1, st3.2, st3.3, st3.4, st3.5.insert(ifx, p.metadata.id));
                    if st3.5.contains_key(ifx) {
                        refuse(st4, id, "runtime.ifindex '"@ + decimal(ifx as nat) + "' is already claimed by port '"@
                            + st3.5[ifx]@ + "'"@)
                    } else if !p.spec.admin_state_up {
                        warn(st4, "port '"@ + id
                            + "' is administratively down; skipping phase-3 map materialization until it is enabled"@)
                    } else {
                        (st4.0, st4.1.push((i, tap, ifx)), st4.2, st4.3, st4.4, st4.5)
                    }
                }
            },
        },
    }
}

/// Admission after port `p`, at position `i`, of `d` on node `node`.
pub open spec fn admit_step(st: Admission, i: int, p: PortResource, d: DesiredStateEnvelope, node: Seq<char>) -> Admission {
    let id = p.metadata.id@;
    if p.spec.node_id is Some && p.spec.node_id->0@ != node {
        refuse(st, id, "port bound to node '"@ + p.spec.node_id->0@ + "' instead of '"@ + node + "'"@)
    } else {
        let st1 = if p.spec.node_id is None {
            warn(st, "port '"@ + id + "' has no explicit node binding; treating it as node-local shadow state"@)
        } else {
            st
        };
        if tenant_ids(d).len() > 0 && !tenant_ids(d).contains(p.spec.tenant_id@) {
            refuse(st1, id, "missing tenant '"@ + p.spec.tenant_id@ + "' in desired envelope"@)
        } else if !network_ids(d).contains(p.spec.network_id@) {
            refuse(st1, id, "missing network '"@ + p.spec.network_id@ + "' in desired envelope"@)
        } else {
            match first_missing(p.spec.security_group_ids@, security_group_ids(d)) {
                Some(g) => refuse(st1, id, "missing security group '"@ + g + "' in desired envelope"@),
                None => admit_runtime((st1.0.push(i), st1.1, st1.2, st1.3, st1.4, st1.5), i, p),
            }
        }
    }
}

/// Admission after the first `n` ports of `d`.
pub open spec fn admission(d: DesiredStateEnvelope, node: Seq<char>, n: int) -> Admission
    decreases n,
{
    if n <= 0 {
        (Seq::empty(), Seq::empty(), Seq::empty(), Seq::empty(), Map::empty(), Map::empty())
    } else {
        admit_step(admission(d, node, n - 1), n - 1, d.ports@[n - 1], d, node)
    }
}

/// Whether `b` binds port `p`: its identity, addresses and flags as `p`
/// declares them.
pub open spec fn binding_of(b: CompiledPortBinding, p: PortResource) -> bool {
    &&& b.port_id@ == p.metadata.id@
    &&& b.tenant_id@ == p.spec.tenant_id@
    &&& b.network_id@ == p.spec.network_id@
    &&& opt_view(b.segment_id) == opt_view(p.spec.segment_id)
    &&& b.security_group_ids@ == p.spec.security_group_ids@
    &&& b.fixed_ips@ == p.spec.fixed_ips@
    &&& b.allowed_address_pairs@ == p.spec.allowed_address_pairs@
    &&& b.mac_address@ == p.spec.mac_address@
    &&& b.anti_spoof_enabled == p.spec.anti_spoof_enabled
    &&& b.admin_state_up == p.spec.admin_state_up
}

proof fn lemma_step_claims(st: Admission, i: int, p: PortResource, d: DesiredStateEnvelope, node: Seq<char>)
    ensures
        ({
            let nx = admit_step(st, i, p, d, node);
            &&& forall|t: u32| st.4.contains_key(t) ==> #[trigger] nx.4.contains_key(t)
            &&& forall|t: u32| st.5.contains_key(t) ==> #[trigger] nx.5.contains_key(t)
            &&& (nx.1 == st.1 || (nx.1 == st.1.push((i, nx.1.last().1, nx.1.last().2))
                && !st.4.contains_key(nx.1.last().1) && !st.5.contains_key(nx.1.last().2)
                && nx.4.contains_key(nx.1.last().1) && nx.5.contains_key(nx.1.last().2)))
        }),
{
}

/// No two ports that get a runtime identity share a tap id or an interface
/// index, and they come in the order of the envelope's ports.
pub proof fn lemma_identities_distinct(d: DesiredStateEnvelope, node: Seq<char>, n: int)
    requires
        0 <= n,
    ensures
        ({
            let ids = admission(d, node, n).1;
            &&& forall|a: int, b: int| 0 <= a < b < ids.len() ==> (#[trigger] ids[a]).1 != (#[trigger] ids[b]).1
                && ids[a].2 != ids[b].2 && ids[a].0 < ids[b].0
            &&& forall|k: int| 0 <= k < ids.len() ==> 0 <= (#[trigger] ids[k]).0 < n
                && admission(d, node, n).4.contains_key(ids[k].1) && admission(d, node, n).5.contains_key(ids[k].2)
        }),
    decreases n,
{
    if n > 0 {
        lemma_identities_distinct(d, node, n - 1);
        let st = admission(d, node, n - 1);
        lemma_step_claims(st, n - 1, d.ports@[n - 1], d, node);
    }
}

/// The port id and reason of each refusal.
pub open spec fn failure_views(v: Seq<ApplyObjectFailure>) -> Seq<(Seq<char>, Seq<char>)> {
    v.map_values(|f: ApplyObjectFailure| (f.id@, f.reason@))
}

/// The ports a node takes on, and the refusals and warnings of the rest.
#[derive(Debug)]
pub struct PortAdmission {
    pub bindings: Vec<CompiledPortBinding>,
    /// (position in the envelope's ports, tap id, interface index) of each
    /// port that gets a runtime identity.
    pub identified: Vec<(usize, u32, u32)>,
    pub failures: Vec<ApplyObjectFailure>,
    pub warnings: Vec<String>,
}

fn tenant_known(d: &DesiredStateEnvelope, id: &str) -> (r: bool)
    ensures
        r == tenant_ids(*d).contains(id@),
{
    let mut i: usize = 0;
    while i < d.tenants.len()
        invariant
            i <= d.tenants.len(),
            forall|j: int| 0 <= j < i ==> tenant_ids(*d)[j] != id@,
        decreases d.tenants.len() - i,
    {
        if str_eq(d.tenants[i].metadata.id.as_str(), id) {
            assert(tenant_ids(*d)[i as int] == id@);
            return true;
        }
        i = i + 1;
    }
    false
}

fn network_known(d: &DesiredStateEnvelope, id: &str) -> (r: bool)
    ensures
        r == network_ids(*d).contains(id@),
{
    let mut i: usize = 0;
    while i < d.networks.len()
        invariant
            i <= d.networks.len(),
            forall|j: int| 0 <= j < i ==> network_ids(*d)[j] != id@,
        decreases d.networks.len() - i,
    {
        if str_eq(d.networks[i].metadata.id.as_str(), id) {
            assert(network_ids(*d)[i as int] == id@);
            return true;
        }
        i = i + 1;
    }
    false
}

fn security_group_known(d: &DesiredStateEnvelope, id: &str) -> (r: bool)
    ensures
        r == security_group_ids(*d).contains(id@),
{
    let mut i: usize = 0;
    while i < d.security_groups.len()
        invariant
            i <= d.security_groups.len(),
            forall|j: int| 0 <= j < i ==> security_group_ids(*d)[j] != id@,
        decreases d.security_groups.len() - i,
    {
        if str_eq(d.security_groups[i].metadata.id.as_str(), id) {
            assert(security_group_ids(*d)[i as int] == id@);
            return true;
        }
        i = i + 1;
    }
    false
}

fn missing_security_group<'a>(d: &DesiredStateEnvelope, wanted: &'a Vec<String>) -> (r: Option<&'a String>)
    ensures
        match r {
            Some(g) => first_missing(wanted@, security_group_ids(*d)) == Some(g@),
            None => first_missing(wanted@, security_group_ids(*d)) is None,
        },
{
    let mut i: usize = 0;
    assert(wanted@.subrange(0, wanted.len() as int) =~= wanted@);
    while i < wanted.len()
        invariant
            i <= wanted.len(),
            first_missing(wanted@, security_group_ids(*d))
                == first_missing(wanted@.subrange(i as int, wanted.len() as int), security_group_ids(*d)),
        decreases wanted.len() - i,
    {
        assert(wanted@.subrange(i as int, wanted.len() as int).drop_first()
            =~= wanted@.subrange(i + 1, wanted.len() as int));
        if !security_group_known(d, wanted[i].as_str()) {
            return Some(&wanted[i]);
        }
        i = i + 1;
    }
    assert(wanted@.subrange(i as int, wanted.len() as int) =~= Seq::<String>::empty());
    None
}

fn port_failure(p: &PortResource, reason: String) -> (r: ApplyObjectFailure)
    ensures
        r.resource_kind@ == "port"@,
        r.id@ == p.metadata.id@,
        r.reason@ == reason@,
{
    ApplyObjectFailure { resource_kind: "port".to_string(), id: p.metadata.id.clone(), reason }
}

fn bind_port(p: &PortResource) -> (b: CompiledPortBinding)
    ensures
        binding_of(b, *p),
{
    CompiledPortBinding {
        port_id: p.metadata.id.clone(),
        tenant_id: p.spec.tenant_id.clone(),
        network_id: p.spec.network_id.clone(),
        segment_id: clone_opt(&p.spec.segment_id),
        security_group_ids: clone_strings(&p.spec.security_group_ids),
        fixed_ips: clone_strings(&p.spec.fixed_ips),
        allowed_address_pairs: clone_strings(&p.spec.allowed_address_pairs),
        mac_address: p.spec.mac_address.clone(),
        anti_spoof_enabled: p.spec.anti_spoof_enabled,
        admin_state_up: p.spec.admin_state_up,
    }
}

/// Whether the lists and claim maps built so far stand for admission state
/// `st` of `d`, `bound` being the positions of the bound ports.
pub open spec fn tracks(
    bindings: Seq<CompiledPortBinding>,
    identified: Seq<(usize, u32, u32)>,
    failures: Seq<ApplyObjectFailure>,
    warnings: Seq<String>,
    taps: Map<u32, String>,
    ifxs: Map<u32, String>,
    bound: Seq<int>,
    d: DesiredStateEnvelope,
    st: Admission,
) -> bool {
    &&& bound == st.0
    &&& bindings.len() == bound.len()
    &&& forall|k: int| 0 <= k < bound.len() ==> 0 <= #[trigger] bound[k] < d.ports@.len()
        && binding_of(bindings[k], d.ports@[bound[k]])
    &&& identified.map_values(|x: (usize, u32, u32)| (x.0 as int, x.1, x.2)) == st.1
    &&& failure_views(failures) == st.2
    &&& forall|k: int| 0 <= k < failures.len() ==> (#[trigger] failures[k]).resource_kind@ == "port"@
    &&& warnings.map_values(|w: String| w@) == st.3
    &&& taps == st.4
    &&& ifxs == st.5
}

/// The ports of `desired` that node `node_id` takes on, in order: each port
/// that passes the node, tenant, network and security-group checks is
/// bound, and each bound port whose runtime labels are valid and unclaimed
/// and that is administratively up gets a runtime identity; every refusal
/// and warning is reported in order.
pub fn admit_ports(desired: &DesiredStateEnvelope, node_id: &str) -> (r: PortAdmission)
    ensures
        ({
            let fin = admission(*desired, node_id@, desired.ports@.len() as int);
            tracks(r.bindings@, r.identified@, r.failures@, r.warnings@, fin.4, fin.5, fin.0, *desired, fin)
        }),
{
    proof {
        reveal_strlit("runtime.tap_id");
        reveal_strlit("runtime.ifindex");
        reveal_strlit("port bound to node '");
        reveal_strlit("' instead of '");
        reveal_strlit("'");
        reveal_strlit("port '");
        reveal_strlit("' has no explicit node binding; treating it as node-local shadow state");
        reveal_strlit("missing tenant '");
        reveal_strlit("' in desired envelope");
        reveal_strlit("missing network '");
        reveal_strlit("missing security group '");
        reveal_strlit("runtime.tap_id '");
        reveal_strlit("' is already claimed by port '");
        reveal_strlit("runtime.ifindex '");
        reveal_strlit("' is administratively down; skipping phase-3 map materialization until it is enabled");
        reveal_strlit("");
    }
    let mut bindings: Vec<CompiledPortBinding> = Vec::new();
    let mut identified: Vec<(usize, u32, u32)> = Vec::new();
    let mut failures: Vec<ApplyObjectFailure> = Vec::new();
    let mut warnings: Vec<String> = Vec::new();
    let mut taps: HashMap<u32, String> = HashMap::new();
    let mut ifxs: HashMap<u32, String> = HashMap::new();
    let ghost mut bound: Seq<int> = Seq::empty();
    let has_tenants = desired.tenants.len() > 0;
    assert(identified@.map_values(|x: (usize, u32, u32)| (x.0 as int, x.1, x.2)) =~= Seq::<(int, u32, u32)>::empty());
    assert(failure_views(failures@) =~= Seq::<(Seq<char>, Seq<char>)>::empty());
    assert(warnings@.map_values(|w: String| w@) =~= Seq::<Seq<char>>::empty());
    let mut i: usize = 0;
    while i < desired.ports.len()
        invariant
            i <= desired.ports.len(),
            has_tenants == (tenant_ids(*desired).len() > 0),
            tracks(bindings@, identified@, failures@, warnings@, taps@, ifxs@, bound, *desired,
                admission(*desired, node_id@, i as int)),
        decreases desired.ports.len() - i,
    {
        let p = &desired.ports[i];
        let ghost st = admission(*desired, node_id@, i as int);
        let ghost fv0 = failures@;
        let ghost wv0 = warnings@;
        assert(admission(*desired, node_id@, i + 1) == admit_step(st, i as int, *p, *desired, node_id@));
        if let Some(bound_node) = &p.spec.node_id {
            if !str_eq(bound_node.as_str(), node_id) {
                let m1 = concat3("port bound to node '", bound_node.as_str(), "' instead of '");
                let m = concat3(m1.as_str(), node_id, "'");
                failures.push(port_failure(p, m));
                assert(failure_views(failures@) =~= failure_views(fv0).push((p.metadata.id@, m@)));
                i = i + 1;
                continue;
            }
        } else {
            let w = concat3("port '", p.metadata.id.as_str(),
                "' has no explicit node binding; treating it as node-local shadow state");
            warnings.push(w);
            assert(warnings@.map_values(|w: String| w@) =~= wv0.map_values(|w: String| w@).push(w@));
        }
        let ghost st1 = if p.spec.node_id is None {
            warn(st, "port '"@ + p.metadata.id@ + "' has no explicit node binding; treating it as node-local shadow state"@)
        } else {
            st
        };
        assert(tracks(bindings@, identified@, failures@, warnings@, taps@, ifxs@, bound, *desired, st1));
        let ghost fv1 = failures@;
        if has_tenants && !tenant_known(desired, p.spec.tenant_id.as_str()) {
            let m = concat3("missing tenant '", p.spec.tenant_id.as_str(), "' in desired envelope");
            failures.push(port_failure(p, m));
            assert(failure_views(failures@) =~= failure_views(fv1).push((p.metadata.id@, m@)));
            i = i + 1;
            continue;
        }
        if !network_known(desired, p.spec.network_id.as_str()) {
            let m = concat3("missing network '", p.spec.network_id.as_str(), "' in desired envelope");
            failures.push(port_failure(p, m));
            assert(failure_views(failures@) =~= failure_views(fv1).push((p.metadata.id@, m@)));
            i = i + 1;
            continue;
        }
        if let Some(g) = missing_security_group(desired, &p.spec.security_group_ids) {
            let m = concat3("missing security group '", g.as_str(), "' in desired envelope");
            failures.push(port_failure(p, m));
            assert(failure_views(failures@) =~= failure_views(fv1).push((p.metadata.id@, m@)));
            i = i + 1;
            continue;
        }
        bindings.push(bind_port(p));
        proof {
            bound = bound.push(i as int);
        }
        let ghost st2 = (st1.0.push(i as int), st1.1, st1.2, st1.3, st1.4, st1.5);
        assert(tracks(bindings@, identified@, failures@, warnings@, taps@, ifxs@, bound, *desired, st2));
        assert(admission(*desired, node_id@, i + 1) == admit_runtime(st2, i as int, *p));
        let ghost fv2 = failures@;
        let tap = match required_runtime_label(p, "runtime.tap_id") {
            Ok(v) => v,
            Err(reason) => {
                let ghost rv = reason@;
                failures.push(port_failure(p, reason));
                assert(failure_views(failures@) =~= failure_views(fv2).push((p.metadata.id@, rv)));
                i = i + 1;
                continue;
            },
        };
        let ifx = match required_runtime_label(p, "runtime.ifindex") {
            Ok(v) => v,
            Err(reason) => {
                let ghost rv = reason@;
                failures.push(port_failure(p, reason));
                assert(failure_views(failures@) =~= failure_views(fv2).push((p.metadata.id@, rv)));
                i = i + 1;
                continue;
            },
        };
        let ghost taps0 = taps@;
        let ghost ifxs0 = ifxs@;
        if let Some(existing) = taps.insert(tap, p.metadata.id.clone()) {
            let d = u64_to_decimal(tap as u64);
            let m1 = concat3("runtime.tap_id '", d.as_str(), "' is already claimed by port '");
            let m = concat3(m1.as_str(), existing.as_str(), "'");
            failures.push(port_failure(p, m));
            assert(failure_views(failures@) =~= failure_views(fv2).push((p.metadata.id@, m@)));
            i = i + 1;
            continue;
        }
        if let Some(existing) = ifxs.insert(ifx, p.metadata.id.clone()) {
            let d = u64_to_decimal(ifx as u64);
            let m1 = concat3("runtime.ifindex '", d.as_str(), "' is already claimed by port '");
            let m = concat3(m1.as_str(), existing.as_str(), "'");
            failures.push(port_failure(p, m));
            assert(failure_views(failures@) =~= failure_views(fv2).push((p.metadata.id@, m@)));
            i = i + 1;
            continue;
        }
        if !p.spec.admin_state_up {
            let w = concat3("port '", p.metadata.id.as_str(),
                "' is administratively down; skipping phase-3 map materialization until it is enabled");
            let ghost wv2 = warnings@;
            warnings.push(w);
            assert(warnings@.map_values(|w: String| w@) =~= wv2.map_values(|w: String| w@).push(w@));
            i = i + 1;
            continue;
        }
        let ghost iv = identified@;
        identified.push((i, tap, ifx));
        assert(identified@.map_values(|x: (usize, u32, u32)| (x.0 as int, x.1, x.2))
            =~= iv.map_values(|x: (usize, u32, u32)| (x.0 as int, x.1, x.2)).push((i as int, tap, ifx)));
        i = i + 1;
    }
    let ghost fin = admission(*desired, node_id@, desired.ports@.len() as int);
    assert(tracks(bindings@, identified@, failures@, warnings@, fin.4, fin.5, bound, *desired, fin));
    PortAdmission { bindings, identified, failures, warnings }
}

proof fn lemma_first_missing_none(wanted: Seq<String>, known: Seq<Seq<char>>)
    requires
        first_missing(wanted, known) is None,
    ensures
        forall|k: int| 0 <= k < wanted.len() ==> known.contains(#[trigger] wanted[k]@),
    decreases wanted.len(),
{
    if wanted.len() > 0 {
        lemma_first_missing_none(wanted.drop_first(), known);
        assert forall|k: int| 0 <= k < wanted.len() implies known.contains(#[trigger] wanted[k]@) by {
            if k > 0 {
                assert(wanted[k] == wanted.drop_first()[k - 1]);
            }
        }
    }
}

proof fn lemma_step_bound(st: Admission, i: int, p: PortResource, d: DesiredStateEnvelope, node: Seq<char>)
    ensures
        ({
            let nx = admit_step(st, i, p, d, node);
            nx.0 == st.0 || (nx.0 == st.0.push(i) && (p.spec.node_id is None || p.spec.node_id->0@ == node)
                && !(tenant_ids(d).len() > 0 && !tenant_ids(d).contains(p.spec.tenant_id@))
                && network_ids(d).contains(p.spec.network_id@)
                && first_missing(p.spec.security_group_ids@, security_group_ids(d)) is None)
        }),
{
}

/// Every port a node binds is on this node or on none, of a tenant of the
/// envelope (when it names any), of a network of the envelope, and only in
/// security groups of the envelope; the bound ports come in envelope order.
pub proof fn lemma_bound_ports_are_valid(d: DesiredStateEnvelope, node: Seq<char>, n: int)
    requires
        0 <= n <= d.ports@.len(),
    ensures
        ({
            let bound = admission(d, node, n).0;
            forall|k: int| 0 <= k < bound.len() ==> {
                let p = d.ports@[#[trigger] bound[k]];
                &&& 0 <= bound[k] < n
                &&& (k > 0 ==> bound[k - 1] < bound[k])
                &&& p.spec.node_id is None || p.spec.node_id->0@ == node
                &&& tenant_ids(d).len() > 0 ==> tenant_ids(d).contains(p.spec.tenant_id@)
                &&& network_ids(d).contains(p.spec.network_id@)
                &&& forall|g: int| 0 <= g < p.spec.security_group_ids@.len()
                    ==> security_group_ids(d).contains(#[trigger] p.spec.security_group_ids@[g]@)
            }
        }),
    decreases n,
{
    if n > 0 {
        lemma_bound_ports_are_valid(d, node, n - 1);
        let st = admission(d, node, n - 1);
        let p = d.ports@[n - 1];
        lemma_step_bound(st, n - 1, p, d, node);
        if admission(d, node, n).0 != st.0 {
            lemma_first_missing_none(p.spec.security_group_ids@, security_group_ids(d));
        }
    }
}

/// A port on this node (or on none) whose tenant is known but whose network
/// is missing from the envelope is refused, with the missing network as the
/// reason, and is not bound.
pub proof fn lemma_missing_network_refused(st: Admission, i: int, p: PortResource, d: DesiredStateEnvelope, node: Seq<char>)
    requires
        p.spec.node_id is None || p.spec.node_id->0@ == node,
        !(tenant_ids(d).len() > 0 && !tenant_ids(d).contains(p.spec.tenant_id@)),
        !network_ids(d).contains(p.spec.network_id@),
    ensures
        admit_step(st, i, p, d, node).0 == st.0,
        admit_step(st, i, p, d, node).1 == st.1,
        admit_step(st, i, p, d, node).2.last()
            == (p.metadata.id@, "missing network '"@ + p.spec.network_id@ + "' in desired envelope"@),
        admit_step(st, i, p, d, node).2.len() == st.2.len() + 1,
{
}

} // verus!
