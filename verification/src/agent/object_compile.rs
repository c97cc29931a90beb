//! Compiling the load-balancing objects of a node's desired state: health
//! checks, backend sets and services, each refused when what it refers to
//! is missing, with backend sets counting their local and remote backends.
use vstd::prelude::*;
use crate::agent::ir::{CompiledBackendSetView, CompiledHealthCheckView, CompiledServiceView};
use crate::agent::ir_builders::{port_by_id, port_by_id_exec};
use crate::agent::port_admission::{network_ids, tenant_ids};
use crate::api::platform::backend_set::{BackendSetResource, BackendTargetSpec};
use crate::api::platform::health_check::HealthCheckResource;
use crate::api::platform::port::PortResource;
use crate::api::platform::service::ServiceResource;
use crate::api::southbound::{ApplyObjectFailure, DesiredStateEnvelope};
use crate::order::strs;
use crate::text::{clone_opt, concat3, opt_view, str_eq};

verus! {

broadcast use vstd::string::group_string_axioms;

/// Whether `d` names tenants and `t` is not one of them.
pub open spec fn tenant_missing(d: DesiredStateEnvelope, t: Seq<char>) -> bool {
    tenant_ids(d).len() > 0 && !tenant_ids(d).contains(t)
}

/// The ids of the health checks in `d`.
pub open spec fn health_check_ids(d: DesiredStateEnvelope) -> Seq<Seq<char>> {
    d.health_checks@.map_values(|h: HealthCheckResource| h.metadata.id@)
}

/// Why health check `h` is refused, if it is.
pub open spec fn health_check_refusal(h: HealthCheckResource, d: DesiredStateEnvelope) -> Option<Seq<char>> {
    if tenant_missing(d, h.spec.tenant_id@) {
        Some("missing tenant '"@ + h.spec.tenant_id@ + "' in desired envelope"@)
    } else if h.spec.network_id is Some && !network_ids(d).contains(h.spec.network_id->0@) {
        Some("missing network '"@ + h.spec.network_id->0@ + "' in desired envelope"@)
    } else {
        None
    }
}

/// The positions of the health checks among the first `n` that compile.
pub open spec fn health_checks_kept(d: DesiredStateEnvelope, n: int) -> Seq<int>
    decreases n,
{
    if n <= 0 {
        Seq::empty()
    } else if health_check_refusal(d.health_checks@[n - 1], d) is None {
        health_checks_kept(d, n - 1).push(n - 1)
    } else {
        health_checks_kept(d, n - 1)
    }
}

/// The refusals (id, reason) of the first `n` health checks.
pub open spec fn health_check_refusals(d: DesiredStateEnvelope, n: int) -> Seq<(Seq<char>, Seq<char>)>
    decreases n,
{
    if n <= 0 {
        Seq::empty()
    } else {
        match health_check_refusal(d.health_checks@[n - 1], d) {
            Some(r) => health_check_refusals(d, n - 1).push((d.health_checks@[n - 1].metadata.id@, r)),
            None => health_check_refusals(d, n - 1),
        }
    }
}

/// The walk over a backend set's backends so far: local and remote counts,
/// warnings, and the refusal that stopped it.
pub type Walk = (nat, nat, Seq<Seq<char>>, Option<Seq<char>>);

/// The walk after backend `b` of backend set `bs_id`: a backend whose port
/// is known is local when the port is bound to this node or to none; one
/// whose port is unknown refuses the set when it is pinned to this node or
/// declared local, and else counts as remote with a warning; one without a
/// port reference counts by its declared locality.
pub open spec fn walk_step(w: Walk, bs_id: Seq<char>, b: BackendTargetSpec, ports: Seq<PortResource>, node: Seq<char>)
    -> Walk {
    if w.3 is Some {
        w
    } else {
        match b.target_ref {
            Some(r) => match port_by_id(ports, r@) {
                Some(p) => if opt_view(p.spec.node_id).unwrap_or(node) == node {
                    (w.0 + 1, w.1, w.2, None)
                } else {
                    (w.0, w.1 + 1, w.2, None)
                },
                None => if opt_view(b.node_id) == Some(node) || opt_view(b.locality) == Some("local"@) {
                    (0, 0, w.2, Some("backend '"@ + b.id@ + "' references local port '"@ + r@
                        + "' that is missing from desired envelope"@))
                } else {
                    (w.0, w.1 + 1, w.2.push("backend_set '"@ + bs_id + "' backend '"@ + b.id@
                        + "' references remote port '"@ + r@
                        + "' outside node-local desired envelope; treating as remote shadow backend"@), None)
                },
            },
            None => if opt_view(b.locality) == Some("local"@) {
                (w.0 + 1, w.1, w.2, None)
            } else {
                (w.0, w.1 + 1, w.2, None)
            },
        }
    }
}

/// The walk over the first `k` backends.
pub open spec fn walk(bs_id: Seq<char>, backends: Seq<BackendTargetSpec>, ports: Seq<PortResource>, node: Seq<char>, k: int)
    -> Walk
    decreases k,
{
    if k <= 0 {
        (0, 0, Seq::empty(), None)
    } else {
        walk_step(walk(bs_id, backends, ports, node, k - 1), bs_id, backends[k - 1], ports, node)
    }
}

/// Backend-set compilation so far: the sets compiled (position, local and
/// remote counts), the refusals (id, reason) and the warnings.
pub type BackendSets = (Seq<(int, nat, nat)>, Seq<(Seq<char>, Seq<char>)>, Seq<Seq<char>>);

/// The ids of the refusals in `fails`.
pub open spec fn refused_ids(fails: Seq<(Seq<char>, Seq<char>)>) -> Seq<Seq<char>> {
    fails.map_values(|f: (Seq<char>, Seq<char>)| f.0)
}

/// Backend-set compilation after set `b` at position `j`: refused when its
/// tenant, network or health check is missing or a backend refuses it; a
/// set whose id was refused before is not compiled either.
pub open spec fn backend_set_step(st: BackendSets, j: int, b: BackendSetResource, d: DesiredStateEnvelope, node: Seq<char>)
    -> BackendSets {
    let id = b.metadata.id@;
    if tenant_missing(d, b.spec.tenant_id@) {
        (st.0, st.1.push((id, "missing tenant '"@ + b.spec.tenant_id@ + "' in desired envelope"@)), st.2)
    } else if !network_ids(d).contains(b.spec.network_id@) {
        (st.0, st.1.push((id, "missing network '"@ + b.spec.network_id@ + "' in desired envelope"@)), st.2)
    } else if b.spec.health_check_id is Some && !health_check_ids(d).contains(b.spec.health_check_id->0@) {
        (st.0, st.1.push((id, "missing health_check '"@ + b.spec.health_check_id->0@ + "' in desired envelope"@)), st.2)
    } else {
        let w = walk(id, b.spec.backends@, d.ports@, node, b.spec.backends@.len() as int);
        let fails = match w.3 {
            Some(m) => st.1.push((id, m)),
            None => st.1,
        };
        if w.3 is Some || refused_ids(st.1).contains(id) {
            (st.0, fails, st.2 + w.2)
        } else {
            (st.0.push((j, w.0, w.1)), fails, st.2 + w.2)
        }
    }
}

/// Backend-set compilation over the first `n` sets.
pub open spec fn backend_sets(d: DesiredStateEnvelope, node: Seq<char>, n: int) -> BackendSets
    decreases n,
{
    if n <= 0 {
        (Seq::empty(), Seq::empty(), Seq::empty())
    } else {
        backend_set_step(backend_sets(d, node, n - 1), n - 1, d.backend_sets@[n - 1], d, node)
    }
}

/// The ids of the compiled backend sets.
pub open spec fn compiled_set_ids(d: DesiredStateEnvelope, node: Seq<char>) -> Seq<Seq<char>> {
    backend_sets(d, node, d.backend_sets@.len() as int).0.map_values(
        |k: (int, nat, nat)| d.backend_sets@[k.0].metadata.id@)
}

/// Why service `s` is refused, if it is: a missing tenant or network, or a
/// backend set that did not compile.
pub open spec fn service_refusal(s: ServiceResource, d: DesiredStateEnvelope, sets: Seq<Seq<char>>) -> Option<Seq<char>> {
    if tenant_missing(d, s.spec.tenant_id@) {
        Some("missing tenant '"@ + s.spec.tenant_id@ + "' in desired envelope"@)
    } else if !network_ids(d).contains(s.spec.network_id@) {
        Some("missing network '"@ + s.spec.network_id@ + "' in desired envelope"@)
    } else if s.spec.backend_set_id is Some && !sets.contains(s.spec.backend_set_id->0@) {
        Some("missing backend_set '"@ + s.spec.backend_set_id->0@ + "' in desired envelope"@)
    } else {
        None
    }
}

/// The positions of the services among the first `n` that compile.
pub open spec fn services_kept(d: DesiredStateEnvelope, sets: Seq<Seq<char>>, n: int) -> Seq<int>
    decreases n,
{
    if n <= 0 {
        Seq::empty()
    } else if service_refusal(d.services@[n - 1], d, sets) is None {
        services_kept(d, sets, n - 1).push(n - 1)
    } else {
        services_kept(d, sets, n - 1)
    }
}

/// The refusals (id, reason) of the first `n` services.
pub open spec fn service_refusals(d: DesiredStateEnvelope, sets: Seq<Seq<char>>, n: int) -> Seq<(Seq<char>, Seq<char>)>
    decreases n,
{
    if n <= 0 {
        Seq::empty()
    } else {
        match service_refusal(d.services@[n - 1], d, sets) {
            Some(r) => service_refusals(d, sets, n - 1).push((d.services@[n - 1].metadata.id@, r)),
            None => service_refusals(d, sets, n - 1),
        }
    }
}

/// Whether `v` is the compiled view of health check `h`.
pub open spec fn health_check_view_of(v: CompiledHealthCheckView, h: HealthCheckResource) -> bool {
    &&& v.health_check_id@ == h.metadata.id@
    &&& v.tenant_id@ == h.spec.tenant_id@
    &&& opt_view(v.network_id) == opt_view(h.spec.network_id)
    &&& v.protocol@ == h.spec.protocol@
    &&& v.target_port == h.spec.target_port
}

/// Whether `v` is the compiled view of backend set `b` with the given counts.
pub open spec fn backend_set_view_of(v: CompiledBackendSetView, b: BackendSetResource, local: nat, remote: nat) -> bool {
    &&& v.backend_set_id@ == b.metadata.id@
    &&& v.tenant_id@ == b.spec.tenant_id@
    &&& v.network_id@ == b.spec.network_id@
    &&& opt_view(v.health_check_id) == opt_view(b.spec.health_check_id)
    &&& v.policy@ == b.spec.policy@
    &&& v.backend_count == b.spec.backends@.len()
    &&& v.local_backend_count == local
    &&& v.remote_backend_count == remote
}

/// Whether `v` is the compiled view of service `s`.
pub open spec fn service_view_of(v: CompiledServiceView, s: ServiceResource) -> bool {
    &&& v.service_id@ == s.metadata.id@
    &&& v.tenant_id@ == s.spec.tenant_id@
    &&& v.network_id@ == s.spec.network_id@
    &&& opt_view(v.backend_set_id) == opt_view(s.spec.backend_set_id)
    &&& v.vip@ == s.spec.vip@
    &&& v.protocol@ == s.spec.protocol@
    &&& v.port_count == s.spec.ports@.len()
    &&& v.exposure_type@ == s.spec.exposure_type@
}

/// The kind, id and reason of each failure.
pub open spec fn failure_triples(v: Seq<ApplyObjectFailure>) -> Seq<(Seq<char>, Seq<char>, Seq<char>)> {
    v.map_values(|f: ApplyObjectFailure| (f.resource_kind@, f.id@, f.reason@))
}

/// `fails` as failures of kind `kind`.
pub open spec fn of_kind(kind: Seq<char>, fails: Seq<(Seq<char>, Seq<char>)>) -> Seq<(Seq<char>, Seq<char>, Seq<char>)> {
    fails.map_values(|f: (Seq<char>, Seq<char>)| (kind, f.0, f.1))
}

fn contains_tenant(d: &DesiredStateEnvelope, id: &str) -> (r: bool)
    ensures
        r == tenant_ids(*d).contains(id@),
{
    let mut i: usize = 0;
    while i < d.tenants.len()
        invariant
            i <= d.tenants.len(),
            forall|j: int| 0 <= j < i ==> tenant_ids(*d)[j] != id@,
        decreases d.tenants.len() - i,
    {
        if str_eq(d.tenants[i].metadata.id.as_str(), id) {
            assert(tenant_ids(*d)[i as int] == id@);
            return true;
        }
        i = i + 1;
    }
    false
}

fn contains_network(d: &DesiredStateEnvelope, id: &str) -> (r: bool)
    ensures
        r == network_ids(*d).contains(id@),
{
    let mut i: usize = 0;
    while i < d.networks.len()
        invariant
            i <= d.networks.len(),
            forall|j: int| 0 <= j < i ==> network_ids(*d)[j] != id@,
        decreases d.networks.len() - i,
    {
        if str_eq(d.networks[i].metadata.id.as_str(), id) {
            assert(network_ids(*d)[i as int] == id@);
            return true;
        }
        i = i + 1;
    }
    false
}

fn contains_health_check(d: &DesiredStateEnvelope, id: &str) -> (r: bool)
    ensures
        r == health_check_ids(*d).contains(id@),
{
    let mut i: usize = 0;
    while i < d.health_checks.len()
        invariant
            i <= d.health_checks.len(),
            forall|j: int| 0 <= j < i ==> health_check_ids(*d)[j] != id@,
        decreases d.health_checks.len() - i,
    {
        if str_eq(d.health_checks[i].metadata.id.as_str(), id) {
            assert(health_check_ids(*d)[i as int] == id@);
            return true;
        }
        i = i + 1;
    }
    false
}

fn contains_str_in(v: &Vec<String>, s: &str) -> (r: bool)
    ensures
        r == strs(v@).contains(s@),
{
    let mut i: usize = 0;
    while i < v.len()
        invariant
            i <= v.len(),
            forall|j: int| 0 <= j < i ==> #[trigger] strs(v@)[j] != s@,
        decreases v.len() - i,
    {
        if str_eq(v[i].as_str(), s) {
            assert(strs(v@)[i as int] == s@);
            return true;
        }
        i = i + 1;
    }
    false
}

fn missing_message(what: &str, id: &str) -> (r: String)
    ensures
        r@ == what@ + id@ + "' in desired envelope"@,
{
    concat3(what, id, "' in desired envelope")
}

fn failure(kind: &str, id: &String, reason: String) -> (r: ApplyObjectFailure)
    ensures
        r.resource_kind@ == kind@,
        r.id@ == id@,
        r.reason@ == reason@,
{
    ApplyObjectFailure { resource_kind: kind.to_string(), id: id.clone(), reason }
}

proof fn lemma_push_failure(
    before: Seq<ApplyObjectFailure>,
    f: ApplyObjectFailure,
    base: Seq<(Seq<char>, Seq<char>, Seq<char>)>,
    kind: Seq<char>,
    fails: Seq<(Seq<char>, Seq<char>)>,
)
    requires
        failure_triples(before) == base + of_kind(kind, fails),
        f.resource_kind@ == kind,
    ensures
        failure_triples(before.push(f)) == base + of_kind(kind, fails.push((f.id@, f.reason@))),
{
    assert(failure_triples(before.push(f)) =~= failure_triples(before).push((kind, f.id@, f.reason@)));
    assert(of_kind(kind, fails.push((f.id@, f.reason@))) =~= of_kind(kind, fails).push((kind, f.id@, f.reason@)));
    assert(base + of_kind(kind, fails).push((kind, f.id@, f.reason@)) =~= (base + of_kind(kind, fails)).push((kind, f.id@, f.reason@)));
}

fn compile_health_checks(d: &DesiredStateEnvelope, failures: &mut Vec<ApplyObjectFailure>) -> (r: Vec<CompiledHealthCheckView>)
    ensures
        ({
            let n = d.health_checks@.len() as int;
            let kept = health_checks_kept(*d, n);
            &&& r@.len() == kept.len()
            &&& forall|k: int| 0 <= k < kept.len() ==> 0 <= #[trigger] kept[k] < n
                && health_check_view_of(r@[k], d.health_checks@[kept[k]])
            &&& failure_triples(final(failures)@) == failure_triples(old(failures)@)
                + of_kind("health_check"@, health_check_refusals(*d, n))
        }),
{
    proof {
        reveal_strlit("health_check");
        reveal_strlit("missing tenant '");
        reveal_strlit("missing network '");
    }
    let ghost base = failure_triples(failures@);
    assert(base + of_kind("health_check"@, Seq::empty()) =~= base);
    let has_tenants = d.tenants.len() > 0;
    let mut views: Vec<CompiledHealthCheckView> = Vec::new();
    let mut i: usize = 0;
    while i < d.health_checks.len()
        invariant
            i <= d.health_checks.len(),
            has_tenants == (tenant_ids(*d).len() > 0),
            views@.len() == health_checks_kept(*d, i as int).len(),
            forall|k: int| 0 <= k < views@.len() ==> 0 <= #[trigger] health_checks_kept(*d, i as int)[k] < i
                && health_check_view_of(views@[k], d.health_checks@[health_checks_kept(*d, i as int)[k]]),
            failure_triples(failures@) == base + of_kind("health_check"@, health_check_refusals(*d, i as int)),
        decreases d.health_checks.len() - i,
    {
        let h = &d.health_checks[i];
        let ghost before = failures@;
        if has_tenants && !contains_tenant(d, h.spec.tenant_id.as_str()) {
            let f = failure("health_check", &h.metadata.id, missing_message("missing tenant '", h.spec.tenant_id.as_str()));
            failures.push(f);
            proof {
                lemma_push_failure(before, f, base, "health_check"@, health_check_refusals(*d, i as int));
            }
        } else {
            let bad_network = match &h.spec.network_id {
                Some(n) => !contains_network(d, n.as_str()),
                None => false,
            };
            if bad_network {
                let n = h.spec.network_id.as_ref().unwrap();
                let f = failure("health_check", &h.metadata.id, missing_message("missing network '", n.as_str()));
                failures.push(f);
                proof {
                    lemma_push_failure(before, f, base, "health_check"@, health_check_refusals(*d, i as int));
                }
            } else {
                views.push(CompiledHealthCheckView {
                    health_check_id: h.metadata.id.clone(),
                    tenant_id: h.spec.tenant_id.clone(),
                    network_id: clone_opt(&h.spec.network_id),
                    protocol: h.spec.protocol.clone(),
                    target_port: h.spec.target_port,
                });
            }
        }
        i = i + 1;
    }
    views
}

fn walk_backends(
    bs_id: &String,
    backends: &Vec<BackendTargetSpec>,
    ports: &Vec<PortResource>,
    node: &str,
    warnings: &mut Vec<String>,
) -> (r: (usize, usize, Option<String>))
    ensures
        ({
            let w = walk(bs_id@, backends@, ports@, node@, backends@.len() as int);
            &&& r.0 == w.0
            &&& r.1 == w.1
            &&& opt_view(r.2) == w.3
            &&& strs(final(warnings)@) == strs(old(warnings)@) + w.2
        }),
{
    proof {
        reveal_strlit("local");
        reveal_strlit("backend '");
        reveal_strlit("' references local port '");
        reveal_strlit("' that is missing from desired envelope");
        reveal_strlit("backend_set '");
        reveal_strlit("' backend '");
        reveal_strlit("' references remote port '");
        reveal_strlit("' outside node-local desired envelope; treating as remote shadow backend");
    }
    let ghost base = strs(warnings@);
    assert(base + Seq::<Seq<char>>::empty() =~= base);
    let mut local: usize = 0;
    let mut remote: usize = 0;
    let mut failed: Option<String> = None;
    let mut k: usize = 0;
    while k < backends.len()
        invariant
            k <= backends.len(),
            local + remote <= k,
            local == walk(bs_id@, backends@, ports@, node@, k as int).0,
            remote == walk(bs_id@, backends@, ports@, node@, k as int).1,
            opt_view(failed) == walk(bs_id@, backends@, ports@, node@, k as int).3,
            strs(warnings@) == base + walk(bs_id@, backends@, ports@, node@, k as int).2,
        decreases backends.len() - k,
    {
        if failed.is_none() {
            let b = &backends[k];
            match &b.target_ref {
                Some(r) => match port_by_id_exec(ports, r.as_str()) {
                    Some(p) => {
                        let here = match &p.spec.node_id {
                            Some(n) => str_eq(n.as_str(), node),
                            None => true,
                        };
                        if here {
                            local = local + 1;
                        } else {
                            remote = remote + 1;
                        }
                    },
                    None => {
                        let pinned = match &b.node_id {
                            Some(n) => str_eq(n.as_str(), node),
                            None => false,
                        };
                        let declared_local = match &b.locality {
                            Some(l) => str_eq(l.as_str(), "local"),
                            None => false,
                        };
                        if pinned || declared_local {
                            let m1 = concat3("backend '", b.id.as_str(), "' references local port '");
                            let m = concat3(m1.as_str(), r.as_str(), "' that is missing from desired envelope");
                            failed = Some(m);
                            local = 0;
                            remote = 0;
                        } else {
                            let m1 = concat3("backend_set '", bs_id.as_str(), "' backend '");
                            let m2 = concat3(m1.as_str(), b.id.as_str(), "' references remote port '");
                            let m = concat3(m2.as_str(), r.as_str(),
                                "' outside node-local desired envelope; treating as remote shadow backend");
                            let ghost wv = warnings@;
                            warnings.push(m);
                            assert(strs(warnings@) =~= strs(wv).push(m@));
                            remote = remote + 1;
                        }
                    },
                },
                None => {
                    let declared_local = match &b.locality {
                        Some(l) => str_eq(l.as_str(), "local"),
                        None => false,
                    };
                    if declared_local {
                        local = local + 1;
                    } else {
                        remote = remote + 1;
                    }
                },
            }
        }
        proof {
            let w = walk(bs_id@, backends@, ports@, node@, k as int);
            let w2 = walk(bs_id@, backends@, ports@, node@, k + 1);
            assert(w2 == walk_step(w, bs_id@, backends@[k as int], ports@, node@));
            assert(base + w2.2 =~= if w2.2 == w.2 { base + w.2 } else { (base + w.2).push(w2.2.last()) });
        }
        k = k + 1;
    }
    (local, remote, failed)
}

fn compile_backend_sets(
    d: &DesiredStateEnvelope,
    node: &str,
    failures: &mut Vec<ApplyObjectFailure>,
    warnings: &mut Vec<String>,
) -> (r: Vec<CompiledBackendSetView>)
    ensures
        ({
            let n = d.backend_sets@.len() as int;
            let st = backend_sets(*d, node@, n);
            &&& r@.len() == st.0.len()
            &&& forall|k: int| 0 <= k < st.0.len() ==> 0 <= (#[trigger] st.0[k]).0 < n
                && backend_set_view_of(r@[k], d.backend_sets@[st.0[k].0], st.0[k].1, st.0[k].2)
            &&& failure_triples(final(failures)@) == failure_triples(old(failures)@) + of_kind("backend_set"@, st.1)
            &&& strs(final(warnings)@) == strs(old(warnings)@) + st.2
        }),
{
    proof {
        reveal_strlit("backend_set");
        reveal_strlit("missing tenant '");
        reveal_strlit("missing network '");
        reveal_strlit("missing health_check '");
    }
    let ghost fbase = failure_triples(failures@);
    let ghost wbase = strs(warnings@);
    assert(fbase + of_kind("backend_set"@, Seq::empty()) =~= fbase);
    assert(wbase + Seq::<Seq<char>>::empty() =~= wbase);
    let has_tenants = d.tenants.len() > 0;
    let mut views: Vec<CompiledBackendSetView> = Vec::new();
    let mut refused: Vec<String> = Vec::new();
    let mut i: usize = 0;
    while i < d.backend_sets.len()
        invariant
            i <= d.backend_sets.len(),
            has_tenants == (tenant_ids(*d).len() > 0),
            views@.len() == backend_sets(*d, node@, i as int).0.len(),
            forall|k: int| 0 <= k < views@.len() ==> 0 <= (#[trigger] backend_sets(*d, node@, i as int).0[k]).0 < i
                && backend_set_view_of(views@[k], d.backend_sets@[backend_sets(*d, node@, i as int).0[k].0],
                    backend_sets(*d, node@, i as int).0[k].1, backend_sets(*d, node@, i as int).0[k].2),
            failure_triples(failures@) == fbase + of_kind("backend_set"@, backend_sets(*d, node@, i as int).1),
            strs(refused@) == refused_ids(backend_sets(*d, node@, i as int).1),
            strs(warnings@) == wbase + backend_sets(*d, node@, i as int).2,
        decreases d.backend_sets.len() - i,
    {
        let b = &d.backend_sets[i];
        let ghost st = backend_sets(*d, node@, i as int);
        let ghost before = failures@;
        let ghost rbefore = refused@;
        assert(backend_sets(*d, node@, i + 1) == backend_set_step(st, i as int, *b, *d, node@));
        let mut reason: Option<String> = None;
        if has_tenants && !contains_tenant(d, b.spec.tenant_id.as_str()) {
            reason = Some(missing_message("missing tenant '", b.spec.tenant_id.as_str()));
        } else if !contains_network(d, b.spec.network_id.as_str()) {
            reason = Some(missing_message("missing network '", b.spec.network_id.as_str()));
        } else {
            let bad_check = match &b.spec.health_check_id {
                Some(h) => !contains_health_check(d, h.as_str()),
                None => false,
            };
            if bad_check {
                let h = b.spec.health_check_id.as_ref().unwrap();
                reason = Some(missing_message("missing health_check '", h.as_str()));
            }
        }
        match reason {
            Some(m) => {
                let ghost mv = m@;
                let f = failure("backend_set", &b.metadata.id, m);
                failures.push(f);
                refused.push(b.metadata.id.clone());
                proof {
                    lemma_push_failure(before, f, fbase, "backend_set"@, st.1);
                    assert(strs(refused@) =~= strs(rbefore).push(b.metadata.id@));
                    assert(refused_ids(st.1.push((b.metadata.id@, mv))) =~= refused_ids(st.1).push(b.metadata.id@));
                }
            },
            None => {
                let ghost wbefore = warnings@;
                let (local, remote, walk_failure) = walk_backends(&b.metadata.id, &b.spec.backends, &d.ports, node, warnings);
                let ghost w = walk(b.metadata.id@, b.spec.backends@, d.ports@, node@, b.spec.backends@.len() as int);
                assert(strs(warnings@) =~= wbase + (st.2 + w.2));
                let earlier = contains_str_in(&refused, b.metadata.id.as_str());
                match walk_failure {
                    Some(m) => {
                        let ghost mv = m@;
                        let f = failure("backend_set", &b.metadata.id, m);
                        failures.push(f);
                        refused.push(b.metadata.id.clone());
                        proof {
                            lemma_push_failure(before, f, fbase, "backend_set"@, st.1);
                            assert(strs(refused@) =~= strs(rbefore).push(b.metadata.id@));
                            assert(refused_ids(st.1.push((b.metadata.id@, mv))) =~= refused_ids(st.1).push(b.metadata.id@));
                        }
                    },
                    None => {
                        if !earlier {
                            views.push(CompiledBackendSetView {
                                backend_set_id: b.metadata.id.clone(),
                                tenant_id: b.spec.tenant_id.clone(),
                                network_id: b.spec.network_id.clone(),
                                health_check_id: clone_opt(&b.spec.health_check_id),
                                policy: b.spec.policy.clone(),
                                backend_count: b.spec.backends.len(),
                                local_backend_count: local,
                                remote_backend_count: remote,
                            });
                        }
                    },
                }
            },
        }
        i = i + 1;
    }
    views
}

/// The health checks, backend sets and services a node compiles, and the
/// refusals and warnings of the rest.
#[derive(Debug)]
pub struct ServiceObjects {
    pub health_checks: Vec<CompiledHealthCheckView>,
    pub backend_sets: Vec<CompiledBackendSetView>,
    pub services: Vec<CompiledServiceView>,
    pub failures: Vec<ApplyObjectFailure>,
    pub warnings: Vec<String>,
}

/// The health checks, backend sets and services of `desired` that node
/// `node_id` compiles: health checks whose tenant and network exist;
/// backend sets whose tenant, network and health check exist, no backend
/// of which refers to a local port missing from the envelope, and whose id
/// was not refused before, with their local and remote backend counts;
/// services whose tenant and network exist and whose backend set compiled.
/// The refusals come in that order, each stage in the envelope's order.
pub fn compile_service_objects(desired: &DesiredStateEnvelope, node_id: &str) -> (r: ServiceObjects)
    ensures
        ({
            let d = *desired;
            let hk = health_checks_kept(d, d.health_checks@.len() as int);
            let bs = backend_sets(d, node_id@, d.backend_sets@.len() as int);
            let sets = compiled_set_ids(d, node_id@);
            let sk = services_kept(d, sets, d.services@.len() as int);
            &&& r.health_checks@.len() == hk.len()
            &&& forall|k: int| 0 <= k < hk.len() ==> 0 <= #[trigger] hk[k] < d.health_checks@.len()
                && health_check_view_of(r.health_checks@[k], d.health_checks@[hk[k]])
            &&& r.backend_sets@.len() == bs.0.len()
            &&& forall|k: int| 0 <= k < bs.0.len() ==> 0 <= (#[trigger] bs.0[k]).0 < d.backend_sets@.len()
                && backend_set_view_of(r.backend_sets@[k], d.backend_sets@[bs.0[k].0], bs.0[k].1, bs.0[k].2)
            &&& r.services@.len() == sk.len()
            &&& forall|k: int| 0 <= k < sk.len() ==> 0 <= #[trigger] sk[k] < d.services@.len()
                && service_view_of(r.services@[k], d.services@[sk[k]])
            &&& failure_triples(r.failures@) == of_kind("health_check"@, health_check_refusals(d, d.health_checks@.len() as int))
                + of_kind("backend_set"@, bs.1)
                + of_kind("service"@, service_refusals(d, sets, d.services@.len() as int))
            &&& strs(r.warnings@) == bs.2
        }),
{
    proof {
        reveal_strlit("service");
        reveal_strlit("missing tenant '");
        reveal_strlit("missing network '");
        reveal_strlit("missing backend_set '");
    }
    let mut failures: Vec<ApplyObjectFailure> = Vec::new();
    let mut warnings: Vec<String> = Vec::new();
    assert(failure_triples(failures@) =~= Seq::<(Seq<char>, Seq<char>, Seq<char>)>::empty());
    assert(strs(warnings@) =~= Seq::<Seq<char>>::empty());
    let health_checks = compile_health_checks(desired, &mut failures);
    let backend_set_views = compile_backend_sets(desired, node_id, &mut failures, &mut warnings);
    let ghost d = *desired;
    let ghost bs = backend_sets(d, node_id@, d.backend_sets@.len() as int);
    let ghost sets = compiled_set_ids(d, node_id@);
    assert(Seq::<(Seq<char>, Seq<char>, Seq<char>)>::empty() + of_kind("health_check"@,
        health_check_refusals(d, d.health_checks@.len() as int))
        =~= of_kind("health_check"@, health_check_refusals(d, d.health_checks@.len() as int)));
    assert(Seq::<Seq<char>>::empty() + bs.2 =~= bs.2);
    let mut set_ids: Vec<String> = Vec::new();
    let mut k: usize = 0;
    while k < backend_set_views.len()
        invariant
            k <= backend_set_views.len(),
            backend_set_views@.len() == bs.0.len(),
            sets == bs.0.map_values(|x: (int, nat, nat)| d.backend_sets@[x.0].metadata.id@),
            forall|j: int| 0 <= j < bs.0.len() ==> 0 <= (#[trigger] bs.0[j]).0 < d.backend_sets@.len()
                && backend_set_view_of(backend_set_views@[j], d.backend_sets@[bs.0[j].0], bs.0[j].1, bs.0[j].2),
            strs(set_ids@) == sets.take(k as int),
        decreases backend_set_views.len() - k,
    {
        let ghost before = set_ids@;
        set_ids.push(backend_set_views[k].backend_set_id.clone());
        proof {
            assert(backend_set_view_of(backend_set_views@[k as int], d.backend_sets@[bs.0[k as int].0],
                bs.0[k as int].1, bs.0[k as int].2));
            assert(strs(set_ids@) =~= strs(before).push(sets[k as int]));
            assert(sets.take(k + 1) =~= sets.take(k as int).push(sets[k as int]));
        }
        k = k + 1;
    }
    assert(sets.take(k as int) =~= sets);
    let ghost fbase = failure_triples(failures@);
    assert(fbase + of_kind("service"@, Seq::empty()) =~= fbase);
    let has_tenants = desired.tenants.len() > 0;
    let mut services: Vec<CompiledServiceView> = Vec::new();
    let mut i: usize = 0;
    while i < desired.services.len()
        invariant
            i <= desired.services.len(),
            d == *desired,
            has_tenants == (tenant_ids(d).len() > 0),
            strs(set_ids@) == sets,
            services@.len() == services_kept(d, sets, i as int).len(),
            forall|k: int| 0 <= k < services@.len() ==> 0 <= #[trigger] services_kept(d, sets, i as int)[k] < i
                && service_view_of(services@[k], d.services@[services_kept(d, sets, i as int)[k]]),
            failure_triples(failures@) == fbase + of_kind("service"@, service_refusals(d, sets, i as int)),
        decreases desired.services.len() - i,
    {
        let s = &desired.services[i];
        let ghost before = failures@;
        let mut reason: Option<String> = None;
        if has_tenants && !contains_tenant(desired, s.spec.tenant_id.as_str()) {
            reason = Some(missing_message("missing tenant '", s.spec.tenant_id.as_str()));
        } else if !contains_network(desired, s.spec.network_id.as_str()) {
            reason = Some(missing_message("missing network '", s.spec.network_id.as_str()));
        } else {
            let bad_set = match &s.spec.backend_set_id {
                Some(b) => !contains_str_in(&set_ids, b.as_str()),
                None => false,
            };
            if bad_set {
                let b = s.spec.backend_set_id.as_ref().unwrap();
                reason = Some(missing_message("missing backend_set '", b.as_str()));
            }
        }
        match reason {
            Some(m) => {
                let f = failure("service", &s.metadata.id, m);
                failures.push(f);
                proof {
                    lemma_push_failure(before, f, fbase, "service"@, service_refusals(d, sets, i as int));
                }
            },
            None => {
                services.push(CompiledServiceView {
                    service_id: s.metadata.id.clone(),
                    tenant_id: s.spec.tenant_id.clone(),
                    network_id: s.spec.network_id.clone(),
                    backend_set_id: clone_opt(&s.spec.backend_set_id),
                    vip: s.spec.vip.clone(),
                    protocol: s.spec.protocol.clone(),
                    port_count: s.spec.ports.len(),
                    exposure_type: s.spec.exposure_type.clone(),
                });
            },
        }
        i = i + 1;
    }
    ServiceObjects { health_checks, backend_sets: backend_set_views, services, failures, warnings }
}

/// Every health check that compiles has a tenant of the envelope (when it
/// names any) and, when it is scoped to a network, a network of the
/// envelope; every other health check is refused.
pub proof fn lemma_compiled_health_checks_valid(d: DesiredStateEnvelope, n: int)
    requires
        0 <= n <= d.health_checks@.len(),
    ensures
        forall|k: int| 0 <= k < health_checks_kept(d, n).len() ==> {
            let h = d.health_checks@[#[trigger] health_checks_kept(d, n)[k]];
            &&& 0 <= health_checks_kept(d, n)[k] < n
            &&& tenant_ids(d).len() > 0 ==> tenant_ids(d).contains(h.spec.tenant_id@)
            &&& h.spec.network_id is Some ==> network_ids(d).contains(h.spec.network_id->0@)
        },
        health_checks_kept(d, n).len() + health_check_refusals(d, n).len() == n,
    decreases n,
{
    if n > 0 {
        lemma_compiled_health_checks_valid(d, n - 1);
    }
}

/// Every service that compiles has a tenant of the envelope (when it names
/// any), a network of the envelope, and, when it names a backend set, one
/// that compiled; every other service is refused.
pub proof fn lemma_compiled_services_valid(d: DesiredStateEnvelope, sets: Seq<Seq<char>>, n: int)
    requires
        0 <= n <= d.services@.len(),
    ensures
        forall|k: int| 0 <= k < services_kept(d, sets, n).len() ==> {
            let s = d.services@[#[trigger] services_kept(d, sets, n)[k]];
            &&& 0 <= services_kept(d, sets, n)[k] < n
            &&& tenant_ids(d).len() > 0 ==> tenant_ids(d).contains(s.spec.tenant_id@)
            &&& network_ids(d).contains(s.spec.network_id@)
            &&& s.spec.backend_set_id is Some ==> sets.contains(s.spec.backend_set_id->0@)
        },
        services_kept(d, sets, n).len() + service_refusals(d, sets, n).len() == n,
    decreases n,
{
    if n > 0 {
        lemma_compiled_services_valid(d, sets, n - 1);
    }
}

/// Every backend set that compiles has a tenant of the envelope (when it
/// names any), a network of the envelope, a health check of the envelope
/// when it names one, and no backend that refers to a local port missing
/// from the envelope; its counts are those of the walk over its backends.
pub proof fn lemma_compiled_backend_sets_valid(d: DesiredStateEnvelope, node: Seq<char>, n: int)
    requires
        0 <= n <= d.backend_sets@.len(),
    ensures
        forall|k: int| 0 <= k < backend_sets(d, node, n).0.len() ==> {
            let e = #[trigger] backend_sets(d, node, n).0[k];
            let b = d.backend_sets@[e.0];
            let w = walk(b.metadata.id@, b.spec.backends@, d.ports@, node, b.spec.backends@.len() as int);
            &&& 0 <= e.0 < n
            &&& tenant_ids(d).len() > 0 ==> tenant_ids(d).contains(b.spec.tenant_id@)
            &&& network_ids(d).contains(b.spec.network_id@)
            &&& b.spec.health_check_id is Some ==> health_check_ids(d).contains(b.spec.health_check_id->0@)
            &&& w.3 is None
            &&& e.1 == w.0 && e.2 == w.1
        },
    decreases n,
{
    if n > 0 {
        lemma_compiled_backend_sets_valid(d, node, n - 1);
    }
}

/// The local and remote counts of a walk that no backend refused add up to
/// the number of backends walked.
pub proof fn lemma_walk_counts(bs_id: Seq<char>, backends: Seq<BackendTargetSpec>, ports: Seq<PortResource>,
    node: Seq<char>, k: int)
    requires
        0 <= k <= backends.len(),
    ensures
        walk(bs_id, backends, ports, node, k).3 is None ==> walk(bs_id, backends, ports, node, k).0
            + walk(bs_id, backends, ports, node, k).1 == k,
    decreases k,
{
    if k > 0 {
        lemma_walk_counts(bs_id, backends, ports, node, k - 1);
    }
}

} // verus!
