//! The socket load-balancing plan: for each listener of an internal
//! service, how a backend would be chosen.
use vstd::prelude::*;
use crate::agent::counters::{
    is_internal, lemma_sum_of_add, lemma_sum_of_le, lemma_sum_of_prefix, lemma_sum_of_take, one_where, sum_of,
};
use crate::agent::helpers::{
    normalize_socket_affinity_strategy, normalize_socket_lb_strategy, socket_affinity_strategy, socket_lb_strategy,
    unix_timestamp_string,
};
use crate::agent::ir::{
    BackendMemberIr, BackendSetIr, CompiledNodeState, ServiceFrontendPortIr, ServiceProgramIr, SocketBackendCandidate,
    SocketBackendChoiceShape, SocketSelectionPlan, SocketSelectionPlanEntry, SocketSelectionPlanSummary,
};
use crate::text::{clone_opt, decimal, opt_view, str_eq};

verus! {

broadcast use vstd::string::group_string_axioms;

/// A backend takes part in selection unless it is administratively disabled.
pub open spec fn enabled(b: BackendMemberIr) -> bool {
    b.admin_state@ != "disabled"@
}

/// The backend resolved to this node.
pub open spec fn is_local(b: BackendMemberIr) -> bool {
    b.resolved_locality@ == "local"@
}

/// The backend resolved to another node.
pub open spec fn is_remote(b: BackendMemberIr) -> bool {
    b.resolved_locality@ == "remote"@
}

/// The enabled backends, in order.
pub open spec fn enabled_backends(s: Seq<BackendMemberIr>) -> Seq<BackendMemberIr>
    decreases s.len(),
{
    if s.len() == 0 {
        Seq::empty()
    } else if enabled(s.last()) {
        enabled_backends(s.drop_last()).push(s.last())
    } else {
        enabled_backends(s.drop_last())
    }
}

/// The weight of the enabled backends that satisfy `pred`.
pub open spec fn enabled_weight_where(pred: spec_fn(BackendMemberIr) -> bool) -> spec_fn(BackendMemberIr) -> nat {
    |b: BackendMemberIr| if enabled(b) && pred(b) { b.weight as nat } else { 0nat }
}

/// The kind of handoff that a forwarding mode needs for remote backends.
pub open spec fn handoff_of(mode: Seq<char>) -> Seq<char> {
    if mode == "cross_node_overlay"@ {
        "overlay"@
    } else if mode == "cross_node_hybrid"@ {
        "hybrid"@
    } else {
        "native"@
    }
}

/// `c` is the selection candidate of backend `b`.
pub open spec fn candidate_of(c: SocketBackendCandidate, b: BackendMemberIr) -> bool {
    &&& c.backend_id@ == b.backend_id@
    &&& c.target_type@ == b.target_type@
    &&& opt_view(c.resolved_ip_hint) == opt_view(b.resolved_ip_hint)
    &&& c.port == b.service_port
    &&& c.weight == b.weight
    &&& c.locality@ == b.resolved_locality@
    &&& c.forwarding_scope@ == b.forwarding_scope@
    &&& c.health_state@ == "unknown"@
}

/// The backends of an optional backend set (none when absent).
pub open spec fn backends_of(bs: Option<BackendSetIr>) -> Seq<BackendMemberIr> {
    match bs {
        Some(b) => b.backends@,
        None => Seq::empty(),
    }
}

/// The enabled weight of a backend set fits in a `u32`.
pub open spec fn weights_fit(bs: Option<BackendSetIr>) -> bool {
    sum_of(backends_of(bs), enabled_weight_where(|b: BackendMemberIr| true)) <= u32::MAX
}

/// `r` is the backend choice over `bs` under forwarding mode `mode`: its
/// candidates are the enabled backends, with their counts and weights, split
/// by locality, and a handoff when some candidate is remote.
pub open spec fn choice_shape_for(r: SocketBackendChoiceShape, bs: Option<BackendSetIr>, mode: Seq<char>) -> bool {
    let s = backends_of(bs);
    let e = enabled_backends(s);
    &&& r.candidates.len() == e.len()
    &&& forall|i: int| 0 <= i < e.len() ==> candidate_of(#[trigger] r.candidates@[i], e[i])
    &&& r.total_candidates == e.len()
    &&& r.local_candidates == sum_of(s, one_where(|b: BackendMemberIr| enabled(b) && is_local(b)))
    &&& r.remote_candidates == sum_of(s, one_where(|b: BackendMemberIr| enabled(b) && is_remote(b)))
    &&& r.total_weight == sum_of(s, enabled_weight_where(|b: BackendMemberIr| true))
    &&& r.local_weight == sum_of(s, enabled_weight_where(|b: BackendMemberIr| is_local(b)))
    &&& r.remote_weight == sum_of(s, enabled_weight_where(|b: BackendMemberIr| is_remote(b)))
    &&& opt_view(r.handoff_type) == if r.remote_candidates > 0 { Some(handoff_of(mode)) } else { None }
}

proof fn lemma_enabled_take(s: Seq<BackendMemberIr>, i: int)
    requires
        0 <= i < s.len(),
    ensures
        enabled_backends(s.take(i + 1)) == if enabled(s[i]) {
            enabled_backends(s.take(i)).push(s[i])
        } else {
            enabled_backends(s.take(i))
        },
{
    assert(s.take(i + 1).drop_last() =~= s.take(i));
}

proof fn lemma_enabled_len(s: Seq<BackendMemberIr>)
    ensures
        enabled_backends(s).len() <= s.len(),
    decreases s.len(),
{
    if s.len() > 0 {
        lemma_enabled_len(s.drop_last());
    }
}

/// The shape of the backend choice for a listener: the enabled backends of
/// `backend_set` as candidates, their counts and weights by locality, and the
/// handoff that `forwarding_mode` needs when some candidate is remote.
pub fn build_backend_choice_shape(backend_set: Option<&BackendSetIr>, forwarding_mode: &str)
    -> (r: SocketBackendChoiceShape)
    requires
        weights_fit(match backend_set { Some(b) => Some(*b), None => None }),
    ensures
        choice_shape_for(r, match backend_set { Some(b) => Some(*b), None => None }, forwarding_mode@),
{
    let backends = match backend_set {
        Some(bs) => &bs.backends,
        None => {
            return SocketBackendChoiceShape {
                total_candidates: 0,
                local_candidates: 0,
                remote_candidates: 0,
                total_weight: 0,
                local_weight: 0,
                remote_weight: 0,
                handoff_type: None,
                candidates: Vec::new(),
            };
        },
    };
    let ghost s = backends@;
    let ghost fl = one_where(|b: BackendMemberIr| enabled(b) && is_local(b));
    let ghost fr = one_where(|b: BackendMemberIr| enabled(b) && is_remote(b));
    let ghost wt = enabled_weight_where(|b: BackendMemberIr| true);
    let ghost wl = enabled_weight_where(|b: BackendMemberIr| is_local(b));
    let ghost wr = enabled_weight_where(|b: BackendMemberIr| is_remote(b));
    let mut candidates: Vec<SocketBackendCandidate> = Vec::new();
    let mut local_candidates: usize = 0;
    let mut remote_candidates: usize = 0;
    let mut total_weight: u32 = 0;
    let mut local_weight: u32 = 0;
    let mut remote_weight: u32 = 0;
    let mut i: usize = 0;
    while i < backends.len()
        invariant
            i <= backends.len(),
            s == backends@,
            sum_of(s, wt) <= u32::MAX,
            fl == one_where(|b: BackendMemberIr| enabled(b) && is_local(b)),
            fr == one_where(|b: BackendMemberIr| enabled(b) && is_remote(b)),
            wt == enabled_weight_where(|b: BackendMemberIr| true),
            wl == enabled_weight_where(|b: BackendMemberIr| is_local(b)),
            wr == enabled_weight_where(|b: BackendMemberIr| is_remote(b)),
            candidates.len() == enabled_backends(s.take(i as int)).len(),
            forall|j: int| 0 <= j < candidates.len() ==> candidate_of(#[trigger] candidates@[j],
                enabled_backends(s.take(i as int))[j]),
            local_candidates == sum_of(s.take(i as int), fl),
            remote_candidates == sum_of(s.take(i as int), fr),
            total_weight == sum_of(s.take(i as int), wt),
            local_weight == sum_of(s.take(i as int), wl),
            remote_weight == sum_of(s.take(i as int), wr),
            local_candidates <= i,
            remote_candidates <= i,
            local_weight <= total_weight,
            remote_weight <= total_weight,
        decreases backends.len() - i,
    {
        let b = &backends[i];
        proof {
            lemma_enabled_take(s, i as int);
            lemma_sum_of_take(s, fl, i as int);
            lemma_sum_of_take(s, fr, i as int);
            lemma_sum_of_take(s, wt, i as int);
            lemma_sum_of_take(s, wl, i as int);
            lemma_sum_of_take(s, wr, i as int);
            lemma_sum_of_prefix(s, wt, i + 1);
        }
        if !str_eq(b.admin_state.as_str(), "disabled") {
            let local = str_eq(b.resolved_locality.as_str(), "local");
            let remote = str_eq(b.resolved_locality.as_str(), "remote");
            let w: u32 = b.weight as u32;
            let ghost before = candidates@;
            candidates.push(SocketBackendCandidate {
                backend_id: b.backend_id.clone(),
                target_type: b.target_type.clone(),
                resolved_ip_hint: clone_opt(&b.resolved_ip_hint),
                port: b.service_port,
                weight: b.weight,
                locality: b.resolved_locality.clone(),
                forwarding_scope: b.forwarding_scope.clone(),
                health_state: "unknown".to_string(),
            });
            proof {
                assert forall|j: int| 0 <= j < candidates.len() implies candidate_of(#[trigger] candidates@[j],
                    enabled_backends(s.take(i + 1))[j]) by {
                    if j < before.len() {
                        assert(candidates@[j] == before[j]);
                    }
                }
            }
            total_weight = total_weight + w;
            if local {
                local_candidates = local_candidates + 1;
                local_weight = local_weight + w;
            }
            if remote {
                remote_candidates = remote_candidates + 1;
                remote_weight = remote_weight + w;
            }
        }
        i = i + 1;
    }
    proof {
        assert(s.take(i as int) =~= s);
    }
    let handoff_type = if remote_candidates > 0 {
        if str_eq(forwarding_mode, "cross_node_overlay") {
            Some("overlay".to_string())
        } else if str_eq(forwarding_mode, "cross_node_hybrid") {
            Some("hybrid".to_string())
        } else {
            Some("native".to_string())
        }
    } else {
        None
    };
    SocketBackendChoiceShape {
        total_candidates: candidates.len(),
        local_candidates,
        remote_candidates,
        total_weight,
        local_weight,
        remote_weight,
        handoff_type,
        candidates,
    }
}

/// The listeners of the internal services, each with its program, in
/// program order and then port order.
pub open spec fn listener_sources(p: Seq<ServiceProgramIr>) -> Seq<(ServiceProgramIr, ServiceFrontendPortIr)>
    decreases p.len(),
{
    if p.len() == 0 {
        Seq::empty()
    } else {
        listener_sources(p.drop_last()) + if is_internal(p.last()) {
            p.last().frontend.listener_ports@.map_values(|l: ServiceFrontendPortIr| (p.last(), l))
        } else {
            Seq::empty()
        }
    }
}

/// The local and remote backend counts that a program's backend set declares.
pub open spec fn declared_counts(p: ServiceProgramIr) -> (usize, usize) {
    match p.backend_set {
        Some(bs) => (bs.local_backend_count, bs.remote_backend_count),
        None => (0usize, 0usize),
    }
}

/// `e` is the plan entry for listener `l` of program `p`.
pub open spec fn entry_for(e: SocketSelectionPlanEntry, p: ServiceProgramIr, l: ServiceFrontendPortIr) -> bool {
    let (local, remote) = declared_counts(p);
    &&& e.service_id@ == p.service_id@
    &&& e.service_name is None
    &&& e.vip@ == p.frontend.vip@
    &&& e.protocol@ == p.frontend.protocol@
    &&& e.service_port == l.service_port
    &&& e.target_port == l.target_port
    &&& e.lb_policy@ == p.frontend.lb_policy@
    &&& opt_view(e.session_affinity) == opt_view(p.frontend.session_affinity)
    &&& e.normalized_lb_strategy@ == socket_lb_strategy(p.frontend.lb_policy@)
    &&& e.normalized_affinity_strategy@ == socket_affinity_strategy(opt_view(p.frontend.session_affinity))
    &&& e.forwarding_mode@ == p.frontend.forwarding_mode@
    &&& e.local_backend_count == local
    &&& e.remote_backend_count == remote
    &&& e.handoff_required == (remote > 0)
    &&& choice_shape_for(e.backend_choice, p.backend_set, p.frontend.forwarding_mode@)
    &&& e.shadow_apply_only
}

/// Entries whose normalized balancing strategy is `s`.
pub open spec fn lb_is(s: Seq<char>) -> spec_fn(SocketSelectionPlanEntry) -> nat {
    one_where(|e: SocketSelectionPlanEntry| e.normalized_lb_strategy@ == s)
}

/// Entries whose normalized affinity strategy is `s`.
pub open spec fn affinity_is(s: Seq<char>) -> spec_fn(SocketSelectionPlanEntry) -> nat {
    one_where(|e: SocketSelectionPlanEntry| e.normalized_affinity_strategy@ == s)
}

/// `m` counts the entries `v` by handoff, strategy and candidates.
pub open spec fn summary_for(m: SocketSelectionPlanSummary, v: Seq<SocketSelectionPlanEntry>) -> bool {
    &&& m.listener_count == v.len()
    &&& m.node_local_listener_count == sum_of(v, one_where(|e: SocketSelectionPlanEntry| !e.handoff_required))
    &&& m.cross_node_handoff_listener_count == sum_of(v, one_where(|e: SocketSelectionPlanEntry| e.handoff_required))
    &&& m.random_listener_count == sum_of(v, lb_is("random"@))
    &&& m.maglev_listener_count == sum_of(v, lb_is("maglev"@))
    &&& m.deferred_hash_listener_count == sum_of(v, lb_is("deferred_hash"@))
    &&& m.unsupported_policy_listener_count == sum_of(v, lb_is("unsupported"@))
    &&& m.affinity_listener_count == sum_of(v, one_where(|e: SocketSelectionPlanEntry| e.normalized_affinity_strategy@ != "none"@))
    &&& m.client_ip_affinity_listener_count == sum_of(v, affinity_is("client_ip"@))
    &&& m.deferred_affinity_listener_count == sum_of(v, affinity_is("deferred_5tuple"@))
    &&& m.unsupported_affinity_listener_count == sum_of(v, affinity_is("unsupported"@))
    &&& m.total_backend_candidates == sum_of(v, |e: SocketSelectionPlanEntry| e.backend_choice.total_candidates as nat)
    &&& m.total_local_candidates == sum_of(v, |e: SocketSelectionPlanEntry| e.backend_choice.local_candidates as nat)
    &&& m.total_remote_candidates == sum_of(v, |e: SocketSelectionPlanEntry| e.backend_choice.remote_candidates as nat)
    &&& m.listeners_with_no_backends == sum_of(v, one_where(|e: SocketSelectionPlanEntry| e.backend_choice.total_candidates == 0))
    &&& m.shadow_apply_only
}

/// Backends behind a listener source.
pub open spec fn source_backends(s: (ServiceProgramIr, ServiceFrontendPortIr)) -> nat {
    backends_of(s.0.backend_set).len()
}

/// The plan's counters fit: every backend set's weight fits a `u32`, and
/// the backends behind all internal listeners together fit a `usize`.
pub open spec fn socket_plan_fits(state: &CompiledNodeState) -> bool {
    &&& forall|i: int| 0 <= i < state.service_programs.len()
        ==> weights_fit((#[trigger] state.service_programs@[i]).backend_set)
    &&& sum_of(listener_sources(state.service_programs@), |s: (ServiceProgramIr, ServiceFrontendPortIr)| source_backends(s)) <= usize::MAX
}

proof fn lemma_sum_pointwise_le<A, B>(a: Seq<A>, b: Seq<B>, f: spec_fn(A) -> nat, g: spec_fn(B) -> nat)
    requires
        a.len() == b.len(),
        forall|i: int| 0 <= i < a.len() ==> f(#[trigger] a[i]) <= g(b[i]),
    ensures
        sum_of(a, f) <= sum_of(b, g),
    decreases a.len(),
{
    if a.len() > 0 {
        assert forall|i: int| 0 <= i < a.drop_last().len() implies f(#[trigger] a.drop_last()[i]) <= g(b.drop_last()[i]) by {
            assert(a.drop_last()[i] == a[i]);
            assert(f(a[i]) <= g(b[i]));
        }
        lemma_sum_pointwise_le(a.drop_last(), b.drop_last(), f, g);
        assert(f(a[a.len() - 1]) <= g(b[b.len() - 1]));
    }
}

fn entry_of(program: &ServiceProgramIr, listener: &ServiceFrontendPortIr) -> (e: SocketSelectionPlanEntry)
    requires
        weights_fit(program.backend_set),
    ensures
        entry_for(e, *program, *listener),
{
    let (local_backend_count, remote_backend_count) = match &program.backend_set {
        Some(bs) => (bs.local_backend_count, bs.remote_backend_count),
        None => (0, 0),
    };
    let backend_choice = build_backend_choice_shape(
        match &program.backend_set { Some(bs) => Some(bs), None => None },
        program.frontend.forwarding_mode.as_str(),
    );
    let affinity = match &program.frontend.session_affinity {
        Some(a) => Some(a.as_str()),
        None => None,
    };
    SocketSelectionPlanEntry {
        service_id: program.service_id.clone(),
        service_name: None,
        vip: program.frontend.vip.clone(),
        protocol: program.frontend.protocol.clone(),
        service_port: listener.service_port,
        target_port: listener.target_port,
        lb_policy: program.frontend.lb_policy.clone(),
        session_affinity: clone_opt(&program.frontend.session_affinity),
        normalized_lb_strategy: normalize_socket_lb_strategy(program.frontend.lb_policy.as_str()),
        normalized_affinity_strategy: normalize_socket_affinity_strategy(affinity),
        forwarding_mode: program.frontend.forwarding_mode.clone(),
        local_backend_count,
        remote_backend_count,
        handoff_required: remote_backend_count > 0,
        backend_choice,
        shadow_apply_only: true,
    }
}

fn plan_entries(state: &CompiledNodeState) -> (r: Vec<SocketSelectionPlanEntry>)
    requires
        socket_plan_fits(state),
    ensures
        r.len() == listener_sources(state.service_programs@).len(),
        forall|i: int| 0 <= i < r.len() ==> entry_for(#[trigger] r@[i],
            listener_sources(state.service_programs@)[i].0, listener_sources(state.service_programs@)[i].1),
{
    let programs = &state.service_programs;
    let mut entries: Vec<SocketSelectionPlanEntry> = Vec::new();
    let mut i: usize = 0;
    while i < programs.len()
        invariant
            i <= programs.len(),
            programs == &state.service_programs,
            socket_plan_fits(state),
            entries.len() == listener_sources(programs@.take(i as int)).len(),
            forall|k: int| 0 <= k < entries.len() ==> entry_for(#[trigger] entries@[k],
                listener_sources(programs@.take(i as int))[k].0, listener_sources(programs@.take(i as int))[k].1),
        decreases programs.len() - i,
    {
        let program = &programs[i];
        let ghost base = listener_sources(programs@.take(i as int));
        let ghost block = if is_internal(*program) {
            program.frontend.listener_ports@.map_values(|l: ServiceFrontendPortIr| (*program, l))
        } else {
            Seq::<(ServiceProgramIr, ServiceFrontendPortIr)>::empty()
        };
        proof {
            assert(programs@.take(i + 1).drop_last() =~= programs@.take(i as int));
            assert(listener_sources(programs@.take(i + 1)) == base + block);
            assert(weights_fit(programs@[i as int].backend_set));
        }
        if str_eq(program.frontend.exposure_type.as_str(), "internal") {
            let ports = &program.frontend.listener_ports;
            let mut j: usize = 0;
            while j < ports.len()
                invariant
                    j <= ports.len(),
                    ports == &program.frontend.listener_ports,
                    weights_fit(program.backend_set),
                    is_internal(*program),
                    block == program.frontend.listener_ports@.map_values(|l: ServiceFrontendPortIr| (*program, l)),
                    entries.len() == base.len() + j,
                    forall|k: int| 0 <= k < entries.len() ==> entry_for(#[trigger] entries@[k],
                        (base + block)[k].0, (base + block)[k].1),
                decreases ports.len() - j,
            {
                let e = entry_of(program, &ports[j]);
                let ghost before = entries@;
                entries.push(e);
                proof {
                    assert forall|k: int| 0 <= k < entries.len() implies entry_for(#[trigger] entries@[k],
                        (base + block)[k].0, (base + block)[k].1) by {
                        if k < before.len() {
                            assert(entries@[k] == before[k]);
                        } else {
                            assert((base + block)[k] == block[j as int]);
                        }
                    }
                }
                j = j + 1;
            }
        }
        i = i + 1;
    }
    assert(programs@.take(i as int) =~= programs@);
    entries
}

fn plan_summary(entries: &Vec<SocketSelectionPlanEntry>, Ghost(state): Ghost<&CompiledNodeState>)
    -> (m: SocketSelectionPlanSummary)
    requires
        socket_plan_fits(state),
        entries.len() == listener_sources(state.service_programs@).len(),
        forall|i: int| 0 <= i < entries.len() ==> entry_for(#[trigger] entries@[i],
            listener_sources(state.service_programs@)[i].0, listener_sources(state.service_programs@)[i].1),
    ensures
        summary_for(m, entries@),
{
    let ghost v = entries@;
    let ghost src = listener_sources(state.service_programs@);
    let ghost sb = |s: (ServiceProgramIr, ServiceFrontendPortIr)| source_backends(s);
    let ghost f_local = one_where(|e: SocketSelectionPlanEntry| !e.handoff_required);
    let ghost f_hand = one_where(|e: SocketSelectionPlanEntry| e.handoff_required);
    let ghost f_rand = lb_is("random"@);
    let ghost f_mag = lb_is("maglev"@);
    let ghost f_dh = lb_is("deferred_hash"@);
    let ghost f_up = lb_is("unsupported"@);
    let ghost f_aff = one_where(|e: SocketSelectionPlanEntry| e.normalized_affinity_strategy@ != "none"@);
    let ghost f_cip = affinity_is("client_ip"@);
    let ghost f_d5 = affinity_is("deferred_5tuple"@);
    let ghost f_ua = affinity_is("unsupported"@);
    let ghost f_tc = |e: SocketSelectionPlanEntry| e.backend_choice.total_candidates as nat;
    let ghost f_lc = |e: SocketSelectionPlanEntry| e.backend_choice.local_candidates as nat;
    let ghost f_rc = |e: SocketSelectionPlanEntry| e.backend_choice.remote_candidates as nat;
    let ghost f_nb = one_where(|e: SocketSelectionPlanEntry| e.backend_choice.total_candidates == 0);
    proof {
        assert forall|i: int| 0 <= i < v.len() implies f_tc(#[trigger] v[i]) <= sb(src[i]) by {
            assert(entry_for(v[i], src[i].0, src[i].1));
            lemma_enabled_len(backends_of(src[i].0.backend_set));
        }
        lemma_sum_pointwise_le(v, src, f_tc, sb);
        assert forall|i: int| 0 <= i < v.len() implies f_lc(#[trigger] v[i]) <= f_tc(v[i]) by {
            assert(entry_for(v[i], src[i].0, src[i].1));
            let s = backends_of(src[i].0.backend_set);
            crate::agent::counters::lemma_sum_of_le(s,
                one_where(|b: BackendMemberIr| enabled(b) && is_local(b)),
                one_where(|b: BackendMemberIr| enabled(b)));
            lemma_enabled_count(s);
        }
        assert forall|i: int| 0 <= i < v.len() implies f_rc(#[trigger] v[i]) <= f_tc(v[i]) by {
            assert(entry_for(v[i], src[i].0, src[i].1));
            let s = backends_of(src[i].0.backend_set);
            crate::agent::counters::lemma_sum_of_le(s,
                one_where(|b: BackendMemberIr| enabled(b) && is_remote(b)),
                one_where(|b: BackendMemberIr| enabled(b)));
            lemma_enabled_count(s);
        }
        lemma_sum_pointwise_le(v, v, f_lc, f_tc);
        lemma_sum_pointwise_le(v, v, f_rc, f_tc);
    }
    let mut m = SocketSelectionPlanSummary {
        listener_count: entries.len(),
        node_local_listener_count: 0,
        cross_node_handoff_listener_count: 0,
        random_listener_count: 0,
        maglev_listener_count: 0,
        deferred_hash_listener_count: 0,
        unsupported_policy_listener_count: 0,
        affinity_listener_count: 0,
        client_ip_affinity_listener_count: 0,
        deferred_affinity_listener_count: 0,
        unsupported_affinity_listener_count: 0,
        total_backend_candidates: 0,
        total_local_candidates: 0,
        total_remote_candidates: 0,
        listeners_with_no_backends: 0,
        shadow_apply_only: true,
    };
    let mut i: usize = 0;
    while i < entries.len()
        invariant
            i <= entries.len(),
            v == entries@,
            m.listener_count == v.len(),
            m.shadow_apply_only,
            sum_of(v, f_tc) <= usize::MAX,
            sum_of(v, f_lc) <= usize::MAX,
            sum_of(v, f_rc) <= usize::MAX,
            f_local == one_where(|e: SocketSelectionPlanEntry| !e.handoff_required),
            f_hand == one_where(|e: SocketSelectionPlanEntry| e.handoff_required),
            f_rand == lb_is("random"@),
            f_mag == lb_is("maglev"@),
            f_dh == lb_is("deferred_hash"@),
            f_up == lb_is("unsupported"@),
            f_aff == one_where(|e: SocketSelectionPlanEntry| e.normalized_affinity_strategy@ != "none"@),
            f_cip == affinity_is("client_ip"@),
            f_d5 == affinity_is("deferred_5tuple"@),
            f_ua == affinity_is("unsupported"@),
            f_tc == |e: SocketSelectionPlanEntry| e.backend_choice.total_candidates as nat,
            f_lc == |e: SocketSelectionPlanEntry| e.backend_choice.local_candidates as nat,
            f_rc == |e: SocketSelectionPlanEntry| e.backend_choice.remote_candidates as nat,
            f_nb == one_where(|e: SocketSelectionPlanEntry| e.backend_choice.total_candidates == 0),
            m.node_local_listener_count == sum_of(v.take(i as int), f_local),
            m.cross_node_handoff_listener_count == sum_of(v.take(i as int), f_hand),
            m.random_listener_count == sum_of(v.take(i as int), f_rand),
            m.maglev_listener_count == sum_of(v.take(i as int), f_mag),
            m.deferred_hash_listener_count == sum_of(v.take(i as int), f_dh),
            m.unsupported_policy_listener_count == sum_of(v.take(i as int), f_up),
            m.affinity_listener_count == sum_of(v.take(i as int), f_aff),
            m.client_ip_affinity_listener_count == sum_of(v.take(i as int), f_cip),
            m.deferred_affinity_listener_count == sum_of(v.take(i as int), f_d5),
            m.unsupported_affinity_listener_count == sum_of(v.take(i as int), f_ua),
            m.total_backend_candidates == sum_of(v.take(i as int), f_tc),
            m.total_local_candidates == sum_of(v.take(i as int), f_lc),
            m.total_remote_candidates == sum_of(v.take(i as int), f_rc),
            m.listeners_with_no_backends == sum_of(v.take(i as int), f_nb),
            m.node_local_listener_count <= i,
            m.cross_node_handoff_listener_count <= i,
            m.random_listener_count <= i,
            m.maglev_listener_count <= i,
            m.deferred_hash_listener_count <= i,
            m.unsupported_policy_listener_count <= i,
            m.affinity_listener_count <= i,
            m.client_ip_affinity_listener_count <= i,
            m.deferred_affinity_listener_count <= i,
            m.unsupported_affinity_listener_count <= i,
            m.listeners_with_no_backends <= i,
        decreases entries.len() - i,
    {
        let e = &entries[i];
        proof {
            lemma_sum_of_take(v, f_local, i as int);
            lemma_sum_of_take(v, f_hand, i as int);
            lemma_sum_of_take(v, f_rand, i as int);
            lemma_sum_of_take(v, f_mag, i as int);
            lemma_sum_of_take(v, f_dh, i as int);
            lemma_sum_of_take(v, f_up, i as int);
            lemma_sum_of_take(v, f_aff, i as int);
            lemma_sum_of_take(v, f_cip, i as int);
            lemma_sum_of_take(v, f_d5, i as int);
            lemma_sum_of_take(v, f_ua, i as int);
            lemma_sum_of_take(v, f_tc, i as int);
            lemma_sum_of_take(v, f_lc, i as int);
            lemma_sum_of_take(v, f_rc, i as int);
            lemma_sum_of_take(v, f_nb, i as int);
            lemma_sum_of_prefix(v, f_tc, i + 1);
            lemma_sum_of_prefix(v, f_lc, i + 1);
            lemma_sum_of_prefix(v, f_rc, i + 1);
        }
        if e.handoff_required {
            m.cross_node_handoff_listener_count = m.cross_node_handoff_listener_count + 1;
        } else {
            m.node_local_listener_count = m.node_local_listener_count + 1;
        }
        let lb = e.normalized_lb_strategy.as_str();
        if str_eq(lb, "random") {
            m.random_listener_count = m.random_listener_count + 1;
        }
        if str_eq(lb, "maglev") {
            m.maglev_listener_count = m.maglev_listener_count + 1;
        }
        if str_eq(lb, "deferred_hash") {
            m.deferred_hash_listener_count = m.deferred_hash_listener_count + 1;
        }
        if str_eq(lb, "unsupported") {
            m.unsupported_policy_listener_count = m.unsupported_policy_listener_count + 1;
        }
        let aff = e.normalized_affinity_strategy.as_str();
        if !str_eq(aff, "none") {
            m.affinity_listener_count = m.affinity_listener_count + 1;
        }
        if str_eq(aff, "client_ip") {
            m.client_ip_affinity_listener_count = m.client_ip_affinity_listener_count + 1;
        }
        if str_eq(aff, "deferred_5tuple") {
            m.deferred_affinity_listener_count = m.deferred_affinity_listener_count + 1;
        }
        if str_eq(aff, "unsupported") {
            m.unsupported_affinity_listener_count = m.unsupported_affinity_listener_count + 1;
        }
        m.total_backend_candidates = m.total_backend_candidates + e.backend_choice.total_candidates;
        m.total_local_candidates = m.total_local_candidates + e.backend_choice.local_candidates;
        m.total_remote_candidates = m.total_remote_candidates + e.backend_choice.remote_candidates;
        if e.backend_choice.total_candidates == 0 {
            m.listeners_with_no_backends = m.listeners_with_no_backends + 1;
        }
        i = i + 1;
    }
    assert(v.take(i as int) =~= v);
    m
}

proof fn lemma_enabled_count(s: Seq<BackendMemberIr>)
    ensures
        sum_of(s, one_where(|b: BackendMemberIr| enabled(b))) == enabled_backends(s).len(),
    decreases s.len(),
{
    if s.len() > 0 {
        lemma_enabled_count(s.drop_last());
    }
}

/// The socket selection plan: one entry per listener port of each internal
/// service, with its normalized strategies and backend choice, and a summary
/// that counts them; the previous generation when it differs; and the
/// observation time, the current Unix time in seconds.
pub fn build_socket_selection_plan(previous_state: Option<&CompiledNodeState>, compiled_state: &CompiledNodeState)
    -> (r: SocketSelectionPlan)
    requires
        socket_plan_fits(compiled_state),
    ensures
        r.generation == compiled_state.generation,
        r.previous_generation == (match previous_state {
            Some(p) => if p.generation@ != compiled_state.generation@ { Some(p.generation) } else { None::<String> },
            None => None::<String>,
        }),
        r.compiled_at == compiled_state.compiled_at,
        exists|secs: nat| r.observed_at@ == decimal(secs),
        r.entries.len() == listener_sources(compiled_state.service_programs@).len(),
        forall|i: int| 0 <= i < r.entries.len() ==> entry_for(#[trigger] r.entries@[i],
            listener_sources(compiled_state.service_programs@)[i].0,
            listener_sources(compiled_state.service_programs@)[i].1),
        summary_for(r.summary, r.entries@),
        r.shadow_apply_only,
{
    let entries = plan_entries(compiled_state);
    let summary = plan_summary(&entries, Ghost(compiled_state));
    let previous_generation = match previous_state {
        Some(p) => if !str_eq(p.generation.as_str(), compiled_state.generation.as_str()) {
            Some(p.generation.clone())
        } else {
            None
        },
        None => None,
    };
    SocketSelectionPlan {
        generation: compiled_state.generation.clone(),
        previous_generation,
        compiled_at: compiled_state.compiled_at.clone(),
        observed_at: unix_timestamp_string(),
        entries,
        summary,
        shadow_apply_only: true,
    }
}


/// Every listener is either served on this node or handed off: the two
/// counts add up to the number of listeners.
pub proof fn lemma_listeners_split(m: SocketSelectionPlanSummary, v: Seq<SocketSelectionPlanEntry>)
    requires
        summary_for(m, v),
    ensures
        m.node_local_listener_count + m.cross_node_handoff_listener_count == m.listener_count,
{
    let f = one_where(|e: SocketSelectionPlanEntry| !e.handoff_required);
    let g = one_where(|e: SocketSelectionPlanEntry| e.handoff_required);
    lemma_sum_of_add(v, f, g, |e: SocketSelectionPlanEntry| 1nat);
    crate::agent::counters::lemma_sum_of_ones(v);
}

/// A backend choice never counts more local and remote candidates, or
/// more local and remote weight, than it has in all.
pub proof fn lemma_choice_split_bounded(r: SocketBackendChoiceShape, bs: Option<BackendSetIr>, mode: Seq<char>)
    requires
        choice_shape_for(r, bs, mode),
    ensures
        r.local_candidates + r.remote_candidates <= r.total_candidates,
        r.local_weight + r.remote_weight <= r.total_weight,
{
    reveal_strlit("local");
    reveal_strlit("remote");
    assert("local"@[0] != "remote"@[0]);
    let s = backends_of(bs);
    let fl = one_where(|b: BackendMemberIr| enabled(b) && is_local(b));
    let fr = one_where(|b: BackendMemberIr| enabled(b) && is_remote(b));
    let both = |b: BackendMemberIr| fl(b) + fr(b);
    lemma_sum_of_add(s, fl, fr, both);
    lemma_sum_of_le(s, both, one_where(|b: BackendMemberIr| enabled(b)));
    lemma_enabled_count(s);
    let wl = enabled_weight_where(|b: BackendMemberIr| is_local(b));
    let wr = enabled_weight_where(|b: BackendMemberIr| is_remote(b));
    let wboth = |b: BackendMemberIr| wl(b) + wr(b);
    lemma_sum_of_add(s, wl, wr, wboth);
    lemma_sum_of_le(s, wboth, enabled_weight_where(|b: BackendMemberIr| true));
}

/// The handoff of a backend choice follows the forwarding mode: none
/// without remote candidates; with one, an overlay handoff in overlay mode,
/// a hybrid handoff in hybrid mode and a native handoff otherwise, the
/// three being different kinds of handoff.
pub proof fn lemma_handoff_follows_mode(r: SocketBackendChoiceShape, bs: Option<BackendSetIr>, mode: Seq<char>)
    requires
        choice_shape_for(r, bs, mode),
    ensures
        r.remote_candidates == 0 ==> r.handoff_type is None,
        r.remote_candidates > 0 && mode == "cross_node_overlay"@ ==> opt_view(r.handoff_type) == Some("overlay"@),
        r.remote_candidates > 0 && mode == "cross_node_hybrid"@ ==> opt_view(r.handoff_type) == Some("hybrid"@),
        r.remote_candidates > 0 && mode != "cross_node_overlay"@ && mode != "cross_node_hybrid"@
            ==> opt_view(r.handoff_type) == Some("native"@),
        "overlay"@ != "hybrid"@ && "hybrid"@ != "native"@ && "overlay"@ != "native"@,
{
    reveal_strlit("overlay");
    reveal_strlit("hybrid");
    reveal_strlit("native");
    reveal_strlit("cross_node_overlay");
    reveal_strlit("cross_node_hybrid");
    assert("cross_node_overlay"@[11] != "cross_node_hybrid"@[11]);
    assert("overlay"@[0] != "hybrid"@[0]);
    assert("hybrid"@[0] != "native"@[0]);
    assert("overlay"@[0] != "native"@[0]);
}

/// An enabled remote backend makes the choice hand off: it counts as a
/// remote candidate, and in hybrid mode the handoff is a hybrid one.
pub proof fn lemma_remote_backend_hands_off(r: SocketBackendChoiceShape, bs: Option<BackendSetIr>, mode: Seq<char>, i: int)
    requires
        choice_shape_for(r, bs, mode),
        0 <= i < backends_of(bs).len(),
        enabled(backends_of(bs)[i]),
        is_remote(backends_of(bs)[i]),
    ensures
        r.remote_candidates > 0,
        r.handoff_type is Some,
        mode == "cross_node_hybrid"@ ==> opt_view(r.handoff_type) == Some("hybrid"@),
{
    let s = backends_of(bs);
    let f = one_where(|b: BackendMemberIr| enabled(b) && is_remote(b));
    lemma_sum_of_take(s, f, i);
    lemma_sum_of_prefix(s, f, i + 1);
    lemma_handoff_follows_mode(r, bs, mode);
}

} // verus!
