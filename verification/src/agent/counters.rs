//! Totals over a compiled node state: listener ports, backend members,
//! forwarding projections and the like.
use vstd::prelude::*;
use crate::agent::ir::{CompiledNodeState, PortIdentityIr, RouteIr, ServiceProgramIr};
use crate::text::str_eq;

verus! {

broadcast use vstd::string::group_string_axioms;

/// Sum of `f` over the elements of `s`.
pub open spec fn sum_of<T>(s: Seq<T>, f: spec_fn(T) -> nat) -> nat
    decreases s.len(),
{
    if s.len() == 0 { 0 } else { sum_of(s.drop_last(), f) + f(s.last()) }
}

/// One more element adds its measure to the sum.
pub proof fn lemma_sum_of_take<T>(s: Seq<T>, f: spec_fn(T) -> nat, i: int)
    requires
        0 <= i < s.len(),
    ensures
        sum_of(s.take(i + 1), f) == sum_of(s.take(i), f) + f(s[i]),
{
    assert(s.take(i + 1).drop_last() =~= s.take(i));
}

/// A prefix never sums to more than the whole.
pub proof fn lemma_sum_of_prefix<T>(s: Seq<T>, f: spec_fn(T) -> nat, i: int)
    requires
        0 <= i <= s.len(),
    ensures
        sum_of(s.take(i), f) <= sum_of(s, f),
    decreases s.len() - i,
{
    if i < s.len() {
        lemma_sum_of_take(s, f, i);
        lemma_sum_of_prefix(s, f, i + 1);
    } else {
        assert(s.take(i) =~= s);
    }
}

/// A pointwise smaller measure sums to no more.
pub proof fn lemma_sum_of_le<T>(s: Seq<T>, f: spec_fn(T) -> nat, g: spec_fn(T) -> nat)
    requires
        forall|x: T| #[trigger] f(x) <= g(x),
    ensures
        sum_of(s, f) <= sum_of(s, g),
    decreases s.len(),
{
    if s.len() > 0 {
        lemma_sum_of_le(s.drop_last(), f, g);
    }
}

/// Counting is summing ones: never more than the length.
pub proof fn lemma_count_le_len<T>(s: Seq<T>, f: spec_fn(T) -> nat)
    requires
        forall|x: T| #[trigger] f(x) <= 1,
    ensures
        sum_of(s, f) <= s.len(),
    decreases s.len(),
{
    if s.len() > 0 {
        lemma_count_le_len(s.drop_last(), f);
    }
}

/// Number of listener ports of a service program.
pub open spec fn listeners(p: ServiceProgramIr) -> nat {
    p.frontend.listener_ports.len() as nat
}

/// Number of backends of a service program's backend set.
pub open spec fn members(p: ServiceProgramIr) -> nat {
    match p.backend_set {
        Some(bs) => bs.backends.len() as nat,
        None => 0,
    }
}

/// Forwarding projections of a service program: node-local and cross-node.
pub open spec fn projections(p: ServiceProgramIr) -> nat {
    (if p.frontend.node_local_forwarding { 1nat } else { 0nat })
        + (if p.frontend.cross_node_forwarding { 1nat } else { 0nat })
}

/// Listener ports of the programs that satisfy `pred`.
pub open spec fn listeners_where(pred: spec_fn(ServiceProgramIr) -> bool) -> spec_fn(ServiceProgramIr) -> nat {
    |p: ServiceProgramIr| if pred(p) { listeners(p) } else { 0nat }
}

/// One for each program that satisfies `pred`.
pub open spec fn one_where<T>(pred: spec_fn(T) -> bool) -> spec_fn(T) -> nat {
    |p: T| if pred(p) { 1nat } else { 0nat }
}

/// The program's frontend is internal.
pub open spec fn is_internal(p: ServiceProgramIr) -> bool {
    p.frontend.exposure_type@ == "internal"@
}

/// The program needs the packet load-balancing path: external, or forwarded across nodes.
pub open spec fn needs_packet_lb(p: ServiceProgramIr) -> bool {
    p.frontend.exposure_type@ != "internal"@ || p.frontend.cross_node_forwarding
}

/// The program asks for session affinity.
pub open spec fn has_affinity(p: ServiceProgramIr) -> bool {
    match p.frontend.session_affinity {
        Some(a) => a@ != "none"@,
        None => false,
    }
}

/// The program balances with maglev.
pub open spec fn is_maglev(p: ServiceProgramIr) -> bool {
    p.frontend.lb_policy@ == "maglev"@
}

/// The program forwards in the given mode.
pub open spec fn in_mode(mode: Seq<char>) -> spec_fn(ServiceProgramIr) -> bool {
    |p: ServiceProgramIr| p.frontend.forwarding_mode@ == mode
}

/// Total listener ports of all service programs.
pub open spec fn listener_total(state: CompiledNodeState) -> nat {
    sum_of(state.service_programs@, |p: ServiceProgramIr| listeners(p))
}

/// Total backends of all service programs.
pub open spec fn member_total(state: CompiledNodeState) -> nat {
    sum_of(state.service_programs@, |p: ServiceProgramIr| members(p))
}

/// Total anti-spoof entries of all port identities.
pub open spec fn anti_spoof_total(state: CompiledNodeState) -> nat {
    sum_of(state.port_identities@, |p: PortIdentityIr| p.anti_spoof_entries.len() as nat)
}

/// The totals that the counters add up fit in a `usize`.
pub open spec fn totals_fit(state: CompiledNodeState) -> bool {
    &&& listener_total(state) <= usize::MAX
    &&& member_total(state) <= usize::MAX
    &&& anti_spoof_total(state) <= usize::MAX
    &&& 2 * state.service_programs.len() <= usize::MAX
}

/// Total listener ports across all service programs.
pub fn total_service_listener_ports(state: &CompiledNodeState) -> (r: usize)
    requires
        totals_fit(*state),
    ensures
        r == sum_of(state.service_programs@, |p: ServiceProgramIr| listeners(p)),
{
    let ghost f = |p: ServiceProgramIr| listeners(p);
    let mut total: usize = 0;
    let mut i: usize = 0;
    while i < state.service_programs.len()
        invariant
            i <= state.service_programs.len(),
            totals_fit(*state),
            f == |p: ServiceProgramIr| listeners(p),
            total == sum_of(state.service_programs@.take(i as int), f),
        decreases state.service_programs.len() - i,
    {
        let program = &state.service_programs[i];
        proof {
            lemma_sum_of_take(state.service_programs@, f, i as int);
            lemma_sum_of_prefix(state.service_programs@, f, i + 1);
        }
        let add: usize = program.frontend.listener_ports.len();
        total = total + add;
        i = i + 1;
    }
    assert(state.service_programs@.take(i as int) =~= state.service_programs@);
    total
}

/// Listener ports of internal services: those served by the socket load-balancing path.
pub fn total_socket_lb_frontends(state: &CompiledNodeState) -> (r: usize)
    requires
        totals_fit(*state),
    ensures
        r == sum_of(state.service_programs@, listeners_where(|p: ServiceProgramIr| is_internal(p))),
{
    let ghost f = listeners_where(|p: ServiceProgramIr| is_internal(p));
    let mut total: usize = 0;
    let mut i: usize = 0;
    while i < state.service_programs.len()
        invariant
            i <= state.service_programs.len(),
            totals_fit(*state),
            f == listeners_where(|p: ServiceProgramIr| is_internal(p)),
            total == sum_of(state.service_programs@.take(i as int), f),
        decreases state.service_programs.len() - i,
    {
        let program = &state.service_programs[i];
        proof {
            lemma_sum_of_take(state.service_programs@, f, i as int);
            lemma_sum_of_prefix(state.service_programs@, f, i + 1);
            lemma_sum_of_le(state.service_programs@, f, |p: ServiceProgramIr| listeners(p));
        }
        let add: usize = if str_eq(program.frontend.exposure_type.as_str(), "internal") { program.frontend.listener_ports.len() } else { 0 };
        total = total + add;
        i = i + 1;
    }
    assert(state.service_programs@.take(i as int) =~= state.service_programs@);
    total
}

/// Listener ports of external or cross-node services: those served by the packet load-balancing path.
pub fn total_packet_lb_frontends(state: &CompiledNodeState) -> (r: usize)
    requires
        totals_fit(*state),
    ensures
        r == sum_of(state.service_programs@, listeners_where(|p: ServiceProgramIr| needs_packet_lb(p))),
{
    let ghost f = listeners_where(|p: ServiceProgramIr| needs_packet_lb(p));
    let mut total: usize = 0;
    let mut i: usize = 0;
    while i < state.service_programs.len()
        invariant
            i <= state.service_programs.len(),
            totals_fit(*state),
            f == listeners_where(|p: ServiceProgramIr| needs_packet_lb(p)),
            total == sum_of(state.service_programs@.take(i as int), f),
        decreases state.service_programs.len() - i,
    {
        let program = &state.service_programs[i];
        proof {
            lemma_sum_of_take(state.service_programs@, f, i as int);
            lemma_sum_of_prefix(state.service_programs@, f, i + 1);
            lemma_sum_of_le(state.service_programs@, f, |p: ServiceProgramIr| listeners(p));
        }
        let add: usize = if !str_eq(program.frontend.exposure_type.as_str(), "internal") || program.frontend.cross_node_forwarding { program.frontend.listener_ports.len() } else { 0 };
        total = total + add;
        i = i + 1;
    }
    assert(state.service_programs@.take(i as int) =~= state.service_programs@);
    total
}

/// Total backend members across all service programs.
pub fn total_service_backend_members(state: &CompiledNodeState) -> (r: usize)
    requires
        totals_fit(*state),
    ensures
        r == sum_of(state.service_programs@, |p: ServiceProgramIr| members(p)),
{
    let ghost f = |p: ServiceProgramIr| members(p);
    let mut total: usize = 0;
    let mut i: usize = 0;
    while i < state.service_programs.len()
        invariant
            i <= state.service_programs.len(),
            totals_fit(*state),
            f == |p: ServiceProgramIr| members(p),
            total == sum_of(state.service_programs@.take(i as int), f),
        decreases state.service_programs.len() - i,
    {
        let program = &state.service_programs[i];
        proof {
            lemma_sum_of_take(state.service_programs@, f, i as int);
            lemma_sum_of_prefix(state.service_programs@, f, i + 1);
        }
        let add: usize = match &program.backend_set { Some(backend_set) => backend_set.backends.len(), None => 0 };
        total = total + add;
        i = i + 1;
    }
    assert(state.service_programs@.take(i as int) =~= state.service_programs@);
    total
}

/// Forwarding projections: one per node-local and one per cross-node service program.
pub fn total_service_forwarding_projections(state: &CompiledNodeState) -> (r: usize)
    requires
        totals_fit(*state),
    ensures
        r == sum_of(state.service_programs@, |p: ServiceProgramIr| projections(p)),
{
    let ghost f = |p: ServiceProgramIr| projections(p);
    let mut total: usize = 0;
    let mut i: usize = 0;
    while i < state.service_programs.len()
        invariant
            i <= state.service_programs.len(),
            totals_fit(*state),
            f == |p: ServiceProgramIr| projections(p),
            total == sum_of(state.service_programs@.take(i as int), f),
        decreases state.service_programs.len() - i,
    {
        let program = &state.service_programs[i];
        proof {
            lemma_sum_of_take(state.service_programs@, f, i as int);
            lemma_sum_of_prefix(state.service_programs@, f, i + 1);
            lemma_sum_of_le(state.service_programs@, f, |p: ServiceProgramIr| 2nat); lemma_sum_of_two(state.service_programs@);
        }
        let add: usize = (if program.frontend.node_local_forwarding { 1 } else { 0 }) + (if program.frontend.cross_node_forwarding { 1 } else { 0 });
        total = total + add;
        i = i + 1;
    }
    assert(state.service_programs@.take(i as int) =~= state.service_programs@);
    total
}

/// Listener ports of services that ask for session affinity.
pub fn total_affinity_service_programs(state: &CompiledNodeState) -> (r: usize)
    requires
        totals_fit(*state),
    ensures
        r == sum_of(state.service_programs@, listeners_where(|p: ServiceProgramIr| has_affinity(p))),
{
    let ghost f = listeners_where(|p: ServiceProgramIr| has_affinity(p));
    let mut total: usize = 0;
    let mut i: usize = 0;
    while i < state.service_programs.len()
        invariant
            i <= state.service_programs.len(),
            totals_fit(*state),
            f == listeners_where(|p: ServiceProgramIr| has_affinity(p)),
            total == sum_of(state.service_programs@.take(i as int), f),
        decreases state.service_programs.len() - i,
    {
        let program = &state.service_programs[i];
        proof {
            lemma_sum_of_take(state.service_programs@, f, i as int);
            lemma_sum_of_prefix(state.service_programs@, f, i + 1);
            lemma_sum_of_le(state.service_programs@, f, |p: ServiceProgramIr| listeners(p));
        }
        let add: usize = match &program.frontend.session_affinity { Some(value) => if !str_eq(value.as_str(), "none") { program.frontend.listener_ports.len() } else { 0 }, None => 0 };
        total = total + add;
        i = i + 1;
    }
    assert(state.service_programs@.take(i as int) =~= state.service_programs@);
    total
}

/// Listener ports of services balanced with maglev.
pub fn total_maglev_service_programs(state: &CompiledNodeState) -> (r: usize)
    requires
        totals_fit(*state),
    ensures
        r == sum_of(state.service_programs@, listeners_where(|p: ServiceProgramIr| is_maglev(p))),
{
    let ghost f = listeners_where(|p: ServiceProgramIr| is_maglev(p));
    let mut total: usize = 0;
    let mut i: usize = 0;
    while i < state.service_programs.len()
        invariant
            i <= state.service_programs.len(),
            totals_fit(*state),
            f == listeners_where(|p: ServiceProgramIr| is_maglev(p)),
            total == sum_of(state.service_programs@.take(i as int), f),
        decreases state.service_programs.len() - i,
    {
        let program = &state.service_programs[i];
        proof {
            lemma_sum_of_take(state.service_programs@, f, i as int);
            lemma_sum_of_prefix(state.service_programs@, f, i + 1);
            lemma_sum_of_le(state.service_programs@, f, |p: ServiceProgramIr| listeners(p));
        }
        let add: usize = if str_eq(program.frontend.lb_policy.as_str(), "maglev") { program.frontend.listener_ports.len() } else { 0 };
        total = total + add;
        i = i + 1;
    }
    assert(state.service_programs@.take(i as int) =~= state.service_programs@);
    total
}

/// Service programs with node-local forwarding.
pub fn total_node_local_service_programs(state: &CompiledNodeState) -> (r: usize)
    requires
        totals_fit(*state),
    ensures
        r == sum_of(state.service_programs@, one_where(|p: ServiceProgramIr| p.frontend.node_local_forwarding)),
{
    let ghost f = one_where(|p: ServiceProgramIr| p.frontend.node_local_forwarding);
    let mut total: usize = 0;
    let mut i: usize = 0;
    while i < state.service_programs.len()
        invariant
            i <= state.service_programs.len(),
            totals_fit(*state),
            f == one_where(|p: ServiceProgramIr| p.frontend.node_local_forwarding),
            total == sum_of(state.service_programs@.take(i as int), f),
        decreases state.service_programs.len() - i,
    {
        let program = &state.service_programs[i];
        proof {
            lemma_sum_of_take(state.service_programs@, f, i as int);
            lemma_sum_of_prefix(state.service_programs@, f, i + 1);
            lemma_sum_of_le(state.service_programs@, f, |p: ServiceProgramIr| 1nat); lemma_sum_of_ones(state.service_programs@);
        }
        let add: usize = if program.frontend.node_local_forwarding { 1 } else { 0 };
        total = total + add;
        i = i + 1;
    }
    assert(state.service_programs@.take(i as int) =~= state.service_programs@);
    total
}

/// Service programs with cross-node forwarding.
pub fn total_cross_node_service_programs(state: &CompiledNodeState) -> (r: usize)
    requires
        totals_fit(*state),
    ensures
        r == sum_of(state.service_programs@, one_where(|p: ServiceProgramIr| p.frontend.cross_node_forwarding)),
{
    let ghost f = one_where(|p: ServiceProgramIr| p.frontend.cross_node_forwarding);
    let mut total: usize = 0;
    let mut i: usize = 0;
    while i < state.service_programs.len()
        invariant
            i <= state.service_programs.len(),
            totals_fit(*state),
            f == one_where(|p: ServiceProgramIr| p.frontend.cross_node_forwarding),
            total == sum_of(state.service_programs@.take(i as int), f),
        decreases state.service_programs.len() - i,
    {
        let program = &state.service_programs[i];
        proof {
            lemma_sum_of_take(state.service_programs@, f, i as int);
            lemma_sum_of_prefix(state.service_programs@, f, i + 1);
            lemma_sum_of_le(state.service_programs@, f, |p: ServiceProgramIr| 1nat); lemma_sum_of_ones(state.service_programs@);
        }
        let add: usize = if program.frontend.cross_node_forwarding { 1 } else { 0 };
        total = total + add;
        i = i + 1;
    }
    assert(state.service_programs@.take(i as int) =~= state.service_programs@);
    total
}

/// Service programs forwarding across nodes natively.
pub fn total_cross_node_native_service_programs(state: &CompiledNodeState) -> (r: usize)
    requires
        totals_fit(*state),
    ensures
        r == sum_of(state.service_programs@, one_where(in_mode("cross_node_native"@))),
{
    let ghost f = one_where(in_mode("cross_node_native"@));
    let mut total: usize = 0;
    let mut i: usize = 0;
    while i < state.service_programs.len()
        invariant
            i <= state.service_programs.len(),
            totals_fit(*state),
            f == one_where(in_mode("cross_node_native"@)),
            total == sum_of(state.service_programs@.take(i as int), f),
        decreases state.service_programs.len() - i,
    {
        let program = &state.service_programs[i];
        proof {
            lemma_sum_of_take(state.service_programs@, f, i as int);
            lemma_sum_of_prefix(state.service_programs@, f, i + 1);
            lemma_sum_of_le(state.service_programs@, f, |p: ServiceProgramIr| 1nat); lemma_sum_of_ones(state.service_programs@);
        }
        let add: usize = if str_eq(program.frontend.forwarding_mode.as_str(), "cross_node_native") { 1 } else { 0 };
        total = total + add;
        i = i + 1;
    }
    assert(state.service_programs@.take(i as int) =~= state.service_programs@);
    total
}

/// Service programs forwarding across nodes over the overlay.
pub fn total_cross_node_overlay_service_programs(state: &CompiledNodeState) -> (r: usize)
    requires
        totals_fit(*state),
    ensures
        r == sum_of(state.service_programs@, one_where(in_mode("cross_node_overlay"@))),
{
    let ghost f = one_where(in_mode("cross_node_overlay"@));
    let mut total: usize = 0;
    let mut i: usize = 0;
    while i < state.service_programs.len()
        invariant
            i <= state.service_programs.len(),
            totals_fit(*state),
            f == one_where(in_mode("cross_node_overlay"@)),
            total == sum_of(state.service_programs@.take(i as int), f),
        decreases state.service_programs.len() - i,
    {
        let program = &state.service_programs[i];
        proof {
            lemma_sum_of_take(state.service_programs@, f, i as int);
            lemma_sum_of_prefix(state.service_programs@, f, i + 1);
            lemma_sum_of_le(state.service_programs@, f, |p: ServiceProgramIr| 1nat); lemma_sum_of_ones(state.service_programs@);
        }
        let add: usize = if str_eq(program.frontend.forwarding_mode.as_str(), "cross_node_overlay") { 1 } else { 0 };
        total = total + add;
        i = i + 1;
    }
    assert(state.service_programs@.take(i as int) =~= state.service_programs@);
    total
}

/// Service programs forwarding across nodes in hybrid mode.
pub fn total_cross_node_hybrid_service_programs(state: &CompiledNodeState) -> (r: usize)
    requires
        totals_fit(*state),
    ensures
        r == sum_of(state.service_programs@, one_where(in_mode("cross_node_hybrid"@))),
{
    let ghost f = one_where(in_mode("cross_node_hybrid"@));
    let mut total: usize = 0;
    let mut i: usize = 0;
    while i < state.service_programs.len()
        invariant
            i <= state.service_programs.len(),
            totals_fit(*state),
            f == one_where(in_mode("cross_node_hybrid"@)),
            total == sum_of(state.service_programs@.take(i as int), f),
        decreases state.service_programs.len() - i,
    {
        let program = &state.service_programs[i];
        proof {
            lemma_sum_of_take(state.service_programs@, f, i as int);
            lemma_sum_of_prefix(state.service_programs@, f, i + 1);
            lemma_sum_of_le(state.service_programs@, f, |p: ServiceProgramIr| 1nat); lemma_sum_of_ones(state.service_programs@);
        }
        let add: usize = if str_eq(program.frontend.forwarding_mode.as_str(), "cross_node_hybrid") { 1 } else { 0 };
        total = total + add;
        i = i + 1;
    }
    assert(state.service_programs@.take(i as int) =~= state.service_programs@);
    total
}

/// A constant measure of one sums to the length.
pub proof fn lemma_sum_of_ones<T>(s: Seq<T>)
    ensures
        sum_of(s, |x: T| 1nat) == s.len(),
    decreases s.len(),
{
    if s.len() > 0 {
        lemma_sum_of_ones(s.drop_last());
    }
}

/// A constant measure of two sums to twice the length.
pub proof fn lemma_sum_of_two<T>(s: Seq<T>)
    ensures
        sum_of(s, |x: T| 2nat) == 2 * s.len(),
    decreases s.len(),
{
    if s.len() > 0 {
        lemma_sum_of_two(s.drop_last());
    }
}

/// Reverse-NAT entries: one per service listener port.
pub fn total_service_revnat_entries(state: &CompiledNodeState) -> (r: usize)
    requires
        totals_fit(*state),
    ensures
        r == listener_total(*state),
{
    total_service_listener_ports(state)
}

/// Frontend runtime entries: one per service listener port.
pub fn total_service_frontend_runtime_entries(state: &CompiledNodeState) -> (r: usize)
    requires
        totals_fit(*state),
    ensures
        r == listener_total(*state),
{
    total_service_listener_ports(state)
}

/// Backend-member runtime entries: one per backend member.
pub fn total_backend_member_runtime_entries(state: &CompiledNodeState) -> (r: usize)
    requires
        totals_fit(*state),
    ensures
        r == member_total(*state),
{
    total_service_backend_members(state)
}

/// Total anti-spoof entries across all port identities.
pub fn total_anti_spoof_entries(state: &CompiledNodeState) -> (r: usize)
    requires
        totals_fit(*state),
    ensures
        r == anti_spoof_total(*state),
{
    let ghost f = |p: PortIdentityIr| p.anti_spoof_entries.len() as nat;
    let mut total: usize = 0;
    let mut i: usize = 0;
    while i < state.port_identities.len()
        invariant
            i <= state.port_identities.len(),
            totals_fit(*state),
            f == (|p: PortIdentityIr| p.anti_spoof_entries.len() as nat),
            total == sum_of(state.port_identities@.take(i as int), f),
        decreases state.port_identities.len() - i,
    {
        proof {
            lemma_sum_of_take(state.port_identities@, f, i as int);
            lemma_sum_of_prefix(state.port_identities@, f, i + 1);
        }
        total = total + state.port_identities[i].anti_spoof_entries.len();
        i = i + 1;
    }
    assert(state.port_identities@.take(i as int) =~= state.port_identities@);
    total
}

/// Ports attached on the node: the port identities, or the bindings when
/// there are no identities.
pub fn attached_port_count(state: &CompiledNodeState) -> (r: usize)
    ensures
        r == if state.port_identities.len() == 0 { state.port_bindings.len() } else { state.port_identities.len() },
{
    if state.port_identities.len() == 0 {
        state.port_bindings.len()
    } else {
        state.port_identities.len()
    }
}

/// Routes of one address family.
pub open spec fn route_count(state: CompiledNodeState, ipv6: bool) -> nat {
    sum_of(state.route_entries@, one_where(|r: RouteIr| r.is_ipv6 == ipv6))
}

fn count_routes(state: &CompiledNodeState, ipv6: bool) -> (r: usize)
    ensures
        r == route_count(*state, ipv6),
{
    let ghost f = one_where(|r: RouteIr| r.is_ipv6 == ipv6);
    let mut total: usize = 0;
    let mut i: usize = 0;
    while i < state.route_entries.len()
        invariant
            i <= state.route_entries.len(),
            f == one_where(|r: RouteIr| r.is_ipv6 == ipv6),
            total == sum_of(state.route_entries@.take(i as int), f),
            total <= i,
        decreases state.route_entries.len() - i,
    {
        proof {
            lemma_sum_of_take(state.route_entries@, f, i as int);
        }
        if state.route_entries[i].is_ipv6 == ipv6 {
            total = total + 1;
        }
        i = i + 1;
    }
    assert(state.route_entries@.take(i as int) =~= state.route_entries@);
    total
}

/// IPv4 route entries.
pub fn total_route_v4_entries(state: &CompiledNodeState) -> (r: usize)
    ensures
        r == route_count(*state, false),
{
    count_routes(state, false)
}

/// IPv6 route entries.
pub fn total_route_v6_entries(state: &CompiledNodeState) -> (r: usize)
    ensures
        r == route_count(*state, true),
{
    count_routes(state, true)
}


/// Summing two measures separately sums their pointwise total.
pub proof fn lemma_sum_of_add<T>(s: Seq<T>, f: spec_fn(T) -> nat, g: spec_fn(T) -> nat, h: spec_fn(T) -> nat)
    requires
        forall|x: T| #[trigger] h(x) == f(x) + g(x),
    ensures
        sum_of(s, f) + sum_of(s, g) == sum_of(s, h),
    decreases s.len(),
{
    if s.len() > 0 {
        lemma_sum_of_add(s.drop_last(), f, g, h);
    }
}

} // verus!
