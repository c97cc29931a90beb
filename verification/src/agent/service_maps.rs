//! The service maps of one tap: which backends stand in each service's slot
//! array, one frontend per listener, and the reverse-NAT entries that lead
//! replies back to the service address. Backends leave the slot array when
//! their health check finds them unhealthy, and come back when it no longer
//! does.
//!
//! Addresses come in already parsed: `addresses` pairs the text of each
//! address with its 16 bytes (IPv4 as v4-mapped IPv6); text that is not in
//! the table does not parse.
use vstd::prelude::*;
use crate::agent::ir::{BackendMemberIr, ServiceFrontendPortIr, ServiceProgramIr};
use crate::health::{BackendTarget, HealthCheckExecutor, HealthState};
use crate::text::{concat3, decimal, str_eq, u64_to_decimal};

verus! {

broadcast use vstd::string::group_string_axioms;

/// A service frontend: where clients reach the service on one listener.
#[derive(Debug, Clone, Copy)]
pub struct ServiceFrontendEntry {
    pub tap_id: u32,
    pub address: [u8; 16],
    pub port: u16,
    pub proto: u8,
    pub service_id: u32,
    /// How many slots the service's backend array has.
    pub backend_count: u16,
    /// Whether a client sticks to its backend (`client_ip` affinity).
    pub session_affinity: bool,
    /// Whether the service balances with a Maglev table.
    pub maglev: bool,
}

/// One slot of a service's backend array.
#[derive(Debug, Clone, Copy)]
pub struct ServiceBackendEntry {
    pub tap_id: u32,
    pub service_id: u32,
    pub slot: u16,
    pub address: [u8; 16],
    pub port: u16,
    pub weight: u16,
}

/// Where replies from a backend address, port and protocol are rewritten to.
#[derive(Debug, Clone, Copy)]
pub struct ServiceRevNatEntry {
    pub tap_id: u32,
    pub backend_address: [u8; 16],
    pub backend_port: u16,
    pub proto: u8,
    pub service_address: [u8; 16],
    pub service_port: u16,
}

/// The entries of a tap's service maps.
#[derive(Debug)]
pub struct ServiceMapPlan {
    pub frontends: Vec<ServiceFrontendEntry>,
    pub backends: Vec<ServiceBackendEntry>,
    pub revnats: Vec<ServiceRevNatEntry>,
}

/// The bytes that `table` gives for the address `text`: those of its first
/// entry under that text; none when it has none.
pub open spec fn address_in(table: Seq<(String, [u8; 16])>, text: Seq<char>) -> Option<[u8; 16]>
    decreases table.len(),
{
    if table.len() == 0 {
        None
    } else if table[0].0@ == text {
        Some(table[0].1)
    } else {
        address_in(table.drop_first(), text)
    }
}

/// The IP protocol number of a service protocol: tcp 6, udp 17.
pub open spec fn protocol_number(p: Seq<char>) -> Option<u8> {
    if p == "tcp"@ {
        Some(6u8)
    } else if p == "udp"@ {
        Some(17u8)
    } else {
        None
    }
}

/// The VIP bytes and protocol number of a program; none when the VIP does
/// not parse or the protocol is neither tcp nor udp.
pub open spec fn frontend_key(p: ServiceProgramIr, table: Seq<(String, [u8; 16])>) -> Option<([u8; 16], u8)> {
    match address_in(table, p.frontend.vip@) {
        Some(a) => match protocol_number(p.frontend.protocol@) {
            Some(n) => Some((a, n)),
            None => None,
        },
        None => None,
    }
}

/// Whether backend `b` of `p` takes a slot: it is enabled, local, and not
/// found unhealthy when `p` has a health check.
pub open spec fn takes_slot(p: ServiceProgramIr, b: BackendMemberIr, h: HealthCheckExecutor) -> bool {
    &&& b.admin_state@ != "disabled"@
    &&& b.resolved_locality@ == "local"@
    &&& !(p.health_check is Some && (b.resolved_ip_hint matches Some(ip)
        && h.state_of((p.service_id@, b.backend_id@, ip@, b.service_port)) == HealthState::Unhealthy))
}

/// The backends of `p` that take a slot, in order: the slot of each is its
/// position here.
pub open spec fn slot_members(p: ServiceProgramIr, h: HealthCheckExecutor) -> Seq<BackendMemberIr> {
    match p.backend_set {
        Some(bs) => bs.backends@.filter(|b: BackendMemberIr| takes_slot(p, b, h)),
        None => Seq::empty(),
    }
}

/// The bytes of a backend's address; none when it has none or it does not
/// parse.
pub open spec fn member_address(b: BackendMemberIr, table: Seq<(String, [u8; 16])>) -> Option<[u8; 16]> {
    match b.resolved_ip_hint {
        Some(ip) => address_in(table, ip@),
        None => None,
    }
}

/// Whether `p` asks for `client_ip` session affinity.
pub open spec fn wants_affinity(p: ServiceProgramIr) -> bool {
    p.frontend.session_affinity matches Some(a) && a@ == "client_ip"@
}

/// Whether `p` balances with Maglev.
pub open spec fn wants_maglev(p: ServiceProgramIr) -> bool {
    p.frontend.lb_policy@ == "maglev"@
}

/// The frontend of `p` on listener `l`.
pub open spec fn frontend_on(
    tap: u32,
    sid: u32,
    p: ServiceProgramIr,
    h: HealthCheckExecutor,
    a: [u8; 16],
    n: u8,
    l: ServiceFrontendPortIr,
) -> ServiceFrontendEntry {
    ServiceFrontendEntry {
        tap_id: tap,
        address: a,
        port: l.service_port,
        proto: n,
        service_id: sid,
        backend_count: slot_members(p, h).len() as u16,
        session_affinity: wants_affinity(p),
        maglev: wants_maglev(p),
    }
}

/// The frontends of `p`: one per listener, none when `p` has no usable VIP
/// or protocol.
pub open spec fn program_frontends(
    tap: u32,
    sid: u32,
    p: ServiceProgramIr,
    h: HealthCheckExecutor,
    table: Seq<(String, [u8; 16])>,
) -> Seq<ServiceFrontendEntry> {
    match frontend_key(p, table) {
        Some((a, n)) => p.frontend.listener_ports@.map_values(
            |l: ServiceFrontendPortIr| frontend_on(tap, sid, p, h, a, n, l)),
        None => Seq::empty(),
    }
}

/// The backend entries of the first `k` slot members: one for each whose
/// address parses, in the slot of its position.
pub open spec fn slot_entries(
    tap: u32,
    sid: u32,
    members: Seq<BackendMemberIr>,
    table: Seq<(String, [u8; 16])>,
    k: int,
) -> Seq<ServiceBackendEntry>
    decreases k,
{
    if k <= 0 {
        Seq::empty()
    } else {
        let prev = slot_entries(tap, sid, members, table, k - 1);
        let b = members[k - 1];
        match member_address(b, table) {
            Some(a) => prev.push(ServiceBackendEntry {
                tap_id: tap,
                service_id: sid,
                slot: (k - 1) as u16,
                address: a,
                port: b.service_port,
                weight: b.weight,
            }),
            None => prev,
        }
    }
}

/// The backend entries of `p`; none when `p` has no usable VIP or protocol.
pub open spec fn program_backends(
    tap: u32,
    sid: u32,
    p: ServiceProgramIr,
    h: HealthCheckExecutor,
    table: Seq<(String, [u8; 16])>,
) -> Seq<ServiceBackendEntry> {
    match frontend_key(p, table) {
        Some(_) => slot_entries(tap, sid, slot_members(p, h), table, slot_members(p, h).len() as int),
        None => Seq::empty(),
    }
}

/// A reverse-NAT entry that a backend asks for, with the service it asks
/// for it on.
pub type RevNatWish = (ServiceRevNatEntry, Seq<char>);

/// The reverse-NAT entries that backend `b` of `p` asks for at address
/// `ba`: one per listener of `p`.
pub open spec fn backend_wishes(
    tap: u32,
    p: ServiceProgramIr,
    b: BackendMemberIr,
    ba: [u8; 16],
    a: [u8; 16],
    n: u8,
) -> Seq<RevNatWish> {
    p.frontend.listener_ports@.map_values(|l: ServiceFrontendPortIr| (ServiceRevNatEntry {
        tap_id: tap,
        backend_address: ba,
        backend_port: b.service_port,
        proto: n,
        service_address: a,
        service_port: l.service_port,
    }, p.service_id@))
}

/// The reverse-NAT wishes of the first `k` slot members of `p`.
pub open spec fn slot_wishes(
    tap: u32,
    p: ServiceProgramIr,
    members: Seq<BackendMemberIr>,
    table: Seq<(String, [u8; 16])>,
    a: [u8; 16],
    n: u8,
    k: int,
) -> Seq<RevNatWish>
    decreases k,
{
    if k <= 0 {
        Seq::empty()
    } else {
        let prev = slot_wishes(tap, p, members, table, a, n, k - 1);
        match member_address(members[k - 1], table) {
            Some(ba) => prev + backend_wishes(tap, p, members[k - 1], ba, a, n),
            None => prev,
        }
    }
}

/// The reverse-NAT wishes of `p`; none when `p` has no usable VIP or protocol.
pub open spec fn program_wishes(
    tap: u32,
    p: ServiceProgramIr,
    h: HealthCheckExecutor,
    table: Seq<(String, [u8; 16])>,
) -> Seq<RevNatWish> {
    match frontend_key(p, table) {
        Some((a, n)) => slot_wishes(tap, p, slot_members(p, h), table, a, n, slot_members(p, h).len() as int),
        None => Seq::empty(),
    }
}

/// The frontends of the first `n` programs; program `i` is service `i + 1`.
pub open spec fn all_frontends(
    tap: u32,
    programs: Seq<ServiceProgramIr>,
    h: HealthCheckExecutor,
    table: Seq<(String, [u8; 16])>,
    n: int,
) -> Seq<ServiceFrontendEntry>
    decreases n,
{
    if n <= 0 {
        Seq::empty()
    } else {
        all_frontends(tap, programs, h, table, n - 1) + program_frontends(tap, n as u32, programs[n - 1], h, table)
    }
}

/// The backend entries of the first `n` programs.
pub open spec fn all_backends(
    tap: u32,
    programs: Seq<ServiceProgramIr>,
    h: HealthCheckExecutor,
    table: Seq<(String, [u8; 16])>,
    n: int,
) -> Seq<ServiceBackendEntry>
    decreases n,
{
    if n <= 0 {
        Seq::empty()
    } else {
        all_backends(tap, programs, h, table, n - 1) + program_backends(tap, n as u32, programs[n - 1], h, table)
    }
}

/// The reverse-NAT wishes of the first `n` programs, in order.
pub open spec fn all_wishes(
    tap: u32,
    programs: Seq<ServiceProgramIr>,
    h: HealthCheckExecutor,
    table: Seq<(String, [u8; 16])>,
    n: int,
) -> Seq<RevNatWish>
    decreases n,
{
    if n <= 0 {
        Seq::empty()
    } else {
        all_wishes(tap, programs, h, table, n - 1) + program_wishes(tap, programs[n - 1], h, table)
    }
}

/// Whether two reverse-NAT entries are for the same backend address, port
/// and protocol.
pub open spec fn same_backend(e: ServiceRevNatEntry, f: ServiceRevNatEntry) -> bool {
    e.backend_address@ == f.backend_address@ && e.backend_port == f.backend_port && e.proto == f.proto
}

/// Whether two reverse-NAT entries lead to the same service address and port.
pub open spec fn same_service(e: ServiceRevNatEntry, f: ServiceRevNatEntry) -> bool {
    e.service_address@ == f.service_address@ && e.service_port == f.service_port
}

/// Position of the first entry of `rv` for the backend of `e`.
pub open spec fn first_same_backend(rv: Seq<ServiceRevNatEntry>, e: ServiceRevNatEntry) -> Option<int> {
    if exists|i: int| 0 <= i < rv.len() && same_backend(#[trigger] rv[i], e) {
        Some(choose|i: int| 0 <= i < rv.len() && same_backend(#[trigger] rv[i], e)
            && forall|j: int| 0 <= j < i ==> !same_backend(#[trigger] rv[j], e))
    } else {
        None
    }
}

/// One wish taken in: a backend seen before must lead to the same service,
/// else its service and port are the conflict.
pub open spec fn revnat_step(
    st: Result<Seq<ServiceRevNatEntry>, (Seq<char>, u16)>,
    w: RevNatWish,
) -> Result<Seq<ServiceRevNatEntry>, (Seq<char>, u16)> {
    match st {
        Err(e) => Err(e),
        Ok(rv) => match first_same_backend(rv, w.0) {
            Some(i) => if same_service(rv[i], w.0) {
                Ok(rv)
            } else {
                Err((w.1, w.0.backend_port))
            },
            None => Ok(rv.push(w.0)),
        },
    }
}

/// The reverse-NAT state after taking in `ws` in order, starting from `st`.
pub open spec fn revnat_run(
    st: Result<Seq<ServiceRevNatEntry>, (Seq<char>, u16)>,
    ws: Seq<RevNatWish>,
) -> Result<Seq<ServiceRevNatEntry>, (Seq<char>, u16)>
    decreases ws.len(),
{
    if ws.len() == 0 {
        st
    } else {
        revnat_step(revnat_run(st, ws.drop_last()), ws.last())
    }
}

/// The reverse-NAT entries of `ws` taken in order from none, or the first
/// conflict.
pub open spec fn revnat_fold(ws: Seq<RevNatWish>) -> Result<Seq<ServiceRevNatEntry>, (Seq<char>, u16)> {
    revnat_run(Ok(Seq::empty()), ws)
}

/// Taking in `a` and then `b` is taking in `a + b`.
pub proof fn lemma_run_append(
    st: Result<Seq<ServiceRevNatEntry>, (Seq<char>, u16)>,
    a: Seq<RevNatWish>,
    b: Seq<RevNatWish>,
)
    ensures
        revnat_run(st, a + b) == revnat_run(revnat_run(st, a), b),
    decreases b.len(),
{
    if b.len() == 0 {
        assert(a + b =~= a);
    } else {
        assert((a + b).drop_last() =~= a + b.drop_last());
        lemma_run_append(st, a, b.drop_last());
    }
}

/// Whether two wishes of `ws` are for the same backend address, port and
/// protocol but lead to different service addresses or ports.
pub open spec fn has_conflict(ws: Seq<RevNatWish>) -> bool {
    exists|i: int, j: int| 0 <= i < j < ws.len() && #[trigger] same_backend(ws[i].0, ws[j].0)
        && !same_service(ws[i].0, ws[j].0)
}

/// Whether `rv` has an entry for the backend of `w` that leads to its service.
pub open spec fn met_by(rv: Seq<ServiceRevNatEntry>, w: ServiceRevNatEntry) -> bool {
    exists|i: int| 0 <= i < rv.len() && same_backend(#[trigger] rv[i], w) && same_service(rv[i], w)
}

/// Whether some wish of `ws` asks for exactly `e`.
pub open spec fn asked_by(ws: Seq<RevNatWish>, e: ServiceRevNatEntry) -> bool {
    exists|j: int| 0 <= j < ws.len() && (#[trigger] ws[j]).0 == e
}

/// Every wish of `ws` is met by an entry of `rv`: one for its backend that
/// leads to its service.
pub open spec fn covers(rv: Seq<ServiceRevNatEntry>, ws: Seq<RevNatWish>) -> bool {
    forall|j: int| 0 <= j < ws.len() ==> #[trigger] met_by(rv, ws[j].0)
}

/// Every entry of `rv` is one that `ws` asks for.
pub open spec fn drawn_from(rv: Seq<ServiceRevNatEntry>, ws: Seq<RevNatWish>) -> bool {
    forall|i: int| 0 <= i < rv.len() ==> #[trigger] asked_by(ws, rv[i])
}

proof fn lemma_conflict_extends(p: Seq<RevNatWish>, c: RevNatWish)
    requires
        has_conflict(p),
    ensures
        has_conflict(p.push(c)),
{
    let ws = p.push(c);
    let (a, b) = choose|a: int, b: int| 0 <= a < b < p.len() && #[trigger] same_backend(p[a].0, p[b].0)
        && !same_service(p[a].0, p[b].0);
    assert(ws[a] == p[a] && ws[b] == p[b]);
    assert(same_backend(ws[a].0, ws[b].0));
}

/// Adding `c`, whose backend `rv` already leads to `c`'s service, brings no
/// conflict in.
proof fn lemma_no_new_conflict(p: Seq<RevNatWish>, c: RevNatWish, rv: Seq<ServiceRevNatEntry>)
    requires
        !has_conflict(p),
        covers(rv, p),
        forall|i: int| 0 <= i < rv.len() && same_backend(#[trigger] rv[i], c.0) ==> same_service(rv[i], c.0),
    ensures
        !has_conflict(p.push(c)),
{
    let ws = p.push(c);
    assert forall|a: int, b: int| 0 <= a < b < ws.len() && #[trigger] same_backend(ws[a].0, ws[b].0)
        implies same_service(ws[a].0, ws[b].0) by {
        assert(ws[a] == p[a]);
        if b < p.len() {
            assert(ws[b] == p[b]);
            assert(same_backend(p[a].0, p[b].0));
        } else {
            assert(ws[b] == c);
            assert(met_by(rv, p[a].0));
            let m = choose|m: int| 0 <= m < rv.len() && same_backend(#[trigger] rv[m], p[a].0)
                && same_service(rv[m], p[a].0);
            assert(same_backend(rv[m], c.0));
        }
    }
}

proof fn lemma_step_kept(p: Seq<RevNatWish>, c: RevNatWish, rv: Seq<ServiceRevNatEntry>, i: int)
    requires
        !has_conflict(p),
        covers(rv, p),
        drawn_from(rv, p),
        0 <= i < rv.len(),
        same_backend(rv[i], c.0),
        same_service(rv[i], c.0),
        forall|m: int| 0 <= m < rv.len() && same_backend(#[trigger] rv[m], c.0) ==> same_service(rv[m], c.0),
    ensures
        !has_conflict(p.push(c)),
        covers(rv, p.push(c)),
        drawn_from(rv, p.push(c)),
{
    let ws = p.push(c);
    lemma_no_new_conflict(p, c, rv);
    assert forall|k: int| 0 <= k < ws.len() implies #[trigger] met_by(rv, ws[k].0) by {
        if k < p.len() {
            assert(ws[k] == p[k]);
            assert(met_by(rv, p[k].0));
        } else {
            assert(ws[k] == c);
            assert(same_backend(rv[i], ws[k].0));
        }
    }
    assert forall|m: int| 0 <= m < rv.len() implies #[trigger] asked_by(ws, rv[m]) by {
        assert(asked_by(p, rv[m]));
        let k = choose|k: int| 0 <= k < p.len() && (#[trigger] p[k]).0 == rv[m];
        assert(ws[k] == p[k]);
    }
}

proof fn lemma_step_clash(p: Seq<RevNatWish>, c: RevNatWish, rv: Seq<ServiceRevNatEntry>, i: int)
    requires
        drawn_from(rv, p),
        0 <= i < rv.len(),
        same_backend(rv[i], c.0),
        !same_service(rv[i], c.0),
    ensures
        has_conflict(p.push(c)),
{
    let ws = p.push(c);
    assert(asked_by(p, rv[i]));
    let j = choose|j: int| 0 <= j < p.len() && (#[trigger] p[j]).0 == rv[i];
    assert(ws[j] == p[j]);
    assert(ws[ws.len() - 1] == c);
    assert(same_backend(ws[j].0, ws[ws.len() - 1].0));
}

proof fn lemma_step_new(p: Seq<RevNatWish>, c: RevNatWish, rv: Seq<ServiceRevNatEntry>)
    requires
        !has_conflict(p),
        covers(rv, p),
        drawn_from(rv, p),
        forall|i: int| 0 <= i < rv.len() ==> !same_backend(#[trigger] rv[i], c.0),
    ensures
        !has_conflict(p.push(c)),
        covers(rv.push(c.0), p.push(c)),
        drawn_from(rv.push(c.0), p.push(c)),
{
    let ws = p.push(c);
    let rv2 = rv.push(c.0);
    lemma_no_new_conflict(p, c, rv);
    assert forall|k: int| 0 <= k < ws.len() implies #[trigger] met_by(rv2, ws[k].0) by {
        if k < p.len() {
            assert(ws[k] == p[k]);
            assert(met_by(rv, p[k].0));
            let m = choose|m: int| 0 <= m < rv.len() && same_backend(#[trigger] rv[m], p[k].0)
                && same_service(rv[m], p[k].0);
            assert(rv2[m] == rv[m]);
        } else {
            assert(ws[k] == c);
            assert(rv2[rv.len() as int] == c.0);
        }
    }
    assert forall|m: int| 0 <= m < rv2.len() implies #[trigger] asked_by(ws, rv2[m]) by {
        if m < rv.len() {
            assert(rv2[m] == rv[m]);
            assert(asked_by(p, rv[m]));
            let k = choose|k: int| 0 <= k < p.len() && (#[trigger] p[k]).0 == rv[m];
            assert(ws[k] == p[k]);
        } else {
            assert(ws[ws.len() - 1] == c);
        }
    }
}

proof fn lemma_first_same_backend(rv: Seq<ServiceRevNatEntry>, e: ServiceRevNatEntry)
    ensures
        first_same_backend(rv, e) matches Some(i) ==> 0 <= i < rv.len() && same_backend(rv[i], e),
        first_same_backend(rv, e) is None ==> forall|i: int| 0 <= i < rv.len() ==> !same_backend(#[trigger] rv[i], e),
{
    if exists|i: int| 0 <= i < rv.len() && same_backend(#[trigger] rv[i], e) {
        let i0 = choose|i: int| 0 <= i < rv.len() && same_backend(#[trigger] rv[i], e);
        lemma_least_same_backend(rv, e, i0);
    }
}

proof fn lemma_least_same_backend(rv: Seq<ServiceRevNatEntry>, e: ServiceRevNatEntry, i0: int)
    requires
        0 <= i0 < rv.len(),
        same_backend(rv[i0], e),
    ensures
        exists|i: int| 0 <= i < rv.len() && same_backend(#[trigger] rv[i], e)
            && forall|j: int| 0 <= j < i ==> !same_backend(#[trigger] rv[j], e),
    decreases i0,
{
    if exists|j: int| 0 <= j < i0 && same_backend(#[trigger] rv[j], e) {
        let j = choose|j: int| 0 <= j < i0 && same_backend(#[trigger] rv[j], e);
        lemma_least_same_backend(rv, e, j);
    } else {
        assert(forall|j: int| 0 <= j < i0 ==> !same_backend(#[trigger] rv[j], e));
    }
}

/// When `rv` leads the backend of `c` to `c`'s service at `i`, it does so at
/// every entry for that backend.
proof fn lemma_one_service(p: Seq<RevNatWish>, c: RevNatWish, rv: Seq<ServiceRevNatEntry>, i: int)
    requires
        !has_conflict(p),
        drawn_from(rv, p),
        0 <= i < rv.len(),
        same_backend(rv[i], c.0),
        same_service(rv[i], c.0),
    ensures
        forall|m: int| 0 <= m < rv.len() && same_backend(#[trigger] rv[m], c.0) ==> same_service(rv[m], c.0),
{
    assert forall|m: int| 0 <= m < rv.len() && same_backend(#[trigger] rv[m], c.0)
        implies same_service(rv[m], c.0) by {
        assert(asked_by(p, rv[m]));
        assert(asked_by(p, rv[i]));
        let km = choose|k: int| 0 <= k < p.len() && (#[trigger] p[k]).0 == rv[m];
        let ki = choose|k: int| 0 <= k < p.len() && (#[trigger] p[k]).0 == rv[i];
        if km < ki {
            assert(same_backend(p[km].0, p[ki].0));
        } else if ki < km {
            assert(same_backend(p[ki].0, p[km].0));
        }
    }
}

#[verifier::rlimit(40)]
proof fn lemma_fold_facts(ws: Seq<RevNatWish>)
    ensures
        revnat_fold(ws) is Err <==> has_conflict(ws),
        revnat_fold(ws) matches Ok(rv) ==> covers(rv, ws) && drawn_from(rv, ws),
    decreases ws.len(),
{
    if ws.len() > 0 {
        let p = ws.drop_last();
        let c = ws.last();
        assert(ws =~= p.push(c));
        lemma_fold_facts(p);
        assert(revnat_fold(ws) == revnat_step(revnat_fold(p), c));
        match revnat_fold(p) {
            Err(_) => {
                lemma_conflict_extends(p, c);
            },
            Ok(rv) => {
                lemma_first_same_backend(rv, c.0);
                match first_same_backend(rv, c.0) {
                    Some(i) => {
                        if same_service(rv[i], c.0) {
                            lemma_one_service(p, c, rv, i);
                            lemma_step_kept(p, c, rv, i);
                        } else {
                            lemma_step_clash(p, c, rv, i);
                        }
                    },
                    None => {
                        lemma_step_new(p, c, rv);
                    },
                }
            },
        }
    }
}

/// An enabled local backend of a health-checked service has a slot exactly
/// while its health check does not find it unhealthy: when its state turns
/// unhealthy it leaves the slot array, and when it turns back it returns.
pub proof fn lemma_slot_follows_health(p: ServiceProgramIr, h: HealthCheckExecutor, b: BackendMemberIr)
    requires
        p.backend_set matches Some(bs) && bs.backends@.contains(b),
        p.health_check is Some,
        b.admin_state@ != "disabled"@,
        b.resolved_locality@ == "local"@,
        b.resolved_ip_hint is Some,
    ensures
        slot_members(p, h).contains(b) <==> h.state_of(
            (p.service_id@, b.backend_id@, b.resolved_ip_hint.unwrap()@, b.service_port)) != HealthState::Unhealthy,
{
    let bs = p.backend_set.unwrap();
    let pred = |x: BackendMemberIr| takes_slot(p, x, h);
    let i = choose|i: int| 0 <= i < bs.backends@.len() && bs.backends@[i] == b;
    if pred(b) {
        bs.backends@.lemma_filter_contains(pred, i);
    } else {
        if bs.backends@.filter(pred).contains(b) {
            bs.backends@.filter_lemma(pred);
            let j = choose|j: int| 0 <= j < bs.backends@.filter(pred).len() && bs.backends@.filter(pred)[j] == b;
            assert(pred(bs.backends@.filter(pred)[j]));
        }
    }
}

/// A program whose VIP does not parse, or whose protocol is neither tcp nor
/// udp, has no entries; any other has one frontend per listener, each
/// counting its slot members.
pub proof fn lemma_program_frontends(
    tap: u32,
    sid: u32,
    p: ServiceProgramIr,
    h: HealthCheckExecutor,
    table: Seq<(String, [u8; 16])>,
)
    ensures
        frontend_key(p, table) is None ==> program_frontends(tap, sid, p, h, table).len() == 0
            && program_backends(tap, sid, p, h, table).len() == 0
            && program_wishes(tap, p, h, table).len() == 0,
        frontend_key(p, table) matches Some((a, n)) ==> {
            let fs = program_frontends(tap, sid, p, h, table);
            &&& fs.len() == p.frontend.listener_ports.len()
            &&& forall|j: int| #![trigger fs[j]] 0 <= j < fs.len() ==> fs[j].port == p.frontend.listener_ports@[j].service_port
                && fs[j].address == a && fs[j].proto == n && fs[j].service_id == sid
                && fs[j].backend_count == slot_members(p, h).len() as u16
        },
{
}

/// Each backend entry of the first `k` slot members stands in the slot of
/// a member whose address parses, carries that address, port and weight,
/// and the slots rise strictly; every such member has its entry.
pub proof fn lemma_slot_entries(
    tap: u32,
    sid: u32,
    members: Seq<BackendMemberIr>,
    table: Seq<(String, [u8; 16])>,
    k: int,
)
    requires
        0 <= k <= members.len(),
        members.len() <= 0x10000,
    ensures
        ({
            let es = slot_entries(tap, sid, members, table, k);
            &&& forall|j: int| #![trigger es[j]] 0 <= j < es.len() ==> {
                let m = es[j].slot as int;
                &&& 0 <= m < k
                &&& member_address(members[m], table) == Some(es[j].address)
                &&& es[j].port == members[m].service_port
                &&& es[j].weight == members[m].weight
                &&& es[j].service_id == sid
                &&& es[j].tap_id == tap
            }
            &&& forall|a: int, b: int| 0 <= a < b < es.len() ==> (#[trigger] es[a]).slot < (#[trigger] es[b]).slot
            &&& forall|m: int| 0 <= m < k && (#[trigger] member_address(members[m], table)) is Some ==>
                exists|j: int| 0 <= j < es.len() && (#[trigger] es[j]).slot == m
        }),
    decreases k,
{
    if k > 0 {
        lemma_slot_entries(tap, sid, members, table, k - 1);
        let prev = slot_entries(tap, sid, members, table, k - 1);
        let es = slot_entries(tap, sid, members, table, k);
        if member_address(members[k - 1], table) is Some {
            assert(es == prev.push(es[prev.len() as int]));
            assert(es[prev.len() as int].slot == k - 1);
            assert forall|m: int| 0 <= m < k && (#[trigger] member_address(members[m], table)) is Some implies
                exists|j: int| 0 <= j < es.len() && (#[trigger] es[j]).slot == m by {
                if m < k - 1 {
                    let j = choose|j: int| 0 <= j < prev.len() && (#[trigger] prev[j]).slot == m;
                    assert(es[j] == prev[j]);
                } else {
                    assert(es[prev.len() as int].slot == m);
                }
            }
        }
    }
}

/// A tap's service maps are refused exactly when two reverse-NAT entries
/// for one backend address, port and protocol would lead back to different
/// service addresses or ports; otherwise every such entry asked for is in
/// the maps, and the maps hold no other.
pub proof fn lemma_refused_exactly_on_conflict(
    tap: u32,
    programs: Seq<ServiceProgramIr>,
    h: HealthCheckExecutor,
    table: Seq<(String, [u8; 16])>,
)
    ensures
        ({
            let ws = all_wishes(tap, programs, h, table, programs.len() as int);
            &&& plan_result(tap, programs, h, table) is Err <==> has_conflict(ws)
            &&& plan_result(tap, programs, h, table) matches Ok((f, b, rv)) ==> covers(rv, ws) && drawn_from(rv, ws)
        }),
{
    lemma_fold_facts(all_wishes(tap, programs, h, table, programs.len() as int));
}

/// The reverse-NAT state that a list of entries and a recorded conflict
/// stand for.
pub open spec fn fold_state(revs: Seq<ServiceRevNatEntry>, failure: Option<(String, u16)>)
    -> Result<Seq<ServiceRevNatEntry>, (Seq<char>, u16)> {
    match failure {
        Some((s, port)) => Err((s@, port)),
        None => Ok(revs),
    }
}

/// The error of a reverse-NAT conflict.
pub open spec fn conflict_message(sid: Seq<char>, port: u16, tap: u32) -> Seq<char> {
    "service '"@ + sid + "' has ambiguous revnat mapping for backend port "@ + decimal(port as nat)
        + " on tap "@ + decimal(tap as nat)
}

/// The service maps of tap `tap`, or the error of the first reverse-NAT
/// conflict.
pub open spec fn plan_result(
    tap: u32,
    programs: Seq<ServiceProgramIr>,
    h: HealthCheckExecutor,
    table: Seq<(String, [u8; 16])>,
) -> Result<(Seq<ServiceFrontendEntry>, Seq<ServiceBackendEntry>, Seq<ServiceRevNatEntry>), Seq<char>> {
    let n = programs.len() as int;
    match revnat_fold(all_wishes(tap, programs, h, table, n)) {
        Ok(rv) => Ok((all_frontends(tap, programs, h, table, n), all_backends(tap, programs, h, table, n), rv)),
        Err((sid, port)) => Err(conflict_message(sid, port, tap)),
    }
}

/// The bytes that `table` gives for `text`.
pub fn lookup_address(table: &Vec<(String, [u8; 16])>, text: &str) -> (r: Option<[u8; 16]>)
    ensures
        r == address_in(table@, text@),
{
    let mut i: usize = 0;
    assert(table@.subrange(0, table.len() as int) =~= table@);
    while i < table.len()
        invariant
            i <= table.len(),
            address_in(table@, text@) == address_in(table@.subrange(i as int, table.len() as int), text@),
        decreases table.len() - i,
    {
        assert(table@.subrange(i as int, table.len() as int).drop_first()
            =~= table@.subrange(i + 1, table.len() as int));
        if str_eq(table[i].0.as_str(), text) {
            return Some(table[i].1);
        }
        i = i + 1;
    }
    assert(table@.subrange(i as int, table.len() as int) =~= Seq::<(String, [u8; 16])>::empty());
    None
}

/// The IP protocol number of `p`.
pub fn protocol_of(p: &str) -> (r: Option<u8>)
    ensures
        r == protocol_number(p@),
{
    if str_eq(p, "tcp") {
        Some(6)
    } else if str_eq(p, "udp") {
        Some(17)
    } else {
        None
    }
}

fn bytes16_eq(a: &[u8; 16], b: &[u8; 16]) -> (r: bool)
    ensures
        r == (a@ == b@),
{
    let mut i: usize = 0;
    while i < 16
        invariant
            i <= 16,
            a@.len() == 16,
            b@.len() == 16,
            forall|j: int| 0 <= j < i ==> a@[j] == b@[j],
        decreases 16 - i,
    {
        if a[i] != b[i] {
            return false;
        }
        i = i + 1;
    }
    assert(a@ =~= b@);
    true
}

/// Whether backend `b` of `p` takes a slot.
pub fn takes_slot_now(p: &ServiceProgramIr, b: &BackendMemberIr, health: &HealthCheckExecutor) -> (r: bool)
    ensures
        r == takes_slot(*p, *b, *health),
{
    if str_eq(b.admin_state.as_str(), "disabled") || !str_eq(b.resolved_locality.as_str(), "local") {
        return false;
    }
    if p.health_check.is_some() {
        if let Some(ip) = &b.resolved_ip_hint {
            let target = BackendTarget {
                service_id: p.service_id.clone(),
                backend_id: b.backend_id.clone(),
                address: ip.clone(),
                port: b.service_port,
            };
            match health.get_state(&target) {
                HealthState::Unhealthy => {
                    return false;
                },
                _ => {},
            }
        }
    }
    true
}

/// The positions, in `p`'s backend set, of the backends that take a slot.
fn slot_indices(p: &ServiceProgramIr, health: &HealthCheckExecutor) -> (r: Vec<usize>)
    ensures
        r@.len() == slot_members(*p, *health).len(),
        p.backend_set matches Some(bs) ==> forall|k: int| 0 <= k < r@.len() ==>
            (#[trigger] r@[k]) < bs.backends@.len() && bs.backends@[r@[k] as int] == slot_members(*p, *health)[k],
{
    let mut r: Vec<usize> = Vec::new();
    match &p.backend_set {
        None => r,
        Some(bs) => {
            let ghost pred = |b: BackendMemberIr| takes_slot(*p, b, *health);
            let mut j: usize = 0;
            while j < bs.backends.len()
                invariant
                    j <= bs.backends.len(),
                    pred == (|b: BackendMemberIr| takes_slot(*p, b, *health)),
                    r@.len() == bs.backends@.take(j as int).filter(pred).len(),
                    forall|k: int| 0 <= k < r@.len() ==> (#[trigger] r@[k]) < j
                        && bs.backends@[r@[k] as int] == bs.backends@.take(j as int).filter(pred)[k],
                decreases bs.backends.len() - j,
            {
                let b = &bs.backends[j];
                proof {
                    bs.backends@.take(j as int).lemma_filter_push(bs.backends@[j as int], pred);
                    assert(bs.backends@.take(j + 1) =~= bs.backends@.take(j as int).push(bs.backends@[j as int]));
                }
                if takes_slot_now(p, b, health) {
                    r.push(j);
                }
                j = j + 1;
            }
            assert(bs.backends@.take(j as int) =~= bs.backends@);
            r
        },
    }
}

/// Takes in one reverse-NAT entry that service `sid` asks for.
fn take_wish(
    revs: &mut Vec<ServiceRevNatEntry>,
    failure: &mut Option<(String, u16)>,
    e: ServiceRevNatEntry,
    sid: &String,
)
    ensures
        fold_state(final(revs)@, *final(failure)) == revnat_step(fold_state(old(revs)@, *old(failure)), (e, sid@)),
{
    if failure.is_some() {
        return;
    }
    let mut i: usize = 0;
    while i < revs.len()
        invariant
            i <= revs.len(),
            revs@ == old(revs)@,
            *failure == *old(failure),
            failure.is_none(),
            forall|j: int| 0 <= j < i ==> !same_backend(#[trigger] revs@[j], e),
        decreases revs.len() - i,
    {
        let x = revs[i];
        if bytes16_eq(&x.backend_address, &e.backend_address) && x.backend_port == e.backend_port
            && x.proto == e.proto {
            proof {
                assert(same_backend(revs@[i as int], e));
                let c = choose|c: int| 0 <= c < revs@.len() && same_backend(#[trigger] revs@[c], e)
                    && forall|j: int| 0 <= j < c ==> !same_backend(#[trigger] revs@[j], e);
                if c < i {
                } else if c > i {
                    assert(!same_backend(revs@[i as int], e));
                }
                assert(first_same_backend(revs@, e) == Some(i as int));
            }
            if bytes16_eq(&x.service_address, &e.service_address) && x.service_port == e.service_port {
                return;
            }
            *failure = Some((sid.clone(), e.backend_port));
            return;
        }
        i = i + 1;
    }
    assert(first_same_backend(revs@, e) is None);
    revs.push(e);
}

/// Adds the entries of program `p`, service `sid`.
fn plan_program(
    tap_id: u32,
    sid: u32,
    p: &ServiceProgramIr,
    health: &HealthCheckExecutor,
    addresses: &Vec<(String, [u8; 16])>,
    fronts: &mut Vec<ServiceFrontendEntry>,
    backs: &mut Vec<ServiceBackendEntry>,
    revs: &mut Vec<ServiceRevNatEntry>,
    failure: &mut Option<(String, u16)>,
)
    ensures
        final(fronts)@ == old(fronts)@ + program_frontends(tap_id, sid, *p, *health, addresses@),
        final(backs)@ == old(backs)@ + program_backends(tap_id, sid, *p, *health, addresses@),
        fold_state(final(revs)@, *final(failure)) == revnat_run(fold_state(old(revs)@, *old(failure)),
            program_wishes(tap_id, *p, *health, addresses@)),
{
    let vip = lookup_address(addresses, p.frontend.vip.as_str());
    let proto = protocol_of(p.frontend.protocol.as_str());
    if vip.is_none() || proto.is_none() {
        assert(fronts@ + Seq::<ServiceFrontendEntry>::empty() =~= fronts@);
        assert(backs@ + Seq::<ServiceBackendEntry>::empty() =~= backs@);
        return;
    }
    let a = vip.unwrap();
    let n = proto.unwrap();
    let ghost t = addresses@;
    let ghost ms = slot_members(*p, *health);
    let ghost pf = program_frontends(tap_id, sid, *p, *health, t);
    let members = slot_indices(p, health);
    let count = members.len() as u16;
    let affinity = match &p.frontend.session_affinity {
        Some(s) => str_eq(s.as_str(), "client_ip"),
        None => false,
    };
    let maglev = str_eq(p.frontend.lb_policy.as_str(), "maglev");
    let ghost f0 = fronts@;
    let mut l: usize = 0;
    while l < p.frontend.listener_ports.len()
        invariant
            l <= p.frontend.listener_ports.len(),
            frontend_key(*p, t) == Some((a, n)),
            pf == program_frontends(tap_id, sid, *p, *health, t),
            pf.len() == p.frontend.listener_ports.len(),
            count == ms.len() as u16,
            ms == slot_members(*p, *health),
            affinity == wants_affinity(*p),
            maglev == wants_maglev(*p),
            fronts@ == f0 + pf.take(l as int),
        decreases p.frontend.listener_ports.len() - l,
    {
        let port = p.frontend.listener_ports[l].service_port;
        fronts.push(ServiceFrontendEntry {
            tap_id,
            address: a,
            port,
            proto: n,
            service_id: sid,
            backend_count: count,
            session_affinity: affinity,
            maglev,
        });
        proof {
            assert(pf[l as int] == frontend_on(tap_id, sid, *p, *health, a, n, p.frontend.listener_ports@[l as int]));
            assert(pf.take(l + 1) =~= pf.take(l as int).push(pf[l as int]));
        }
        l = l + 1;
    }
    assert(pf.take(l as int) =~= pf);
    let ghost b0 = backs@;
    let ghost st0 = fold_state(revs@, *failure);
    match &p.backend_set {
        None => {
            assert(backs@ + Seq::<ServiceBackendEntry>::empty() =~= backs@);
        },
        Some(bs) => {
            let mut k: usize = 0;
            while k < members.len()
                invariant
                    k <= members.len(),
                    p.backend_set == Some(*bs),
                    frontend_key(*p, t) == Some((a, n)),
                    t == addresses@,
                    ms == slot_members(*p, *health),
                    members@.len() == ms.len(),
                    forall|kk: int| 0 <= kk < members@.len() ==>
                        (#[trigger] members@[kk]) < bs.backends@.len() && bs.backends@[members@[kk] as int] == ms[kk],
                    backs@ == b0 + slot_entries(tap_id, sid, ms, t, k as int),
                    fold_state(revs@, *failure) == revnat_run(st0, slot_wishes(tap_id, *p, ms, t, a, n, k as int)),
                decreases members.len() - k,
            {
                let b = &bs.backends[members[k]];
                assert(*b == ms[k as int]);
                let ba = match &b.resolved_ip_hint {
                    Some(ip) => lookup_address(addresses, ip.as_str()),
                    None => None,
                };
                let ghost ws = slot_wishes(tap_id, *p, ms, t, a, n, k as int);
                if let Some(ba) = ba {
                    backs.push(ServiceBackendEntry {
                        tap_id,
                        service_id: sid,
                        slot: k as u16,
                        address: ba,
                        port: b.service_port,
                        weight: b.weight,
                    });
                    let ghost bw = backend_wishes(tap_id, *p, *b, ba, a, n);
                    let mut l: usize = 0;
                    while l < p.frontend.listener_ports.len()
                        invariant
                            l <= p.frontend.listener_ports.len(),
                            bw == backend_wishes(tap_id, *p, *b, ba, a, n),
                            bw.len() == p.frontend.listener_ports.len(),
                            fold_state(revs@, *failure) == revnat_run(st0, ws + bw.take(l as int)),
                        decreases p.frontend.listener_ports.len() - l,
                    {
                        let e = ServiceRevNatEntry {
                            tap_id,
                            backend_address: ba,
                            backend_port: b.service_port,
                            proto: n,
                            service_address: a,
                            service_port: p.frontend.listener_ports[l].service_port,
                        };
                        take_wish(revs, failure, e, &p.service_id);
                        proof {
                            assert(bw[l as int] == (e, p.service_id@));
                            assert(ws + bw.take(l + 1) =~= (ws + bw.take(l as int)).push(bw[l as int]));
                            assert((ws + bw.take(l + 1)).drop_last() =~= ws + bw.take(l as int));
                        }
                        l = l + 1;
                    }
                    assert(bw.take(l as int) =~= bw);
                } else {
                }
                k = k + 1;
            }
        },
    }
}

/// The entries of tap `tap_id`'s service maps for `programs`, program `i`
/// being service `i + 1`: for each program whose VIP parses and whose
/// protocol is tcp or udp, one frontend per listener, one backend entry per
/// slot member whose address parses, and the reverse-NAT entries of those
/// backends; an error when one backend address, port and protocol would
/// lead back to two different service addresses or ports.
pub fn service_map_plan(
    tap_id: u32,
    programs: &Vec<ServiceProgramIr>,
    health: &HealthCheckExecutor,
    addresses: &Vec<(String, [u8; 16])>,
) -> (r: Result<ServiceMapPlan, String>)
    requires
        programs.len() < u32::MAX,
    ensures
        match plan_result(tap_id, programs@, *health, addresses@) {
            Ok((f, b, v)) => r matches Ok(plan) && plan.frontends@ == f && plan.backends@ == b && plan.revnats@ == v,
            Err(m) => r matches Err(e) && e@ == m,
        },
{
    let mut fronts: Vec<ServiceFrontendEntry> = Vec::new();
    let mut backs: Vec<ServiceBackendEntry> = Vec::new();
    let mut revs: Vec<ServiceRevNatEntry> = Vec::new();
    let mut failure: Option<(String, u16)> = None;
    let mut i: usize = 0;
    while i < programs.len()
        invariant
            i <= programs.len(),
            programs.len() < u32::MAX,
            fronts@ == all_frontends(tap_id, programs@, *health, addresses@, i as int),
            backs@ == all_backends(tap_id, programs@, *health, addresses@, i as int),
            fold_state(revs@, failure) == revnat_fold(all_wishes(tap_id, programs@, *health, addresses@, i as int)),
        decreases programs.len() - i,
    {
        let sid: u32 = (i + 1) as u32;
        plan_program(tap_id, sid, &programs[i], health, addresses, &mut fronts, &mut backs, &mut revs, &mut failure);
        proof {
            lemma_run_append(Ok(Seq::empty()), all_wishes(tap_id, programs@, *health, addresses@, i as int),
                program_wishes(tap_id, programs@[i as int], *health, addresses@));
        }
        i = i + 1;
    }
    match failure {
        Some((s, port)) => {
            let pd = u64_to_decimal(port as u64);
            let td = u64_to_decimal(tap_id as u64);
            let m1 = concat3("service '", s.as_str(), "' has ambiguous revnat mapping for backend port ");
            let m2 = concat3(m1.as_str(), pd.as_str(), " on tap ");
            let m3 = concat3(m2.as_str(), td.as_str(), "");
            proof {
                reveal_strlit("service '");
                reveal_strlit("' has ambiguous revnat mapping for backend port ");
                reveal_strlit(" on tap ");
                reveal_strlit("");
            }
            assert(m3@ =~= conflict_message(s@, port, tap_id));
            Err(m3)
        },
        None => Ok(ServiceMapPlan { frontends: fronts, backends: backs, revnats: revs }),
    }
}

} // verus!
