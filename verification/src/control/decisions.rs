//! Decisions of the control plane's operations that come before they touch
//! the kernel: whether a group may be deleted, which mirror rules a delete
//! names, which runtime flags a config update writes, and which instance a
//! kernel-drop query is about.
use vstd::prelude::*;
use crate::api::dataplane::drops::KernelDropQuery;
use crate::control::error::{kind_and_detail, ControlPlaneError, ErrorKind};
use crate::control::ops::requested_directions;
use crate::text::{concat3, decimal, str_eq, u64_to_decimal};

verus! {

broadcast use vstd::string::group_string_axioms;

/// Whether some pair of `refs` names group `id` on either side.
pub open spec fn pair_names(refs: Seq<(u32, u32)>, id: u32) -> bool {
    exists|i: int| 0 <= i < refs.len() && ((#[trigger] refs[i]).0 == id || refs[i].1 == id)
}

/// What deleting group `name` (id `id`) meets: refused while a policy (by
/// its source and destination groups), a QoS rule (by its group) or a
/// mirror rule (by its source and destination groups) uses it, in that
/// order of checks.
pub open spec fn group_use(
    name: Seq<char>,
    id: u32,
    policies: Seq<(u32, u32)>,
    qos_groups: Seq<u32>,
    mirrors: Seq<(u32, u32)>,
) -> Option<Seq<char>> {
    if pair_names(policies, id) {
        Some("Group '"@ + name + "' is referenced by a policy"@)
    } else if qos_groups.contains(id) {
        Some("Group '"@ + name + "' is referenced by a QoS rule"@)
    } else if pair_names(mirrors, id) {
        Some("Group '"@ + name + "' is referenced by a mirror rule"@)
    } else {
        None
    }
}

fn pairs_name(refs: &Vec<(u32, u32)>, id: u32) -> (r: bool)
    ensures
        r == pair_names(refs@, id),
{
    let mut i: usize = 0;
    while i < refs.len()
        invariant
            i <= refs.len(),
            forall|j: int| 0 <= j < i ==> !((#[trigger] refs@[j]).0 == id || refs@[j].1 == id),
        decreases refs.len() - i,
    {
        if refs[i].0 == id || refs[i].1 == id {
            return true;
        }
        i = i + 1;
    }
    false
}

fn ids_contain(ids: &Vec<u32>, id: u32) -> (r: bool)
    ensures
        r == ids@.contains(id),
{
    let mut i: usize = 0;
    while i < ids.len()
        invariant
            i <= ids.len(),
            forall|j: int| 0 <= j < i ==> ids@[j] != id,
        decreases ids.len() - i,
    {
        if ids[i] == id {
            return true;
        }
        i = i + 1;
    }
    false
}

/// Whether group `name` (id `id`) may be deleted: `Ok` when no policy, QoS
/// rule or mirror rule uses it, else a group-in-use error naming the first
/// kind of rule that does.
pub fn check_group_unused(
    name: &str,
    id: u32,
    policies: &Vec<(u32, u32)>,
    qos_groups: &Vec<u32>,
    mirrors: &Vec<(u32, u32)>,
) -> (r: Result<(), ControlPlaneError>)
    ensures
        match group_use(name@, id, policies@, qos_groups@, mirrors@) {
            None => r is Ok,
            Some(m) => r matches Err(e) && kind_and_detail(e) == (ErrorKind::GroupInUse, m),
        },
{
    proof {
        reveal_strlit("Group '");
        reveal_strlit("' is referenced by a policy");
        reveal_strlit("' is referenced by a QoS rule");
        reveal_strlit("' is referenced by a mirror rule");
    }
    if pairs_name(policies, id) {
        return Err(ControlPlaneError::GroupInUse(concat3("Group '", name, "' is referenced by a policy")));
    }
    if ids_contain(qos_groups, id) {
        return Err(ControlPlaneError::GroupInUse(concat3("Group '", name, "' is referenced by a QoS rule")));
    }
    if pairs_name(mirrors, id) {
        return Err(ControlPlaneError::GroupInUse(concat3("Group '", name, "' is referenced by a mirror rule")));
    }
    Ok(())
}

/// The runtime flags that a config update writes.
#[derive(Debug, Clone, Copy, PartialEq, Eq, Structural)]
pub struct ConfigUpdate {
    /// Only the process-wide SSL setting changes; the instance is untouched.
    pub only_ssl: bool,
    pub conntrack: Option<bool>,
    pub monitoring: Option<bool>,
    pub acl: Option<bool>,
    /// The kernel's QoS flag: on only while the instance has QoS rules.
    pub kernel_qos: Option<bool>,
    /// The kernel's mirror flag: on only while the instance has mirror rules.
    pub kernel_mirror: Option<bool>,
    pub tcprt: Option<bool>,
}

/// The kernel value of a feature flag that only takes effect with rules.
pub open spec fn flag_with_rules(requested: Option<bool>, has_rules: bool) -> Option<bool> {
    match requested {
        Some(q) => Some(q && has_rules),
        None => None,
    }
}

/// The flags a config update writes: each requested flag as asked, except
/// that QoS and mirroring are switched on in the kernel only while rules of
/// theirs exist; an update that names only `ssl` leaves the instance alone.
pub fn plan_config_update(
    conntrack: Option<bool>,
    monitoring: Option<bool>,
    acl: Option<bool>,
    qos: Option<bool>,
    mirror: Option<bool>,
    tcprt: Option<bool>,
    ssl: Option<bool>,
    has_qos_rules: bool,
    has_mirror_rules: bool,
) -> (r: ConfigUpdate)
    ensures
        r.only_ssl == (ssl is Some && conntrack is None && monitoring is None && acl is None && qos is None
            && mirror is None && tcprt is None),
        r.conntrack == conntrack,
        r.monitoring == monitoring,
        r.acl == acl,
        r.kernel_qos == flag_with_rules(qos, has_qos_rules),
        r.kernel_mirror == flag_with_rules(mirror, has_mirror_rules),
        r.tcprt == tcprt,
{
    let kernel_qos = match qos {
        Some(q) => Some(q && has_qos_rules),
        None => None,
    };
    let kernel_mirror = match mirror {
        Some(m) => Some(m && has_mirror_rules),
        None => None,
    };
    ConfigUpdate {
        only_ssl: ssl.is_some() && conntrack.is_none() && monitoring.is_none() && acl.is_none() && qos.is_none()
            && mirror.is_none() && tcprt.is_none(),
        conntrack,
        monitoring,
        acl,
        kernel_qos,
        kernel_mirror,
        tcprt,
    }
}

/// What identifies an installed mirror rule.
#[derive(Debug, Clone, Copy, PartialEq, Eq, Structural)]
pub struct MirrorRuleKey {
    pub src_group_id: u32,
    pub dst_group_id: u32,
    pub proto: u8,
    pub direction: u8,
    pub is_global: bool,
}

/// Whether `r` is the rule a delete of (`src`, `dst`, `proto`) names in
/// direction `d`: the global rule of that direction when all three are
/// zero, else the non-global rule with those groups and protocol.
pub open spec fn names_rule(r: MirrorRuleKey, src: u32, dst: u32, proto: u8, d: u8) -> bool {
    if src == 0 && dst == 0 && proto == 0 {
        r.is_global && r.direction == d
    } else {
        !r.is_global && r.src_group_id == src && r.dst_group_id == dst && r.proto == proto && r.direction == d
    }
}

/// The first rule of `rules` that a delete names in direction `d`.
pub open spec fn first_named(rules: Seq<MirrorRuleKey>, src: u32, dst: u32, proto: u8, d: u8) -> Option<MirrorRuleKey>
    decreases rules.len(),
{
    if rules.len() == 0 {
        None
    } else if names_rule(rules[0], src, dst, proto, d) {
        Some(rules[0])
    } else {
        first_named(rules.drop_first(), src, dst, proto, d)
    }
}

/// The rules a delete names, one per direction in `dirs` that has one.
pub open spec fn named_rules(rules: Seq<MirrorRuleKey>, src: u32, dst: u32, proto: u8, dirs: Seq<u8>)
    -> Seq<MirrorRuleKey>
    decreases dirs.len(),
{
    if dirs.len() == 0 {
        Seq::empty()
    } else {
        let prev = named_rules(rules, src, dst, proto, dirs.drop_last());
        match first_named(rules, src, dst, proto, dirs.last()) {
            Some(r) => prev.push(r),
            None => prev,
        }
    }
}

fn find_named(rules: &Vec<MirrorRuleKey>, src: u32, dst: u32, proto: u8, d: u8) -> (r: Option<MirrorRuleKey>)
    ensures
        r == first_named(rules@, src, dst, proto, d),
{
    let global = src == 0 && dst == 0 && proto == 0;
    let mut i: usize = 0;
    assert(rules@.subrange(0, rules.len() as int) =~= rules@);
    while i < rules.len()
        invariant
            i <= rules.len(),
            global == (src == 0 && dst == 0 && proto == 0),
            first_named(rules@, src, dst, proto, d)
                == first_named(rules@.subrange(i as int, rules.len() as int), src, dst, proto, d),
        decreases rules.len() - i,
    {
        assert(rules@.subrange(i as int, rules.len() as int).drop_first()
            =~= rules@.subrange(i + 1, rules.len() as int));
        let x = rules[i];
        let hit = if global {
            x.is_global && x.direction == d
        } else {
            !x.is_global && x.src_group_id == src && x.dst_group_id == dst && x.proto == proto && x.direction == d
        };
        if hit {
            return Some(x);
        }
        i = i + 1;
    }
    assert(rules@.subrange(i as int, rules.len() as int) =~= Seq::<MirrorRuleKey>::empty());
    None
}

/// The mirror rules that deleting (`src`, `dst`, `proto`, `direction`)
/// removes: for each requested direction (both for code 2) the first rule
/// it names; a not-found error when there is none.
pub fn mirror_rules_to_delete(rules: &Vec<MirrorRuleKey>, src: u32, dst: u32, proto: u8, direction: u8)
    -> (r: Result<Vec<MirrorRuleKey>, ControlPlaneError>)
    ensures
        ({
            let dirs = if direction == 2 { seq![0u8, 1u8] } else { seq![direction] };
            let named = named_rules(rules@, src, dst, proto, dirs);
            &&& named.len() == 0 ==> (r matches Err(e)
                && kind_and_detail(e) == (ErrorKind::PolicyNotFound, "Mirror rule not found"@))
            &&& named.len() > 0 ==> (r matches Ok(v) && v@ == named)
        }),
{
    let dirs = requested_directions(direction);
    let mut found: Vec<MirrorRuleKey> = Vec::new();
    let mut k: usize = 0;
    while k < dirs.len()
        invariant
            k <= dirs.len(),
            found@ == named_rules(rules@, src, dst, proto, dirs@.take(k as int)),
        decreases dirs.len() - k,
    {
        assert(dirs@.take(k + 1).drop_last() =~= dirs@.take(k as int));
        match find_named(rules, src, dst, proto, dirs[k]) {
            Some(x) => found.push(x),
            None => {},
        }
        k = k + 1;
    }
    assert(dirs@.take(k as int) =~= dirs@);
    if found.len() == 0 {
        proof {
            reveal_strlit("Mirror rule not found");
        }
        return Err(ControlPlaneError::PolicyNotFound("Mirror rule not found".to_string()));
    }
    Ok(found)
}

/// A managed instance as kernel-drop queries see it.
#[derive(Debug)]
pub struct KernelDropInstance {
    pub instance_name: String,
    pub tap_id: u32,
    pub ifindex: Option<u32>,
    pub iface_name: Option<String>,
}

/// Where a kernel-drop query looks: a tap, an interface index, and whether
/// drops that no instance claims are shown too.
#[derive(Debug, Clone, Copy, PartialEq, Eq, Structural)]
pub struct KernelDropTarget {
    pub tap_id: Option<u32>,
    pub ifindex: Option<u32>,
    pub include_unattributed: bool,
}

/// Whether `x` is the instance called `name`.
pub open spec fn is_named(x: KernelDropInstance, name: Seq<char>) -> bool {
    x.instance_name@ == name
}

/// Whether `x` is attached to interface `iface`.
pub open spec fn is_on_iface(x: KernelDropInstance, iface: Seq<char>) -> bool {
    x.iface_name matches Some(g) && g@ == iface
}

/// Positions, among the first `n` instances, of those called `name`.
pub open spec fn named_hits(insts: Seq<KernelDropInstance>, name: Seq<char>, n: int) -> Seq<int>
    decreases n,
{
    if n <= 0 {
        Seq::empty()
    } else if is_named(insts[n - 1], name) {
        named_hits(insts, name, n - 1).push(n - 1)
    } else {
        named_hits(insts, name, n - 1)
    }
}

/// Positions, among the first `n` instances, of those on interface `iface`.
pub open spec fn iface_hits(insts: Seq<KernelDropInstance>, iface: Seq<char>, n: int) -> Seq<int>
    decreases n,
{
    if n <= 0 {
        Seq::empty()
    } else if is_on_iface(insts[n - 1], iface) {
        iface_hits(insts, iface, n - 1).push(n - 1)
    } else {
        iface_hits(insts, iface, n - 1)
    }
}

/// An error's kind and detail.
pub type ErrorView = (ErrorKind, Seq<char>);

/// The instance a query names: the first of that name; not-found when none has it.
pub open spec fn instance_pick(q: KernelDropQuery, insts: Seq<KernelDropInstance>) -> Result<Option<int>, ErrorView> {
    match q.instance {
        Some(n) => {
            let h = named_hits(insts, n@, insts.len() as int);
            if h.len() == 0 {
                Err((ErrorKind::InstanceNotFound, n@))
            } else {
                Ok(Some(h[0]))
            }
        },
        None => Ok(None),
    }
}

/// The instance on the interface a query names; refused when no instance
/// or more than one is attached to it.
pub open spec fn iface_pick(q: KernelDropQuery, insts: Seq<KernelDropInstance>) -> Result<Option<int>, ErrorView> {
    match q.iface {
        Some(f) => {
            let h = iface_hits(insts, f@, insts.len() as int);
            if h.len() == 0 {
                Err((ErrorKind::Validation, "Interface '"@ + f@ + "' is not attached to an active instance"@))
            } else if h.len() > 1 {
                Err((ErrorKind::Validation, "Interface '"@ + f@ + "' maps to multiple active instances"@))
            } else {
                Ok(Some(h[0]))
            }
        },
        None => Ok(None),
    }
}

/// The text of an optional name, empty when there is none.
pub open spec fn text_or_empty(s: Option<String>) -> Seq<char> {
    match s {
        Some(t) => t@,
        None => Seq::empty(),
    }
}

/// The first disagreement between the instance, the interface and the
/// interface index that a query names, if any.
pub open spec fn disagreement(
    q: KernelDropQuery,
    insts: Seq<KernelDropInstance>,
    ii: Option<int>,
    fi: Option<int>,
) -> Option<ErrorView> {
    if ii is Some && fi is Some && insts[ii->0].ifindex != insts[fi->0].ifindex {
        Some((ErrorKind::Validation, "Instance '"@ + insts[ii->0].instance_name@ + "' does not match interface '"@
            + text_or_empty(q.iface) + "'"@))
    } else if ii is Some && q.ifindex is Some && insts[ii->0].ifindex != q.ifindex {
        Some((ErrorKind::Validation, "Instance '"@ + insts[ii->0].instance_name@ + "' does not match ifindex "@
            + decimal(q.ifindex->0 as nat)))
    } else if fi is Some && q.ifindex is Some && insts[fi->0].ifindex != q.ifindex {
        Some((ErrorKind::Validation, "Interface '"@ + text_or_empty(q.iface) + "' does not match ifindex "@
            + decimal(q.ifindex->0 as nat)))
    } else {
        None
    }
}

/// The tap of the named instance (else the interface's): none while it
/// has neither a tap nor an interface index.
pub open spec fn target_tap(insts: Seq<KernelDropInstance>, ii: Option<int>, fi: Option<int>, unassigned: u32) -> Option<u32> {
    let pick = if ii is Some { ii } else { fi };
    match pick {
        Some(k) => if insts[k].tap_id != unassigned || insts[k].ifindex is Some {
            Some(insts[k].tap_id)
        } else {
            None
        },
        None => None,
    }
}

/// The interface index a query looks at: its own, else the named
/// instance's, else the interface's instance's.
pub open spec fn target_ifindex(q: KernelDropQuery, insts: Seq<KernelDropInstance>, ii: Option<int>, fi: Option<int>)
    -> Option<u32> {
    if q.ifindex is Some {
        q.ifindex
    } else if ii is Some && insts[ii->0].ifindex is Some {
        insts[ii->0].ifindex
    } else if fi is Some {
        insts[fi->0].ifindex
    } else {
        None
    }
}

/// Where a kernel-drop query looks, or why it is refused.
pub open spec fn kernel_drop_target(q: KernelDropQuery, insts: Seq<KernelDropInstance>, unassigned: u32)
    -> Result<KernelDropTarget, ErrorView> {
    match instance_pick(q, insts) {
        Err(e) => Err(e),
        Ok(ii) => match iface_pick(q, insts) {
            Err(e) => Err(e),
            Ok(fi) => match disagreement(q, insts, ii, fi) {
                Some(e) => Err(e),
                None => {
                    let tap = target_tap(insts, ii, fi, unassigned);
                    let ifx = target_ifindex(q, insts, ii, fi);
                    if q.instance is Some && tap is None && ifx is None {
                        Err((ErrorKind::InstanceNotReady, "Instance '"@ + text_or_empty(q.instance)
                            + "' does not have a resolved kernel-drop filter target yet"@))
                    } else if q.iface is Some && tap is None && ifx is None {
                        Err((ErrorKind::InstanceNotReady, "Interface '"@ + text_or_empty(q.iface)
                            + "' does not have a resolved kernel-drop filter target yet"@))
                    } else {
                        Ok(KernelDropTarget {
                            tap_id: tap,
                            ifindex: ifx,
                            include_unattributed: q.include_unattributed && ifx is None,
                        })
                    }
                },
            },
        },
    }
}

fn named_positions(insts: &Vec<KernelDropInstance>, name: &str) -> (r: Vec<usize>)
    ensures
        r@.len() == named_hits(insts@, name@, insts@.len() as int).len(),
        forall|k: int| 0 <= k < r@.len() ==> (#[trigger] r@[k]) as int == named_hits(insts@, name@, insts@.len() as int)[k]
            && r@[k] < insts@.len(),
{
    let mut r: Vec<usize> = Vec::new();
    let mut j: usize = 0;
    while j < insts.len()
        invariant
            j <= insts.len(),
            r@.len() == named_hits(insts@, name@, j as int).len(),
            forall|k: int| 0 <= k < r@.len() ==> (#[trigger] r@[k]) as int == named_hits(insts@, name@, j as int)[k]
                && r@[k] < j,
        decreases insts.len() - j,
    {
        if str_eq(insts[j].instance_name.as_str(), name) {
            r.push(j);
        }
        j = j + 1;
    }
    r
}

fn iface_positions(insts: &Vec<KernelDropInstance>, iface: &str) -> (r: Vec<usize>)
    ensures
        r@.len() == iface_hits(insts@, iface@, insts@.len() as int).len(),
        forall|k: int| 0 <= k < r@.len() ==> (#[trigger] r@[k]) as int == iface_hits(insts@, iface@, insts@.len() as int)[k]
            && r@[k] < insts@.len(),
{
    let mut r: Vec<usize> = Vec::new();
    let mut j: usize = 0;
    while j < insts.len()
        invariant
            j <= insts.len(),
            r@.len() == iface_hits(insts@, iface@, j as int).len(),
            forall|k: int| 0 <= k < r@.len() ==> (#[trigger] r@[k]) as int == iface_hits(insts@, iface@, j as int)[k]
                && r@[k] < j,
        decreases insts.len() - j,
    {
        let on = match &insts[j].iface_name {
            Some(g) => str_eq(g.as_str(), iface),
            None => false,
        };
        if on {
            r.push(j);
        }
        j = j + 1;
    }
    r
}

fn optional_text(s: &Option<String>) -> (r: String)
    ensures
        r@ == text_or_empty(*s),
{
    match s {
        Some(t) => t.clone(),
        None => String::new(),
    }
}

/// Where kernel-drop query `query` looks among the managed `instances`
/// (`unassigned_tap` being the tap id of an instance that has none yet):
/// the named instance must exist, the named interface must belong to
/// exactly one instance, instance, interface and interface index must
/// agree, and a named instance or interface must have a tap or an
/// interface index; unattributed drops are shown only when no interface
/// index is looked at.
pub fn resolve_kernel_drop_target(
    query: &KernelDropQuery,
    instances: &Vec<KernelDropInstance>,
    unassigned_tap: u32,
) -> (r: Result<KernelDropTarget, ControlPlaneError>)
    ensures
        match kernel_drop_target(*query, instances@, unassigned_tap) {
            Ok(t) => r == Ok::<KernelDropTarget, ControlPlaneError>(t),
            Err(v) => r matches Err(e) && kind_and_detail(e) == v,
        },
{
    let ghost insts = instances@;
    proof {
        reveal_strlit("Interface '");
        reveal_strlit("' is not attached to an active instance");
        reveal_strlit("' maps to multiple active instances");
        reveal_strlit("Instance '");
        reveal_strlit("' does not match interface '");
        reveal_strlit("'");
        reveal_strlit("' does not match ifindex ");
        reveal_strlit("' does not have a resolved kernel-drop filter target yet");
        reveal_strlit("");
    }
    let ii: Option<usize> = match &query.instance {
        Some(n) => {
            let h = named_positions(instances, n.as_str());
            if h.len() == 0 {
                return Err(ControlPlaneError::InstanceNotFound(n.clone()));
            }
            Some(h[0])
        },
        None => None,
    };
    let fi: Option<usize> = match &query.iface {
        Some(f) => {
            let h = iface_positions(instances, f.as_str());
            if h.len() == 0 {
                let m = concat3("Interface '", f.as_str(), "' is not attached to an active instance");
                return Err(ControlPlaneError::ValidationError(m));
            }
            if h.len() > 1 {
                let m = concat3("Interface '", f.as_str(), "' maps to multiple active instances");
                return Err(ControlPlaneError::ValidationError(m));
            }
            Some(h[0])
        },
        None => None,
    };
    let ghost gii: Option<int> = match ii { Some(k) => Some(k as int), None => None };
    let ghost gfi: Option<int> = match fi { Some(k) => Some(k as int), None => None };
    assert(instance_pick(*query, insts) == Ok::<Option<int>, ErrorView>(gii));
    assert(iface_pick(*query, insts) == Ok::<Option<int>, ErrorView>(gfi));
    let iface_text = optional_text(&query.iface);
    if let (Some(a), Some(b)) = (ii, fi) {
        if instances[a].ifindex != instances[b].ifindex {
            let m1 = concat3("Instance '", instances[a].instance_name.as_str(), "' does not match interface '");
            let m = concat3(m1.as_str(), iface_text.as_str(), "'");
            return Err(ControlPlaneError::ValidationError(m));
        }
    }
    if let (Some(a), Some(x)) = (ii, query.ifindex) {
        if instances[a].ifindex != Some(x) {
            let d = u64_to_decimal(x as u64);
            let m1 = concat3("Instance '", instances[a].instance_name.as_str(), "' does not match ifindex ");
            let m = concat3(m1.as_str(), d.as_str(), "");
            return Err(ControlPlaneError::ValidationError(m));
        }
    }
    if let (Some(b), Some(x)) = (fi, query.ifindex) {
        if instances[b].ifindex != Some(x) {
            let d = u64_to_decimal(x as u64);
            let m1 = concat3("Interface '", iface_text.as_str(), "' does not match ifindex ");
            let m = concat3(m1.as_str(), d.as_str(), "");
            return Err(ControlPlaneError::ValidationError(m));
        }
    }
    assert(disagreement(*query, insts, gii, gfi) is None);
    let pick = if ii.is_some() { ii } else { fi };
    let tap: Option<u32> = match pick {
        Some(k) => if instances[k].tap_id != unassigned_tap || instances[k].ifindex.is_some() {
            Some(instances[k].tap_id)
        } else {
            None
        },
        None => None,
    };
    let ifx: Option<u32> = if query.ifindex.is_some() {
        query.ifindex
    } else {
        match ii {
            Some(a) if instances[a].ifindex.is_some() => instances[a].ifindex,
            _ => match fi {
                Some(b) => instances[b].ifindex,
                None => None,
            },
        }
    };
    assert(tap == target_tap(insts, gii, gfi, unassigned_tap));
    assert(ifx == target_ifindex(*query, insts, gii, gfi));
    if query.instance.is_some() && tap.is_none() && ifx.is_none() {
        let t = optional_text(&query.instance);
        let m = concat3("Instance '", t.as_str(), "' does not have a resolved kernel-drop filter target yet");
        return Err(ControlPlaneError::InstanceNotReady(m));
    }
    if query.iface.is_some() && tap.is_none() && ifx.is_none() {
        let m = concat3("Interface '", iface_text.as_str(), "' does not have a resolved kernel-drop filter target yet");
        return Err(ControlPlaneError::InstanceNotReady(m));
    }
    Ok(KernelDropTarget { tap_id: tap, ifindex: ifx, include_unattributed: query.include_unattributed && ifx.is_none() })
}

/// A group may be deleted exactly when no policy, QoS rule or mirror rule
/// uses it.
pub proof fn lemma_group_deletable(name: Seq<char>, id: u32, policies: Seq<(u32, u32)>, qos_groups: Seq<u32>,
    mirrors: Seq<(u32, u32)>)
    ensures
        group_use(name, id, policies, qos_groups, mirrors) is None <==> {
            &&& forall|i: int| 0 <= i < policies.len() ==> (#[trigger] policies[i]).0 != id && policies[i].1 != id
            &&& forall|i: int| 0 <= i < qos_groups.len() ==> #[trigger] qos_groups[i] != id
            &&& forall|i: int| 0 <= i < mirrors.len() ==> (#[trigger] mirrors[i]).0 != id && mirrors[i].1 != id
        },
{
    if group_use(name, id, policies, qos_groups, mirrors) is None {
        assert forall|i: int| 0 <= i < qos_groups.len() implies #[trigger] qos_groups[i] != id by {
            if qos_groups[i] == id {
                assert(qos_groups.contains(id));
            }
        }
    }
}

proof fn lemma_first_named(rules: Seq<MirrorRuleKey>, src: u32, dst: u32, proto: u8, d: u8)
    ensures
        first_named(rules, src, dst, proto, d) matches Some(r) ==> rules.contains(r) && names_rule(r, src, dst, proto, d),
    decreases rules.len(),
{
    if rules.len() > 0 {
        lemma_first_named(rules.drop_first(), src, dst, proto, d);
        if !names_rule(rules[0], src, dst, proto, d) {
            if first_named(rules, src, dst, proto, d) is Some {
                let r = first_named(rules, src, dst, proto, d)->0;
                let k = choose|k: int| 0 <= k < rules.drop_first().len() && rules.drop_first()[k] == r;
                assert(rules[k + 1] == r);
            }
        } else {
            assert(rules[0] == rules[0]);
        }
    }
}

/// Every mirror rule a delete removes is an installed rule that the delete
/// names in one of the requested directions: global rules only for a
/// global delete (all of source, destination and protocol zero), and
/// otherwise rules with exactly that source, destination and protocol.
pub proof fn lemma_deleted_rules_are_named(rules: Seq<MirrorRuleKey>, src: u32, dst: u32, proto: u8, dirs: Seq<u8>)
    ensures
        forall|k: int| 0 <= k < named_rules(rules, src, dst, proto, dirs).len() ==> {
            let r = #[trigger] named_rules(rules, src, dst, proto, dirs)[k];
            &&& rules.contains(r)
            &&& dirs.contains(r.direction)
            &&& (src == 0 && dst == 0 && proto == 0) == r.is_global
            &&& !r.is_global ==> r.src_group_id == src && r.dst_group_id == dst && r.proto == proto
        },
        named_rules(rules, src, dst, proto, dirs).len() <= dirs.len(),
    decreases dirs.len(),
{
    if dirs.len() > 0 {
        lemma_deleted_rules_are_named(rules, src, dst, proto, dirs.drop_last());
        lemma_first_named(rules, src, dst, proto, dirs.last());
        let prev = named_rules(rules, src, dst, proto, dirs.drop_last());
        let cur = named_rules(rules, src, dst, proto, dirs);
        assert forall|k: int| 0 <= k < cur.len() implies dirs.contains((#[trigger] cur[k]).direction) by {
            if k < prev.len() {
                let j = choose|j: int| 0 <= j < dirs.drop_last().len() && dirs.drop_last()[j] == cur[k].direction;
                assert(dirs[j] == cur[k].direction);
            } else {
                assert(dirs[dirs.len() - 1] == cur[k].direction);
            }
        }
    }
}

proof fn lemma_named_hits(insts: Seq<KernelDropInstance>, name: Seq<char>, n: int)
    requires
        0 <= n <= insts.len(),
    ensures
        forall|k: int| 0 <= k < named_hits(insts, name, n).len() ==> 0 <= #[trigger] named_hits(insts, name, n)[k] < n
            && is_named(insts[named_hits(insts, name, n)[k]], name),
    decreases n,
{
    if n > 0 {
        lemma_named_hits(insts, name, n - 1);
        let prev = named_hits(insts, name, n - 1);
        let cur = named_hits(insts, name, n);
        assert forall|k: int| 0 <= k < cur.len() implies 0 <= #[trigger] cur[k] < n && is_named(insts[cur[k]], name) by {
            if k < prev.len() {
                assert(cur[k] == prev[k]);
            }
        }
    }
}

/// A resolved kernel-drop query looks at the interface index it names, if
/// it names one; shows unattributed drops only when asked and when it looks
/// at no interface index; and a named instance exists among the managed
/// instances.
pub proof fn lemma_kernel_drop_target_respects_query(q: KernelDropQuery, insts: Seq<KernelDropInstance>, unassigned: u32)
    ensures
        kernel_drop_target(q, insts, unassigned) matches Ok(t) ==> {
            &&& q.ifindex is Some ==> t.ifindex == q.ifindex
            &&& t.include_unattributed ==> q.include_unattributed && t.ifindex is None
            &&& q.instance is Some ==> exists|i: int| 0 <= i < insts.len() && #[trigger] is_named(insts[i], q.instance->0@)
        },
{
    if q.instance is Some {
        lemma_named_hits(insts, q.instance->0@, insts.len() as int);
        if kernel_drop_target(q, insts, unassigned) is Ok {
            let h = named_hits(insts, q.instance->0@, insts.len() as int);
            assert(is_named(insts[h[0]], q.instance->0@));
        }
    }
}

} // verus!
