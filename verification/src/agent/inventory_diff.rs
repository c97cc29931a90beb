//! What changed between two runtime inventories.
use vstd::prelude::*;
use crate::agent::helpers::unix_timestamp_string;
use crate::agent::ir::{
    RuntimeInventory, RuntimeInventoryAttach, RuntimeInventoryAttachDelta, RuntimeInventoryDiff,
    RuntimeInventoryDomainDelta, RuntimeInventoryDomainSummary, RuntimeInventoryMapDelta, RuntimeInventoryMapEntry,
};
use crate::agent::keyed::{
    counts_or_zero, diff_keyed, diff_keys, disagreeing_keys, keyed_views, keys_of_len, lemma_disagreeing_key_len,
    lookup_last, Counts, Key, KeyDiff, KeyedCounts,
};
use crate::order::{increasing, sorted_distinct, str_increasing, strs};
use crate::text::{contains_substring, decimal, has_substring, str_eq};

verus! {

broadcast use vstd::string::group_string_axioms;

/// Attach inventory entries keyed by domain, hook family, scope and operation.
pub open spec fn attach_keyed(v: Seq<RuntimeInventoryAttach>) -> Seq<(Key, Counts)> {
    v.map_values(|e: RuntimeInventoryAttach|
        (seq![e.domain@, e.hook_family@, e.scope@, e.operation@], (e.object_count, 0usize, 0usize)))
}

/// Map inventory entries keyed by domain, map family and operation.
pub open spec fn map_keyed(v: Seq<RuntimeInventoryMapEntry>) -> Seq<(Key, Counts)> {
    v.map_values(|e: RuntimeInventoryMapEntry|
        (seq![e.domain@, e.map_family@, e.operation@], (e.object_count, 0usize, 0usize)))
}

/// Domain summaries keyed by domain, with their attach operations, map
/// operations and compiled objects.
pub open spec fn domain_keyed(v: Seq<RuntimeInventoryDomainSummary>) -> Seq<(Key, Counts)> {
    v.map_values(|e: RuntimeInventoryDomainSummary|
        (seq![e.domain@], (e.attach_operations, e.map_operations, e.compiled_objects)))
}

/// The attach inventory of an optional inventory (none when absent).
pub open spec fn attach_of(p: Option<&RuntimeInventory>) -> Seq<RuntimeInventoryAttach> {
    match p {
        Some(i) => i.attach_inventory@,
        None => Seq::empty(),
    }
}

/// The map inventory of an optional inventory (none when absent).
pub open spec fn maps_of(p: Option<&RuntimeInventory>) -> Seq<RuntimeInventoryMapEntry> {
    match p {
        Some(i) => i.map_inventory@,
        None => Seq::empty(),
    }
}

/// The domain inventory of an optional inventory (none when absent).
pub open spec fn domains_of(p: Option<&RuntimeInventory>) -> Seq<RuntimeInventoryDomainSummary> {
    match p {
        Some(i) => i.domain_inventory@,
        None => Seq::empty(),
    }
}

/// How a count changed: from zero it was added, to zero removed, else updated.
pub open spec fn count_change(prev: usize, cur: usize) -> Seq<char> {
    if prev == 0 {
        "added"@
    } else if cur == 0 {
        "removed"@
    } else {
        "updated"@
    }
}

/// How a domain changed: absent before it was added, absent now removed,
/// else updated.
pub open spec fn presence_change(prev: Option<Counts>, cur: Option<Counts>) -> Seq<char> {
    if prev is None {
        "added"@
    } else if cur is None {
        "removed"@
    } else {
        "updated"@
    }
}

/// Whether an attach or map change calls for cleanup.
pub open spec fn op_cleans(operation: Seq<char>, change: Seq<char>) -> bool {
    has_substring(operation, "cleanup"@) || change == "removed"@
}

/// The key of an attach delta.
pub open spec fn attach_delta_key(d: RuntimeInventoryAttachDelta) -> Key {
    seq![d.domain@, d.hook_family@, d.scope@, d.operation@]
}

/// The key of a map delta.
pub open spec fn map_delta_key(d: RuntimeInventoryMapDelta) -> Key {
    seq![d.domain@, d.map_family@, d.operation@]
}

/// The key of a domain delta.
pub open spec fn domain_delta_key(d: RuntimeInventoryDomainDelta) -> Key {
    seq![d.domain@]
}

/// Whether an attach delta holds what the two keyed lists hold under its key.
pub open spec fn attach_delta_matches(d: RuntimeInventoryAttachDelta, pk: Seq<(Key, Counts)>, ck: Seq<(Key, Counts)>) -> bool {
    let p = counts_or_zero(lookup_last(pk, attach_delta_key(d))).0;
    let c = counts_or_zero(lookup_last(ck, attach_delta_key(d))).0;
    &&& d.previous_object_count == p
    &&& d.current_object_count == c
    &&& d.change_type@ == count_change(p, c)
}

/// Whether a map delta holds what the two keyed lists hold under its key.
pub open spec fn map_delta_matches(d: RuntimeInventoryMapDelta, pk: Seq<(Key, Counts)>, ck: Seq<(Key, Counts)>) -> bool {
    let p = counts_or_zero(lookup_last(pk, map_delta_key(d))).0;
    let c = counts_or_zero(lookup_last(ck, map_delta_key(d))).0;
    &&& d.previous_object_count == p
    &&& d.current_object_count == c
    &&& d.change_type@ == count_change(p, c)
}

/// Whether a domain delta holds what the two keyed lists hold under its key.
pub open spec fn domain_delta_matches(d: RuntimeInventoryDomainDelta, pk: Seq<(Key, Counts)>, ck: Seq<(Key, Counts)>) -> bool {
    let po = lookup_last(pk, domain_delta_key(d));
    let co = lookup_last(ck, domain_delta_key(d));
    let p = counts_or_zero(po);
    let c = counts_or_zero(co);
    &&& d.previous_attach_operations == p.0
    &&& d.current_attach_operations == c.0
    &&& d.previous_map_operations == p.1
    &&& d.current_map_operations == c.1
    &&& d.previous_compiled_objects == p.2
    &&& d.current_compiled_objects == c.2
    &&& d.change_type@ == presence_change(po, co)
}

/// The keys of a list of attach deltas.
pub open spec fn attach_delta_keys(v: Seq<RuntimeInventoryAttachDelta>) -> Seq<Key> {
    v.map_values(|d: RuntimeInventoryAttachDelta| attach_delta_key(d))
}

/// The keys of a list of map deltas.
pub open spec fn map_delta_keys(v: Seq<RuntimeInventoryMapDelta>) -> Seq<Key> {
    v.map_values(|d: RuntimeInventoryMapDelta| map_delta_key(d))
}

/// The keys of a list of domain deltas.
pub open spec fn domain_delta_keys(v: Seq<RuntimeInventoryDomainDelta>) -> Seq<Key> {
    v.map_values(|d: RuntimeInventoryDomainDelta| domain_delta_key(d))
}

/// `r` lists, in key order, one delta for each key under which the two
/// attach lists disagree.
pub open spec fn attach_deltas_between(r: Seq<RuntimeInventoryAttachDelta>, pk: Seq<(Key, Counts)>, ck: Seq<(Key, Counts)>) -> bool {
    &&& increasing(attach_delta_keys(r))
    &&& attach_delta_keys(r).to_set() == disagreeing_keys(pk, ck)
    &&& forall|i: int| 0 <= i < r.len() ==> attach_delta_matches(#[trigger] r[i], pk, ck)
}

/// `r` lists, in key order, one delta for each key under which the two map
/// lists disagree.
pub open spec fn map_deltas_between(r: Seq<RuntimeInventoryMapDelta>, pk: Seq<(Key, Counts)>, ck: Seq<(Key, Counts)>) -> bool {
    &&& increasing(map_delta_keys(r))
    &&& map_delta_keys(r).to_set() == disagreeing_keys(pk, ck)
    &&& forall|i: int| 0 <= i < r.len() ==> map_delta_matches(#[trigger] r[i], pk, ck)
}

/// `r` lists, in domain order, one delta for each domain under which the two
/// domain lists disagree.
pub open spec fn domain_deltas_between(r: Seq<RuntimeInventoryDomainDelta>, pk: Seq<(Key, Counts)>, ck: Seq<(Key, Counts)>) -> bool {
    &&& increasing(domain_delta_keys(r))
    &&& domain_delta_keys(r).to_set() == disagreeing_keys(pk, ck)
    &&& forall|i: int| 0 <= i < r.len() ==> domain_delta_matches(#[trigger] r[i], pk, ck)
}

/// The domains that some delta names.
pub open spec fn delta_domains(
    a: Seq<RuntimeInventoryAttachDelta>,
    m: Seq<RuntimeInventoryMapDelta>,
    d: Seq<RuntimeInventoryDomainDelta>,
) -> Set<Seq<char>> {
    a.map_values(|x: RuntimeInventoryAttachDelta| x.domain@).to_set()
        .union(m.map_values(|x: RuntimeInventoryMapDelta| x.domain@).to_set())
        .union(d.map_values(|x: RuntimeInventoryDomainDelta| x.domain@).to_set())
}

/// Whether some delta calls for cleanup: an attach or map change whose
/// operation mentions cleanup or that was removed, or a removed domain.
pub open spec fn deltas_clean(
    a: Seq<RuntimeInventoryAttachDelta>,
    m: Seq<RuntimeInventoryMapDelta>,
    d: Seq<RuntimeInventoryDomainDelta>,
) -> bool {
    ||| exists|i: int| 0 <= i < a.len() && op_cleans((#[trigger] a[i]).operation@, a[i].change_type@)
    ||| exists|i: int| 0 <= i < m.len() && op_cleans((#[trigger] m[i]).operation@, m[i].change_type@)
    ||| exists|i: int| 0 <= i < d.len() && (#[trigger] d[i]).change_type@ == "removed"@
}

proof fn lemma_change_names()
    ensures
        "added"@ != "removed"@,
        "updated"@ != "removed"@,
        "cleanup"@.len() == 7,
{
    reveal_strlit("added");
    reveal_strlit("removed");
    reveal_strlit("updated");
    reveal_strlit("cleanup");
    assert("added"@[0] != "removed"@[0]);
    assert("updated"@[0] != "removed"@[0]);
}

fn change_string(prev: usize, cur: usize) -> (r: String)
    ensures
        r@ == count_change(prev, cur),
{
    if prev == 0 {
        "added".to_string()
    } else if cur == 0 {
        "removed".to_string()
    } else {
        "updated".to_string()
    }
}

fn attach_keyed_list(v: &Vec<RuntimeInventoryAttach>) -> (r: Vec<KeyedCounts>)
    ensures
        keyed_views(r@) == attach_keyed(v@),
{
    let mut r: Vec<KeyedCounts> = Vec::new();
    let mut i: usize = 0;
    while i < v.len()
        invariant
            i <= v.len(),
            keyed_views(r@) == attach_keyed(v@).take(i as int),
        decreases v.len() - i,
    {
        let e = &v[i];
        let mut key: Vec<String> = Vec::new();
        key.push(e.domain.clone());
        key.push(e.hook_family.clone());
        key.push(e.scope.clone());
        key.push(e.operation.clone());
        assert(strs(key@) =~= seq![e.domain@, e.hook_family@, e.scope@, e.operation@]);
        let ghost before = r@;
        r.push(KeyedCounts { key, counts: (e.object_count, 0, 0) });
        proof {
            assert(keyed_views(r@) =~= keyed_views(before).push(attach_keyed(v@)[i as int]));
            assert(attach_keyed(v@).take(i + 1) =~= attach_keyed(v@).take(i as int).push(attach_keyed(v@)[i as int]));
        }
        i = i + 1;
    }
    assert(attach_keyed(v@).take(i as int) =~= attach_keyed(v@));
    r
}

fn map_keyed_list(v: &Vec<RuntimeInventoryMapEntry>) -> (r: Vec<KeyedCounts>)
    ensures
        keyed_views(r@) == map_keyed(v@),
{
    let mut r: Vec<KeyedCounts> = Vec::new();
    let mut i: usize = 0;
    while i < v.len()
        invariant
            i <= v.len(),
            keyed_views(r@) == map_keyed(v@).take(i as int),
        decreases v.len() - i,
    {
        let e = &v[i];
        let mut key: Vec<String> = Vec::new();
        key.push(e.domain.clone());
        key.push(e.map_family.clone());
        key.push(e.operation.clone());
        assert(strs(key@) =~= seq![e.domain@, e.map_family@, e.operation@]);
        let ghost before = r@;
        r.push(KeyedCounts { key, counts: (e.object_count, 0, 0) });
        proof {
            assert(keyed_views(r@) =~= keyed_views(before).push(map_keyed(v@)[i as int]));
            assert(map_keyed(v@).take(i + 1) =~= map_keyed(v@).take(i as int).push(map_keyed(v@)[i as int]));
        }
        i = i + 1;
    }
    assert(map_keyed(v@).take(i as int) =~= map_keyed(v@));
    r
}

fn domain_keyed_list(v: &Vec<RuntimeInventoryDomainSummary>) -> (r: Vec<KeyedCounts>)
    ensures
        keyed_views(r@) == domain_keyed(v@),
{
    let mut r: Vec<KeyedCounts> = Vec::new();
    let mut i: usize = 0;
    while i < v.len()
        invariant
            i <= v.len(),
            keyed_views(r@) == domain_keyed(v@).take(i as int),
        decreases v.len() - i,
    {
        let e = &v[i];
        let mut key: Vec<String> = Vec::new();
        key.push(e.domain.clone());
        assert(strs(key@) =~= seq![e.domain@]);
        let ghost before = r@;
        r.push(KeyedCounts { key, counts: (e.attach_operations, e.map_operations, e.compiled_objects) });
        proof {
            assert(keyed_views(r@) =~= keyed_views(before).push(domain_keyed(v@)[i as int]));
            assert(domain_keyed(v@).take(i + 1) =~= domain_keyed(v@).take(i as int).push(domain_keyed(v@)[i as int]));
        }
        i = i + 1;
    }
    assert(domain_keyed(v@).take(i as int) =~= domain_keyed(v@));
    r
}

/// What a key difference list promises, for keys of `n` components.
pub open spec fn diffs_between(d: Seq<KeyDiff>, pk: Seq<(Key, Counts)>, ck: Seq<(Key, Counts)>, n: nat) -> bool {
    &&& keys_of_len(pk, n)
    &&& keys_of_len(ck, n)
    &&& increasing(diff_keys(d))
    &&& diff_keys(d).to_set() == disagreeing_keys(pk, ck)
    &&& forall|i: int| 0 <= i < d.len() ==> {
        &&& (#[trigger] d[i]).prev == lookup_last(pk, strs(d[i].key@))
        &&& d[i].cur == lookup_last(ck, strs(d[i].key@))
    }
}

proof fn lemma_diff_key_len(d: Seq<KeyDiff>, pk: Seq<(Key, Counts)>, ck: Seq<(Key, Counts)>, n: nat, i: int)
    requires
        diffs_between(d, pk, ck, n),
        0 <= i < d.len(),
    ensures
        d[i].key@.len() == n,
        counts_or_zero(d[i].prev) != counts_or_zero(d[i].cur),
{
    let k = diff_keys(d)[i];
    assert(diff_keys(d).to_set().contains(k));
    lemma_disagreeing_key_len(pk, ck, n, k);
}

fn attach_deltas_from(d: &Vec<KeyDiff>, Ghost(pk): Ghost<Seq<(Key, Counts)>>, Ghost(ck): Ghost<Seq<(Key, Counts)>>)
    -> (r: (Vec<RuntimeInventoryAttachDelta>, bool))
    requires
        diffs_between(d@, pk, ck, 4),
    ensures
        attach_delta_keys(r.0@) == diff_keys(d@),
        forall|i: int| 0 <= i < r.0.len() ==> attach_delta_matches(#[trigger] r.0@[i], pk, ck),
        r.1 == exists|i: int| 0 <= i < r.0.len() && op_cleans((#[trigger] r.0@[i]).operation@, r.0@[i].change_type@),
{
    proof { lemma_change_names(); }
    let mut out: Vec<RuntimeInventoryAttachDelta> = Vec::new();
    let mut cleans = false;
    let mut i: usize = 0;
    while i < d.len()
        invariant
            i <= d.len(),
            diffs_between(d@, pk, ck, 4),
            "added"@ != "removed"@,
            "updated"@ != "removed"@,
            attach_delta_keys(out@) == diff_keys(d@).take(i as int),
            forall|m: int| 0 <= m < out.len() ==> attach_delta_matches(#[trigger] out@[m], pk, ck),
            cleans == exists|m: int| 0 <= m < out.len() && op_cleans((#[trigger] out@[m]).operation@, out@[m].change_type@),
        decreases d.len() - i,
    {
        proof { lemma_diff_key_len(d@, pk, ck, 4, i as int); }
        let k = &d[i].key;
        let p = match d[i].prev { Some(c) => c.0, None => 0 };
        let c = match d[i].cur { Some(c) => c.0, None => 0 };
        let change_type = change_string(p, c);
        let removed = p != 0 && c == 0;
        let op_clean = contains_substring(k[3].as_str(), "cleanup");
        let delta = RuntimeInventoryAttachDelta {
            domain: k[0].clone(),
            hook_family: k[1].clone(),
            scope: k[2].clone(),
            operation: k[3].clone(),
            previous_object_count: p,
            current_object_count: c,
            change_type,
        };
        proof {
            assert(attach_delta_key(delta) =~= strs(d@[i as int].key@));
            assert(op_cleans(delta.operation@, delta.change_type@) == (op_clean || removed));
        }
        let ghost before = out@;
        out.push(delta);
        cleans = cleans || op_clean || removed;
        proof {
            assert(attach_delta_keys(out@) =~= attach_delta_keys(before).push(diff_keys(d@)[i as int]));
            assert(diff_keys(d@).take(i + 1) =~= diff_keys(d@).take(i as int).push(diff_keys(d@)[i as int]));
            assert forall|m: int| 0 <= m < out.len() implies attach_delta_matches(#[trigger] out@[m], pk, ck) by {
                if m < before.len() {
                    assert(out@[m] == before[m]);
                }
            }
            if cleans {
                if op_clean || removed {
                    assert(op_cleans(out@[before.len() as int].operation@, out@[before.len() as int].change_type@));
                } else {
                    let m = choose|m: int| 0 <= m < before.len() && op_cleans((#[trigger] before[m]).operation@, before[m].change_type@);
                    assert(out@[m] == before[m]);
                }
            } else {
                assert forall|m: int| 0 <= m < out.len() implies !op_cleans((#[trigger] out@[m]).operation@, out@[m].change_type@) by {
                    if m < before.len() {
                        assert(out@[m] == before[m]);
                    }
                }
            }
        }
        i = i + 1;
    }
    assert(diff_keys(d@).take(i as int) =~= diff_keys(d@));
    (out, cleans)
}

fn map_deltas_from(d: &Vec<KeyDiff>, Ghost(pk): Ghost<Seq<(Key, Counts)>>, Ghost(ck): Ghost<Seq<(Key, Counts)>>)
    -> (r: (Vec<RuntimeInventoryMapDelta>, bool))
    requires
        diffs_between(d@, pk, ck, 3),
    ensures
        map_delta_keys(r.0@) == diff_keys(d@),
        forall|i: int| 0 <= i < r.0.len() ==> map_delta_matches(#[trigger] r.0@[i], pk, ck),
        r.1 == exists|i: int| 0 <= i < r.0.len() && op_cleans((#[trigger] r.0@[i]).operation@, r.0@[i].change_type@),
{
    proof { lemma_change_names(); }
    let mut out: Vec<RuntimeInventoryMapDelta> = Vec::new();
    let mut cleans = false;
    let mut i: usize = 0;
    while i < d.len()
        invariant
            i <= d.len(),
            diffs_between(d@, pk, ck, 3),
            "added"@ != "removed"@,
            "updated"@ != "removed"@,
            map_delta_keys(out@) == diff_keys(d@).take(i as int),
            forall|m: int| 0 <= m < out.len() ==> map_delta_matches(#[trigger] out@[m], pk, ck),
            cleans == exists|m: int| 0 <= m < out.len() && op_cleans((#[trigger] out@[m]).operation@, out@[m].change_type@),
        decreases d.len() - i,
    {
        proof { lemma_diff_key_len(d@, pk, ck, 3, i as int); }
        let k = &d[i].key;
        let p = match d[i].prev { Some(c) => c.0, None => 0 };
        let c = match d[i].cur { Some(c) => c.0, None => 0 };
        let change_type = change_string(p, c);
        let removed = p != 0 && c == 0;
        let op_clean = contains_substring(k[2].as_str(), "cleanup");
        let delta = RuntimeInventoryMapDelta {
            domain: k[0].clone(),
            map_family: k[1].clone(),
            operation: k[2].clone(),
            previous_object_count: p,
            current_object_count: c,
            change_type,
        };
        proof {
            assert(map_delta_key(delta) =~= strs(d@[i as int].key@));
            assert(op_cleans(delta.operation@, delta.change_type@) == (op_clean || removed));
        }
        let ghost before = out@;
        out.push(delta);
        cleans = cleans || op_clean || removed;
        proof {
            assert(map_delta_keys(out@) =~= map_delta_keys(before).push(diff_keys(d@)[i as int]));
            assert(diff_keys(d@).take(i + 1) =~= diff_keys(d@).take(i as int).push(diff_keys(d@)[i as int]));
            assert forall|m: int| 0 <= m < out.len() implies map_delta_matches(#[trigger] out@[m], pk, ck) by {
                if m < before.len() {
                    assert(out@[m] == before[m]);
                }
            }
            if cleans {
                if op_clean || removed {
                    assert(op_cleans(out@[before.len() as int].operation@, out@[before.len() as int].change_type@));
                } else {
                    let m = choose|m: int| 0 <= m < before.len() && op_cleans((#[trigger] before[m]).operation@, before[m].change_type@);
                    assert(out@[m] == before[m]);
                }
            } else {
                assert forall|m: int| 0 <= m < out.len() implies !op_cleans((#[trigger] out@[m]).operation@, out@[m].change_type@) by {
                    if m < before.len() {
                        assert(out@[m] == before[m]);
                    }
                }
            }
        }
        i = i + 1;
    }
    assert(diff_keys(d@).take(i as int) =~= diff_keys(d@));
    (out, cleans)
}

fn domain_deltas_from(d: &Vec<KeyDiff>, Ghost(pk): Ghost<Seq<(Key, Counts)>>, Ghost(ck): Ghost<Seq<(Key, Counts)>>)
    -> (r: (Vec<RuntimeInventoryDomainDelta>, bool))
    requires
        diffs_between(d@, pk, ck, 1),
    ensures
        domain_delta_keys(r.0@) == diff_keys(d@),
        forall|i: int| 0 <= i < r.0.len() ==> domain_delta_matches(#[trigger] r.0@[i], pk, ck),
        r.1 == exists|i: int| 0 <= i < r.0.len() && (#[trigger] r.0@[i]).change_type@ == "removed"@,
{
    proof { lemma_change_names(); }
    let mut out: Vec<RuntimeInventoryDomainDelta> = Vec::new();
    let mut cleans = false;
    let mut i: usize = 0;
    while i < d.len()
        invariant
            i <= d.len(),
            diffs_between(d@, pk, ck, 1),
            "added"@ != "removed"@,
            "updated"@ != "removed"@,
            domain_delta_keys(out@) == diff_keys(d@).take(i as int),
            forall|m: int| 0 <= m < out.len() ==> domain_delta_matches(#[trigger] out@[m], pk, ck),
            cleans == exists|m: int| 0 <= m < out.len() && (#[trigger] out@[m]).change_type@ == "removed"@,
        decreases d.len() - i,
    {
        proof { lemma_diff_key_len(d@, pk, ck, 1, i as int); }
        let k = &d[i].key;
        let p = match d[i].prev { Some(c) => c, None => (0, 0, 0) };
        let c = match d[i].cur { Some(c) => c, None => (0, 0, 0) };
        let removed = d[i].prev.is_some() && d[i].cur.is_none();
        let change_type = if d[i].prev.is_none() {
            "added".to_string()
        } else if d[i].cur.is_none() {
            "removed".to_string()
        } else {
            "updated".to_string()
        };
        let delta = RuntimeInventoryDomainDelta {
            domain: k[0].clone(),
            previous_attach_operations: p.0,
            current_attach_operations: c.0,
            previous_map_operations: p.1,
            current_map_operations: c.1,
            previous_compiled_objects: p.2,
            current_compiled_objects: c.2,
            change_type,
        };
        proof {
            assert(domain_delta_key(delta) =~= strs(d@[i as int].key@));
            assert((delta.change_type@ == "removed"@) == removed);
        }
        let ghost before = out@;
        out.push(delta);
        cleans = cleans || removed;
        proof {
            assert(domain_delta_keys(out@) =~= domain_delta_keys(before).push(diff_keys(d@)[i as int]));
            assert(diff_keys(d@).take(i + 1) =~= diff_keys(d@).take(i as int).push(diff_keys(d@)[i as int]));
            assert forall|m: int| 0 <= m < out.len() implies domain_delta_matches(#[trigger] out@[m], pk, ck) by {
                if m < before.len() {
                    assert(out@[m] == before[m]);
                }
            }
            if cleans {
                if removed {
                    assert(out@[before.len() as int].change_type@ == "removed"@);
                } else {
                    let m = choose|m: int| 0 <= m < before.len() && (#[trigger] before[m]).change_type@ == "removed"@;
                    assert(out@[m] == before[m]);
                }
            } else {
                assert forall|m: int| 0 <= m < out.len() implies (#[trigger] out@[m]).change_type@ != "removed"@ by {
                    if m < before.len() {
                        assert(out@[m] == before[m]);
                    }
                }
            }
        }
        i = i + 1;
    }
    assert(diff_keys(d@).take(i as int) =~= diff_keys(d@));
    (out, cleans)
}

fn push_attach_domains(out: &mut Vec<String>, v: &Vec<RuntimeInventoryAttachDelta>)
    ensures
        strs(final(out)@) == strs(old(out)@) + v@.map_values(|x: RuntimeInventoryAttachDelta| x.domain@),
{
    let ghost start = strs(out@);
    let ghost doms = v@.map_values(|x: RuntimeInventoryAttachDelta| x.domain@);
    let mut i: usize = 0;
    while i < v.len()
        invariant
            i <= v.len(),
            doms == v@.map_values(|x: RuntimeInventoryAttachDelta| x.domain@),
            strs(out@) == start + doms.take(i as int),
        decreases v.len() - i,
    {
        let ghost before = out@;
        out.push(v[i].domain.clone());
        assert(strs(out@) =~= strs(before).push(doms[i as int]));
        assert(doms.take(i + 1) =~= doms.take(i as int).push(doms[i as int]));
        assert(strs(out@) =~= start + doms.take(i + 1));
        i = i + 1;
    }
    assert(doms.take(i as int) =~= doms);
}

fn push_map_domains(out: &mut Vec<String>, v: &Vec<RuntimeInventoryMapDelta>)
    ensures
        strs(final(out)@) == strs(old(out)@) + v@.map_values(|x: RuntimeInventoryMapDelta| x.domain@),
{
    let ghost start = strs(out@);
    let ghost doms = v@.map_values(|x: RuntimeInventoryMapDelta| x.domain@);
    let mut i: usize = 0;
    while i < v.len()
        invariant
            i <= v.len(),
            doms == v@.map_values(|x: RuntimeInventoryMapDelta| x.domain@),
            strs(out@) == start + doms.take(i as int),
        decreases v.len() - i,
    {
        let ghost before = out@;
        out.push(v[i].domain.clone());
        assert(strs(out@) =~= strs(before).push(doms[i as int]));
        assert(doms.take(i + 1) =~= doms.take(i as int).push(doms[i as int]));
        assert(strs(out@) =~= start + doms.take(i + 1));
        i = i + 1;
    }
    assert(doms.take(i as int) =~= doms);
}

fn push_domain_domains(out: &mut Vec<String>, v: &Vec<RuntimeInventoryDomainDelta>)
    ensures
        strs(final(out)@) == strs(old(out)@) + v@.map_values(|x: RuntimeInventoryDomainDelta| x.domain@),
{
    let ghost start = strs(out@);
    let ghost doms = v@.map_values(|x: RuntimeInventoryDomainDelta| x.domain@);
    let mut i: usize = 0;
    while i < v.len()
        invariant
            i <= v.len(),
            doms == v@.map_values(|x: RuntimeInventoryDomainDelta| x.domain@),
            strs(out@) == start + doms.take(i as int),
        decreases v.len() - i,
    {
        let ghost before = out@;
        out.push(v[i].domain.clone());
        assert(strs(out@) =~= strs(before).push(doms[i as int]));
        assert(doms.take(i + 1) =~= doms.take(i as int).push(doms[i as int]));
        assert(strs(out@) =~= start + doms.take(i + 1));
        i = i + 1;
    }
    assert(doms.take(i as int) =~= doms);
}

/// What changed from `previous_inventory` (none: an empty inventory) to
/// `current_inventory`: for attach entries, map entries and domains, one
/// delta per key whose counts differ (an absent key counts zero), in key
/// order; the domains these deltas name, sorted and without repeats; whether
/// any of them calls for cleanup; and the observation time, the current Unix
/// time in seconds.
pub fn build_runtime_inventory_diff(
    previous_inventory: Option<&RuntimeInventory>,
    current_inventory: &RuntimeInventory,
) -> (r: RuntimeInventoryDiff)
    ensures
        r.generation == current_inventory.generation,
        r.previous_generation == (match previous_inventory {
            Some(p) => if p.generation@ != current_inventory.generation@ { Some(p.generation) } else { None::<String> },
            None => None::<String>,
        }),
        exists|secs: nat| r.observed_at@ == decimal(secs),
        attach_deltas_between(r.attach_deltas@, attach_keyed(attach_of(previous_inventory)),
            attach_keyed(current_inventory.attach_inventory@)),
        map_deltas_between(r.map_deltas@, map_keyed(maps_of(previous_inventory)),
            map_keyed(current_inventory.map_inventory@)),
        domain_deltas_between(r.domain_deltas@, domain_keyed(domains_of(previous_inventory)),
            domain_keyed(current_inventory.domain_inventory@)),
        str_increasing(strs(r.changed_domains@)),
        strs(r.changed_domains@).to_set() == delta_domains(r.attach_deltas@, r.map_deltas@, r.domain_deltas@),
        r.has_cleanup == deltas_clean(r.attach_deltas@, r.map_deltas@, r.domain_deltas@),
        r.shadow_apply_only,
{
    let ghost pa_v = attach_keyed(attach_of(previous_inventory));
    let ghost pm_v = map_keyed(maps_of(previous_inventory));
    let ghost pd_v = domain_keyed(domains_of(previous_inventory));
    let ghost ca_v = attach_keyed(current_inventory.attach_inventory@);
    let ghost cm_v = map_keyed(current_inventory.map_inventory@);
    let ghost cd_v = domain_keyed(current_inventory.domain_inventory@);
    let (pa, pm, pd) = match previous_inventory {
        Some(p) => (
            attach_keyed_list(&p.attach_inventory),
            map_keyed_list(&p.map_inventory),
            domain_keyed_list(&p.domain_inventory),
        ),
        None => {
            let a: Vec<KeyedCounts> = Vec::new();
            let m: Vec<KeyedCounts> = Vec::new();
            let d: Vec<KeyedCounts> = Vec::new();
            assert(keyed_views(a@) =~= pa_v);
            assert(keyed_views(m@) =~= pm_v);
            assert(keyed_views(d@) =~= pd_v);
            (a, m, d)
        },
    };
    let ca = attach_keyed_list(&current_inventory.attach_inventory);
    let cm = map_keyed_list(&current_inventory.map_inventory);
    let cd = domain_keyed_list(&current_inventory.domain_inventory);
    proof {
        assert(keys_of_len(pa_v, 4));
        assert(keys_of_len(ca_v, 4));
        assert(keys_of_len(pm_v, 3));
        assert(keys_of_len(cm_v, 3));
        assert(keys_of_len(pd_v, 1));
        assert(keys_of_len(cd_v, 1));
    }
    let ad = diff_keyed(&pa, &ca);
    let md = diff_keyed(&pm, &cm);
    let dd = diff_keyed(&pd, &cd);
    let (attach_deltas, attach_cleans) = attach_deltas_from(&ad, Ghost(pa_v), Ghost(ca_v));
    let (map_deltas, map_cleans) = map_deltas_from(&md, Ghost(pm_v), Ghost(cm_v));
    let (domain_deltas, domain_cleans) = domain_deltas_from(&dd, Ghost(pd_v), Ghost(cd_v));
    let mut all_domains: Vec<String> = Vec::new();
    push_attach_domains(&mut all_domains, &attach_deltas);
    push_map_domains(&mut all_domains, &map_deltas);
    push_domain_domains(&mut all_domains, &domain_deltas);
    let changed_domains = sorted_distinct(&all_domains);
    proof {
        let a = attach_deltas@.map_values(|x: RuntimeInventoryAttachDelta| x.domain@);
        let m = map_deltas@.map_values(|x: RuntimeInventoryMapDelta| x.domain@);
        let d = domain_deltas@.map_values(|x: RuntimeInventoryDomainDelta| x.domain@);
        assert(strs(all_domains@) =~= a + m + d);
        vstd::seq_lib::seq_to_set_distributes_over_add(a + m, d);
        vstd::seq_lib::seq_to_set_distributes_over_add(a, m);
    }
    let previous_generation = match previous_inventory {
        Some(p) => if !str_eq(p.generation.as_str(), current_inventory.generation.as_str()) {
            Some(p.generation.clone())
        } else {
            None
        },
        None => None,
    };
    RuntimeInventoryDiff {
        generation: current_inventory.generation.clone(),
        previous_generation,
        observed_at: unix_timestamp_string(),
        changed_domains,
        attach_deltas,
        map_deltas,
        domain_deltas,
        has_cleanup: attach_cleans || map_cleans || domain_cleans,
        shadow_apply_only: true,
    }
}

/// Two lists of keyed counts do not disagree with themselves.
proof fn lemma_no_disagreement_with_self(k: Seq<(Key, Counts)>)
    ensures
        disagreeing_keys(k, k) == Set::<Key>::empty(),
{
    assert(disagreeing_keys(k, k) =~= Set::<Key>::empty());
}

proof fn lemma_empty_to_set<T>(s: Seq<T>)
    requires
        s.to_set() == Set::<T>::empty(),
    ensures
        s.len() == 0,
{
    if s.len() > 0 {
        assert(s.to_set().contains(s[0]));
    }
}

/// An inventory compared with itself shows no change: no attach, map or
/// domain deltas, hence no changed domains and no cleanup.
pub proof fn lemma_unchanged_inventory_has_no_deltas(inv: &RuntimeInventory, r: RuntimeInventoryDiff)
    requires
        attach_deltas_between(r.attach_deltas@, attach_keyed(inv.attach_inventory@), attach_keyed(inv.attach_inventory@)),
        map_deltas_between(r.map_deltas@, map_keyed(inv.map_inventory@), map_keyed(inv.map_inventory@)),
        domain_deltas_between(r.domain_deltas@, domain_keyed(inv.domain_inventory@), domain_keyed(inv.domain_inventory@)),
        strs(r.changed_domains@).to_set() == delta_domains(r.attach_deltas@, r.map_deltas@, r.domain_deltas@),
        r.has_cleanup == deltas_clean(r.attach_deltas@, r.map_deltas@, r.domain_deltas@),
    ensures
        r.attach_deltas.len() == 0,
        r.map_deltas.len() == 0,
        r.domain_deltas.len() == 0,
        r.changed_domains.len() == 0,
        !r.has_cleanup,
{
    lemma_no_disagreement_with_self(attach_keyed(inv.attach_inventory@));
    lemma_no_disagreement_with_self(map_keyed(inv.map_inventory@));
    lemma_no_disagreement_with_self(domain_keyed(inv.domain_inventory@));
    lemma_empty_to_set(attach_delta_keys(r.attach_deltas@));
    lemma_empty_to_set(map_delta_keys(r.map_deltas@));
    lemma_empty_to_set(domain_delta_keys(r.domain_deltas@));
    assert(delta_domains(r.attach_deltas@, r.map_deltas@, r.domain_deltas@) =~= Set::<Seq<char>>::empty());
    lemma_empty_to_set(strs(r.changed_domains@));
}

/// Against no previous inventory every delta is an addition, and every
/// count it reports as previous is zero.
pub proof fn lemma_first_inventory_only_adds(inv: &RuntimeInventory, r: RuntimeInventoryDiff)
    requires
        attach_deltas_between(r.attach_deltas@, attach_keyed(Seq::empty()), attach_keyed(inv.attach_inventory@)),
        map_deltas_between(r.map_deltas@, map_keyed(Seq::empty()), map_keyed(inv.map_inventory@)),
        domain_deltas_between(r.domain_deltas@, domain_keyed(Seq::empty()), domain_keyed(inv.domain_inventory@)),
    ensures
        forall|i: int| 0 <= i < r.attach_deltas.len() ==> {
            &&& (#[trigger] r.attach_deltas@[i]).change_type@ == "added"@
            &&& r.attach_deltas@[i].previous_object_count == 0
        },
        forall|i: int| 0 <= i < r.map_deltas.len() ==> {
            &&& (#[trigger] r.map_deltas@[i]).change_type@ == "added"@
            &&& r.map_deltas@[i].previous_object_count == 0
        },
        forall|i: int| 0 <= i < r.domain_deltas.len() ==> {
            &&& (#[trigger] r.domain_deltas@[i]).change_type@ == "added"@
            &&& r.domain_deltas@[i].previous_attach_operations == 0
            &&& r.domain_deltas@[i].previous_map_operations == 0
            &&& r.domain_deltas@[i].previous_compiled_objects == 0
        },
{
    assert(attach_keyed(Seq::empty()).len() == 0);
    assert(map_keyed(Seq::empty()).len() == 0);
    assert(domain_keyed(Seq::empty()).len() == 0);
}

} // verus!
