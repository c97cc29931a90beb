//! Counts filed under string keys, and the keys under which two such lists
//! disagree, in key order (what walking the union of two `BTreeMap`s gives).
use vstd::prelude::*;
use crate::order::{clone_strings, increasing, insert_sorted, key_lt, keys, strs};

verus! {

/// Up to three counts filed under a key of strings.
#[derive(Debug)]
pub struct KeyedCounts {
    pub key: Vec<String>,
    pub counts: (usize, usize, usize),
}

/// A key of strings.
pub type Key = Seq<Seq<char>>;

/// Counts under a key.
pub type Counts = (usize, usize, usize);

/// The views of a list of keyed counts.
pub open spec fn keyed_views(v: Seq<KeyedCounts>) -> Seq<(Key, Counts)> {
    v.map_values(|e: KeyedCounts| (strs(e.key@), e.counts))
}

/// The counts of the last entry under `k`, as collecting into a map keeps them.
pub open spec fn lookup_last(s: Seq<(Key, Counts)>, k: Key) -> Option<Counts>
    decreases s.len(),
{
    if s.len() == 0 {
        None
    } else if s.last().0 == k {
        Some(s.last().1)
    } else {
        lookup_last(s.drop_last(), k)
    }
}

/// The counts under `k`, or zeros.
pub open spec fn counts_or_zero(c: Option<Counts>) -> Counts {
    match c {
        Some(c) => c,
        None => (0usize, 0usize, 0usize),
    }
}

/// The keys of `s`.
pub open spec fn key_set(s: Seq<(Key, Counts)>) -> Set<Key> {
    s.map_values(|e: (Key, Counts)| e.0).to_set()
}

/// Whether the two lists disagree under `k` (absent counts read as zero).
pub open spec fn disagree(prev: Seq<(Key, Counts)>, cur: Seq<(Key, Counts)>, k: Key) -> bool {
    counts_or_zero(lookup_last(prev, k)) != counts_or_zero(lookup_last(cur, k))
}

/// The keys, of either list, under which they disagree.
pub open spec fn disagreeing_keys(prev: Seq<(Key, Counts)>, cur: Seq<(Key, Counts)>) -> Set<Key> {
    key_set(prev).union(key_set(cur)).filter(|k: Key| disagree(prev, cur, k))
}

/// Every key of `s` has `n` components.
pub open spec fn keys_of_len(s: Seq<(Key, Counts)>, n: nat) -> bool {
    forall|j: int| 0 <= j < s.len() ==> (#[trigger] s[j]).0.len() == n
}

/// A key under which two lists disagree has the length their keys have.
pub proof fn lemma_disagreeing_key_len(prev: Seq<(Key, Counts)>, cur: Seq<(Key, Counts)>, n: nat, k: Key)
    requires
        keys_of_len(prev, n),
        keys_of_len(cur, n),
        disagreeing_keys(prev, cur).contains(k),
    ensures
        k.len() == n,
{
    let mp = prev.map_values(|e: (Key, Counts)| e.0);
    let mc = cur.map_values(|e: (Key, Counts)| e.0);
    if mp.to_set().contains(k) {
        let j = choose|j: int| 0 <= j < mp.len() && mp[j] == k;
        assert(prev[j].0 == k);
    } else {
        let j = choose|j: int| 0 <= j < mc.len() && mc[j] == k;
        assert(cur[j].0 == k);
    }
}

/// A key under which two lists disagree, with what each holds there.
#[derive(Debug)]
pub struct KeyDiff {
    pub key: Vec<String>,
    pub prev: Option<(usize, usize, usize)>,
    pub cur: Option<(usize, usize, usize)>,
}

/// The keys of a list of key differences.
pub open spec fn diff_keys(v: Seq<KeyDiff>) -> Seq<Key> {
    v.map_values(|d: KeyDiff| strs(d.key@))
}

fn lookup_last_exec(s: &Vec<KeyedCounts>, k: &Vec<String>) -> (r: Option<(usize, usize, usize)>)
    ensures
        r == lookup_last(keyed_views(s@), strs(k@)),
{
    let ghost v = keyed_views(s@);
    let mut found: Option<(usize, usize, usize)> = None;
    let mut i: usize = 0;
    assert(v.take(0) =~= Seq::<(Key, Counts)>::empty());
    while i < s.len()
        invariant
            i <= s.len(),
            v == keyed_views(s@),
            found == lookup_last(v.take(i as int), strs(k@)),
        decreases s.len() - i,
    {
        assert(v.take(i + 1).drop_last() =~= v.take(i as int));
        if crate::strset::strings_eq(&s[i].key, k) {
            found = Some(s[i].counts);
        }
        i = i + 1;
    }
    assert(v.take(i as int) =~= v);
    found
}

fn add_keys(set: &mut Vec<Vec<String>>, s: &Vec<KeyedCounts>)
    requires
        increasing(keys(old(set)@)),
    ensures
        increasing(keys(final(set)@)),
        keys(final(set)@).to_set() == keys(old(set)@).to_set().union(key_set(keyed_views(s@))),
{
    let ghost start = keys(set@).to_set();
    let ghost v = keyed_views(s@);
    let mut i: usize = 0;
    while i < s.len()
        invariant
            i <= s.len(),
            v == keyed_views(s@),
            increasing(keys(set@)),
            keys(set@).to_set() == start.union(key_set(v.take(i as int))),
        decreases s.len() - i,
    {
        let k = clone_strings(&s[i].key);
        insert_sorted(set, k);
        proof {
            let m = v.take(i + 1).map_values(|e: (Key, Counts)| e.0);
            let m0 = v.take(i as int).map_values(|e: (Key, Counts)| e.0);
            assert(m =~= m0.push(v[i as int].0));
            m0.lemma_push_to_set_commute(v[i as int].0);
            assert(keys(set@).to_set() =~= start.union(key_set(v.take(i + 1))));
        }
        i = i + 1;
    }
    assert(v.take(i as int) =~= v);
}

/// The keys under which `prev` and `cur` disagree, in increasing key order,
/// each with what the two lists hold there.
pub fn diff_keyed(prev: &Vec<KeyedCounts>, cur: &Vec<KeyedCounts>) -> (r: Vec<KeyDiff>)
    ensures
        increasing(diff_keys(r@)),
        diff_keys(r@).to_set() == disagreeing_keys(keyed_views(prev@), keyed_views(cur@)),
        forall|i: int| 0 <= i < r.len() ==> {
            &&& (#[trigger] r@[i]).prev == lookup_last(keyed_views(prev@), strs(r@[i].key@))
            &&& r@[i].cur == lookup_last(keyed_views(cur@), strs(r@[i].key@))
        },
{
    let ghost pv = keyed_views(prev@);
    let ghost cv = keyed_views(cur@);
    let mut all: Vec<Vec<String>> = Vec::new();
    assert(keys(all@).to_set() =~= Set::<Key>::empty());
    add_keys(&mut all, prev);
    add_keys(&mut all, cur);
    assert(keys(all@).to_set() =~= key_set(pv).union(key_set(cv)));
    let ghost ks = keys(all@);
    let mut out: Vec<KeyDiff> = Vec::new();
    let ghost mut idx: Seq<int> = Seq::empty();
    let mut i: usize = 0;
    while i < all.len()
        invariant
            i <= all.len(),
            ks == keys(all@),
            increasing(ks),
            ks.to_set() == key_set(pv).union(key_set(cv)),
            pv == keyed_views(prev@),
            cv == keyed_views(cur@),
            idx.len() == out.len(),
            forall|m: int| 0 <= m < idx.len() ==> 0 <= #[trigger] idx[m] < i,
            forall|m: int, n: int| 0 <= m < n < idx.len() ==> #[trigger] idx[m] < #[trigger] idx[n],
            forall|m: int| 0 <= m < out.len() ==> diff_keys(out@)[m] == ks[#[trigger] idx[m]],
            forall|m: int| 0 <= m < out.len() ==> {
                &&& (#[trigger] out@[m]).prev == lookup_last(pv, strs(out@[m].key@))
                &&& out@[m].cur == lookup_last(cv, strs(out@[m].key@))
            },
            forall|j: int| 0 <= j < i && disagree(pv, cv, ks[j]) ==> exists|m: int| 0 <= m < idx.len() && #[trigger] idx[m] == j,
            forall|m: int| 0 <= m < out.len() ==> disagree(pv, cv, #[trigger] diff_keys(out@)[m]),
        decreases all.len() - i,
    {
        let p = lookup_last_exec(prev, &all[i]);
        let c = lookup_last_exec(cur, &all[i]);
        let pz = match p { Some(x) => x, None => (0, 0, 0) };
        let cz = match c { Some(x) => x, None => (0, 0, 0) };
        if pz.0 != cz.0 || pz.1 != cz.1 || pz.2 != cz.2 {
            let ghost before = out@;
            out.push(KeyDiff { key: clone_strings(&all[i]), prev: p, cur: c });
            let ghost old_idx = idx;
            proof {
                idx = idx.push(i as int);
                assert(diff_keys(out@) =~= diff_keys(before).push(ks[i as int]));
                assert forall|m: int| 0 <= m < out.len() implies diff_keys(out@)[m] == ks[#[trigger] idx[m]] by {
                    if m < before.len() {
                        assert(diff_keys(out@)[m] == diff_keys(before)[m]);
                    }
                }
                assert forall|m: int| 0 <= m < out.len() implies disagree(pv, cv, #[trigger] diff_keys(out@)[m]) by {
                    if m < before.len() {
                        assert(diff_keys(out@)[m] == diff_keys(before)[m]);
                    }
                }
                assert forall|m: int| 0 <= m < out.len() implies {
                    &&& (#[trigger] out@[m]).prev == lookup_last(pv, strs(out@[m].key@))
                    &&& out@[m].cur == lookup_last(cv, strs(out@[m].key@))
                } by {
                    if m < before.len() {
                        assert(out@[m] == before[m]);
                    }
                }
                assert forall|j: int| 0 <= j < i + 1 && disagree(pv, cv, ks[j]) implies
                    exists|m: int| 0 <= m < idx.len() && #[trigger] idx[m] == j by {
                    if j == i {
                        assert(idx[idx.len() - 1] == j);
                    } else {
                        let m = choose|m: int| 0 <= m < old_idx.len() && #[trigger] old_idx[m] == j;
                        assert(idx[m] == j);
                    }
                }
            }
        } else {
            proof {
                assert(!disagree(pv, cv, ks[i as int]));
            }
        }
        i = i + 1;
    }
    proof {
        let dk = diff_keys(out@);
        assert forall|a: int, b: int| 0 <= a < b < dk.len() implies key_lt(#[trigger] dk[a], #[trigger] dk[b]) by {
            assert(idx[a] < idx[b]);
        }
        assert forall|k: Key| dk.to_set().contains(k) <==> disagreeing_keys(pv, cv).contains(k) by {
            if dk.contains(k) {
                let m = choose|m: int| 0 <= m < dk.len() && dk[m] == k;
                assert(ks.to_set().contains(ks[idx[m]]));
            }
            if disagreeing_keys(pv, cv).contains(k) {
                assert(ks.to_set().contains(k));
                let j = choose|j: int| 0 <= j < ks.len() && ks[j] == k;
                let m = choose|m: int| 0 <= m < idx.len() && #[trigger] idx[m] == j;
                assert(dk[m] == k);
            }
        }
        assert(dk.to_set() =~= disagreeing_keys(pv, cv));
    }
    out
}

} // verus!
