//! Lists of strings read as sets: membership, equality and the number of
//! members that one list has and another lacks.
use vstd::prelude::*;
use crate::order::strs;
use crate::text::str_eq;

verus! {

/// Whether `x` occurs in `v`.
pub fn contains_str(v: &Vec<String>, x: &str) -> (r: bool)
    ensures
        r == strs(v@).contains(x@),
{
    let mut i: usize = 0;
    while i < v.len()
        invariant
            i <= v.len(),
            forall|j: int| 0 <= j < i ==> strs(v@)[j] != x@,
        decreases v.len() - i,
    {
        if str_eq(v[i].as_str(), x) {
            assert(strs(v@)[i as int] == x@);
            return true;
        }
        i = i + 1;
    }
    proof {
        if strs(v@).contains(x@) {
            let k = choose|k: int| 0 <= k < strs(v@).len() && strs(v@)[k] == x@;
            assert(strs(v@)[k] != x@);
        }
    }
    false
}

/// Whether `a` and `b` hold the same strings in the same order.
pub fn strings_eq(a: &Vec<String>, b: &Vec<String>) -> (r: bool)
    ensures
        r == (strs(a@) == strs(b@)),
{
    if a.len() != b.len() {
        assert(strs(a@).len() != strs(b@).len());
        return false;
    }
    let mut i: usize = 0;
    while i < a.len()
        invariant
            a.len() == b.len(),
            i <= a.len(),
            forall|j: int| 0 <= j < i ==> strs(a@)[j] == strs(b@)[j],
        decreases a.len() - i,
    {
        if !str_eq(a[i].as_str(), b[i].as_str()) {
            assert(strs(a@)[i as int] != strs(b@)[i as int]);
            return false;
        }
        i = i + 1;
    }
    assert(strs(a@) =~= strs(b@));
    true
}

/// Number of distinct strings of `prev` that `next` lacks.
pub open spec fn removed(prev: Seq<Seq<char>>, next: Seq<Seq<char>>) -> nat {
    prev.to_set().difference(next.to_set()).len()
}

/// `removed`, counted element by element: each first occurrence that `next` lacks.
pub open spec fn removed_rec(prev: Seq<Seq<char>>, next: Seq<Seq<char>>) -> nat
    decreases prev.len(),
{
    if prev.len() == 0 {
        0
    } else {
        let rest = prev.drop_last();
        let x = prev.last();
        removed_rec(rest, next) + if !next.contains(x) && !rest.contains(x) { 1nat } else { 0nat }
    }
}

proof fn lemma_removed_rec(prev: Seq<Seq<char>>, next: Seq<Seq<char>>)
    ensures
        removed_rec(prev, next) == removed(prev, next),
        removed(prev, next) <= prev.len(),
    decreases prev.len(),
{
    broadcast use vstd::set::group_set_axioms;
    broadcast use vstd::seq_lib::seq_to_set_is_finite;
    if prev.len() == 0 {
        assert(prev.to_set() =~= Set::<Seq<char>>::empty());
        assert(prev.to_set().difference(next.to_set()) =~= Set::<Seq<char>>::empty());
    } else {
        let rest = prev.drop_last();
        let x = prev.last();
        lemma_removed_rec(rest, next);
        assert(prev =~= rest.push(x));
        rest.lemma_push_to_set_commute(x);
        let d0 = rest.to_set().difference(next.to_set());
        let d = prev.to_set().difference(next.to_set());
        if !next.contains(x) && !rest.contains(x) {
            assert(d =~= d0.insert(x));
            assert(!d0.contains(x));
        } else {
            assert(d =~= d0);
        }
    }
}

/// Number of distinct strings of `prev` that `next` lacks.
pub fn count_removed(prev: &Vec<String>, next: &Vec<String>) -> (r: usize)
    ensures
        r == removed(strs(prev@), strs(next@)),
        r <= prev.len(),
{
    let ghost p = strs(prev@);
    let ghost n = strs(next@);
    let mut count: usize = 0;
    let mut i: usize = 0;
    while i < prev.len()
        invariant
            i <= prev.len(),
            p == strs(prev@),
            n == strs(next@),
            count == removed_rec(p.take(i as int), n),
            count <= i,
        decreases prev.len() - i,
    {
        let x = prev[i].as_str();
        let mut seen = false;
        let mut j: usize = 0;
        while j < i
            invariant
                j <= i < prev.len(),
                p == strs(prev@),
                x@ == p[i as int],
                seen == exists|m: int| 0 <= m < j && p[m] == p[i as int],
            decreases i - j,
        {
            assert(p[j as int] == prev@[j as int]@);
            if str_eq(prev[j].as_str(), x) {
                seen = true;
            }
            j = j + 1;
        }
        let in_next = contains_str(next, x);
        proof {
            let t = p.take(i + 1);
            assert(t.drop_last() =~= p.take(i as int));
            assert(t.last() == p[i as int]);
            assert(seen == p.take(i as int).contains(p[i as int])) by {
                if seen {
                    let m = choose|m: int| 0 <= m < i && p[m] == p[i as int];
                    assert(p.take(i as int)[m] == p[i as int]);
                }
            }
        }
        if !in_next && !seen {
            count = count + 1;
        }
        i = i + 1;
    }
    assert(p.take(i as int) =~= p);
    proof { lemma_removed_rec(p, n); }
    count
}

/// Whether `a` and `b` hold the same strings, ignoring order and repeats.
pub fn same_string_set(a: &Vec<String>, b: &Vec<String>) -> (r: bool)
    ensures
        r == (strs(a@).to_set() == strs(b@).to_set()),
{
    broadcast use vstd::set::group_set_axioms;
    let mut i: usize = 0;
    while i < a.len()
        invariant
            i <= a.len(),
            forall|j: int| 0 <= j < i ==> strs(b@).contains(#[trigger] strs(a@)[j]),
        decreases a.len() - i,
    {
        if !contains_str(b, a[i].as_str()) {
            assert(strs(a@).to_set().contains(strs(a@)[i as int]));
            return false;
        }
        i = i + 1;
    }
    let mut k: usize = 0;
    while k < b.len()
        invariant
            k <= b.len(),
            forall|j: int| 0 <= j < a.len() ==> strs(b@).contains(#[trigger] strs(a@)[j]),
            forall|j: int| 0 <= j < k ==> strs(a@).contains(#[trigger] strs(b@)[j]),
        decreases b.len() - k,
    {
        if !contains_str(a, b[k].as_str()) {
            assert(strs(b@).to_set().contains(strs(b@)[k as int]));
            return false;
        }
        k = k + 1;
    }
    assert(strs(a@).to_set() =~= strs(b@).to_set()) by {
        assert forall|x| strs(a@).to_set().contains(x) implies strs(b@).to_set().contains(x) by {
            let m = choose|m: int| 0 <= m < strs(a@).len() && strs(a@)[m] == x;
        }
        assert forall|x| strs(b@).to_set().contains(x) implies strs(a@).to_set().contains(x) by {
            let m = choose|m: int| 0 <= m < strs(b@).len() && strs(b@)[m] == x;
        }
    }
    true
}

} // verus!
