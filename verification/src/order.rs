//! Lexicographic order on strings and on lists of strings, and sorted sets
//! built from them: the order in which std's `Ord` for `String` (and tuples
//! of them) walks a `BTreeSet`.
use vstd::prelude::*;
use crate::text::chars_of;

verus! {

/// `a` sorts strictly before `b`, comparing characters by code point.
pub open spec fn str_lt(a: Seq<char>, b: Seq<char>) -> bool
    decreases a.len(),
{
    if a.len() == 0 {
        b.len() > 0
    } else if b.len() == 0 {
        false
    } else if a[0] != b[0] {
        a[0] < b[0]
    } else {
        str_lt(a.drop_first(), b.drop_first())
    }
}

proof fn lemma_seq_head_tail<T>(a: Seq<T>, b: Seq<T>)
    requires
        a.len() > 0,
        b.len() > 0,
        a[0] == b[0],
        a.drop_first() == b.drop_first(),
    ensures
        a == b,
{
    assert(a =~= seq![a[0]] + a.drop_first());
    assert(b =~= seq![b[0]] + b.drop_first());
}

proof fn lemma_str_lt_total(a: Seq<char>, b: Seq<char>)
    ensures
        !str_lt(a, a),
        str_lt(a, b) ==> !str_lt(b, a),
        a != b ==> str_lt(a, b) || str_lt(b, a),
    decreases a.len(),
{
    if a.len() > 0 && b.len() > 0 {
        lemma_str_lt_total(a.drop_first(), b.drop_first());
        lemma_str_lt_total(a.drop_first(), a.drop_first());
        if a != b && a[0] == b[0] && a.drop_first() == b.drop_first() {
            lemma_seq_head_tail(a, b);
        }
    } else if a.len() > 0 {
        lemma_str_lt_total(a.drop_first(), a.drop_first());
    } else if a != b {
        assert(b.len() > 0 || a =~= b);
    }
}

proof fn lemma_str_lt_trans(a: Seq<char>, b: Seq<char>, c: Seq<char>)
    requires
        str_lt(a, b),
        str_lt(b, c),
    ensures
        str_lt(a, c),
    decreases a.len(),
{
    if a.len() > 0 && b.len() > 0 && c.len() > 0 && a[0] == b[0] && b[0] == c[0] {
        lemma_str_lt_trans(a.drop_first(), b.drop_first(), c.drop_first());
    }
}

/// `str_lt` is a strict total order.
pub proof fn lemma_str_lt_order(a: Seq<char>, b: Seq<char>, c: Seq<char>)
    ensures
        !str_lt(a, a),
        str_lt(a, b) ==> !str_lt(b, a),
        a != b ==> str_lt(a, b) || str_lt(b, a),
        str_lt(a, b) && str_lt(b, c) ==> str_lt(a, c),
{
    lemma_str_lt_total(a, b);
    if str_lt(a, b) && str_lt(b, c) {
        lemma_str_lt_trans(a, b, c);
    }
}

/// `a` sorts strictly before `b`, comparing component by component.
pub open spec fn key_lt(a: Seq<Seq<char>>, b: Seq<Seq<char>>) -> bool
    decreases a.len(),
{
    if a.len() == 0 {
        b.len() > 0
    } else if b.len() == 0 {
        false
    } else if a[0] != b[0] {
        str_lt(a[0], b[0])
    } else {
        key_lt(a.drop_first(), b.drop_first())
    }
}

proof fn lemma_key_lt_total(a: Seq<Seq<char>>, b: Seq<Seq<char>>)
    ensures
        !key_lt(a, a),
        key_lt(a, b) ==> !key_lt(b, a),
        a != b ==> key_lt(a, b) || key_lt(b, a),
    decreases a.len(),
{
    if a.len() > 0 && b.len() > 0 {
        lemma_key_lt_total(a.drop_first(), b.drop_first());
        lemma_key_lt_total(a.drop_first(), a.drop_first());
        lemma_str_lt_order(a[0], b[0], a[0]);
        if a != b && a[0] == b[0] && a.drop_first() == b.drop_first() {
            lemma_seq_head_tail(a, b);
        }
    } else if a.len() > 0 {
        lemma_key_lt_total(a.drop_first(), a.drop_first());
    } else if a != b {
        assert(b.len() > 0 || a =~= b);
    }
}

proof fn lemma_key_lt_trans(a: Seq<Seq<char>>, b: Seq<Seq<char>>, c: Seq<Seq<char>>)
    requires
        key_lt(a, b),
        key_lt(b, c),
    ensures
        key_lt(a, c),
    decreases a.len(),
{
    if a.len() > 0 && b.len() > 0 && c.len() > 0 {
        lemma_str_lt_order(a[0], b[0], c[0]);
        lemma_str_lt_order(b[0], c[0], a[0]);
        if a[0] == b[0] && b[0] == c[0] {
            lemma_key_lt_trans(a.drop_first(), b.drop_first(), c.drop_first());
        }
    }
}

/// `key_lt` is a strict total order.
pub proof fn lemma_key_lt_order(a: Seq<Seq<char>>, b: Seq<Seq<char>>, c: Seq<Seq<char>>)
    ensures
        !key_lt(a, a),
        key_lt(a, b) ==> !key_lt(b, a),
        a != b ==> key_lt(a, b) || key_lt(b, a),
        key_lt(a, b) && key_lt(b, c) ==> key_lt(a, c),
{
    lemma_key_lt_total(a, b);
    if key_lt(a, b) && key_lt(b, c) {
        lemma_key_lt_trans(a, b, c);
    }
}

/// Whether `a` sorts strictly before `b`.
pub fn str_lt_exec(a: &str, b: &str) -> (r: bool)
    ensures
        r == str_lt(a@, b@),
{
    let x = chars_of(a);
    let y = chars_of(b);
    let mut i: usize = 0;
    assert(a@.skip(0) =~= a@ && b@.skip(0) =~= b@);
    while i < x.len() && i < y.len() && x[i] == y[i]
        invariant
            x@ == a@,
            y@ == b@,
            i <= x.len(),
            i <= y.len(),
            str_lt(a@, b@) == str_lt(a@.skip(i as int), b@.skip(i as int)),
        decreases x.len() - i,
    {
        proof {
            let sa = a@.skip(i as int);
            let sb = b@.skip(i as int);
            assert(sa.drop_first() =~= a@.skip(i + 1));
            assert(sb.drop_first() =~= b@.skip(i + 1));
        }
        i = i + 1;
    }
    if i == x.len() {
        i < y.len()
    } else if i == y.len() {
        false
    } else {
        x[i] < y[i]
    }
}

/// The views of a list of strings.
pub open spec fn strs(v: Seq<String>) -> Seq<Seq<char>> {
    v.map_values(|s: String| s@)
}

/// Whether `a` sorts strictly before `b`, component by component.
pub fn key_lt_exec(a: &Vec<String>, b: &Vec<String>) -> (r: bool)
    ensures
        r == key_lt(strs(a@), strs(b@)),
{
    let ghost ka = strs(a@);
    let ghost kb = strs(b@);
    let mut i: usize = 0;
    assert(ka.skip(0) =~= ka && kb.skip(0) =~= kb);
    while i < a.len() && i < b.len() && crate::text::str_eq(a[i].as_str(), b[i].as_str())
        invariant
            ka == strs(a@),
            kb == strs(b@),
            i <= a.len(),
            i <= b.len(),
            key_lt(ka, kb) == key_lt(ka.skip(i as int), kb.skip(i as int)),
        decreases a.len() - i,
    {
        proof {
            assert(ka.skip(i as int).drop_first() =~= ka.skip(i + 1));
            assert(kb.skip(i as int).drop_first() =~= kb.skip(i + 1));
            assert(ka.skip(i as int)[0] == a@[i as int]@);
            assert(kb.skip(i as int)[0] == b@[i as int]@);
        }
        i = i + 1;
    }
    if i == a.len() {
        i < b.len()
    } else if i == b.len() {
        false
    } else {
        assert(ka.skip(i as int)[0] == a@[i as int]@);
        assert(kb.skip(i as int)[0] == b@[i as int]@);
        str_lt_exec(a[i].as_str(), b[i].as_str())
    }
}

/// Whether `s` is strictly increasing, hence free of repeats.
pub open spec fn increasing(s: Seq<Seq<Seq<char>>>) -> bool {
    forall|i: int, j: int| 0 <= i < j < s.len() ==> key_lt(#[trigger] s[i], #[trigger] s[j])
}

/// The views of a list of keys.
pub open spec fn keys(v: Seq<Vec<String>>) -> Seq<Seq<Seq<char>>> {
    v.map_values(|k: Vec<String>| strs(k@))
}

/// Clone of a list of strings.
pub fn clone_strings(v: &Vec<String>) -> (r: Vec<String>)
    ensures
        r@ == v@,
{
    let mut r: Vec<String> = Vec::new();
    let mut i: usize = 0;
    while i < v.len()
        invariant
            i <= v.len(),
            r@ == v@.take(i as int),
        decreases v.len() - i,
    {
        r.push(v[i].clone());
        i = i + 1;
    }
    assert(r@ =~= v@);
    r
}

/// Adds `k` to the strictly increasing list `v` unless it is there already.
pub fn insert_sorted(v: &mut Vec<Vec<String>>, k: Vec<String>)
    requires
        increasing(keys(old(v)@)),
    ensures
        increasing(keys(final(v)@)),
        keys(final(v)@).to_set() == keys(old(v)@).to_set().insert(strs(k@)),
{
    let ghost kk = strs(k@);
    let ghost old_keys = keys(v@);
    let mut i: usize = 0;
    while i < v.len() && key_lt_exec(&v[i], &k)
        invariant
            i <= v.len(),
            keys(v@) == old_keys,
            kk == strs(k@),
            increasing(old_keys),
            forall|j: int| 0 <= j < i ==> key_lt(#[trigger] old_keys[j], kk),
        decreases v.len() - i,
    {
        i = i + 1;
    }
    if i < v.len() {
        let same = !key_lt_exec(&k, &v[i]);
        if same {
            proof {
                lemma_key_lt_order(old_keys[i as int], kk, kk);
                assert(old_keys[i as int] == kk);
                assert(old_keys.to_set().insert(kk) =~= old_keys.to_set()) by {
                    assert(old_keys.contains(kk));
                }
            }
            return;
        }
    }
    v.insert(i, k);
    proof {
        let nk = keys(v@);
        assert(nk =~= old_keys.insert(i as int, kk));
        assert forall|a: int, b: int| 0 <= a < b < nk.len() implies key_lt(#[trigger] nk[a], #[trigger] nk[b]) by {
            if b < i {
            } else if a < i && b == i {
            } else if a < i && b > i {
                assert(key_lt(old_keys[a], kk));
                assert(key_lt(kk, old_keys[b - 1])) by {
                    lemma_key_lt_order(kk, old_keys[i as int], old_keys[b - 1]);
                    if b - 1 > i {
                        assert(key_lt(old_keys[i as int], old_keys[b - 1]));
                    }
                    lemma_key_lt_order(old_keys[i as int], kk, kk);
                }
                lemma_key_lt_order(old_keys[a], kk, old_keys[b - 1]);
            } else if a == i {
                lemma_key_lt_order(kk, old_keys[i as int], old_keys[b - 1]);
                if b - 1 > i {
                    assert(key_lt(old_keys[i as int], old_keys[b - 1]));
                }
                lemma_key_lt_order(old_keys[i as int], kk, kk);
            } else {
                assert(key_lt(old_keys[a - 1], old_keys[b - 1]));
            }
        }
        assert(nk.to_set() =~= old_keys.to_set().insert(kk)) by {
            assert forall|x| nk.to_set().contains(x) <==> old_keys.to_set().insert(kk).contains(x) by {
                if nk.contains(x) {
                    let m = choose|m: int| 0 <= m < nk.len() && nk[m] == x;
                    if m < i {
                        assert(old_keys[m] == x);
                    } else if m > i {
                        assert(old_keys[m - 1] == x);
                    }
                }
                if old_keys.contains(x) {
                    let m = choose|m: int| 0 <= m < old_keys.len() && old_keys[m] == x;
                    if m < i {
                        assert(nk[m] == x);
                    } else {
                        assert(nk[m + 1] == x);
                    }
                }
                if x == kk {
                    assert(nk[i as int] == x);
                }
            }
        }
    }
}


/// Whether the strings of `s` are strictly increasing, hence free of repeats.
pub open spec fn str_increasing(s: Seq<Seq<char>>) -> bool {
    forall|i: int, j: int| 0 <= i < j < s.len() ==> str_lt(#[trigger] s[i], #[trigger] s[j])
}

proof fn lemma_singleton_key_lt(a: Seq<char>, b: Seq<char>)
    ensures
        key_lt(seq![a], seq![b]) == str_lt(a, b),
{
    lemma_str_lt_order(a, a, a);
    let sa = seq![a];
    let sb = seq![b];
    assert(sa[0] == a && sb[0] == b);
    assert(sa.drop_first() =~= Seq::<Seq<char>>::empty());
    assert(sb.drop_first() =~= Seq::<Seq<char>>::empty());
    assert(!key_lt(Seq::<Seq<char>>::empty(), Seq::<Seq<char>>::empty()));
}

/// The distinct strings of `v`, in increasing order (what collecting them
/// into a `BTreeSet` and back gives).
pub fn sorted_distinct(v: &Vec<String>) -> (r: Vec<String>)
    ensures
        str_increasing(strs(r@)),
        strs(r@).to_set() == strs(v@).to_set(),
{
    let mut set: Vec<Vec<String>> = Vec::new();
    let mut i: usize = 0;
    assert(keys(set@).to_set() =~= Set::<Seq<Seq<char>>>::empty());
    while i < v.len()
        invariant
            i <= v.len(),
            increasing(keys(set@)),
            keys(set@).to_set() == strs(v@).take(i as int).map_values(|s: Seq<char>| seq![s]).to_set(),
            forall|m: int| 0 <= m < set.len() ==> (#[trigger] keys(set@)[m]).len() == 1,
        decreases v.len() - i,
    {
        let mut k: Vec<String> = Vec::new();
        k.push(v[i].clone());
        assert(strs(k@) =~= seq![strs(v@)[i as int]]);
        insert_sorted(&mut set, k);
        proof {
            let t = strs(v@).take(i + 1).map_values(|s: Seq<char>| seq![s]);
            let u = strs(v@).take(i as int).map_values(|s: Seq<char>| seq![s]);
            assert(t =~= u.push(seq![strs(v@)[i as int]]));
            u.lemma_push_to_set_commute(seq![strs(v@)[i as int]]);
            assert forall|m: int| 0 <= m < set.len() implies (#[trigger] keys(set@)[m]).len() == 1 by {
                assert(keys(set@).to_set().contains(keys(set@)[m]));
                assert(t.to_set().contains(keys(set@)[m]));
                let q = choose|q: int| 0 <= q < t.len() && t[q] == keys(set@)[m];
            }
        }
        i = i + 1;
    }
    let mut r: Vec<String> = Vec::new();
    let mut j: usize = 0;
    while j < set.len()
        invariant
            j <= set.len(),
            increasing(keys(set@)),
            forall|m: int| 0 <= m < set.len() ==> (#[trigger] keys(set@)[m]).len() == 1,
            strs(r@) == keys(set@).take(j as int).map_values(|k: Seq<Seq<char>>| k[0]),
        decreases set.len() - j,
    {
        assert(keys(set@)[j as int].len() == 1);
        assert(strs(set[j as int]@).len() == 1);
        let s = set[j][0].clone();
        let ghost before = r@;
        r.push(s);
        proof {
            assert(strs(r@) =~= strs(before).push(s@));
            assert(keys(set@).take(j + 1).map_values(|k: Seq<Seq<char>>| k[0])
                =~= keys(set@).take(j as int).map_values(|k: Seq<Seq<char>>| k[0]).push(keys(set@)[j as int][0]));
        }
        j = j + 1;
    }
    assert(keys(set@).take(j as int) =~= keys(set@));
    proof {
        let ks = keys(set@);
        let out = strs(r@);
        assert(out =~= ks.map_values(|k: Seq<Seq<char>>| k[0]));
        assert forall|a: int, b: int| 0 <= a < b < out.len() implies str_lt(#[trigger] out[a], #[trigger] out[b]) by {
            assert(ks[a] =~= seq![out[a]]);
            assert(ks[b] =~= seq![out[b]]);
            lemma_singleton_key_lt(out[a], out[b]);
        }
        let src = strs(v@).map_values(|s: Seq<char>| seq![s]);
        assert(strs(v@).take(v.len() as int) =~= strs(v@));
        assert forall|x: Seq<char>| out.to_set().contains(x) <==> strs(v@).to_set().contains(x) by {
            if out.contains(x) {
                let m = choose|m: int| 0 <= m < out.len() && out[m] == x;
                assert(ks[m] =~= seq![x]);
                assert(ks.to_set().contains(seq![x]));
                assert(src.to_set().contains(seq![x]));
                let q = choose|q: int| 0 <= q < src.len() && src[q] == seq![x];
                assert(src[q][0] == strs(v@)[q]);
                assert(strs(v@)[q] == x);
            }
            if strs(v@).contains(x) {
                let q = choose|q: int| 0 <= q < strs(v@).len() && strs(v@)[q] == x;
                assert(src[q] == seq![x]);
                assert(src.to_set().contains(seq![x]));
                assert(ks.to_set().contains(seq![x]));
                let m = choose|m: int| 0 <= m < ks.len() && ks[m] == seq![x];
                assert(out[m] == ks[m][0]);
            }
        }
        assert(out.to_set() =~= strs(v@).to_set());
    }
    r
}


/// No string of `s` sorts before an earlier one.
pub open spec fn str_sorted(s: Seq<Seq<char>>) -> bool {
    forall|i: int, j: int| 0 <= i < j < s.len() ==> !str_lt(#[trigger] s[j], #[trigger] s[i])
}

/// The strings of `v` in ascending order, repeats kept.
pub fn sort_strings(v: &Vec<String>) -> (r: Vec<String>)
    ensures
        str_sorted(strs(r@)),
        strs(r@).to_multiset() == strs(v@).to_multiset(),
{
    broadcast use vstd::seq_lib::group_to_multiset_ensures;
    let mut r: Vec<String> = Vec::new();
    let mut i: usize = 0;
    assert(strs(v@).take(0) =~= Seq::<Seq<char>>::empty());
    while i < v.len()
        invariant
            i <= v.len(),
            str_sorted(strs(r@)),
            strs(r@).to_multiset() == strs(v@).take(i as int).to_multiset(),
        decreases v.len() - i,
    {
        let x = v[i].as_str();
        let mut p: usize = 0;
        while p < r.len() && str_lt_exec(r[p].as_str(), x)
            invariant
                p <= r.len(),
                forall|q: int| 0 <= q < p ==> str_lt(strs(r@)[q], x@),
            decreases r.len() - p,
        {
            p = p + 1;
        }
        let ghost old_r = strs(r@);
        proof {
            if p < r.len() {
                assert(!str_lt(old_r[p as int], x@));
                assert forall|q: int| p <= q < old_r.len() implies !str_lt(#[trigger] old_r[q], x@) by {
                    if q > p as int {
                        assert(!str_lt(old_r[q], old_r[p as int]));
                        lemma_str_lt_order(old_r[q], x@, old_r[p as int]);
                        lemma_str_lt_order(x@, old_r[p as int], old_r[q]);
                        lemma_str_lt_order(old_r[p as int], old_r[q], x@);
                    }
                }
            }
        }
        r.insert(p, v[i].clone());
        proof {
            let nr = strs(r@);
            assert(nr =~= old_r.insert(p as int, x@));
            assert forall|a: int, b: int| 0 <= a < b < nr.len() implies !str_lt(#[trigger] nr[b], #[trigger] nr[a]) by {
                if a < p && b == p {
                    lemma_str_lt_order(x@, old_r[a], x@);
                } else if a == p && b > p {
                    lemma_str_lt_order(old_r[b - 1], x@, x@);
                } else if a < p && b > p {
                    assert(!str_lt(old_r[b - 1], old_r[a]));
                } else if b < p {
                    assert(!str_lt(old_r[b], old_r[a]));
                } else {
                    assert(!str_lt(old_r[b - 1], old_r[a - 1]));
                }
            }
            broadcast use vstd::multiset::group_multiset_axioms;
            let t = old_r.take(p as int);
            let u = old_r.skip(p as int);
            assert(nr =~= t.push(x@) + u);
            vstd::seq_lib::lemma_multiset_commutative(t.push(x@), u);
            vstd::seq_lib::lemma_multiset_commutative(t, u);
            assert(old_r =~= t + u);
            assert(strs(v@).take(i + 1) =~= strs(v@).take(i as int).push(x@));
            t.to_multiset_ensures();
            strs(v@).take(i as int).to_multiset_ensures();
            assert(t.push(x@).to_multiset() =~= t.to_multiset().insert(x@));
            assert(strs(v@).take(i + 1).to_multiset() =~= strs(v@).take(i as int).to_multiset().insert(x@));
            assert(nr.to_multiset() =~= t.to_multiset().insert(x@).add(u.to_multiset()));
            assert(old_r.to_multiset() =~= t.to_multiset().add(u.to_multiset()));
            assert(nr.to_multiset() =~= strs(v@).take(i + 1).to_multiset());
        }
        i = i + 1;
    }
    assert(strs(v@).take(i as int) =~= strs(v@));
    r
}


/// "Sorts no later than": the order that `str_sorted` keeps.
pub open spec fn str_le(a: Seq<char>, b: Seq<char>) -> bool {
    !str_lt(b, a)
}

proof fn lemma_str_le_total()
    ensures
        vstd::relations::total_ordering(|a: Seq<char>, b: Seq<char>| str_le(a, b)),
{
    let r = |a: Seq<char>, b: Seq<char>| str_le(a, b);
    assert forall|x: Seq<char>| #[trigger] r(x, x) by {
        lemma_str_lt_order(x, x, x);
    }
    assert forall|x: Seq<char>, y: Seq<char>| #[trigger] r(x, y) && #[trigger] r(y, x) implies x == y by {
        lemma_str_lt_order(x, y, x);
    }
    assert forall|x: Seq<char>, y: Seq<char>, z: Seq<char>| #[trigger] r(x, y) && #[trigger] r(y, z) implies r(x, z) by {
        lemma_str_lt_order(z, x, y);
        lemma_str_lt_order(x, y, z);
        lemma_str_lt_order(z, y, x);
        lemma_str_lt_order(y, x, z);
    }
    assert forall|x: Seq<char>, y: Seq<char>| #[trigger] r(x, y) || #[trigger] r(y, x) by {
        lemma_str_lt_order(x, y, x);
    }
}

/// Two sorted lists of the same strings are the same list.
pub proof fn lemma_sorted_strings_unique(x: Seq<Seq<char>>, y: Seq<Seq<char>>)
    requires
        str_sorted(x),
        str_sorted(y),
        x.to_multiset() == y.to_multiset(),
    ensures
        x == y,
{
    let r = |a: Seq<char>, b: Seq<char>| str_le(a, b);
    lemma_str_le_total();
    assert(vstd::relations::sorted_by(x, r));
    assert(vstd::relations::sorted_by(y, r));
    vstd::seq_lib::lemma_sorted_unique(x, y, r);
}

} // verus!
