//! Small decisions of the control plane's operations.
use vstd::prelude::*;
use crate::order::strs;
use crate::text::{decimal, u64_to_decimal};

verus! {

broadcast use vstd::string::group_string_axioms;

/// The traffic directions a rule with direction code `direction` applies
/// to: both (0 and 1) for code 2, else that one code.
pub fn requested_directions(direction: u8) -> (r: Vec<u8>)
    ensures
        r@ == if direction == 2 { seq![0u8, 1u8] } else { seq![direction] },
{
    let mut r: Vec<u8> = Vec::new();
    if direction == 2 {
        r.push(0);
        r.push(1);
    } else {
        r.push(direction);
    }
    assert(r@ =~= if direction == 2 { seq![0u8, 1u8] } else { seq![direction] });
    r
}

/// Adds `suggestion` to `suggestions` unless it is already there.
pub fn next_suggestion(suggestions: &mut Vec<String>, suggestion: &str)
    ensures
        strs(final(suggestions)@) == if strs(old(suggestions)@).contains(suggestion@) {
            strs(old(suggestions)@)
        } else {
            strs(old(suggestions)@).push(suggestion@)
        },
{
    if !crate::strset::contains_str(suggestions, suggestion) {
        let ghost before = suggestions@;
        suggestions.push(suggestion.to_string());
        assert(strs(suggestions@) =~= strs(before).push(suggestion@));
    }
}

/// The smallest id from `first` on that `used` does not hold.
pub open spec fn is_first_free(used: Seq<u32>, first: u32, id: u32) -> bool {
    &&& first <= id
    &&& !used.contains(id)
    &&& forall|x: u32| first <= x < id ==> used.contains(x)
}

/// The first tap id from `first` on that no instance uses. Some id from
/// `first` up must be free.
pub fn next_free_tap_id(used: &Vec<u32>, first: u32) -> (r: u32)
    requires
        exists|id: u32| first <= id && !used@.contains(id),
    ensures
        is_first_free(used@, first, r),
{
    let mut next = first;
    loop
        invariant
            first <= next,
            forall|x: u32| first <= x < next ==> used@.contains(x),
            exists|id: u32| next <= id && !used@.contains(id),
        decreases u32::MAX - next,
    {
        let mut taken = false;
        let mut i: usize = 0;
        while i < used.len()
            invariant
                i <= used.len(),
                taken == exists|j: int| 0 <= j < i && used@[j] == next,
            decreases used.len() - i,
        {
            if used[i] == next {
                taken = true;
            }
            i = i + 1;
        }
        if !taken {
            assert(!used@.contains(next));
            return next;
        }
        assert(used@.contains(next));
        let ghost w = choose|id: u32| next <= id && !used@.contains(id);
        assert(w != next);
        next = next + 1;
    }
}


/// The current Unix time in seconds, in decimal (zero when the clock reads
/// before the epoch); diagnoses are named after it.
pub fn unix_ts_string() -> (r: String)
    ensures
        exists|secs: nat| r@ == decimal(secs),
{
    u64_to_decimal(crate::agent::helpers::unix_now_secs())
}

} // verus!
