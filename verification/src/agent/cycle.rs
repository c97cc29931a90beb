//! The decisions of one agent cycle that do not need the network: whether
//! registration is due, and whether the cached artifacts must be compiled
//! again for the generation the controller wants.
use vstd::prelude::*;
use crate::text::{opt_view, str_eq};

verus! {

broadcast use vstd::string::group_string_axioms;

/// Whether the node must register again: it never has, or at least
/// `interval_ms` have passed since it last did.
pub fn registration_due(since_last_ms: Option<u64>, interval_ms: u64) -> (r: bool)
    ensures
        r == match since_last_ms {
            Some(elapsed) => elapsed >= interval_ms,
            None => true,
        },
{
    match since_last_ms {
        Some(elapsed) => elapsed >= interval_ms,
        None => true,
    }
}

/// Whether an artifact cached under generation `cached` is stale for
/// `generation`: it is absent or of another generation.
pub open spec fn stale(cached: Option<Seq<char>>, generation: Seq<char>) -> bool {
    cached != Some(generation)
}

/// Whether the agent must compile `generation`: some cached artifact (the
/// desired-state cache, the compiled state and each plan, inventory and
/// summary built from it) is absent or of another generation.
pub fn compile_needed(generation: &str, cached: &Vec<Option<String>>) -> (r: bool)
    ensures
        r == exists|i: int| 0 <= i < cached@.len() && stale(opt_view(#[trigger] cached@[i]), generation@),
{
    let mut i: usize = 0;
    while i < cached.len()
        invariant
            i <= cached.len(),
            forall|j: int| 0 <= j < i ==> !stale(opt_view(#[trigger] cached@[j]), generation@),
        decreases cached.len() - i,
    {
        let fresh = match &cached[i] {
            Some(g) => str_eq(g.as_str(), generation),
            None => false,
        };
        if !fresh {
            assert(stale(opt_view(cached@[i as int]), generation@));
            return true;
        }
        i = i + 1;
    }
    false
}

} // verus!
