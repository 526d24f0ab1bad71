//! Helpers on hash maps keyed by node ids.

use std::collections::HashMap;
use vstd::prelude::*;
use vstd::std_specs::hash::*;
use vstd::std_specs::iter::IteratorSpec;

verus! {

broadcast use vstd::std_specs::hash::group_hash_axioms;

/// Whether `n` is among the first `upto` entries of a list.
pub open spec fn listed_before(list: Seq<u64>, upto: int, n: u64) -> bool {
    exists|j: int| 0 <= j < upto && #[trigger] list[j] == n
}

/// Looking one entry further adds that entry.
pub proof fn lemma_listed_before_step(list: Seq<u64>, upto: int, n: u64)
    requires
        0 <= upto < list.len(),
    ensures
        listed_before(list, upto + 1, n) == (listed_before(list, upto, n) || list[upto] == n),
{
    if listed_before(list, upto + 1, n) {
        let j = choose|j: int| 0 <= j < upto + 1 && #[trigger] list[j] == n;
        if j < upto {
            assert(listed_before(list, upto, n));
        }
    }
    if listed_before(list, upto, n) {
        let j = choose|j: int| 0 <= j < upto && #[trigger] list[j] == n;
        assert(0 <= j < upto + 1 && list[j] == n);
    }
    if list[upto] == n {
        assert(0 <= upto < upto + 1 && list[upto] == n);
    }
}

/// Being listed before the end is being in the list.
pub proof fn lemma_listed_before_all(list: Seq<u64>, n: u64)
    ensures
        listed_before(list, list.len() as int, n) == list.contains(n),
{
    if listed_before(list, list.len() as int, n) {
        let j = choose|j: int| 0 <= j < list.len() && #[trigger] list[j] == n;
        assert(list[j] == n);
    }
    if list.contains(n) {
        let j = choose|j: int| 0 <= j < list.len() && list[j] == n;
        assert(0 <= j < list.len() && list[j] == n);
    }
}

/// The keys of a map, each once.  The order is that in which the map is
/// walked, which is not fixed.
pub fn keys_of<V>(m: &HashMap<u64, V>) -> (keys: Vec<u64>)
    ensures
        keys@.no_duplicates(),
        forall|k: u64| keys@.contains(k) <==> m@.contains_key(k),
{
    let mut out: Vec<u64> = Vec::new();
    let iter = m.keys();
    let ghost all = iter.remaining();
    proof {
        axiom_spec_keys_iter(m);
    }
    for k in it: iter
        invariant
            it.seq() == all,
            out@.len() == it.index(),
            forall|j: int| 0 <= j < out@.len() ==> out@[j] == *all[j],
    {
        out.push(*k);
    }
    proof {
        let plain = all.unref();
        assert(out@ =~= plain);
        assert forall|k: u64| out@.contains(k) <==> m@.contains_key(k) by {
            assert(plain.to_set().contains(k) <==> m@.dom().contains(k));
        }
    }
    out
}

} // verus!
