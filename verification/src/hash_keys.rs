//! The keys of a hash map, read out into a list.

use std::collections::HashMap;
use std::hash::Hash;
use vstd::prelude::*;

verus! {

/// The keys of `m`, each once, in the map's iteration order.
pub fn keys_of<K: Copy + Eq + Hash, V>(m: &HashMap<K, V>) -> (r: Vec<K>)
    requires
        vstd::std_specs::hash::obeys_key_model::<K>(),
    ensures
        r@.no_duplicates(),
        r@.to_set() == m@.dom(),
        r@.len() == m@.dom().len(),
{
    broadcast use vstd::std_specs::hash::group_hash_axioms;
    let mut r: Vec<K> = Vec::new();
    for k in it: m.keys()
        invariant
            r@.len() == it.index(),
            forall|i: int| 0 <= i < r@.len() ==> r@[i] == *it.seq()[i],
            it.seq().unref().to_set() == m@.dom(),
            it.seq().unref().no_duplicates(),
            it.seq().len() == m@.dom().len(),
            forall|i: int| 0 <= i < r@.len() ==> m@.dom().contains(#[trigger] r@[i]),
            forall|i: int, j: int| 0 <= i < j < r@.len() ==> r@[i] != r@[j],
    {
        proof {
            let u = it.seq().unref();
            assert(u[r@.len() as int] == *k);
            assert(u.to_set().contains(u[r@.len() as int]));
            assert forall|i: int| 0 <= i < r@.len() implies r@[i] != *k by {
                assert(u[i] == r@[i]);
            }
        }
        r.push(*k);
    }
    proof {
        assert(r@.no_duplicates());
        r@.unique_seq_to_set();
        assert(r@.to_set().subset_of(m@.dom()));
        assert(m@.dom().finite());
        vstd::set_lib::lemma_subset_equality(r@.to_set(), m@.dom());
    }
    r
}

} // verus!
