//! The keys of the overflow store, read as mathematical integers.

use vstd::prelude::*;
use vstd::set_lib::lemma_int_range;
use vstd::set_lib::lemma_map_size;
use vstd::set_lib::lemma_set_subset_finite;
use vstd::set_lib::set_int_range;

verus! {

/// The contents of an overflow store with its keys read as mathematical
/// integers.
pub open spec fn by_id<T>(m: Map<usize, T>) -> Map<int, T> {
    Map::new(
        |id: int| 0 <= id <= usize::MAX && m.contains_key(id as usize),
        |id: int| m[id as usize],
    )
}

/// An empty store stays empty.
pub proof fn lemma_by_id_empty<T>()
    ensures
        by_id(Map::<usize, T>::empty()) == Map::<int, T>::empty(),
{
}

/// Inserting under a key inserts under the integer that the key is.
pub proof fn lemma_by_id_insert<T>(m: Map<usize, T>, id: usize, value: T)
    ensures
        by_id(m.insert(id, value)) == by_id(m).insert(id as int, value),
{
}

/// Removing a key removes the integer that the key is.
pub proof fn lemma_by_id_remove<T>(m: Map<usize, T>, id: usize)
    ensures
        by_id(m.remove(id)) == by_id(m).remove(id as int),
{
}

/// Reading the keys as integers keeps their number.
pub proof fn lemma_by_id_len<T>(m: Map<usize, T>)
    ensures
        m.dom().finite(),
        by_id(m).dom().finite(),
        by_id(m).dom().len() == m.dom().len(),
{
    let ids = by_id(m).dom();
    let range = set_int_range(0, usize::MAX + 1);
    lemma_int_range(0, usize::MAX + 1);
    lemma_set_subset_finite(range, ids);
    let narrow = |id: int| id as usize;
    assert forall|id: usize| ids.map(narrow).contains(id) <==> m.dom().contains(id) by {
        if m.dom().contains(id) {
            assert(ids.contains(id as int) && narrow(id as int) == id);
        }
    }
    assert(ids.map(narrow) =~= m.dom());
    lemma_map_size(ids, m.dom(), narrow);
}

} // verus!
