//! Lemmas on the model's functions, for the proofs of the operations.

use crate::model::dense_entries;
use crate::model::ListModel;
use crate::model::occupancy;
use crate::model::populated;
use crate::overflow::enumerates;
use vstd::prelude::*;
use vstd::seq_lib::seq_to_set_is_finite;

verus! {

/// No more slots are populated than there are.
pub proof fn lemma_populated_bound<T>(slots: Seq<Option<T>>)
    ensures
        populated(slots) <= slots.len(),
    decreases slots.len(),
{
    if slots.len() > 0 {
        lemma_populated_bound(slots.drop_last());
    }
}

/// Appending a slot adds its occupancy.
pub proof fn lemma_populated_push<T>(slots: Seq<Option<T>>, slot: Option<T>)
    ensures
        populated(slots.push(slot)) == populated(slots) + occupancy(slot),
{
    assert(slots.push(slot).drop_last() =~= slots);
}

/// The populated slots of a concatenation are those of its parts.
pub proof fn lemma_populated_concat<T>(front: Seq<Option<T>>, back: Seq<Option<T>>)
    ensures
        populated(front + back) == populated(front) + populated(back),
    decreases back.len(),
{
    if back.len() > 0 {
        lemma_populated_concat(front, back.drop_last());
        assert((front + back).drop_last() =~= front + back.drop_last());
    }
}

/// Splitting the slots at `at` splits the populated ones.
pub proof fn lemma_populated_split<T>(slots: Seq<Option<T>>, at: int)
    requires
        0 <= at <= slots.len(),
    ensures
        populated(slots) == populated(slots.subrange(0, at)) + populated(
            slots.subrange(at, slots.len() as int),
        ),
{
    lemma_populated_concat(slots.subrange(0, at), slots.subrange(at, slots.len() as int));
    assert(slots =~= slots.subrange(0, at) + slots.subrange(at, slots.len() as int));
}

/// Taking the first of the slots from `from` on takes its occupancy.
pub proof fn lemma_populated_step<T>(slots: Seq<Option<T>>, from: int)
    requires
        0 <= from < slots.len(),
    ensures
        populated(slots.subrange(from, slots.len() as int)) == occupancy(slots[from]) + populated(
            slots.subrange(from + 1, slots.len() as int),
        ),
{
    let rest = slots.subrange(from, slots.len() as int);
    lemma_populated_split(rest, 1);
    assert(rest.subrange(1, rest.len() as int) =~= slots.subrange(from + 1, slots.len() as int));
    assert(populated(rest.subrange(0, 1).drop_last()) == 0);
}

/// Overwriting a slot exchanges its occupancy.
pub proof fn lemma_populated_update<T>(slots: Seq<Option<T>>, idx: int, slot: Option<T>)
    requires
        0 <= idx < slots.len(),
    ensures
        populated(slots.update(idx, slot)) + occupancy(slots[idx]) == populated(slots) + occupancy(
            slot,
        ),
    decreases slots.len(),
{
    let updated = slots.update(idx, slot);
    if idx == slots.len() - 1 {
        assert(updated.drop_last() =~= slots.drop_last());
    } else {
        lemma_populated_update(slots.drop_last(), idx, slot);
        assert(updated.drop_last() =~= slots.drop_last().update(idx, slot));
    }
}

/// There are as many dense entries as populated slots.
pub proof fn lemma_dense_entries_len<T>(first_id: int, slots: Seq<Option<T>>)
    ensures
        dense_entries(first_id, slots).len() == populated(slots),
    decreases slots.len(),
{
    if slots.len() > 0 {
        lemma_dense_entries_len(first_id + 1, slots.drop_first());
        lemma_populated_step(slots, 0);
        assert(slots.subrange(0, slots.len() as int) =~= slots);
    }
}

/// Each dense entry is a populated slot, under that slot's identifier.
pub proof fn lemma_dense_entries_sound<T>(first_id: int, slots: Seq<Option<T>>, i: int)
    requires
        0 <= i < dense_entries(first_id, slots).len(),
    ensures
        first_id <= dense_entries(first_id, slots)[i].0 < first_id + slots.len(),
        slots[dense_entries(first_id, slots)[i].0 - first_id] == Some(
            dense_entries(first_id, slots)[i].1,
        ),
    decreases slots.len(),
{
    if slots[0] is Some {
        if i > 0 {
            lemma_dense_entries_sound(first_id + 1, slots.drop_first(), i - 1);
        }
    } else {
        lemma_dense_entries_sound(first_id + 1, slots.drop_first(), i);
    }
}

/// Every populated slot is among the dense entries.
pub proof fn lemma_dense_entries_complete<T>(first_id: int, slots: Seq<Option<T>>, idx: int)
    requires
        0 <= idx < slots.len(),
        slots[idx] is Some,
    ensures
        exists|i: int|
            0 <= i < dense_entries(first_id, slots).len() && #[trigger] dense_entries(
                first_id,
                slots,
            )[i] == (first_id + idx, slots[idx]->0),
    decreases slots.len(),
{
    let entries = dense_entries(first_id, slots);
    let rest = dense_entries(first_id + 1, slots.drop_first());
    let shift: int = if slots[0] is Some {
        1
    } else {
        0
    };
    if idx == 0 {
        assert(entries[0] == (first_id + idx, slots[idx]->0));
    } else {
        lemma_dense_entries_complete(first_id + 1, slots.drop_first(), idx - 1);
        let i = choose|i: int|
            0 <= i < rest.len() && #[trigger] rest[i] == (first_id + idx, slots[idx]->0);
        assert(entries[i + shift] == rest[i]);
    }
}

/// The dense entries come by strictly ascending identifier.
pub proof fn lemma_dense_entries_ascending<T>(first_id: int, slots: Seq<Option<T>>, i: int, j: int)
    requires
        0 <= i < j < dense_entries(first_id, slots).len(),
    ensures
        dense_entries(first_id, slots)[i].0 < dense_entries(first_id, slots)[j].0,
    decreases slots.len(),
{
    if slots[0] is Some {
        if i > 0 {
            lemma_dense_entries_ascending(first_id + 1, slots.drop_first(), i - 1, j - 1);
        } else {
            lemma_dense_entries_sound(first_id + 1, slots.drop_first(), j - 1);
        }
    } else {
        lemma_dense_entries_ascending(first_id + 1, slots.drop_first(), i, j);
    }
}

/// Retiring no slot changes nothing.
pub proof fn lemma_retire_none<T>(m: ListModel<T>)
    ensures
        m.retire(0) == m,
{
    assert(m.retire(0).dense =~= m.dense);
    assert(m.retire(0).overflow =~= m.overflow);
}

/// Retiring one slot more puts that slot's value, if it has one, into the
/// overflow store under the slot's identifier.
pub proof fn lemma_retire_step<T>(m: ListModel<T>, n: int)
    requires
        0 <= n < m.dense.len(),
    ensures
        m.retire(n + 1).overflow == match m.dense[n] {
            Some(v) => m.retire(n).overflow.insert(m.first_id + n, v),
            None => m.retire(n).overflow,
        },
{
}

/// A listing of a map has as many items as the map has keys.
pub proof fn lemma_enumerates_len<T>(items: Seq<(usize, T)>, m: Map<usize, T>)
    requires
        enumerates(items, m),
    ensures
        m.dom().finite(),
        items.len() == m.dom().len(),
{
    let ids = items.map_values(|e: (usize, T)| e.0);
    assert forall|id: usize| ids.to_set().contains(id) <==> m.dom().contains(id) by {
        if m.contains_key(id) {
            let i = choose|i: int| 0 <= i < items.len() && #[trigger] items[i].0 == id;
            assert(ids[i] == id);
        }
    }
    assert(ids.to_set() =~= m.dom());
    seq_to_set_is_finite(ids);
    ids.unique_seq_to_set();
}

} // verus!
