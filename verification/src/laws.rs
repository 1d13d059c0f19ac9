//! What holds of every list, proved from the model.

use crate::iter::walk_of;
use crate::lemmas::lemma_dense_entries_ascending;
use crate::lemmas::lemma_dense_entries_complete;
use crate::lemmas::lemma_dense_entries_len;
use crate::lemmas::lemma_dense_entries_sound;
use crate::lemmas::lemma_populated_push;
use crate::lemmas::lemma_populated_update;
use crate::model::DENSE_FLOOR;
use crate::model::extend_cutoff;
use crate::model::ListModel;
use crate::model::Op;
use crate::model::populated;
use crate::model::sparse;
use vstd::prelude::*;
use vstd::set_lib::lemma_int_range;
use vstd::set_lib::lemma_set_disjoint_lens;
use vstd::set_lib::lemma_set_subset_finite;
use vstd::set_lib::set_int_range;

verus! {

/// The cutoff only moves forward, stays within the slots, and stops where
/// what lies behind it is no longer sparse.
pub proof fn lemma_extend_cutoff<T>(slots: Seq<Option<T>>, cut: int)
    requires
        0 <= cut <= slots.len(),
    ensures
        cut <= extend_cutoff(slots, cut) <= slots.len(),
        !sparse(
            populated(slots.subrange(extend_cutoff(slots, cut), slots.len() as int)) as int,
            slots.len() - extend_cutoff(slots, cut),
        ),
    decreases slots.len() - cut,
{
    let rest = slots.len() - cut;
    if sparse(populated(slots.subrange(cut, slots.len() as int)) as int, rest) {
        lemma_extend_cutoff(slots, cut + rest / 2);
    }
}

/// A new list is valid.
pub proof fn lemma_empty_valid<T>()
    ensures
        ListModel::<T>::empty().valid(),
{
}

/// Retiring dense slots keeps the state valid.
pub proof fn lemma_retire_valid<T>(m: ListModel<T>, n: int)
    requires
        m.valid(),
        0 <= n <= m.dense.len(),
    ensures
        m.retire(n).valid(),
{
    let moved = set_int_range(m.first_id, m.first_id + n);
    lemma_int_range(m.first_id, m.first_id + n);
    lemma_set_subset_finite(m.overflow.dom().union(moved), m.retire(n).overflow.dom());
}

/// Retiring dense slots changes no identifier's value: what leaves the dense
/// store is found in the overflow store.
pub proof fn lemma_retire_get<T>(m: ListModel<T>, n: int, id: int)
    requires
        m.valid(),
        0 <= n <= m.dense.len(),
    ensures
        m.retire(n).get(id) == m.get(id),
{
}

/// Retiring dense slots keeps the next identifier.
pub proof fn lemma_retire_next_id<T>(m: ListModel<T>, n: int)
    requires
        0 <= n <= m.dense.len(),
    ensures
        m.retire(n).next_id() == m.next_id(),
{
}

/// Inserting keeps the state valid.
pub proof fn lemma_add_valid<T>(m: ListModel<T>, value: T)
    requires
        m.valid(),
    ensures
        m.add(value).valid(),
{
}

/// Removing keeps the state valid.
pub proof fn lemma_remove_valid<T>(m: ListModel<T>, id: int)
    requires
        m.valid(),
    ensures
        m.remove(id).valid(),
{
    if m.contains(id) && id >= m.first_id {
        let cleared = ListModel { dense: m.dense.update(id - m.first_id, None), ..m };
        lemma_extend_cutoff(cleared.dense, cleared.dense.len() as int / 2);
        lemma_retire_valid(cleared, cleared.cutoff());
    }
}

/// A live identifier is in exactly one store: below the boundary in the
/// overflow store, from the boundary on in its slot of the dense store.
pub proof fn lemma_one_store<T>(m: ListModel<T>, id: int)
    requires
        m.valid(),
    ensures
        m.contains(id) <==> m.overflow.contains_key(id) || m.populated_at(id - m.first_id),
        !(m.overflow.contains_key(id) && m.populated_at(id - m.first_id)),
{
}

/// A live identifier is below the next one to be assigned, and not negative.
pub proof fn lemma_live_is_issued<T>(m: ListModel<T>, id: int)
    requires
        m.valid(),
        m.contains(id),
    ensures
        0 <= id < m.next_id(),
{
}

/// Inserting assigns the next identifier to the value and leaves every
/// other identifier as it was.
pub proof fn lemma_add_get<T>(m: ListModel<T>, value: T, id: int)
    requires
        m.valid(),
    ensures
        m.add(value).get(id) == if id == m.next_id() {
            Some(value)
        } else {
            m.get(id)
        },
{
}

/// Inserting advances the next identifier by one.
pub proof fn lemma_add_next_id<T>(m: ListModel<T>, value: T)
    ensures
        m.add(value).next_id() == m.next_id() + 1,
{
}

/// Removing retires the identifier and leaves every other identifier as it
/// was, whether or not the dense store is compacted on the way.
pub proof fn lemma_remove_get<T>(m: ListModel<T>, removed: int, id: int)
    requires
        m.valid(),
    ensures
        m.remove(removed).get(id) == if id == removed {
            None
        } else {
            m.get(id)
        },
{
    if m.contains(removed) && removed >= m.first_id {
        let cleared = ListModel { dense: m.dense.update(removed - m.first_id, None), ..m };
        lemma_extend_cutoff(cleared.dense, cleared.dense.len() as int / 2);
        lemma_retire_get(cleared, cleared.cutoff(), id);
    }
}

/// Removing keeps the next identifier, so no insertion can return an
/// identifier that was given out before.
pub proof fn lemma_remove_next_id<T>(m: ListModel<T>, id: int)
    ensures
        m.remove(id).next_id() == m.next_id(),
{
    if m.contains(id) && id >= m.first_id {
        let cleared = ListModel { dense: m.dense.update(id - m.first_id, None), ..m };
        lemma_extend_cutoff(cleared.dense, cleared.dense.len() as int / 2);
        lemma_retire_next_id(cleared, cleared.cutoff());
    }
}

/// Removing an identifier that is not live changes nothing.
pub proof fn lemma_remove_absent<T>(m: ListModel<T>, id: int)
    requires
        !m.contains(id),
    ensures
        m.remove(id) == m,
{
}

/// Removing an identifier a second time changes nothing.
pub proof fn lemma_remove_twice<T>(m: ListModel<T>, id: int)
    requires
        m.valid(),
    ensures
        m.remove(id).remove(id) == m.remove(id),
{
    lemma_remove_get(m, id, id);
}

/// Round trip: a value that was inserted is found under the identifier it
/// was given, which is also what removing that identifier returns; once
/// removed, the identifier is no longer live.
pub proof fn lemma_round_trip<T>(m: ListModel<T>, value: T)
    requires
        m.valid(),
    ensures
        m.add(value).get(m.next_id()) == Some(value),
        m.add(value).remove(m.next_id()).get(m.next_id()) is None,
        !m.add(value).remove(m.next_id()).contains(m.next_id()),
{
    lemma_add_get(m, value, m.next_id());
    lemma_add_valid(m, value);
    lemma_remove_get(m.add(value), m.next_id(), m.next_id());
}

/// After a compaction pass the dense store is at least half populated, or
/// has no more than `DENSE_FLOOR` slots.
pub proof fn lemma_compact_not_sparse<T>(m: ListModel<T>)
    ensures
        !m.compact().is_sparse(),
        m.compact().count() * 2 >= m.compact().dense.len() || m.compact().dense.len()
            <= DENSE_FLOOR,
{
    lemma_extend_cutoff(m.dense, m.dense.len() as int / 2);
}

/// After a removal that vacates a dense slot, and so after every removal
/// that compacts, the dense store is at least half populated, or has no more
/// than `DENSE_FLOOR` slots.
pub proof fn lemma_remove_not_sparse<T>(m: ListModel<T>, id: int)
    requires
        m.contains(id),
        id >= m.first_id,
    ensures
        !m.remove(id).is_sparse(),
{
    let cleared = ListModel { dense: m.dense.update(id - m.first_id, None), ..m };
    lemma_compact_not_sparse(cleared);
}

/// Changing the value of a live identifier changes nothing else: the state
/// stays valid, every other identifier resolves as before, and the layout
/// of the stores is the same.
pub proof fn lemma_replace<T>(m: ListModel<T>, id: int, value: T, other: int)
    requires
        m.valid(),
        m.contains(id),
    ensures
        m.replace(id, value).valid(),
        m.replace(id, value).get(other) == if other == id {
            Some(value)
        } else {
            m.get(other)
        },
        m.replace(id, value).first_id == m.first_id,
        m.replace(id, value).count() == m.count(),
        m.replace(id, value).total() == m.total(),
        m.replace(id, value).next_id() == m.next_id(),
{
    if id < m.first_id {
        assert(m.overflow.insert(id, value).dom() =~= m.overflow.dom());
    } else {
        lemma_populated_update(m.dense, id - m.first_id, Some(value));
    }
}

/// Every sequence of operations keeps the state valid.
pub proof fn lemma_run_valid<T>(m: ListModel<T>, ops: Seq<Op<T>>)
    requires
        m.valid(),
    ensures
        m.run(ops).valid(),
    decreases ops.len(),
{
    if ops.len() > 0 {
        let before = m.run(ops.drop_last());
        lemma_run_valid(m, ops.drop_last());
        match ops.last() {
            Op::Add(value) => lemma_add_valid(before, value),
            Op::Remove(id) => lemma_remove_valid(before, id),
        }
    }
}

/// No sequence of operations moves the next identifier back.
pub proof fn lemma_run_next_id<T>(m: ListModel<T>, ops: Seq<Op<T>>)
    ensures
        m.run(ops).next_id() >= m.next_id(),
    decreases ops.len(),
{
    if ops.len() > 0 {
        let before = m.run(ops.drop_last());
        lemma_run_next_id(m, ops.drop_last());
        match ops.last() {
            Op::Add(value) => lemma_add_next_id(before, value),
            Op::Remove(id) => lemma_remove_next_id(before, id),
        }
    }
}

/// Identifier stability: a live identifier resolves to the same value after
/// any sequence of insertions and removals that does not remove it,
/// whatever was compacted in between.
pub proof fn lemma_run_stable<T>(m: ListModel<T>, ops: Seq<Op<T>>, id: int)
    requires
        m.valid(),
        m.contains(id),
        forall|k: int| 0 <= k < ops.len() ==> ops[k] != Op::<T>::Remove(id),
    ensures
        m.run(ops).get(id) == m.get(id),
    decreases ops.len(),
{
    if ops.len() > 0 {
        let before = m.run(ops.drop_last());
        lemma_run_stable(m, ops.drop_last(), id);
        lemma_run_valid(m, ops.drop_last());
        lemma_live_is_issued(before, id);
        match ops.last() {
            Op::Add(value) => lemma_add_get(before, value, id),
            Op::Remove(removed) => lemma_remove_get(before, removed, id),
        }
    }
}

/// Identifier stability, from the insertion on: the identifier that an
/// insertion returns resolves to the inserted value until it is removed.
pub proof fn lemma_issued_stable<T>(m: ListModel<T>, value: T, ops: Seq<Op<T>>)
    requires
        m.valid(),
        forall|k: int| 0 <= k < ops.len() ==> ops[k] != Op::<T>::Remove(m.next_id()),
    ensures
        m.add(value).run(ops).get(m.next_id()) == Some(value),
{
    lemma_add_get(m, value, m.next_id());
    lemma_add_valid(m, value);
    lemma_run_stable(m.add(value), ops, m.next_id());
}

/// The identifiers that insertions return only grow along a sequence of
/// operations.
pub proof fn lemma_issued_grows<T>(m: ListModel<T>, ops: Seq<Op<T>>, i: int, j: int)
    requires
        0 <= i <= j <= ops.len(),
    ensures
        m.issued(ops, i) <= m.issued(ops, j),
        i < j && ops[i] is Add ==> m.issued(ops, i) < m.issued(ops, j),
    decreases j - i,
{
    if i < j {
        lemma_issued_grows(m, ops, i + 1, j);
        let before = m.run(ops.take(i));
        assert(ops.take(i + 1).drop_last() =~= ops.take(i));
        match ops[i] {
            Op::Add(value) => lemma_add_next_id(before, value),
            Op::Remove(id) => lemma_remove_next_id(before, id),
        }
    }
}

/// No reuse: two insertions of one sequence of operations return different
/// identifiers, whatever was removed and inserted between them.
pub proof fn lemma_no_reuse<T>(m: ListModel<T>, ops: Seq<Op<T>>, i: int, j: int)
    requires
        0 <= i < ops.len(),
        0 <= j < ops.len(),
        i != j,
        ops[i] is Add,
        ops[j] is Add,
    ensures
        m.issued(ops, i) != m.issued(ops, j),
{
    if i < j {
        lemma_issued_grows(m, ops, i, j);
    } else {
        lemma_issued_grows(m, ops, j, i);
    }
}

/// No reuse: an identifier that was given out and is no longer live never
/// becomes live again.
pub proof fn lemma_retired_for_good<T>(m: ListModel<T>, ops: Seq<Op<T>>, id: int)
    requires
        m.valid(),
        id < m.next_id(),
        !m.contains(id),
    ensures
        !m.run(ops).contains(id),
    decreases ops.len(),
{
    if ops.len() > 0 {
        let before = m.run(ops.drop_last());
        lemma_retired_for_good(m, ops.drop_last(), id);
        lemma_run_valid(m, ops.drop_last());
        lemma_run_next_id(m, ops.drop_last());
        match ops.last() {
            Op::Add(value) => lemma_add_get(before, value, id),
            Op::Remove(removed) => lemma_remove_get(before, removed, id),
        }
    }
}

/// The identifiers of the populated slots of `slots`, the first of which has
/// the identifier `first_id`.
pub open spec fn dense_ids<T>(first_id: int, slots: Seq<Option<T>>) -> Set<int> {
    Set::new(|id: int| first_id <= id < first_id + slots.len() && slots[id - first_id] is Some)
}

/// There are as many identifiers of populated slots as populated slots.
pub proof fn lemma_dense_ids_len<T>(first_id: int, slots: Seq<Option<T>>)
    ensures
        dense_ids(first_id, slots).finite(),
        dense_ids(first_id, slots).len() == populated(slots),
    decreases slots.len(),
{
    if slots.len() == 0 {
        assert(dense_ids(first_id, slots) =~= Set::<int>::empty());
    } else {
        let before = dense_ids(first_id, slots.drop_last());
        lemma_dense_ids_len(first_id, slots.drop_last());
        let last = first_id + slots.len() - 1;
        if slots.last() is Some {
            assert(dense_ids(first_id, slots) =~= before.insert(last));
        } else {
            assert(dense_ids(first_id, slots) =~= before);
        }
    }
}

/// The active count and the size of the overflow store add up to the
/// number of live identifiers.
pub proof fn lemma_total_counts_live<T>(m: ListModel<T>)
    requires
        m.valid(),
    ensures
        m.live().finite(),
        m.live().len() == m.total(),
{
    let dense = dense_ids(m.first_id, m.dense);
    lemma_dense_ids_len(m.first_id, m.dense);
    assert(m.live() =~= m.overflow.dom() + dense);
    lemma_set_disjoint_lens(m.overflow.dom(), dense);
}

/// Inserting adds one live entry.
pub proof fn lemma_add_total<T>(m: ListModel<T>, value: T)
    ensures
        m.add(value).total() == m.total() + 1,
{
    lemma_populated_push(m.dense, Some(value));
}

/// Removing takes one live entry away if the identifier is live, however
/// the entries are spread over the stores afterwards.
pub proof fn lemma_remove_total<T>(m: ListModel<T>, id: int)
    requires
        m.valid(),
    ensures
        m.remove(id).total() == if m.contains(id) {
            m.total() - 1
        } else {
            m.total() as int
        },
{
    lemma_remove_valid(m, id);
    lemma_total_counts_live(m);
    lemma_total_counts_live(m.remove(id));
    assert forall|other: int| m.remove(id).live().contains(other) <==> m.live().remove(
        id,
    ).contains(other) by {
        lemma_remove_get(m, id, other);
    }
    assert(m.remove(id).live() =~= m.live().remove(id));
}

/// Iteration yields live entries only, each with its value.
pub proof fn lemma_walk_sound<T>(items: Seq<(usize, &T)>, m: ListModel<T>, i: int)
    requires
        m.valid(),
        walk_of(items, m),
        0 <= i < items.len(),
    ensures
        m.get(items[i].0 as int) == Some(*items[i].1),
{
    let n = m.overflow.len() as int;
    if i >= n {
        lemma_dense_entries_sound(m.first_id, m.dense, i - n);
    }
}

/// Iteration yields every live entry.
pub proof fn lemma_walk_complete<T>(items: Seq<(usize, &T)>, m: ListModel<T>, id: int)
    requires
        m.valid(),
        walk_of(items, m),
        m.contains(id),
    ensures
        exists|i: int| 0 <= i < items.len() && (#[trigger] items[i]).0 == id,
{
    if id >= m.first_id {
        lemma_dense_entries_complete(m.first_id, m.dense, id - m.first_id);
    }
}

/// Iteration yields no identifier twice.
pub proof fn lemma_walk_distinct<T>(items: Seq<(usize, &T)>, m: ListModel<T>, i: int, j: int)
    requires
        m.valid(),
        walk_of(items, m),
        0 <= i < j < items.len(),
    ensures
        items[i].0 != items[j].0,
{
    let n = m.overflow.len() as int;
    if i >= n {
        lemma_dense_entries_ascending(m.first_id, m.dense, i - n, j - n);
    } else if j >= n {
        lemma_dense_entries_sound(m.first_id, m.dense, j - n);
    }
}

/// While the overflow store is empty, iteration goes by ascending
/// identifier.
pub proof fn lemma_walk_ascending<T>(items: Seq<(usize, &T)>, m: ListModel<T>, i: int, j: int)
    requires
        walk_of(items, m),
        m.overflow.len() == 0,
        0 <= i < j < items.len(),
    ensures
        items[i].0 < items[j].0,
{
    lemma_dense_entries_ascending(m.first_id, m.dense, i, j);
}

/// Iteration yields as many items as there are live entries.
pub proof fn lemma_walk_len<T>(items: Seq<(usize, &T)>, m: ListModel<T>)
    requires
        walk_of(items, m),
    ensures
        items.len() == m.total(),
{
    lemma_dense_entries_len(m.first_id, m.dense);
}

} // verus!
