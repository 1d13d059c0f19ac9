//! The container itself.

use crate::iter::ExpirationListIterator;
use crate::iter::walk_of;
use crate::keys::by_id;
use crate::keys::lemma_by_id_empty;
use crate::keys::lemma_by_id_insert;
use crate::keys::lemma_by_id_len;
use crate::keys::lemma_by_id_remove;
use crate::laws::lemma_remove_get;
use crate::laws::lemma_remove_next_id;
use crate::laws::lemma_remove_not_sparse;
use crate::lemmas::lemma_dense_entries_sound;
use crate::lemmas::lemma_enumerates_len;
use crate::lemmas::lemma_populated_bound;
use crate::lemmas::lemma_populated_push;
use crate::lemmas::lemma_populated_step;
use crate::lemmas::lemma_populated_update;
use crate::lemmas::lemma_retire_none;
use crate::lemmas::lemma_retire_step;
use crate::model::dense_entries;
use crate::model::DENSE_FLOOR;
use crate::model::extend_cutoff;
use crate::model::ListModel;
use crate::model::populated;
use crate::model::sparse;
use crate::overflow::enumerates;
use crate::overflow::overflow_contains;
use crate::overflow::overflow_get;
use crate::overflow::overflow_get_mut;
use crate::overflow::overflow_insert;
use crate::overflow::overflow_iter;
use crate::overflow::overflow_len;
use crate::overflow::overflow_next;
use crate::overflow::overflow_remove;
use crate::overflow::pending;
use fnv::FnvHashMap;
use vstd::prelude::*;
use vstd::set_lib::lemma_int_range;
use vstd::set_lib::lemma_len_subset;
use vstd::set_lib::set_int_range;
use vstd::std_specs::iter::IteratorSpec;

verus! {

/// A container that gives each inserted value a stable identifier, never
/// used twice, and that shrinks by itself as old entries leave.
///
/// New values go to the end of a dense store. Removing one vacates its slot.
/// When less than half of the dense store is populated, its older half is
/// retired: what is still live there moves to an overflow store, under the
/// same identifier.
#[derive(Debug)]
pub struct ExpirationList<T> {
    first_id: usize,
    count: usize,
    list: Vec<Option<T>>,
    map: FnvHashMap<usize, T>,
}

impl<T> View for ExpirationList<T> {
    type V = ListModel<T>;

    closed spec fn view(&self) -> ListModel<T> {
        ListModel { first_id: self.first_id as int, dense: self.list@, overflow: by_id(self.map@) }
    }
}

impl<T> Default for ExpirationList<T> {
    /// Creates an empty list.
    fn default() -> (s: Self)
        ensures
            s.wf(),
            s@ == ListModel::<T>::empty(),
    {
        let s = ExpirationList {
            first_id: 0,
            count: 0,
            list: Vec::new(),
            map: FnvHashMap::default(),
        };
        proof {
            lemma_by_id_empty::<T>();
        }
        s
    }
}

impl<T> ExpirationList<T> {
    /// The representation invariant: the active count is the number of
    /// populated dense slots, every identifier up to the next one has room
    /// in `usize`, and the overflow store holds only identifiers below the
    /// boundary.
    pub closed spec fn wf(&self) -> bool {
        &&& self.count == populated(self.list@)
        &&& self.first_id + self.list@.len() <= usize::MAX
        &&& forall|id: usize| self.map@.contains_key(id) ==> id < self.first_id
    }

    /// A well-formed list is in a valid state.
    pub proof fn lemma_wf_valid(&self)
        requires
            self.wf(),
        ensures
            self@.valid(),
    {
        lemma_by_id_len(self.map@);
    }

    /// Creates an empty list.
    pub fn new() -> (s: Self)
        ensures
            s.wf(),
            s@ == ListModel::<T>::empty(),
    {
        Default::default()
    }

    /// Adds `value` at the end of the dense store and returns its
    /// identifier, the next one in order. The dense store is never compacted
    /// here. The identifier must have room in `usize`.
    pub fn add(&mut self, value: T) -> (id: usize)
        requires
            old(self).wf(),
            old(self)@.next_id() < usize::MAX,
        ensures
            final(self).wf(),
            final(self)@ == old(self)@.add(value),
            id == old(self)@.next_id(),
            final(self)@.next_id() == id + 1,
            final(self)@.get(id as int) == Some(value),
            forall|other: int| other != id ==> final(self)@.get(other) == old(self)@.get(other),
    {
        proof {
            lemma_populated_bound(self.list@);
            lemma_populated_push(self.list@, Some(value));
        }
        self.list.push(Some(value));
        self.count += 1;
        self.first_id + self.list.len() - 1
    }

    /// Removes `id` and returns its value, if `id` is live. If that leaves
    /// less than half of the dense store populated, the dense store is
    /// compacted.
    pub fn remove(&mut self, id: usize) -> (value: Option<T>)
        requires
            old(self).wf(),
        ensures
            final(self).wf(),
            final(self)@ == old(self)@.remove(id as int),
            value == old(self)@.get(id as int),
            value is None ==> final(self)@ == old(self)@,
            !final(self)@.contains(id as int),
            forall|other: int| other != id ==> final(self)@.get(other) == old(self)@.get(other),
            final(self)@.next_id() == old(self)@.next_id(),
            final(self)@.first_id != old(self)@.first_id ==> !final(self)@.is_sparse(),
    {
        proof {
            self.lemma_wf_valid();
            assert forall|other: int| self@.remove(id as int).get(other) == if other == id {
                None
            } else {
                self@.get(other)
            } by {
                lemma_remove_get(self@, id as int, other);
            }
            lemma_remove_next_id(self@, id as int);
            if self@.contains(id as int) && id >= self.first_id {
                lemma_remove_not_sparse(self@, id as int);
            }
        }
        if id < self.first_id {
            proof {
                lemma_by_id_remove(self.map@, id);
                if !self.map@.contains_key(id) {
                    assert(self.map@.remove(id) =~= self.map@);
                }
            }
            return overflow_remove(&mut self.map, id);
        }
        let idx: usize = id - self.first_id;
        if idx >= self.list.len() {
            return None;
        }
        let removed = self.list[idx].take();
        if removed.is_none() {
            assert(self.list@ =~= old(self).list@);
            return None;
        }
        proof {
            lemma_populated_update(old(self).list@, idx as int, None);
            lemma_populated_bound(self.list@);
        }
        self.count -= 1;
        if is_sparse(self.count, self.list.len()) {
            self.compact();
        }
        removed
    }

    /// The compaction pass: retires a prefix of the dense store in one
    /// traversal.
    fn compact(&mut self)
        requires
            old(self).wf(),
            old(self)@.is_sparse(),
        ensures
            final(self).wf(),
            final(self)@ == old(self)@.compact(),
    {
        let ghost start = self@;
        let full_len: usize = self.list.len();
        let mut shrink_count: usize = full_len / 2;
        let mut swap_list: Vec<Option<T>> = Vec::with_capacity(full_len);
        core::mem::swap(&mut self.list, &mut swap_list);
        let mut idx: usize = 0;
        proof {
            lemma_retire_none(start);
        }
        for value in it: swap_list
            invariant
                it.seq() == start.dense,
                idx == it.index(),
                start.dense.len() == full_len,
                start.first_id == self.first_id,
                start.first_id + full_len <= usize::MAX,
                forall|id: int| start.overflow.contains_key(id) ==> 0 <= id < start.first_id,
                1 <= shrink_count <= full_len,
                extend_cutoff(start.dense, shrink_count as int) == start.cutoff(),
                idx >= shrink_count ==> extend_cutoff(start.dense, shrink_count as int)
                    == shrink_count,
                ({
                    let retired = if idx < shrink_count { idx as int } else { shrink_count as int };
                    &&& self.list@ == start.dense.subrange(retired, idx as int)
                    &&& by_id(self.map@) == start.retire(retired).overflow
                    &&& self.count == populated(start.dense.subrange(retired, full_len as int))
                }),
        {
            proof {
                lemma_populated_step(start.dense, idx as int);
                lemma_retire_step(start, idx as int);
            }
            if idx < shrink_count {
                if let Some(inner_value) = value {
                    proof {
                        lemma_by_id_insert(self.map@, (idx + self.first_id) as usize, inner_value);
                    }
                    overflow_insert(&mut self.map, idx + self.first_id, inner_value);
                    self.count -= 1;
                }
                // At the end of what is to be retired: if what is left is still
                // less than half populated, retire half of it as well.
                let remaining_len: usize = full_len - shrink_count;
                proof {
                    lemma_populated_bound(
                        start.dense.subrange(shrink_count as int, full_len as int),
                    );
                }
                if idx == shrink_count - 1 && is_sparse(self.count, remaining_len) {
                    shrink_count += remaining_len / 2;
                }
            } else {
                self.list.push(value);
            }
            idx += 1;
        }
        self.first_id += shrink_count;
        proof {
            assert forall|id: usize| self.map@.contains_key(id) implies id < self.first_id by {
                assert(by_id(self.map@).contains_key(id as int));
            }
        }
    }

    /// The value of `id`, if `id` is live: below the boundary it is looked
    /// up in the overflow store, from the boundary on in the dense store.
    pub fn get(&self, id: usize) -> (value: Option<&T>)
        ensures
            match value {
                Some(v) => self@.get(id as int) == Some(*v),
                None => self@.get(id as int) is None,
            },
    {
        if id < self.first_id {
            return overflow_get(&self.map, id);
        }
        let idx = id - self.first_id;
        if idx < self.list.len() {
            self.list[idx].as_ref()
        } else {
            None
        }
    }

    /// The value of `id`, to be changed in place, if `id` is live.
    pub fn get_mut(&mut self, id: usize) -> (value: Option<&mut T>)
        requires
            old(self).wf(),
        ensures
            final(self).wf(),
            match value {
                Some(v) => {
                    &&& old(self)@.get(id as int) == Some(*v)
                    &&& final(self)@ == old(self)@.replace(id as int, *final(v))
                },
                None => old(self)@.get(id as int) is None && final(self)@ == old(self)@,
            },
    {
        if id < self.first_id {
            let value = overflow_get_mut(&mut self.map, id);
            proof {
                if value is Some {
                    lemma_by_id_insert(old(self).map@, id, *final(value.unwrap()));
                }
            }
            return value;
        }
        let idx: usize = id - self.first_id;
        if idx < self.list.len() {
            let value = self.list[idx].as_mut();
            proof {
                if value is Some {
                    lemma_populated_update(
                        old(self).list@,
                        idx as int,
                        Some(*final(value.unwrap())),
                    );
                } else {
                    assert(old(self).list@.update(idx as int, None) =~= old(self).list@);
                }
            }
            value
        } else {
            None
        }
    }

    /// Whether `id` is live.
    pub fn contains(&self, id: usize) -> (found: bool)
        ensures
            found == self@.contains(id as int),
    {
        if id < self.first_id {
            return overflow_contains(&self.map, id);
        }
        let idx = id - self.first_id;
        idx < self.list.len() && self.list[idx].is_some()
    }

    /// An iterator over the live entries, each with its identifier. Those of
    /// the overflow store come first, in no particular order, then those of
    /// the dense store by ascending identifier.
    pub fn iter(&self) -> (iter: ExpirationListIterator<'_, T>)
        requires
            self.wf(),
        ensures
            walk_of(iter.items(), self@),
            IteratorSpec::decrease(&iter) is Some,
    {
        let entries = overflow_iter(&self.map);
        let iter = ExpirationListIterator::new(entries, &self.list, self.first_id);
        proof {
            let listed = pending(entries);
            let dense = dense_entries(self.first_id as int, self.list@);
            let items = iter.items();
            lemma_enumerates_len(listed, self.map@);
            lemma_by_id_len(self.map@);
            assert forall|i: int| 0 <= i < dense.len() implies items[listed.len() + i].0 == (
            #[trigger] dense[i]).0 && *items[listed.len() + i].1 == dense[i].1 by {
                lemma_dense_entries_sound(self.first_id as int, self.list@, i);
            }
            assert forall|id: int| #[trigger] self@.overflow.contains_key(id) implies exists|i: int|
                0 <= i < listed.len() && (#[trigger] items[i]).0 == id by {
                let i = choose|i: int| 0 <= i < listed.len() && #[trigger] listed[i].0 == id;
                assert(items[i].0 == id);
            }
        }
        iter
    }

    /// The boundary: identifiers below it are in the overflow store or not
    /// live.
    pub fn first_id(&self) -> (id: usize)
        ensures
            id == self@.first_id,
    {
        self.first_id
    }

    /// The identifier that the next insertion returns.
    pub fn next_id(&self) -> (id: usize)
        requires
            self.wf(),
        ensures
            id == self@.next_id(),
    {
        self.first_id + self.list.len()
    }

    /// The active count: the number of populated slots of the dense store.
    /// Entries in the overflow store are not counted.
    pub fn count(&self) -> (n: usize)
        requires
            self.wf(),
        ensures
            n == self@.count(),
    {
        self.count
    }

    /// The number of slots of the dense store, vacant ones included.
    pub fn dense_len(&self) -> (n: usize)
        ensures
            n == self@.dense.len(),
    {
        self.list.len()
    }

    /// The number of entries in the overflow store.
    pub fn overflow_len(&self) -> (n: usize)
        ensures
            n == self@.overflow.len(),
    {
        proof {
            lemma_by_id_len(self.map@);
        }
        overflow_len(&self.map)
    }

    /// The number of live entries.
    pub fn len(&self) -> (n: usize)
        requires
            self.wf(),
        ensures
            n == self@.total(),
    {
        proof {
            self.lemma_wf_valid();
            lemma_populated_bound(self.list@);
            lemma_int_range(0, self.first_id as int);
            lemma_len_subset(self@.overflow.dom(), set_int_range(0, self.first_id as int));
        }
        self.count + self.overflow_len()
    }

    /// Whether no entry is live.
    pub fn is_empty(&self) -> (empty: bool)
        requires
            self.wf(),
        ensures
            empty == (self@.total() == 0),
    {
        self.len() == 0
    }

    /// Whether a boundary, a dense store and an overflow store fit together
    /// as a list: every identifier has room in `usize`, and the overflow
    /// store holds only identifiers below the boundary.
    pub open spec fn parts_fit(
        first_id: usize,
        dense: Seq<Option<T>>,
        overflow: Map<usize, T>,
    ) -> bool {
        &&& first_id + dense.len() <= usize::MAX
        &&& forall|id: usize| overflow.contains_key(id) ==> id < first_id
    }

    /// Takes the list apart into its boundary, its dense store and its
    /// overflow store.
    pub fn into_parts(self) -> (parts: (usize, Vec<Option<T>>, FnvHashMap<usize, T>))
        requires
            self.wf(),
        ensures
            parts.0 == self@.first_id,
            parts.1@ == self@.dense,
            by_id(parts.2@) == self@.overflow,
            Self::parts_fit(parts.0, parts.1@, parts.2@),
    {
        (self.first_id, self.list, self.map)
    }

    /// Puts a list together from a boundary, a dense store and an overflow
    /// store, if they fit together.
    pub fn from_parts(first_id: usize, list: Vec<Option<T>>, map: FnvHashMap<usize, T>) -> (made:
        Option<Self>)
        ensures
            made is Some <==> Self::parts_fit(first_id, list@, map@),
            made matches Some(s) ==> s.wf() && s@ == (ListModel {
                first_id: first_id as int,
                dense: list@,
                overflow: by_id(map@),
            }),
    {
        if list.len() > usize::MAX - first_id {
            return None;
        }
        if !keys_below(&map, first_id) {
            return None;
        }
        let count = count_populated(&list);
        Some(ExpirationList { first_id, count, list, map })
    }
}

/// Whether a dense store of `len` slots, `live` of them populated, is due for
/// compaction.
fn is_sparse(live: usize, len: usize) -> (due: bool)
    requires
        live <= len,
    ensures
        due == sparse(live as int, len as int),
{
    live < len - live && len > DENSE_FLOOR
}

/// Whether every key of `map` is below `bound`.
fn keys_below<T>(map: &FnvHashMap<usize, T>, bound: usize) -> (below: bool)
    ensures
        below <==> forall|id: usize| map@.contains_key(id) ==> id < bound,
{
    let mut entries = overflow_iter(map);
    let ghost listed = pending(entries);
    let ghost mut seen: int = 0;
    loop
        invariant
            enumerates(listed, map@),
            0 <= seen <= listed.len(),
            pending(entries) == listed.skip(seen),
            forall|i: int| 0 <= i < seen ==> (#[trigger] listed[i]).0 < bound,
        decreases listed.len() - seen,
    {
        match overflow_next(&mut entries) {
            Some((id, _)) => {
                if id >= bound {
                    return false;
                }
                proof {
                    seen = seen + 1;
                }
            },
            None => {
                return true;
            },
        }
    }
}

/// The number of populated slots of `list`.
fn count_populated<T>(list: &Vec<Option<T>>) -> (n: usize)
    ensures
        n == populated(list@),
{
    let mut n: usize = 0;
    let mut idx: usize = 0;
    while idx < list.len()
        invariant
            idx <= list.len(),
            n == populated(list@.take(idx as int)),
            n <= idx,
        decreases list.len() - idx,
    {
        proof {
            lemma_populated_push(list@.take(idx as int), list@[idx as int]);
            assert(list@.take(idx as int).push(list@[idx as int]) =~= list@.take(idx + 1));
        }
        if list[idx].is_some() {
            n += 1;
        }
        idx += 1;
    }
    assert(list@.take(idx as int) =~= list@);
    n
}

} // verus!
