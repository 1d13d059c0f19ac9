//! Iteration over a list.

use crate::model::dense_entries;
use crate::model::ListModel;
use crate::overflow::overflow_next;
use crate::overflow::pending;
use std::collections::hash_map;
use vstd::prelude::*;
use vstd::std_specs::iter::IteratorSpec;

verus! {

/// The items that an iterator yields when the entries of its overflow store
/// still to come are `overflow` and its dense slots still to come are
/// `slots`, the first of them with the identifier `first_id`.
pub open spec fn items_of<'a, T>(
    overflow: Seq<(usize, T)>,
    first_id: int,
    slots: Seq<Option<T>>,
) -> Seq<(usize, &'a T)> {
    overflow.map_values(|e: (usize, T)| (e.0, &e.1)) + dense_entries(first_id, slots).map_values(
        |e: (int, T)| (e.0 as usize, &e.1),
    )
}

/// Whether `items` is an order in which the state `m` is iterated: first
/// every entry of the overflow store exactly once, in any order, then the
/// populated slots of the dense store by ascending identifier.
pub open spec fn walk_of<T>(items: Seq<(usize, &T)>, m: ListModel<T>) -> bool {
    let n = m.overflow.len() as int;
    let dense = dense_entries(m.first_id, m.dense);
    &&& items.len() == n + dense.len()
    &&& forall|i: int|
        0 <= i < n ==> m.overflow.contains_key((#[trigger] items[i]).0 as int)
            && m.overflow[items[i].0 as int] == *items[i].1
    &&& forall|i: int, j: int|
        0 <= i < j < n ==> (#[trigger] items[i]).0 != (#[trigger] items[j]).0
    &&& forall|id: int| #[trigger]
        m.overflow.contains_key(id) ==> exists|i: int|
            0 <= i < n && (#[trigger] items[i]).0 == id
    &&& forall|i: int|
        0 <= i < dense.len() ==> items[n + i].0 == (#[trigger] dense[i]).0 && *items[n + i].1
            == dense[i].1
}

/// An iterator over the live entries of a list, each with its identifier:
/// first those of the overflow store, in the order in which that store hands
/// them out, then those of the dense store by ascending identifier.
pub struct ExpirationListIterator<'a, T> {
    map_iter: Option<hash_map::Iter<'a, usize, T>>,
    list: &'a Vec<Option<T>>,
    list_pos: usize,
    first_id: usize,
}

impl<'a, T> ExpirationListIterator<'a, T> {
    #[verifier::type_invariant]
    spec fn inv(&self) -> bool {
        &&& self.list_pos <= self.list@.len()
        &&& self.first_id + self.list@.len() <= usize::MAX
    }

    /// The entries of the overflow store that are still to come.
    pub closed spec fn overflow_items(&self) -> Seq<(usize, T)> {
        match self.map_iter {
            Some(entries) => pending(entries),
            None => Seq::empty(),
        }
    }

    /// The items still to come, in the order in which they will come.
    pub closed spec fn items(&self) -> Seq<(usize, &'a T)> {
        items_of(
            self.overflow_items(),
            self.first_id + self.list_pos,
            self.list@.skip(self.list_pos as int),
        )
    }

    /// An iterator that yields `entries` and then the populated slots of
    /// `list`.
    pub(crate) fn new(
        entries: hash_map::Iter<'a, usize, T>,
        list: &'a Vec<Option<T>>,
        first_id: usize,
    ) -> (iter: Self)
        requires
            first_id + list@.len() <= usize::MAX,
        ensures
            iter.items() == items_of(pending(entries), first_id as int, list@),
            IteratorSpec::decrease(&iter) is Some,
    {
        let iter = ExpirationListIterator { map_iter: Some(entries), list, list_pos: 0, first_id };
        assert(list@.skip(0) =~= list@);
        iter
    }
}

impl<'a, T> Iterator for ExpirationListIterator<'a, T> {
    type Item = (usize, &'a T);

    /// Hands out the first of the items still to come.
    fn next(&mut self) -> (ret: Option<(usize, &'a T)>)
        ensures
            match ret {
                Some(item) => {
                    &&& old(self).items().len() > 0
                    &&& item == old(self).items()[0]
                    &&& final(self).items() == old(self).items().drop_first()
                },
                None => old(self).items().len() == 0 && final(self).items().len() == 0,
            },
    {
        proof {
            use_type_invariant(&*self);
        }
        // The overflow store's iterator is taken out while it is advanced, and
        // put back only if it may have more to give.
        let mut map_iter: Option<hash_map::Iter<'a, usize, T>> = None;
        core::mem::swap(&mut self.map_iter, &mut map_iter);
        if let Some(mut entries) = map_iter {
            let entry = overflow_next(&mut entries);
            if entry.is_some() {
                self.map_iter = Some(entries);
                return entry;
            }
        }
        // The overflow store is done: go on to the next populated dense slot.
        while self.list_pos < self.list.len()
            invariant
                self.list_pos <= self.list@.len(),
                self.first_id + self.list@.len() <= usize::MAX,
                self.list == old(self).list,
                self.first_id == old(self).first_id,
                self.map_iter is None,
                self.items() == old(self).items(),
                old(self).list_pos <= self.list_pos,
            decreases self.list@.len() - self.list_pos,
        {
            let ghost here = self.list@.skip(self.list_pos as int);
            let id: usize = self.first_id + self.list_pos;
            let slot = &self.list[self.list_pos];
            self.list_pos += 1;
            assert(here.drop_first() =~= self.list@.skip(self.list_pos as int));
            if let Some(value) = slot {
                return Some((id, value));
            }
        }
        None
    }
}

impl<'a, T> vstd::std_specs::iter::IteratorSpecImpl for ExpirationListIterator<'a, T> {
    open spec fn obeys_prophetic_iter_laws(&self) -> bool {
        true
    }

    open spec fn remaining(&self) -> Seq<Self::Item> {
        self.items()
    }

    closed spec fn will_return_none(&self) -> bool {
        true
    }

    closed spec fn decrease(&self) -> Option<nat> {
        Some((self.overflow_items().len() + self.list@.len() - self.list_pos) as nat)
    }

    open spec fn initial_value_relation(&self, init: &Self) -> bool {
        init.items() == self.items()
    }

    open spec fn peek(&self, index: int) -> Option<Self::Item> {
        None
    }
}

} // verus!
