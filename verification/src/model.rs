//! The mathematical model of the container: what it holds, and what each
//! operation makes of it.

use vstd::prelude::*;

verus! {

/// 1 for a populated slot, 0 for a vacant one.
pub open spec fn occupancy<T>(slot: Option<T>) -> nat {
    if slot is Some {
        1
    } else {
        0
    }
}

/// The number of populated slots in `slots`.
pub open spec fn populated<T>(slots: Seq<Option<T>>) -> nat
    decreases slots.len(),
{
    if slots.len() == 0 {
        0
    } else {
        populated(slots.drop_last()) + occupancy(slots.last())
    }
}

/// The populated slots of `slots` in ascending order, each with its
/// identifier; slot `i` has the identifier `first_id + i`.
pub open spec fn dense_entries<T>(first_id: int, slots: Seq<Option<T>>) -> Seq<(int, T)>
    decreases slots.len(),
{
    if slots.len() == 0 {
        Seq::empty()
    } else {
        let rest = dense_entries(first_id + 1, slots.drop_first());
        match slots[0] {
            Some(v) => seq![(first_id, v)] + rest,
            None => rest,
        }
    }
}

/// The dense store is left alone while it has no more slots than this.
pub const DENSE_FLOOR: usize = 32;

/// Whether a dense store of `len` slots, `live` of them populated, is due
/// for compaction: less than half of it is populated and it has more than
/// `DENSE_FLOOR` slots.
pub open spec fn sparse(live: int, len: int) -> bool {
    live * 2 < len && len > DENSE_FLOOR
}

/// Where the retired prefix of `slots` ends, given that it reaches at least
/// to `cut`: while what lies behind the cutoff is itself sparse, the cutoff
/// moves on by half of it.
pub open spec fn extend_cutoff<T>(slots: Seq<Option<T>>, cut: int) -> int
    decreases slots.len() - cut,
{
    let rest = slots.len() - cut;
    if 0 <= cut <= slots.len() && sparse(
        populated(slots.subrange(cut, slots.len() as int)) as int,
        rest,
    ) {
        extend_cutoff(slots, cut + rest / 2)
    } else {
        cut
    }
}

/// The state of an expiration list.
pub struct ListModel<T> {
    /// The boundary: the identifier of dense slot 0.
    pub first_id: int,
    /// The dense store; `None` is a vacant slot.
    pub dense: Seq<Option<T>>,
    /// The overflow store, keyed by identifier.
    pub overflow: Map<int, T>,
}

impl<T> ListModel<T> {
    /// The state of a new list.
    pub open spec fn empty() -> Self {
        ListModel { first_id: 0, dense: Seq::empty(), overflow: Map::empty() }
    }

    /// What every reachable state satisfies: the overflow store is finite and
    /// holds only identifiers below the boundary.
    pub open spec fn valid(self) -> bool {
        &&& 0 <= self.first_id
        &&& self.overflow.dom().finite()
        &&& forall|id: int| self.overflow.contains_key(id) ==> 0 <= id < self.first_id
    }

    /// The identifier that the next insertion returns.
    pub open spec fn next_id(self) -> int {
        self.first_id + self.dense.len()
    }

    /// The active count: the populated slots of the dense store.
    pub open spec fn count(self) -> nat {
        populated(self.dense)
    }

    /// The live identifiers.
    pub open spec fn live(self) -> Set<int> {
        Set::new(|id: int| self.contains(id))
    }

    /// The number of live entries in both stores.
    pub open spec fn total(self) -> nat {
        self.count() + self.overflow.len()
    }

    /// The value that `id` resolves to, if it is live.
    pub open spec fn get(self, id: int) -> Option<T> {
        if id < self.first_id {
            if self.overflow.contains_key(id) {
                Some(self.overflow[id])
            } else {
                None
            }
        } else if id - self.first_id < self.dense.len() {
            self.dense[id - self.first_id]
        } else {
            None
        }
    }

    /// Whether `id` is live.
    pub open spec fn contains(self, id: int) -> bool {
        self.get(id) is Some
    }

    /// The state after inserting `value`, which gets the identifier
    /// `self.next_id()`.
    pub open spec fn add(self, value: T) -> Self {
        ListModel { dense: self.dense.push(Some(value)), ..self }
    }

    /// The state in which the live identifier `id` has the value `value`.
    pub open spec fn replace(self, id: int, value: T) -> Self {
        if id < self.first_id {
            ListModel { overflow: self.overflow.insert(id, value), ..self }
        } else {
            ListModel { dense: self.dense.update(id - self.first_id, Some(value)), ..self }
        }
    }

    /// Whether the dense store is due for compaction.
    pub open spec fn is_sparse(self) -> bool {
        sparse(self.count() as int, self.dense.len() as int)
    }

    /// The number of dense slots that a compaction pass retires.
    pub open spec fn cutoff(self) -> int {
        extend_cutoff(self.dense, self.dense.len() as int / 2)
    }

    /// Whether `idx` is a populated slot of the dense store.
    pub open spec fn populated_at(self, idx: int) -> bool {
        0 <= idx < self.dense.len() && self.dense[idx] is Some
    }

    /// Whether dense slot `idx` is among the first `n` and populated.
    pub open spec fn retires(self, n: int, idx: int) -> bool {
        idx < n && self.populated_at(idx)
    }

    /// The state after retiring the first `n` dense slots: the populated
    /// ones move to the overflow store under their identifiers, the vacant
    /// ones are dropped, and the boundary advances by `n`.
    pub open spec fn retire(self, n: int) -> Self {
        ListModel {
            first_id: self.first_id + n,
            dense: self.dense.subrange(n, self.dense.len() as int),
            overflow: Map::new(
                |id: int| self.retires(n, id - self.first_id) || self.overflow.contains_key(id),
                |id: int|
                    if self.retires(n, id - self.first_id) {
                        self.dense[id - self.first_id]->0
                    } else {
                        self.overflow[id]
                    },
            ),
        }
    }

    /// The state after a compaction pass.
    pub open spec fn compact(self) -> Self {
        self.retire(self.cutoff())
    }

    /// The state after vacating dense slot `idx` and, if that leaves the
    /// dense store sparse, compacting it.
    pub open spec fn vacate(self, idx: int) -> Self {
        let cleared = ListModel { dense: self.dense.update(idx, None), ..self };
        if cleared.is_sparse() {
            cleared.compact()
        } else {
            cleared
        }
    }

    /// The state after removing `id`. An identifier that is not live leaves
    /// the state as it is.
    pub open spec fn remove(self, id: int) -> Self {
        if !self.contains(id) {
            self
        } else if id < self.first_id {
            ListModel { overflow: self.overflow.remove(id), ..self }
        } else {
            self.vacate(id - self.first_id)
        }
    }
}

/// An operation that changes a list.
pub enum Op<T> {
    /// Insert the value.
    Add(T),
    /// Remove the identifier.
    Remove(int),
}

impl<T> ListModel<T> {
    /// The state after `op`.
    pub open spec fn apply(self, op: Op<T>) -> Self {
        match op {
            Op::Add(value) => self.add(value),
            Op::Remove(id) => self.remove(id),
        }
    }

    /// The state after the operations `ops`, in their order.
    pub open spec fn run(self, ops: Seq<Op<T>>) -> Self
        decreases ops.len(),
    {
        if ops.len() == 0 {
            self
        } else {
            self.run(ops.drop_last()).apply(ops.last())
        }
    }

    /// The identifier that the insertion at position `at` of `ops` returns:
    /// the next identifier of the state that the operations before it
    /// leave.
    pub open spec fn issued(self, ops: Seq<Op<T>>, at: int) -> int {
        self.run(ops.take(at)).next_id()
    }
}

} // verus!
