//! The overflow store: a std `HashMap` keyed by identifier that hashes with
//! the `fnv` crate's hasher.
//!
//! vstd describes the methods of `HashMap` only for hash builders that it
//! knows to hash consistently, and `fnv`'s is not among them. The functions
//! below call those methods on a map built with `fnv::FnvBuildHasher` and
//! state what each does to the map's contents `m@`. What is believed of `fnv`
//! in all of them: an `FnvHasher` starts from a fixed basis, folds in the bytes
//! written to it and nothing else, and `finish` returns that state, so equal
//! keys always hash alike and the map finds again what was put into it.

use fnv::FnvHashMap;
use std::collections::hash_map;
use vstd::prelude::*;

verus! {

/// `fnv::FnvHasher`, the hasher of the overflow store. Opaque here.
#[verifier::external_type_specification]
#[verifier::external_body]
pub struct ExFnvHasher(fnv::FnvHasher);

/// `std::hash::BuildHasherDefault`, which makes each hasher with
/// `H::default()`. Opaque here.
#[verifier::external_type_specification]
#[verifier::external_body]
#[verifier::reject_recursive_types(H)]
pub struct ExBuildHasherDefault<H>(core::hash::BuildHasherDefault<H>);

/// `HashMap::insert`: `id` maps to `value` afterwards and nothing else
/// changes; the value that `id` had before is returned.
#[verifier::external_body]
pub(crate) fn overflow_insert<T>(m: &mut FnvHashMap<usize, T>, id: usize, value: T) -> (prev:
    Option<T>)
    ensures
        final(m)@ == old(m)@.insert(id, value),
        prev == (if old(m)@.contains_key(id) {
            Some(old(m)@[id])
        } else {
            None
        }),
{
    m.insert(id, value)
}

/// `HashMap::remove`: `id` is absent afterwards and nothing else changes; the
/// value that `id` had is returned.
#[verifier::external_body]
pub(crate) fn overflow_remove<T>(m: &mut FnvHashMap<usize, T>, id: usize) -> (value: Option<T>)
    ensures
        final(m)@ == old(m)@.remove(id),
        value == (if old(m)@.contains_key(id) {
            Some(old(m)@[id])
        } else {
            None
        }),
{
    m.remove(&id)
}

/// `HashMap::get`: a reference to the value of `id`, if it has one.
#[verifier::external_body]
pub(crate) fn overflow_get<T>(m: &FnvHashMap<usize, T>, id: usize) -> (value: Option<&T>)
    ensures
        match value {
            Some(v) => m@.contains_key(id) && *v == m@[id],
            None => !m@.contains_key(id),
        },
{
    m.get(&id)
}

/// `HashMap::get_mut`: a mutable reference to the value of `id`, if it has
/// one. Whatever is written through it becomes the value of `id`, and nothing
/// else changes.
#[verifier::external_body]
pub(crate) fn overflow_get_mut<T>(m: &mut FnvHashMap<usize, T>, id: usize) -> (value: Option<
    &mut T,
>)
    ensures
        match value {
            Some(v) => {
                &&& old(m)@.contains_key(id)
                &&& *v == old(m)@[id]
                &&& final(m)@ == old(m)@.insert(id, *final(v))
            },
            None => !old(m)@.contains_key(id) && final(m)@ == old(m)@,
        },
{
    m.get_mut(&id)
}

/// `HashMap::contains_key`: whether `id` has a value.
#[verifier::external_body]
pub(crate) fn overflow_contains<T>(m: &FnvHashMap<usize, T>, id: usize) -> (found: bool)
    ensures
        found == m@.contains_key(id),
{
    m.contains_key(&id)
}

/// `HashMap::len`: the number of keys.
#[verifier::external_body]
pub(crate) fn overflow_len<T>(m: &FnvHashMap<usize, T>) -> (n: usize)
    ensures
        n == m@.dom().len(),
{
    m.len()
}

/// The entries that an iterator over an overflow store has still to hand
/// out, in the order in which it will: vstd's name for what such an
/// iterator holds.
pub open spec fn pending<'a, T>(iter: hash_map::Iter<'a, usize, T>) -> Seq<(usize, T)> {
    vstd::std_specs::hash::into_iter(iter)
}

/// Whether `items` lists every entry of `m` exactly once.
pub open spec fn enumerates<T>(items: Seq<(usize, T)>, m: Map<usize, T>) -> bool {
    &&& forall|i: int|
        0 <= i < items.len() ==> m.contains_key(#[trigger] items[i].0) && m[items[i].0]
            == items[i].1
    &&& forall|i: int, j: int|
        0 <= i < j < items.len() ==> #[trigger] items[i].0 != #[trigger] items[j].0
    &&& forall|id: usize| #[trigger]
        m.contains_key(id) ==> exists|i: int| 0 <= i < items.len() && #[trigger] items[i].0 == id
}

/// `HashMap::iter`: an iterator that hands out every entry of the map once,
/// in an order of the map's choosing.
#[verifier::external_body]
pub(crate) fn overflow_iter<'a, T>(m: &'a FnvHashMap<usize, T>) -> (iter: hash_map::Iter<
    'a,
    usize,
    T,
>)
    ensures
        enumerates(pending(iter), m@),
{
    m.iter()
}

/// `hash_map::Iter::next`: hands out the first of the entries still pending,
/// or `None` when none is; the key is copied out of its reference.
#[verifier::external_body]
pub(crate) fn overflow_next<'a, T>(iter: &mut hash_map::Iter<'a, usize, T>) -> (entry: Option<
    (usize, &'a T),
>)
    ensures
        match entry {
            Some((id, value)) => {
                &&& pending(*old(iter)).len() > 0
                &&& (id, *value) == pending(*old(iter))[0]
                &&& pending(*final(iter)) == pending(*old(iter)).drop_first()
            },
            None => pending(*old(iter)).len() == 0 && pending(*final(iter)).len() == 0,
        },
{
    match iter.next() {
        Some((id, value)) => Some((*id, value)),
        None => None,
    }
}

} // verus!
