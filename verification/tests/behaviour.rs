use expiration_list::ExpirationList;
use expiration_list::ExpirationListIterator;
use std::collections::HashMap;

/// The observable state of a list: boundary, active count, dense length,
/// overflow size, live entries.
fn state<T>(list: &ExpirationList<T>) -> (usize, usize, usize, usize, usize) {
    (list.first_id(), list.count(), list.dense_len(), list.overflow_len(), list.len())
}

fn filled(n: usize) -> ExpirationList<usize> {
    let mut list = ExpirationList::new();
    for value in 0..n {
        assert_eq!(list.add(value), value);
    }
    list
}

#[test]
fn new_list_is_empty() {
    let list: ExpirationList<u8> = ExpirationList::new();
    assert_eq!(state(&list), (0, 0, 0, 0, 0));
    assert!(list.is_empty());
    assert_eq!(list.next_id(), 0);
    assert_eq!(list.get(0), None);
    assert!(!list.contains(0));
    assert_eq!(list.iter().next(), None);
}

#[test]
fn default_list_is_empty() {
    let list: ExpirationList<String> = Default::default();
    assert_eq!(state(&list), (0, 0, 0, 0, 0));
    assert!(list.is_empty());
}

#[test]
fn round_trip() {
    let mut list = ExpirationList::new();
    let value: i32 = 1234;
    let id = list.add(value);
    assert_eq!(id, 0);
    assert_eq!(list.get(id), Some(&value));
    assert!(list.contains(id));
    assert_eq!(list.len(), 1);
    assert!(!list.is_empty());

    assert_eq!(list.remove(id), Some(value));
    assert_eq!(list.get(id), None);
    assert!(!list.contains(id));
    assert!(list.is_empty());
}

#[test]
fn add_returns_consecutive_identifiers() {
    let mut list = ExpirationList::new();
    assert_eq!(list.add("a"), 0);
    assert_eq!(list.add("b"), 1);
    assert_eq!(list.next_id(), 2);
    assert_eq!(list.remove(0), Some("a"));
    assert_eq!(list.remove(1), Some("b"));
    assert_eq!(list.next_id(), 2);
    assert_eq!(list.add("c"), 2);
    assert_eq!(list.get(2), Some(&"c"));
    assert_eq!(list.get(0), None);
    assert_eq!(list.get(1), None);
}

#[test]
fn add_never_compacts() {
    let mut list = ExpirationList::new();
    for value in 0..32 {
        list.add(value);
    }
    for id in 0..32 {
        list.remove(id);
    }
    // 32 slots are not more than 32: no compaction.
    assert_eq!(state(&list), (0, 0, 32, 0, 0));
    for value in 0..8 {
        list.add(value);
    }
    // 8 of 40 slots are populated, but insertion leaves the dense store alone.
    assert_eq!(state(&list), (0, 8, 40, 0, 8));
}

#[test]
fn no_compaction_at_32_slots() {
    let mut list = filled(32);
    for id in 0..17 {
        assert_eq!(list.remove(id), Some(id));
    }
    assert_eq!(state(&list), (0, 15, 32, 0, 15));
}

#[test]
fn compaction_at_33_slots() {
    let mut list = filled(33);
    for id in 0..16 {
        assert_eq!(list.remove(id), Some(id));
    }
    // 17 of 33: still at least half.
    assert_eq!(state(&list), (0, 17, 33, 0, 17));
    assert_eq!(list.remove(16), Some(16));
    // 16 of 33: the first 16 slots are retired, all of them vacant.
    assert_eq!(state(&list), (16, 16, 17, 0, 16));
    for id in 17..33 {
        assert_eq!(list.get(id), Some(&id));
        assert!(list.contains(id));
    }
    assert!(!list.contains(16));
    assert_eq!(list.add(33), 33);
}

#[test]
fn compaction_moves_survivors_to_overflow() {
    let mut list = filled(40);
    // Vacate the upper part, so that the survivors sit in the half that is retired.
    for id in 19..40 {
        assert_eq!(list.remove(id), Some(id));
    }
    // 19 of 40 are populated: slots 0..20 are retired, 19 of them populated.
    // What is left has 20 slots, not more than 32.
    assert_eq!(state(&list), (20, 0, 20, 19, 19));
    for id in 0..19 {
        assert_eq!(list.get(id), Some(&id));
        assert!(list.contains(id));
    }
    for id in 19..40 {
        assert_eq!(list.get(id), None);
        assert!(!list.contains(id));
    }
    assert_eq!(list.add(40), 40);
    assert_eq!(state(&list), (20, 1, 21, 19, 20));
    assert_eq!(list.get(40), Some(&40));
}

#[test]
fn compaction_cascades_in_one_pass() {
    let mut list = filled(1024);
    for id in 512..1024 {
        assert_eq!(list.remove(id), Some(id));
    }
    // Exactly half populated: nothing happens yet.
    assert_eq!(state(&list), (0, 512, 1024, 0, 512));
    assert_eq!(list.remove(511), Some(511));
    // The cutoff moves 512 -> 768 -> 896 -> 960 -> 992 and stops where 32 slots are left.
    assert_eq!(state(&list), (992, 0, 32, 511, 511));
    for id in 0..511 {
        assert_eq!(list.get(id), Some(&id));
    }
    assert_eq!(list.get(511), None);
    assert_eq!(list.add(7), 1024);
    assert_eq!(list.get(1024), Some(&7));
    assert_eq!(state(&list), (992, 1, 33, 511, 512));
}

#[test]
fn compaction_leaves_dense_store_half_populated() {
    let mut list = filled(5000);
    let mut id = 0;
    while id < 5000 {
        // Remove two of every three, so compaction fires again and again.
        if id % 3 != 0 {
            let before = list.first_id();
            assert_eq!(list.remove(id), Some(id));
            if list.first_id() != before {
                assert!(list.count() * 2 >= list.dense_len() || list.dense_len() <= 32);
            }
            assert_eq!(list.first_id() + list.dense_len(), 5000);
        }
        id += 1;
    }
    for id in 0..5000 {
        assert_eq!(list.contains(id), id % 3 == 0);
    }
}

#[test]
fn remove_from_overflow_store() {
    let mut list = filled(40);
    for id in 19..40 {
        list.remove(id);
    }
    assert_eq!(state(&list), (20, 0, 20, 19, 19));
    assert_eq!(list.remove(5), Some(5));
    assert_eq!(state(&list), (20, 0, 20, 18, 18));
    assert_eq!(list.get(5), None);
    assert!(!list.contains(5));
    assert_eq!(list.remove(5), None);
    assert_eq!(state(&list), (20, 0, 20, 18, 18));
    assert_eq!(list.get(4), Some(&4));
    assert_eq!(list.get(6), Some(&6));
}

#[test]
fn remove_of_absent_identifier_changes_nothing() {
    let mut list = filled(100);
    for id in 0..60 {
        list.remove(id);
    }
    let before = state(&list);
    // Already removed, below and above the boundary; never assigned; far out of range.
    for id in [0, 10, 49, 50, 59, 100, 101, 5000, usize::MAX] {
        for _ in 0..3 {
            assert_eq!(list.remove(id), None);
            assert_eq!(state(&list), before);
        }
    }
    for id in 60..100 {
        assert_eq!(list.get(id), Some(&id));
    }
}

#[test]
fn contains_agrees_with_get_after_compaction() {
    let mut list = filled(1024);
    for id in 0..513 {
        list.remove(id);
    }
    assert_eq!(list.first_id(), 512);
    for id in 0..1200 {
        assert_eq!(list.contains(id), list.get(id).is_some());
        assert_eq!(list.contains(id), (513..1024).contains(&id));
    }
    assert!(!list.contains(usize::MAX));
}

#[test]
fn get_mut_changes_value_in_dense_store() {
    let mut list = filled(10);
    *list.get_mut(3).unwrap() = 33;
    assert_eq!(list.get(3), Some(&33));
    assert_eq!(list.get(2), Some(&2));
    assert_eq!(list.get(4), Some(&4));
    assert_eq!(state(&list), (0, 10, 10, 0, 10));
    list.remove(3);
    assert!(list.get_mut(3).is_none());
    assert!(list.get_mut(10).is_none());
    assert!(list.get_mut(usize::MAX).is_none());
    assert_eq!(state(&list), (0, 9, 10, 0, 9));
}

#[test]
fn get_mut_changes_value_in_overflow_store() {
    let mut list = filled(40);
    for id in 19..40 {
        list.remove(id);
    }
    assert_eq!(list.first_id(), 20);
    *list.get_mut(7).unwrap() = 77;
    assert_eq!(list.get(7), Some(&77));
    assert_eq!(list.get(6), Some(&6));
    assert!(list.get_mut(19).is_none());
    assert_eq!(state(&list), (20, 0, 20, 19, 19));
    assert_eq!(list.remove(7), Some(77));
}

#[test]
fn live_count_after_removals() {
    let mut list = filled(1024);
    for id in 0..513 {
        list.remove(id);
    }
    for id in 600..860 {
        list.remove(id);
    }
    assert_eq!(list.len(), 1024 - 513 - 260);
    assert_eq!(state(&list), (768, 164, 256, 87, 251));
}

#[test]
fn iteration_yields_overflow_store_first() {
    let mut list = filled(1024);
    for id in 0..513 {
        list.remove(id);
    }
    for id in 600..860 {
        list.remove(id);
    }
    let items: Vec<(usize, usize)> = list.iter().map(|(id, value)| (id, *value)).collect();
    assert_eq!(items.len(), 251);
    for (id, value) in &items {
        assert_eq!(id, value);
    }
    // The 87 entries of the overflow store, in whatever order.
    let mut overflow: Vec<usize> = items[..87].iter().map(|item| item.0).collect();
    overflow.sort();
    assert_eq!(overflow, (513..600).collect::<Vec<usize>>());
    // Then the dense store, by ascending identifier.
    let dense: Vec<usize> = items[87..].iter().map(|item| item.0).collect();
    assert_eq!(dense, (860..1024).collect::<Vec<usize>>());
}

#[test]
fn iteration_skips_vacant_slots() {
    let mut list = ExpirationList::new();
    for value in ["a", "b", "c", "d", "e"] {
        list.add(value);
    }
    list.remove(0);
    list.remove(2);
    list.remove(4);
    let mut iter: ExpirationListIterator<&str> = list.iter();
    assert_eq!(iter.next(), Some((1, &"b")));
    assert_eq!(iter.next(), Some((3, &"d")));
    assert_eq!(iter.next(), None);
    assert_eq!(iter.next(), None);
    // A fresh iterator starts over.
    assert_eq!(list.iter().count(), 2);
}

#[test]
fn iteration_over_overflow_store_only() {
    let mut list = filled(1024);
    for id in 512..1024 {
        list.remove(id);
    }
    list.remove(511);
    assert_eq!(state(&list), (992, 0, 32, 511, 511));
    let mut ids: Vec<usize> = Vec::new();
    for (id, value) in list.iter() {
        assert_eq!(id, *value);
        ids.push(id);
    }
    ids.sort();
    assert_eq!(ids, (0..511).collect::<Vec<usize>>());
}

#[test]
fn fifo_churn_keeps_overflow_store_empty() {
    let mut list = ExpirationList::new();
    for value in 0..10_000usize {
        let id = list.add(value);
        assert_eq!(id, value);
        assert_eq!(list.remove(id), Some(value));
        assert_eq!(list.overflow_len(), 0);
        assert!(list.dense_len() <= 33);
    }
    assert_eq!(list.next_id(), 10_000);
    assert!(list.is_empty());
}

/// A plain two-store list to compare with: a vector of slots, a map, and
/// the pass that retires slots written out step by step.
struct Plain {
    first_id: usize,
    count: usize,
    list: Vec<Option<u64>>,
    map: HashMap<usize, u64>,
}

impl Plain {
    fn new() -> Plain {
        Plain { first_id: 0, count: 0, list: Vec::new(), map: HashMap::new() }
    }

    fn add(&mut self, value: u64) -> usize {
        self.list.push(Some(value));
        self.count += 1;
        self.first_id + self.list.len() - 1
    }

    fn get(&self, id: usize) -> Option<&u64> {
        if id < self.first_id {
            return self.map.get(&id);
        }
        self.list.get(id - self.first_id)?.as_ref()
    }

    fn remove(&mut self, id: usize) -> Option<u64> {
        if id < self.first_id {
            return self.map.remove(&id);
        }
        let removed = self.list.get_mut(id - self.first_id)?.take();
        if removed.is_none() {
            return None;
        }
        self.count -= 1;
        let full_len = self.list.len();
        if self.count * 2 < full_len && full_len > 32 {
            let mut shrink_count = full_len / 2;
            let old = std::mem::take(&mut self.list);
            for (idx, value) in old.into_iter().enumerate() {
                if idx < shrink_count {
                    if let Some(inner) = value {
                        self.map.insert(idx + self.first_id, inner);
                        self.count -= 1;
                    }
                    let remaining_len = full_len - shrink_count;
                    if idx == shrink_count - 1
                        && self.count * 2 < remaining_len
                        && remaining_len > 32
                    {
                        shrink_count += remaining_len / 2;
                    }
                } else {
                    self.list.push(value);
                }
            }
            self.first_id += shrink_count;
        }
        removed
    }
}

fn agree(list: &ExpirationList<u64>, plain: &Plain) {
    assert_eq!(list.first_id(), plain.first_id);
    assert_eq!(list.count(), plain.count);
    assert_eq!(list.dense_len(), plain.list.len());
    assert_eq!(list.overflow_len(), plain.map.len());
    assert_eq!(list.len(), plain.count + plain.map.len());
}

#[test]
fn agrees_with_plain_list_on_mixed_operations() {
    let mut list: ExpirationList<u64> = ExpirationList::new();
    let mut plain = Plain::new();
    let mut seed: u64 = 0x2545_f491_4f6c_dd1d;
    for round in 0..60_000u64 {
        seed = seed.wrapping_mul(6364136223846793005).wrapping_add(1442695040888963407);
        let draw = (seed >> 33) as usize;
        let issued = list.next_id();
        // Insert in bursts, then remove more than is inserted, mostly old identifiers.
        let inserting = (round / 3000) % 2 == 0;
        if (inserting && draw % 4 != 0) || (!inserting && draw % 4 == 0) || issued == 0 {
            assert_eq!(list.add(round), plain.add(round));
        } else {
            let id = if draw % 3 == 0 {
                (draw / 8) % (issued + 2)
            } else {
                list.first_id().saturating_sub(50) + (draw / 8) % 200
            };
            assert_eq!(list.get(id), plain.get(id));
            assert_eq!(list.contains(id), plain.get(id).is_some());
            assert_eq!(list.remove(id), plain.remove(id));
            assert_eq!(list.get(id), None);
        }
        agree(&list, &plain);
    }
    for id in 0..list.next_id() + 5 {
        assert_eq!(list.get(id), plain.get(id));
    }
    let mut seen: Vec<(usize, u64)> = list.iter().map(|(id, value)| (id, *value)).collect();
    assert_eq!(seen.len(), list.len());
    let dense_part: Vec<usize> = seen[list.overflow_len()..].iter().map(|item| item.0).collect();
    let mut ascending = dense_part.clone();
    ascending.sort();
    ascending.dedup();
    assert_eq!(dense_part, ascending);
    seen.sort();
    let mut expected: Vec<(usize, u64)> = Vec::new();
    for id in 0..list.next_id() {
        if let Some(value) = plain.get(id) {
            expected.push((id, *value));
        }
    }
    assert_eq!(seen, expected);
}

#[test]
fn parts_round_trip() {
    let mut list = filled(40);
    for id in 19..40 {
        list.remove(id);
    }
    list.add(40);
    let (first_id, dense, overflow) = list.into_parts();
    assert_eq!(first_id, 20);
    assert_eq!(dense.len(), 21);
    assert_eq!(dense[20], Some(40));
    assert!(dense[..20].iter().all(|slot| slot.is_none()));
    assert_eq!(overflow.len(), 19);
    assert_eq!(overflow.get(&3), Some(&3));

    let list = ExpirationList::from_parts(first_id, dense, overflow).unwrap();
    assert_eq!(state(&list), (20, 1, 21, 19, 20));
    assert_eq!(list.get(3), Some(&3));
    assert_eq!(list.get(40), Some(&40));
    assert_eq!(list.next_id(), 41);
}

#[test]
fn from_parts_counts_populated_slots() {
    let dense = vec![None, Some('a'), None, Some('b'), Some('c')];
    let list = ExpirationList::from_parts(7, dense, Default::default()).unwrap();
    assert_eq!(state(&list), (7, 3, 5, 0, 3));
    assert_eq!(list.get(8), Some(&'a'));
    assert_eq!(list.get(7), None);
    assert_eq!(list.next_id(), 12);
}

#[test]
fn from_parts_refuses_overflow_key_at_boundary() {
    let mut overflow = fnv::FnvHashMap::default();
    overflow.insert(2, "low");
    overflow.insert(5, "at the boundary");
    assert!(ExpirationList::from_parts(5, vec![Some("x")], overflow).is_none());

    let mut overflow = fnv::FnvHashMap::default();
    overflow.insert(2, "low");
    overflow.insert(4, "below the boundary");
    assert!(ExpirationList::from_parts(5, vec![Some("x")], overflow).is_some());
}

#[test]
fn from_parts_refuses_identifiers_beyond_usize() {
    let dense = vec![Some(1u8), None];
    assert!(ExpirationList::from_parts(usize::MAX - 1, dense, Default::default()).is_none());
    let dense = vec![Some(1u8), None];
    let list = ExpirationList::from_parts(usize::MAX - 2, dense, Default::default()).unwrap();
    assert_eq!(list.next_id(), usize::MAX);
    assert_eq!(list.get(usize::MAX - 2), Some(&1));
    assert_eq!(list.get(usize::MAX - 1), None);
    assert_eq!(list.get(usize::MAX), None);
    assert!(!list.contains(usize::MAX));
}

#[test]
fn list_is_printable() {
    let mut list = ExpirationList::new();
    list.add(5u8);
    let text = format!("{:?}", list);
    assert!(text.contains("ExpirationList"));
    assert!(text.contains("Some(5)"));
}
