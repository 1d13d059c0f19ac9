use expiration_list::ExpirationList;

#[test]
fn it_counts_elements() {
    let mut list = ExpirationList::new();
    for idx in 0..1024 {
        list.add(idx);
    }
    assert_eq!(list.count(), 1024);

    for idx in 0..513 {
        list.remove(idx);
    }
    assert_eq!(list.count(), 1024 - 513);

    for idx in 0..260 {
        list.remove(idx + 600); // 513 - 599 should be not removed
    }
    assert_eq!(list.count(), 1024 - 513 - 260 - (600 - 513));
    assert_eq!(list.overflow_len(), 600 - 513);

    // Check that the list has been reduced to 256 items
    assert_eq!(list.first_id(), 512 + 256);
    assert_eq!(list.dense_len(), 256);
}

#[test]
fn it_adds_and_gets() {
    let mut list = ExpirationList::new();
    for idx in 0..1024 {
        list.add(idx);
    }
    for idx in 0..1024 {
        assert_eq!(list.get(idx), Some(&idx));
    }
}

#[test]
fn it_gets_after_remove() {
    let mut list = ExpirationList::new();
    for idx in 0..1024 {
        list.add(idx);
    }
    for idx in 0..513 {
        assert_eq!(list.remove(idx), Some(idx as i32));
    }
    assert_eq!(list.get(100), None);
    assert_eq!(list.remove(100), None);
    assert_eq!(list.get(600), Some(&600));
    assert_eq!(list.remove(600), Some(600));
    assert_eq!(list.get(600), None);

    list.iter();
}

#[test]
fn it_is_iterable() {
    let mut list = ExpirationList::new();
    for idx in 0..10_000 {
        list.add(idx as i32);
        list.remove(idx);
    }
    for idx in 0..10 {
        list.add(idx);
    }
    list.remove(10_004);
    list.remove(10_007);
    list.remove(10_008);

    let mut result: Vec<i32> = Vec::new();
    for (key, value) in list.iter() {
        assert_eq!(key as i32 - 10_000, *value);
        result.push(*value);
    }

    assert_eq!(result, vec![0, 1, 2, 3, 5, 6, 9]);
}

#[test]
fn it_removes_multiple_times() {
    let mut list = ExpirationList::new();
    for idx in 0..10 {
        list.add(idx);
    }
    assert_eq!(list.remove(1), Some(1));
    for _ in 0..10 {
        assert_eq!(list.remove(1), None);
    }
    for idx in 0..10 {
        list.add(idx);
    }
    assert_eq!(list.count(), 19);
}
