use emscripten_helper::table::ObjectTable;

#[test]
fn released_handle_is_reused() {
    let mut table: ObjectTable<&str> = ObjectTable::new();
    let first = table.store("first").unwrap();
    table.release(first);
    let second = table.store("second").unwrap();
    assert_eq!(second, first);
    assert_eq!(table.load(second), Some(&"second"));
}

#[test]
fn handles_count_up_from_zero() {
    let mut table: ObjectTable<u8> = ObjectTable::new();
    assert_eq!(table.store(10), Ok(0));
    assert_eq!(table.store(11), Ok(1));
    assert_eq!(table.store(12), Ok(2));
    assert_eq!(table.load(0), Some(&10));
    assert_eq!(table.load(1), Some(&11));
    assert_eq!(table.load(2), Some(&12));
}

#[test]
fn slot_freed_last_is_taken_first() {
    let mut table: ObjectTable<u8> = ObjectTable::new();
    for v in 0..4 {
        table.store(v).unwrap();
    }
    table.release(1);
    table.release(3);
    assert_eq!(table.store(20), Ok(3));
    assert_eq!(table.store(21), Ok(1));
    assert_eq!(table.store(22), Ok(4));
}

#[test]
fn load_of_free_slot_is_none() {
    let mut table: ObjectTable<u8> = ObjectTable::new();
    assert_eq!(table.load(0), None);
    let h = table.store(7).unwrap();
    table.release(h);
    assert_eq!(table.load(h), None);
    assert!(!table.holds(h));
    assert_eq!(table.load(u32::MAX), None);
}

#[test]
fn second_release_changes_nothing() {
    let mut table: ObjectTable<u8> = ObjectTable::new();
    let a = table.store(1).unwrap();
    let b = table.store(2).unwrap();
    table.release(a);
    table.release(a);
    table.release(99);
    assert_eq!(table.load(b), Some(&2));
    // the slot was listed free once only: it is handed out once
    assert_eq!(table.store(3), Ok(a));
    assert_eq!(table.store(4), Ok(2));
    assert_eq!(table.load(a), Some(&3));
}

#[test]
fn store_never_returns_an_occupied_handle() {
    let mut table: ObjectTable<usize> = ObjectTable::new();
    let mut live: Vec<u32> = Vec::new();
    for round in 0..50usize {
        let h = table.store(round).unwrap();
        assert!(!live.contains(&h));
        live.push(h);
        if round % 3 == 2 {
            let victim = live.remove(round % live.len());
            table.release(victim);
        }
    }
    for h in live {
        assert!(table.holds(h));
    }
}
