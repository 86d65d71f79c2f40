use patrol::data_store::DataStore;
use patrol::hash;
use patrol::id::Id;
use patrol::models::Data;
use patrol::table::Table;
use patrol::timestamp::Timestamp;

fn id(text: &str) -> Id {
    Id::parse(text.to_owned()).unwrap()
}

fn at(secs: i64) -> Timestamp {
    Timestamp::from_unix_secs(secs)
}

fn saved(_: &Table<Data>) -> Result<(), String> {
    Ok(())
}

fn disk_full(_: &Table<Data>) -> Result<(), String> {
    Err("disk full".to_owned())
}

fn same(a: &Table<Data>, b: &Table<Data>) -> bool {
    a.len() == b.len() && (0..a.len()).all(|i| b.get(&a.entry_at(i).id) == Some(&a.entry_at(i).value))
}

#[test]
fn new_store_holds_nothing() {
    let store = DataStore::new();
    assert_eq!(store.get(&id("a")), None);
    assert_eq!(store.get_all().len(), 0);
}

#[test]
fn first_update_reports_the_time_and_sets_all_fields() {
    let mut store = DataStore::new();
    let h = hash::Hash::new(b"hello\nworld");
    assert_eq!(store.update_at(id("a"), h, at(100), saved), Ok(Some(at(100))));
    assert_eq!(
        store.get(&id("a")),
        Some(Data { hash: Some(h), last_updated: Some(at(100)), last_checked: at(100) })
    );
}

#[test]
fn repeated_update_reports_nothing_and_moves_only_last_checked() {
    let mut store = DataStore::new();
    let h = hash::Hash::new(b"hello\nworld");
    store.update_at(id("a"), h, at(100), saved).unwrap();
    assert_eq!(store.update_at(id("a"), h, at(200), saved), Ok(None));
    assert_eq!(
        store.get(&id("a")),
        Some(Data { hash: Some(h), last_updated: Some(at(100)), last_checked: at(200) })
    );
}

#[test]
fn changed_update_reports_the_new_time() {
    let mut store = DataStore::new();
    store.update_at(id("a"), hash::Hash::new(b"hello\nworld"), at(100), saved).unwrap();
    let h = hash::Hash::new(b"world");
    assert_eq!(store.update_at(id("a"), h, at(200), saved), Ok(Some(at(200))));
    assert_eq!(
        store.get(&id("a")),
        Some(Data { hash: Some(h), last_updated: Some(at(200)), last_checked: at(200) })
    );
}

#[test]
fn update_of_an_entry_without_hash_is_a_change() {
    let mut table = Table::new();
    table.insert(id("a"), Data { hash: None, last_updated: None, last_checked: at(1) });
    let mut store = DataStore::from_table(table);
    let h = hash::Hash::new(b"x");
    assert_eq!(store.update_at(id("a"), h, at(2), saved), Ok(Some(at(2))));
    assert_eq!(
        store.get(&id("a")),
        Some(Data { hash: Some(h), last_updated: Some(at(2)), last_checked: at(2) })
    );
}

#[test]
fn update_touches_no_other_id() {
    let mut store = DataStore::new();
    let ha = hash::Hash::new(b"a");
    let hb = hash::Hash::new(b"b");
    store.update_at(id("a"), ha, at(1), saved).unwrap();
    store.update_at(id("b"), hb, at(2), saved).unwrap();
    store.update_at(id("b"), ha, at(3), saved).unwrap();
    assert_eq!(
        store.get(&id("a")),
        Some(Data { hash: Some(ha), last_updated: Some(at(1)), last_checked: at(1) })
    );
    assert_eq!(store.get_all().len(), 2);
}

#[test]
fn last_updated_never_lies_after_last_checked() {
    let mut store = DataStore::new();
    let texts: [&[u8]; 5] = [b"a", b"a", b"b", b"b", b"a"];
    for (i, text) in texts.iter().enumerate() {
        store.update_at(id("a"), hash::Hash::new(text), at(10 * i as i64), saved).unwrap();
        let data = store.get(&id("a")).unwrap();
        assert!(data.last_updated.unwrap() <= data.last_checked);
        assert_eq!(data.last_checked, at(10 * i as i64));
    }
}

#[test]
fn last_updated_never_moves_back() {
    let mut store = DataStore::new();
    let texts: [&[u8]; 6] = [b"a", b"b", b"b", b"c", b"c", b"a"];
    let mut before = None;
    for (i, text) in texts.iter().enumerate() {
        store.update_at(id("a"), hash::Hash::new(text), at(i as i64), saved).unwrap();
        let now = store.get(&id("a")).unwrap().last_updated;
        assert!(before <= now);
        before = now;
    }
    assert_eq!(before, Some(at(5)));
}

#[test]
fn update_reports_a_time_exactly_when_the_hash_differs() {
    let mut store = DataStore::new();
    let texts: [&[u8]; 5] = [b"a", b"a", b"b", b"a", b"a"];
    let want = [true, false, true, true, false];
    for (i, text) in texts.iter().enumerate() {
        let reported =
            store.update_at(id("a"), hash::Hash::new(text), at(i as i64), saved).unwrap();
        assert_eq!(reported.is_some(), want[i]);
        if let Some(time) = reported {
            assert_eq!(time, store.get(&id("a")).unwrap().last_checked);
        }
    }
}

#[test]
fn update_with_the_clock_checks_now() {
    let mut store = DataStore::new();
    let before = Timestamp::now();
    let reported = store.update(id("a"), hash::Hash::new(b"a"), saved).unwrap().unwrap();
    let after = Timestamp::now();
    assert!(before <= reported && reported <= after);
    let data = store.get(&id("a")).unwrap();
    assert_eq!(data.last_checked, reported);
    assert_eq!(data.last_updated, Some(reported));
    assert_eq!(store.update(id("a"), hash::Hash::new(b"a"), saved), Ok(None));
    assert_eq!(store.get(&id("a")).unwrap().last_updated, Some(reported));
}

#[test]
fn failed_first_update_leaves_the_store_empty() {
    let mut store = DataStore::new();
    let r = store.update_at(id("a"), hash::Hash::new(b"a"), at(1), disk_full);
    assert_eq!(r, Err("disk full".to_owned()));
    assert_eq!(store.get(&id("a")), None);
    assert_eq!(store.get_all().len(), 0);
}

#[test]
fn failed_update_puts_the_entry_back() {
    let mut store = DataStore::new();
    store.update_at(id("a"), hash::Hash::new(b"a"), at(1), saved).unwrap();
    store.update_at(id("b"), hash::Hash::new(b"b"), at(2), saved).unwrap();
    let before = store.get_all();
    let r = store.update_at(id("a"), hash::Hash::new(b"c"), at(3), disk_full);
    assert_eq!(r, Err("disk full".to_owned()));
    assert!(same(&before, &store.get_all()));
    let r = store.update(id("a"), hash::Hash::new(b"c"), disk_full);
    assert_eq!(r, Err("disk full".to_owned()));
    assert!(same(&before, &store.get_all()));
}

#[test]
fn persist_sees_the_store_as_it_will_be() {
    let mut store = DataStore::new();
    let h = hash::Hash::new(b"a");
    let r: Result<Option<Timestamp>, String> = store.update_at(id("a"), h, at(7), |table| {
        assert_eq!(table.len(), 1);
        assert_eq!(
            table.get(&id("a")),
            Some(&Data { hash: Some(h), last_updated: Some(at(7)), last_checked: at(7) })
        );
        Ok(())
    });
    assert_eq!(r, Ok(Some(at(7))));
}

#[test]
fn delete_returns_what_was_held() {
    let mut store = DataStore::new();
    let h = hash::Hash::new(b"a");
    store.update_at(id("a"), h, at(1), saved).unwrap();
    assert_eq!(
        store.delete(id("a"), saved),
        Ok(Some(Data { hash: Some(h), last_updated: Some(at(1)), last_checked: at(1) }))
    );
    assert_eq!(store.get(&id("a")), None);
    assert_eq!(store.delete(id("a"), saved), Ok(None));
}

#[test]
fn failed_delete_puts_the_entry_back() {
    let mut store = DataStore::new();
    store.update_at(id("a"), hash::Hash::new(b"a"), at(1), saved).unwrap();
    let before = store.get_all();
    assert_eq!(store.delete(id("a"), disk_full), Err("disk full".to_owned()));
    assert!(same(&before, &store.get_all()));
    assert_eq!(store.delete(id("zz"), disk_full), Err("disk full".to_owned()));
    assert!(same(&before, &store.get_all()));
}

#[test]
fn update_multiple_updates_every_id_of_the_batch() {
    let mut store = DataStore::new();
    let ha = hash::Hash::new(b"a");
    let hb = hash::Hash::new(b"b");
    store.update_at(id("a"), ha, at(1), saved).unwrap();
    store.update_at(id("c"), ha, at(1), saved).unwrap();
    let mut batch = Table::new();
    batch.insert(id("a"), ha);
    batch.insert(id("b"), hb);
    assert_eq!(store.update_multiple_at(&batch, at(5), saved), Ok(()));
    assert_eq!(
        store.get(&id("a")),
        Some(Data { hash: Some(ha), last_updated: Some(at(1)), last_checked: at(5) })
    );
    assert_eq!(
        store.get(&id("b")),
        Some(Data { hash: Some(hb), last_updated: Some(at(5)), last_checked: at(5) })
    );
    assert_eq!(
        store.get(&id("c")),
        Some(Data { hash: Some(ha), last_updated: Some(at(1)), last_checked: at(1) })
    );
}

#[test]
fn failed_update_multiple_puts_every_entry_back() {
    let mut store = DataStore::new();
    store.update_at(id("a"), hash::Hash::new(b"a"), at(1), saved).unwrap();
    store.update_at(id("c"), hash::Hash::new(b"c"), at(2), saved).unwrap();
    let before = store.get_all();
    let mut batch = Table::new();
    batch.insert(id("a"), hash::Hash::new(b"A"));
    batch.insert(id("b"), hash::Hash::new(b"B"));
    batch.insert(id("c"), hash::Hash::new(b"c"));
    batch.insert(id("d"), hash::Hash::new(b"D"));
    assert_eq!(store.update_multiple_at(&batch, at(9), disk_full), Err("disk full".to_owned()));
    assert!(same(&before, &store.get_all()));
    assert_eq!(store.update_multiple(&batch, disk_full), Err("disk full".to_owned()));
    assert!(same(&before, &store.get_all()));
}

#[test]
fn update_multiple_writes_once() {
    let mut store = DataStore::new();
    let mut batch = Table::new();
    batch.insert(id("a"), hash::Hash::new(b"a"));
    batch.insert(id("b"), hash::Hash::new(b"b"));
    let mut writes = 0;
    let r: Result<(), String> = store.update_multiple_at(&batch, at(1), |table| {
        writes += 1;
        assert_eq!(table.len(), 2);
        Ok(())
    });
    assert_eq!(r, Ok(()));
    assert_eq!(writes, 1);
}

#[test]
fn update_multiple_with_the_clock_gives_one_time_to_all() {
    let mut store = DataStore::new();
    let mut batch = Table::new();
    batch.insert(id("a"), hash::Hash::new(b"a"));
    batch.insert(id("b"), hash::Hash::new(b"b"));
    assert_eq!(store.update_multiple(&batch, saved), Ok(()));
    let a = store.get(&id("a")).unwrap();
    let b = store.get(&id("b")).unwrap();
    assert_eq!(a.last_checked, b.last_checked);
    assert_eq!(a.last_updated, Some(a.last_checked));
}

#[test]
fn get_multiple_gives_those_that_are_held() {
    let mut store = DataStore::new();
    store.update_at(id("a"), hash::Hash::new(b"a"), at(1), saved).unwrap();
    store.update_at(id("b"), hash::Hash::new(b"b"), at(2), saved).unwrap();
    store.update_at(id("c"), hash::Hash::new(b"c"), at(3), saved).unwrap();
    let got = store.get_multiple(&vec![id("c"), id("x"), id("a"), id("c")]);
    assert_eq!(got.len(), 2);
    assert_eq!(got.get(&id("a")), store.get(&id("a")).as_ref());
    assert_eq!(got.get(&id("c")), store.get(&id("c")).as_ref());
    assert_eq!(got.get(&id("b")), None);
    assert_eq!(store.get_multiple(&vec![]).len(), 0);
}

#[test]
fn get_all_is_a_copy() {
    let mut store = DataStore::new();
    store.update_at(id("a"), hash::Hash::new(b"a"), at(1), saved).unwrap();
    let mut copy = store.get_all();
    copy.remove(&id("a"));
    assert!(store.get(&id("a")).is_some());
}

#[test]
fn update_map_and_restore_undo_each_other() {
    let mut store = DataStore::new();
    store.update_at(id("a"), hash::Hash::new(b"a"), at(1), saved).unwrap();
    let before = store.get_all();
    let info = store.update_map(id("a"), hash::Hash::new(b"b"), at(2));
    assert_eq!(info.id, id("a"));
    assert_eq!(info.data, before.get(&id("a")).copied());
    assert!(!same(&before, &store.get_all()));
    store.restore(info);
    assert!(same(&before, &store.get_all()));
    let info = store.update_map(id("n"), hash::Hash::new(b"n"), at(3));
    assert_eq!(info.data, None);
    store.restore(info);
    assert!(same(&before, &store.get_all()));
    let info = store.delete_map(id("a"));
    assert_eq!(store.get(&id("a")), None);
    store.restore(info);
    assert!(same(&before, &store.get_all()));
}
