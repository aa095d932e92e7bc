use behest::session_data::SessionDataTable;

#[test]
fn session_data_round_trip() {
    let mut store = SessionDataTable::new();
    let sid = uuid::Uuid::new_v4().as_u128();
    store.set(sid, "k".to_owned(), "{\"x\":1}".to_owned());
    assert_eq!(store.get(sid, "k").as_deref(), Some("{\"x\":1}"));
    store.delete(sid, "k");
    assert!(store.get(sid, "k").is_none());
    assert_eq!(store.len(), 0);
}

#[test]
fn session_data_overwrite_and_isolation() {
    let mut store = SessionDataTable::default();
    store.set(1, "name".to_owned(), "\"alice\"".to_owned());
    store.set(2, "name".to_owned(), "\"bob\"".to_owned());
    store.set(1, "name".to_owned(), "\"carol\"".to_owned());
    store.set(1, "age".to_owned(), "42".to_owned());
    assert_eq!(store.len(), 3);
    assert_eq!(store.get(1, "name").as_deref(), Some("\"carol\""));
    assert_eq!(store.get(2, "name").as_deref(), Some("\"bob\""));
    assert_eq!(store.get(1, "age").as_deref(), Some("42"));
    assert!(store.get(2, "age").is_none());
}

#[test]
fn session_data_delete_absent_is_noop() {
    let mut store = SessionDataTable::new();
    store.set(7, "a".to_owned(), "1".to_owned());
    store.delete(7, "b");
    store.delete(8, "a");
    assert_eq!(store.len(), 1);
    assert_eq!(store.get(7, "a").as_deref(), Some("1"));
}
