use todo_backend::store::Record;
use todo_backend::store::RecordError;
use todo_backend::store::RecordStore;

#[test]
fn created_ids_increase_without_gaps() {
    let mut store = RecordStore::new();
    let a = store.create_todo("a".to_string(), "".to_string()).unwrap();
    let b = store.create_todo("b".to_string(), "".to_string()).unwrap();
    let c = store.create_todo("c".to_string(), "".to_string()).unwrap();
    assert_eq!(a, 0);
    assert_eq!(b, 1);
    assert_eq!(c, 2);

    // Non-creation operations introduce no gap and free no ID for reuse.
    store.delete_todo(b).unwrap();
    store
        .update_todo(c, None, None, Some(true))
        .unwrap();
    let _ = store.get_todo(a);
    let d = store.create_todo("d".to_string(), "".to_string()).unwrap();
    assert_eq!(d, 3);
}

#[test]
fn round_trip_survives_operations_on_other_ids() {
    let mut store = RecordStore::new();
    let i = store
        .create_todo("keep".to_string(), "kept description".to_string())
        .unwrap();
    let other = store
        .create_todo("other".to_string(), "other description".to_string())
        .unwrap();

    store
        .update_todo(other, Some("renamed".to_string()), None, Some(true))
        .unwrap();
    store.delete_todo(other).unwrap();
    store
        .create_todo("third".to_string(), "third description".to_string())
        .unwrap();

    let fetched = store.get_todo(i).unwrap();
    assert_eq!(fetched.name, "keep");
    assert_eq!(fetched.description, "kept description");
    assert!(!fetched.is_completed);
}

#[test]
fn partial_update_changes_only_named_field() {
    let mut store = RecordStore::new();
    let id = store
        .create_todo("before".to_string(), "original description".to_string())
        .unwrap();

    let ok = store
        .update_todo(id, Some("after".to_string()), None, None)
        .unwrap();
    assert!(ok);
    let fetched = store.get_todo(id).unwrap();
    assert_eq!(fetched.name, "after");
    assert_eq!(fetched.description, "original description");
    assert!(!fetched.is_completed);

    let ok = store.update_todo(id, None, None, Some(true)).unwrap();
    assert!(ok);
    let fetched = store.get_todo(id).unwrap();
    assert_eq!(fetched.name, "after");
    assert_eq!(fetched.description, "original description");
    assert!(fetched.is_completed);
}

#[test]
fn delete_removes_from_table_and_pages() {
    let mut store = RecordStore::new();
    for i in 0..5 {
        store
            .create_todo(format!("rec {i}"), "".to_string())
            .unwrap();
    }
    assert_eq!(store.delete_todo(2).unwrap(), true);

    assert_eq!(store.get_todo(2).unwrap_err(), RecordError::NotFound);
    assert!(!store.order.contains(&2));
    let page = store.get_todos(1, Some(10));
    assert_eq!(page.len(), 4);
    for rec in &page {
        assert_ne!(rec.name, "rec 2");
    }
}

#[test]
fn pagination_covers_all_records_in_order() {
    let mut store = RecordStore::new();
    for i in 0..25 {
        store
            .create_todo(format!("item {i}"), "".to_string())
            .unwrap();
    }
    let page1 = store.get_todos(1, Some(10));
    let page2 = store.get_todos(2, Some(10));
    let page3 = store.get_todos(3, Some(10));
    let page4 = store.get_todos(4, Some(10));
    assert_eq!(page1.len(), 10);
    assert_eq!(page2.len(), 10);
    assert_eq!(page3.len(), 5);
    assert!(page4.is_empty());

    let mut names: Vec<String> = Vec::new();
    for rec in page1.iter().chain(page2.iter()).chain(page3.iter()) {
        names.push(rec.name.clone());
    }
    assert_eq!(names.len(), 25);
    for i in 0..25 {
        assert_eq!(names[i], format!("item {i}"));
    }
}

#[test]
fn page_zero_behaves_as_page_one() {
    let mut store = RecordStore::new();
    for i in 0..7 {
        store
            .create_todo(format!("n{i}"), "".to_string())
            .unwrap();
    }
    let page0 = store.get_todos(0, Some(3));
    let page1 = store.get_todos(1, Some(3));
    assert_eq!(page0.len(), page1.len());
    for (a, b) in page0.iter().zip(page1.iter()) {
        assert_eq!(a.name, b.name);
    }
}

#[test]
fn default_page_size_is_ten() {
    let mut store = RecordStore::new();
    for i in 0..12 {
        store
            .create_todo(format!("n{i}"), "".to_string())
            .unwrap();
    }
    assert_eq!(store.get_todos(1, None).len(), 10);
    assert_eq!(store.get_todos(2, None).len(), 2);
}

#[test]
fn page_size_zero_yields_empty_page() {
    let mut store = RecordStore::new();
    for i in 0..3 {
        store
            .create_todo(format!("n{i}"), "".to_string())
            .unwrap();
    }
    assert!(store.get_todos(1, Some(0)).is_empty());
    assert!(store.get_todos(7, Some(0)).is_empty());
}

#[test]
fn huge_page_number_yields_empty_page() {
    let mut store = RecordStore::new();
    store.create_todo("only".to_string(), "".to_string()).unwrap();
    // The page offset would overflow a u64; the call still returns an
    // empty page rather than failing.
    assert!(store.get_todos(u64::MAX, Some(10)).is_empty());
    assert!(store.get_todos(u64::MAX, None).is_empty());
}

#[test]
fn missing_id_errors() {
    let mut store = RecordStore::new();
    // A never-issued ID.
    assert_eq!(store.get_todo(42).unwrap_err(), RecordError::NotFound);
    assert_eq!(
        store
            .update_todo(42, Some("x".to_string()), None, None)
            .unwrap_err(),
        RecordError::NotFound
    );
    assert_eq!(store.delete_todo(42).unwrap_err(), RecordError::NotFound);

    // An already-deleted ID.
    let id = store.create_todo("gone".to_string(), "".to_string()).unwrap();
    store.delete_todo(id).unwrap();
    assert_eq!(store.get_todo(id).unwrap_err(), RecordError::NotFound);
    assert_eq!(
        store.update_todo(id, None, None, Some(true)).unwrap_err(),
        RecordError::NotFound
    );
    assert_eq!(store.delete_todo(id).unwrap_err(), RecordError::NotFound);
}

#[test]
fn scenario_example() {
    let mut store = RecordStore::new();
    let a = store.create_todo("A".to_string(), "a".to_string()).unwrap();
    let b = store.create_todo("B".to_string(), "b".to_string()).unwrap();
    assert_eq!(a, 0);
    assert_eq!(b, 1);

    let page = store.get_todos(1, Some(1));
    assert_eq!(page.len(), 1);
    assert_eq!(page[0].name, "A");
    assert_eq!(page[0].description, "a");
    assert!(!page[0].is_completed);

    assert_eq!(store.update_todo(1, None, None, Some(true)).unwrap(), true);
    let rec = store.get_todo(1).unwrap();
    assert_eq!(rec.name, "B");
    assert_eq!(rec.description, "b");
    assert!(rec.is_completed);

    assert_eq!(store.delete_todo(0).unwrap(), true);
    let page = store.get_todos(1, Some(10));
    assert_eq!(page.len(), 1);
    assert_eq!(page[0].name, "B");
    assert_eq!(page[0].description, "b");
    assert!(page[0].is_completed);
}

#[test]
fn update_on_inconsistent_store_reports_internal_error() {
    let mut store = RecordStore::new();
    // Force the inconsistency the invariant rules out: an ID in the order
    // index with no table entry.
    store.order.push(5);
    assert_eq!(
        store
            .update_todo(5, Some("x".to_string()), None, None)
            .unwrap_err(),
        RecordError::OrderIndexMissing
    );
}

#[test]
fn delete_on_inconsistent_store_soft_fails() {
    let mut store = RecordStore::new();
    // The mirror inconsistency: a table entry whose ID the order index lacks.
    store.table.insert(
        5,
        Record {
            name: "stray".to_string(),
            description: "".to_string(),
            is_completed: false,
        },
    );
    assert_eq!(store.delete_todo(5).unwrap(), false);
}

#[test]
fn list_skips_id_missing_from_table() {
    let mut store = RecordStore::new();
    store.create_todo("real".to_string(), "".to_string()).unwrap();
    store.order.push(9);
    let page = store.get_todos(1, Some(10));
    assert_eq!(page.len(), 1);
    assert_eq!(page[0].name, "real");
}
