use collab_store::document::Document;
use collab_store::row_map::{RowMap, RowUpdate};
use collab_store::rows::{EntryValue, Row, RowCell};
use collab_store::CollabError;

fn cell(field_id: &str, data: &str) -> RowCell {
    RowCell { field_id: field_id.to_string(), data: data.to_string() }
}

fn row(id: &str, height: i64, visibility: bool, cells: Vec<RowCell>) -> Row {
    Row { id: id.to_string(), height, visibility, cells }
}

fn cell_data<'a>(r: &'a Row, field_id: &str) -> Option<&'a str> {
    for c in &r.cells {
        if c.field_id == field_id {
            return Some(c.data.as_str());
        }
    }
    None
}

#[test]
fn insert_and_get_row() {
    let doc = Document::new("actor-a".to_string());
    let mut rows = RowMap::new(doc);
    rows.insert_row(row("r1", 60, true, vec![cell("f1", "hello")]));
    let txn = rows.begin_read();
    let got = rows.get_row_with_txn(&txn, "r1").expect("row must exist");
    assert_eq!(got.id, "r1");
    assert_eq!(got.height, 60);
    assert!(got.visibility);
    assert_eq!(cell_data(&got, "f1"), Some("hello"));
    assert!(rows.get_row_with_txn(&txn, "r2").is_none());
}

#[test]
fn insert_row_overwrites_existing_entry() {
    let doc = Document::new("actor-a".to_string());
    let mut rows = RowMap::new(doc);
    rows.insert_row(row("r1", 60, true, vec![cell("f1", "old")]));
    rows.insert_row(row("r1", 90, false, vec![cell("f2", "new")]));
    let all = rows.get_all_rows();
    assert_eq!(all.len(), 1);
    assert_eq!(all[0].height, 90);
    assert!(!all[0].visibility);
    assert_eq!(cell_data(&all[0], "f1"), None);
    assert_eq!(cell_data(&all[0], "f2"), Some("new"));
}

#[test]
fn get_all_rows_keeps_container_order() {
    let doc = Document::new("actor-a".to_string());
    let mut rows = RowMap::new(doc);
    rows.insert_row(row("a", 60, true, vec![]));
    rows.insert_row(row("b", 61, true, vec![]));
    rows.insert_row(row("c", 62, true, vec![]));
    let all = rows.get_all_rows();
    let ids: Vec<&str> = all.iter().map(|r| r.id.as_str()).collect();
    assert_eq!(ids, vec!["a", "b", "c"]);
}

#[test]
fn update_row_on_missing_id_creates_nothing_and_skips_mutator() {
    let doc = Document::new("actor-a".to_string());
    let mut rows = RowMap::new(doc);
    rows.insert_row(row("r1", 60, true, vec![]));
    let before = rows.doc().entry_count();
    let version_before = rows.doc().version();
    let result = rows.update_row("nonexistent", |_u: RowUpdate| -> RowUpdate {
        panic!("mutator must not be invoked for a missing row");
    });
    assert!(result.is_none());
    assert_eq!(rows.doc().entry_count(), before);
    assert_eq!(rows.doc().version(), version_before);
}

#[test]
fn update_row_returns_the_updated_row() {
    let doc = Document::new("actor-a".to_string());
    let mut rows = RowMap::new(doc);
    rows.insert_row(row("r1", 60, true, vec![cell("f1", "x")]));
    let updated = rows
        .update_row("r1", |u: RowUpdate| u.set_height(88).set_visibility(false))
        .expect("row exists");
    assert_eq!(updated.id, "r1");
    assert_eq!(updated.height, 88);
    assert!(!updated.visibility);
    assert_eq!(cell_data(&updated, "f1"), Some("x"));
}

#[test]
fn concurrent_updates_on_disjoint_fields_both_take_effect() {
    let doc = Document::new("actor-a".to_string());
    let mut rows = RowMap::new(doc);
    rows.insert_row(row("r1", 60, true, vec![cell("f1", "before")]));
    rows.update_row("r1", |u: RowUpdate| u.set_height(123)).expect("row exists");
    rows.update_row("r1", |u: RowUpdate| {
        u.set_cell("f1".to_string(), "after".to_string())
    })
    .expect("row exists");
    let all = rows.get_all_rows();
    assert_eq!(all.len(), 1);
    assert_eq!(all[0].height, 123);
    assert_eq!(cell_data(&all[0], "f1"), Some("after"));
    assert!(all[0].visibility);
}

#[test]
fn write_transactions_are_mutually_exclusive() {
    let mut doc = Document::new("actor-a".to_string());
    let txn = doc.try_begin_write().expect("no writer yet");
    let second = doc.try_begin_write();
    assert!(matches!(second, Err(CollabError::AcquiredWriteTxnFail)));
    doc.abandon_write(txn);
    assert!(doc.try_begin_write().is_ok());
}

#[test]
fn abandoned_write_transaction_has_no_visible_effect() {
    let mut doc = Document::new("actor-a".to_string());
    let mut txn = doc.try_begin_write().expect("granted");
    txn.put_entry("r1".to_string());
    doc.abandon_write(txn);
    assert_eq!(doc.entry_count(), 0);
    assert_eq!(doc.version(), 0);
    assert_eq!(doc.pending_update_count(), 0);
}

#[test]
fn origin_is_threaded_into_the_update_record() {
    let mut doc = Document::new("actor-a".to_string());
    let txn = doc.try_begin_write_with("replica-7".to_string()).expect("granted");
    doc.commit(txn);
    let records = doc.take_updates();
    assert_eq!(records.len(), 1);
    assert_eq!(records[0].origin, "replica-7");
    assert_eq!(records[0].seq, 0);
}

#[test]
fn decoding_defaults_missing_optional_fields() {
    let mut doc = Document::new("actor-a".to_string());
    let mut txn = doc.try_begin_write().expect("granted");
    txn.put_entry("bare".to_string());
    txn.put_field(
        "bare".to_string(),
        "id".to_string(),
        EntryValue::VStr("bare".to_string()),
    );
    doc.commit(txn);
    let rows = RowMap::new(doc);
    let all = rows.get_all_rows();
    assert_eq!(all.len(), 1);
    assert_eq!(all[0].height, 60);
    assert!(all[0].visibility);
    assert!(all[0].cells.is_empty());
}

#[test]
fn structurally_invalid_entries_are_skipped_by_scans() {
    let mut doc = Document::new("actor-a".to_string());
    let mut txn = doc.try_begin_write().expect("granted");
    // An entry with no id field at all.
    txn.put_entry("no_id".to_string());
    // An entry whose height has the wrong shape.
    txn.put_entry("bad_height".to_string());
    txn.put_field(
        "bad_height".to_string(),
        "id".to_string(),
        EntryValue::VStr("bad_height".to_string()),
    );
    txn.put_field(
        "bad_height".to_string(),
        "height".to_string(),
        EntryValue::VStr("tall".to_string()),
    );
    doc.commit(txn);
    let mut rows = RowMap::new(doc);
    rows.insert_row(row("good", 60, true, vec![]));
    let all = rows.get_all_rows();
    assert_eq!(all.len(), 1);
    assert_eq!(all[0].id, "good");
    let txn = rows.begin_read();
    assert!(rows.get_row_with_txn(&txn, "bad_height").is_none());
}

#[test]
fn error_description_names_the_failure() {
    let err = CollabError::AcquiredWriteTxnFail;
    assert_eq!(err.description(), "failed to acquire write transaction");
}
