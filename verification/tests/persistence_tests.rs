use collab_store::document::Document;
use collab_store::persistence::{CollabKv, DocSnapshot, EntryKey};
use collab_store::row_map::RowMap;
use collab_store::rows::{EntryValue, Row, RowCell};

fn key(object_id: &str) -> EntryKey {
    EntryKey {
        uid: 1,
        workspace_id: "w1".to_string(),
        object_id: object_id.to_string(),
    }
}

fn cell(field_id: &str, data: &str) -> RowCell {
    RowCell { field_id: field_id.to_string(), data: data.to_string() }
}

fn row(id: &str, cells: Vec<RowCell>) -> Row {
    Row { id: id.to_string(), height: 60, visibility: true, cells }
}

fn cell_fields(r: &Row) -> Vec<&str> {
    r.cells.iter().map(|c| c.field_id.as_str()).collect()
}

/// The flush-on-close fixture: a database described by one metadata write
/// (one view, three fields) and one write inserting three rows with sparse
/// cell sets.
fn build_fixture(rows: &mut RowMap) {
    let doc = rows.doc_mut();
    let mut txn = doc.try_begin_write().expect("granted");
    txn.put_entry("database".to_string());
    txn.put_field(
        "database".to_string(),
        "inline_view".to_string(),
        EntryValue::VStr("v1".to_string()),
    );
    txn.put_field(
        "database".to_string(),
        "field_order".to_string(),
        EntryValue::VStr("f1,f2,f3".to_string()),
    );
    doc.commit(txn);

    let mut txn = rows.doc_mut().try_begin_write().expect("granted");
    rows.insert_row_with_txn(
        &mut txn,
        row("row1", vec![cell("f1", "1f1cell"), cell("f2", "1f2cell"), cell("f3", "1f3cell")]),
    );
    rows.insert_row_with_txn(
        &mut txn,
        row("row2", vec![cell("f1", "2f1cell"), cell("f2", "2f2cell")]),
    );
    rows.insert_row_with_txn(
        &mut txn,
        row("row3", vec![cell("f1", "3f1cell"), cell("f3", "3f3cell")]),
    );
    rows.doc_mut().commit(txn);
}

fn assert_fixture_rows(rows: &[Row]) {
    assert_eq!(rows.len(), 3);
    assert_eq!(rows[0].id, "row1");
    assert_eq!(cell_fields(&rows[0]), vec!["f1", "f2", "f3"]);
    assert_eq!(rows[1].id, "row2");
    assert_eq!(cell_fields(&rows[1]), vec!["f1", "f2"]);
    assert_eq!(rows[2].id, "row3");
    assert_eq!(cell_fields(&rows[2]), vec!["f1", "f3"]);
}

#[test]
fn flush_doc_test() {
    let mut kv = CollabKv::new(5);
    let k = key("d1");
    let doc = Document::new("actor-a".to_string());
    let mut rows = RowMap::new(doc);
    build_fixture(&mut rows);

    // Creating the database produced exactly two pending update records.
    let records = rows.doc_mut().take_updates();
    assert_eq!(records.len(), 2);
    for rec in records {
        kv.push_update(&k, rec);
    }
    assert_eq!(kv.number_of_updates(&k), 2);
    let rows_before_close = rows.get_all_rows();
    assert_fixture_rows(&rows_before_close);

    // Closing the database flushes and compacts: zero pending records.
    let snapshot = DocSnapshot {
        entries: rows.doc().clone_entries(),
        version: rows.doc().version(),
    };
    kv.flush_doc(&k, snapshot);
    assert_eq!(kv.number_of_updates(&k), 0);

    // Reopening reports zero pending records and the same three rows, with
    // the same sparse cell sets.
    let mut reopened = Document::new("actor-a".to_string());
    kv.load_doc(&k, &mut reopened);
    assert_eq!(kv.number_of_updates(&k), 0);
    let reopened_rows = RowMap::new(reopened);
    let rows_after_reopen = reopened_rows.get_all_rows();
    assert_fixture_rows(&rows_after_reopen);
}

#[test]
fn sparse_cells_are_absent_not_empty() {
    let doc = Document::new("actor-a".to_string());
    let mut rows = RowMap::new(doc);
    build_fixture(&mut rows);
    let all = rows.get_all_rows();
    let row2 = all.iter().find(|r| r.id == "row2").expect("row2 exists");
    assert!(!row2.cells.iter().any(|c| c.field_id == "f3"));
    let row3 = all.iter().find(|r| r.id == "row3").expect("row3 exists");
    assert!(!row3.cells.iter().any(|c| c.field_id == "f2"));
}

#[test]
fn replaying_snapshot_and_log_reconstructs_the_document() {
    let mut kv = CollabKv::new(100);
    let k = key("obj");
    let doc = Document::new("actor-a".to_string());
    let mut rows = RowMap::new(doc);
    rows.insert_row(row("r1", vec![cell("f1", "a")]));
    rows.insert_row(row("r2", vec![cell("f2", "b")]));
    rows.update_row("r1", |u| u.set_height(77)).expect("row exists");

    for rec in rows.doc_mut().take_updates() {
        kv.push_update(&k, rec);
    }
    assert_eq!(kv.number_of_updates(&k), 3);

    let mut replica = Document::new("actor-b".to_string());
    kv.load_doc(&k, &mut replica);
    assert_eq!(replica.version(), rows.doc().version());
    let replica_rows = RowMap::new(replica);
    let live = rows.get_all_rows();
    let replayed = replica_rows.get_all_rows();
    assert_eq!(live.len(), replayed.len());
    for (a, b) in live.iter().zip(replayed.iter()) {
        assert_eq!(a.id, b.id);
        assert_eq!(a.height, b.height);
        assert_eq!(a.visibility, b.visibility);
        assert_eq!(a.cells.len(), b.cells.len());
        for (ca, cb) in a.cells.iter().zip(b.cells.iter()) {
            assert_eq!(ca.field_id, cb.field_id);
            assert_eq!(ca.data, cb.data);
        }
    }
}

#[test]
fn duplicate_record_delivery_is_a_no_op() {
    let mut doc = Document::new("actor-a".to_string());
    let txn = doc.try_begin_write().expect("granted");
    doc.commit(txn);
    let records = doc.take_updates();
    assert_eq!(records.len(), 1);
    let version_after = doc.version();
    // The same record again: its causal marker no longer matches.
    doc.apply_update(&records[0]);
    assert_eq!(doc.version(), version_after);
}

#[test]
fn compaction_triggers_at_threshold_and_loses_nothing() {
    let mut kv = CollabKv::new(3);
    let k = key("obj");
    let doc = Document::new("actor-a".to_string());
    let mut rows = RowMap::new(doc);
    rows.insert_row(row("r1", vec![cell("f1", "a")]));
    rows.insert_row(row("r2", vec![]));
    rows.insert_row(row("r3", vec![cell("f2", "b")]));
    rows.insert_row(row("r4", vec![]));

    for rec in rows.doc_mut().take_updates() {
        kv.push_update(&k, rec);
    }
    // The third record reached the threshold and was folded into a new
    // snapshot; the fourth is pending on top of it.
    assert_eq!(kv.number_of_updates(&k), 1);

    let mut replica = Document::new("actor-b".to_string());
    kv.load_doc(&k, &mut replica);
    assert_eq!(replica.version(), rows.doc().version());
    let replica_rows = RowMap::new(replica);
    assert_eq!(replica_rows.get_all_rows().len(), 4);
}

#[test]
fn missing_entry_loads_as_empty_document() {
    let kv = CollabKv::new(5);
    let mut doc = Document::new("actor-a".to_string());
    kv.load_doc(&key("nothing"), &mut doc);
    assert_eq!(doc.entry_count(), 0);
    assert_eq!(doc.version(), 0);
}

#[test]
fn exists_and_delete_doc() {
    let mut kv = CollabKv::new(5);
    let k = key("obj");
    assert!(!kv.is_exist(&k));
    let mut doc = Document::new("actor-a".to_string());
    let txn = doc.try_begin_write().expect("granted");
    doc.commit(txn);
    for rec in doc.take_updates() {
        kv.push_update(&k, rec);
    }
    assert!(kv.is_exist(&k));
    kv.delete_doc(&k);
    assert!(!kv.is_exist(&k));
    assert_eq!(kv.number_of_updates(&k), 0);
}

#[test]
fn scoped_keys_are_independent() {
    let mut kv = CollabKv::new(5);
    let a = EntryKey { uid: 1, workspace_id: "w1".to_string(), object_id: "obj".to_string() };
    let b = EntryKey { uid: 1, workspace_id: "w2".to_string(), object_id: "obj".to_string() };
    let mut doc = Document::new("actor-a".to_string());
    let txn = doc.try_begin_write().expect("granted");
    doc.commit(txn);
    for rec in doc.take_updates() {
        kv.push_update(&a, rec);
    }
    assert!(kv.is_exist(&a));
    assert!(!kv.is_exist(&b));
    assert_eq!(kv.number_of_updates(&a), 1);
    assert_eq!(kv.number_of_updates(&b), 0);
}

#[test]
fn flush_many_applies_the_whole_batch() {
    let mut kv = CollabKv::new(10);
    let a = key("obj-a");
    let b = key("obj-b");
    let mut doc_a = Document::new("actor-a".to_string());
    let txn = doc_a.try_begin_write().expect("granted");
    doc_a.commit(txn);
    let rec_a = doc_a.take_updates().pop().expect("one record");
    let mut doc_b = Document::new("actor-b".to_string());
    let txn = doc_b.try_begin_write().expect("granted");
    doc_b.commit(txn);
    let rec_b = doc_b.take_updates().pop().expect("one record");

    kv.flush_many(vec![(a.clone(), rec_a), (b.clone(), rec_b)]);
    assert_eq!(kv.number_of_updates(&a), 1);
    assert_eq!(kv.number_of_updates(&b), 1);
}

#[test]
fn threshold_of_one_compacts_every_append() {
    let mut kv = CollabKv::new(1);
    let k = key("obj");
    let doc = Document::new("actor-a".to_string());
    let mut rows = RowMap::new(doc);
    rows.insert_row(row("r1", vec![cell("f1", "a")]));
    for rec in rows.doc_mut().take_updates() {
        kv.push_update(&k, rec);
    }
    // The very first append reached the threshold and was folded at once.
    assert!(kv.is_exist(&k));
    assert_eq!(kv.number_of_updates(&k), 0);
    let mut replica = Document::new("actor-b".to_string());
    kv.load_doc(&k, &mut replica);
    let replica_rows = RowMap::new(replica);
    assert_eq!(replica_rows.get_all_rows().len(), 1);
}
