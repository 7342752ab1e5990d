//! The structured row store: rows projected onto the generic nested-map
//! entries of one document. A row is written as one entry whose reserved
//! keys carry height, visibility, and the cells mapping as separate fields,
//! so two replicas that concurrently edit different fields of the same row
//! merge field by field instead of one write clobbering the whole row.

use vstd::prelude::*;

use crate::assoc::{
    assoc_find, assoc_set, lemma_assoc_find_set_other, lemma_assoc_find_set_same,
    lemma_assoc_set_append, lemma_assoc_set_set_same,
};
use crate::document::{
    apply_op, apply_ops, Document, DocumentView, OpView, ReadTransaction, RecordView,
    WriteTransaction,
    WriteTxnView,
};
use crate::rows::{
    decode_entry, encode_entry, key_cells, key_height, key_id, key_visibility,
    lemma_encode_decode_row, lemma_reserved_keys_distinct, row_from_entry, EntryValue, Row,
    RowCell, RowView, ValView,
};

verus! {

/// A pending, field-granular edit of one row, built up by the mutator handed
/// to [`RowMap::update_row`]. Parts left unset are left untouched.
pub struct RowUpdate {
    height: Option<i64>,
    visibility: Option<bool>,
    cells: Vec<RowCell>,
}

/// The mathematical shape of a [`RowUpdate`].
#[verifier::ext_equal]
pub struct RowUpdateView {
    pub height: Option<int>,
    pub visibility: Option<bool>,
    pub cells: Seq<(Seq<char>, Seq<char>)>,
}

impl View for RowUpdate {
    type V = RowUpdateView;

    closed spec fn view(&self) -> RowUpdateView {
        RowUpdateView {
            height: match self.height {
                Some(h) => Some(h as int),
                None => None,
            },
            visibility: self.visibility,
            cells: self.cells@.map_values(|c: RowCell| c@),
        }
    }
}

/// An edit that touches nothing.
pub open spec fn empty_row_update() -> RowUpdateView {
    RowUpdateView { height: None, visibility: None, cells: Seq::empty() }
}

impl RowUpdate {
    /// An edit that touches nothing.
    pub fn new() -> (r: Self)
        ensures
            r@ == empty_row_update(),
    {
        let r = RowUpdate { height: None, visibility: None, cells: Vec::new() };
        proof {
            assert(r@ =~= empty_row_update());
        }
        r
    }

    /// Also set the row's height.
    pub fn set_height(self, height: i64) -> (r: Self)
        ensures
            r@ == (RowUpdateView { height: Some(height as int), ..self@ }),
    {
        let r = RowUpdate { height: Some(height), ..self };
        proof {
            assert(r@ =~= (RowUpdateView { height: Some(height as int), ..self@ }));
        }
        r
    }

    /// Also set the row's visibility.
    pub fn set_visibility(self, visibility: bool) -> (r: Self)
        ensures
            r@ == (RowUpdateView { visibility: Some(visibility), ..self@ }),
    {
        let r = RowUpdate { visibility: Some(visibility), ..self };
        proof {
            assert(r@ =~= (RowUpdateView { visibility: Some(visibility), ..self@ }));
        }
        r
    }

    /// Also set one cell of the row, leaving the row's other cells alone.
    pub fn set_cell(self, field_id: String, data: String) -> (r: Self)
        ensures
            r@ == (RowUpdateView {
                cells: self@.cells.push((field_id@, data@)),
                ..self@
            }),
    {
        let ghost field_view = field_id@;
        let ghost data_view = data@;
        let mut cells = self.cells;
        cells.push(RowCell { field_id, data });
        let r = RowUpdate { height: self.height, visibility: self.visibility, cells };
        proof {
            assert(r@.cells =~= self@.cells.push((field_view, data_view)));
            assert(r@ =~= (RowUpdateView {
                cells: self@.cells.push((field_view, data_view)),
                ..self@
            }));
        }
        r
    }
}

/// The operations that write `row` as one entry: a fresh entry under its id,
/// then one field per reserved key.
pub open spec fn insert_ops(r: RowView) -> Seq<OpView> {
    seq![
        OpView::PutEntry { row_id: r.id },
        OpView::PutField { row_id: r.id, key: key_id(), value: ValView::VStr(r.id) },
        OpView::PutField { row_id: r.id, key: key_height(), value: ValView::VInt(r.height) },
        OpView::PutField {
            row_id: r.id,
            key: key_visibility(),
            value: ValView::VBool(r.visibility),
        },
        OpView::PutField { row_id: r.id, key: key_cells(), value: ValView::VCells(r.cells) },
    ]
}

/// The operations one [`RowUpdate`] stages against the row under `row_id`:
/// a field write per part set, then one cell write per cell touched.
pub open spec fn edit_ops(row_id: Seq<char>, u: RowUpdateView) -> Seq<OpView> {
    let height_ops = match u.height {
        Some(h) => seq![
            OpView::PutField { row_id, key: key_height(), value: ValView::VInt(h) },
        ],
        None => Seq::<OpView>::empty(),
    };
    let visibility_ops = match u.visibility {
        Some(v) => seq![
            OpView::PutField { row_id, key: key_visibility(), value: ValView::VBool(v) },
        ],
        None => Seq::<OpView>::empty(),
    };
    let cell_ops = u.cells.map_values(
        |c: (Seq<char>, Seq<char>)| OpView::PutCell { row_id, field_id: c.0, data: c.1 },
    );
    height_ops + visibility_ops + cell_ops
}

/// Writing a row sets its id to exactly the encoded entry, whatever was
/// there before, and touches no other row.
pub proof fn lemma_insert_ops_effect(
    entries: Seq<(Seq<char>, Seq<(Seq<char>, ValView)>)>,
    r: RowView,
)
    ensures
        apply_ops(entries, insert_ops(r)) == assoc_set(entries, r.id, encode_entry(r)),
{
    lemma_reserved_keys_distinct();
    let ops = insert_ops(r);
    let o4 = ops.drop_last();
    let o3 = o4.drop_last();
    let o2 = o3.drop_last();
    let o1 = o2.drop_last();
    let o0 = o1.drop_last();
    assert(o0.len() == 0);
    assert(o1 =~= seq![ops[0]]);
    assert(o2 =~= seq![ops[0], ops[1]]);
    assert(o3 =~= seq![ops[0], ops[1], ops[2]]);
    assert(o4 =~= seq![ops[0], ops[1], ops[2], ops[3]]);
    assert(o1.last() == ops[0]);
    assert(o2.last() == ops[1]);
    assert(o3.last() == ops[2]);
    assert(o4.last() == ops[3]);
    assert(ops.last() == ops[4]);

    let f1: Seq<(Seq<char>, ValView)> = seq![(key_id(), ValView::VStr(r.id))];
    let f2 = f1.push((key_height(), ValView::VInt(r.height)));
    let f3 = f2.push((key_visibility(), ValView::VBool(r.visibility)));
    let f4 = f3.push((key_cells(), ValView::VCells(r.cells)));
    assert(f4 =~= encode_entry(r));

    assert(ops[0] == (OpView::PutEntry { row_id: r.id }));
    assert(ops[1] == (OpView::PutField { row_id: r.id, key: key_id(), value: ValView::VStr(r.id) }));
    assert(ops[2] == (OpView::PutField {
        row_id: r.id,
        key: key_height(),
        value: ValView::VInt(r.height),
    }));
    assert(ops[3] == (OpView::PutField {
        row_id: r.id,
        key: key_visibility(),
        value: ValView::VBool(r.visibility),
    }));
    assert(ops[4] == (OpView::PutField {
        row_id: r.id,
        key: key_cells(),
        value: ValView::VCells(r.cells),
    }));

    let empty_fields = Seq::<(Seq<char>, ValView)>::empty();
    assert(apply_ops(entries, o0) == entries);
    let e1 = apply_ops(entries, o1);
    assert(e1 == apply_op(apply_ops(entries, o0), ops[0]));
    assert(e1 == assoc_set(entries, r.id, empty_fields));

    let e2 = apply_ops(entries, o2);
    assert(e2 == apply_op(e1, ops[1]));
    lemma_assoc_find_set_same(entries, r.id, empty_fields);
    assert(assoc_find(e1, r.id) == Some(empty_fields));
    assert(assoc_set(empty_fields, key_id(), ValView::VStr(r.id)) =~= f1);
    assert(e2 == assoc_set(e1, r.id, f1));
    lemma_assoc_set_set_same(entries, r.id, empty_fields, f1);
    assert(e2 == assoc_set(entries, r.id, f1));

    let e3 = apply_ops(entries, o3);
    assert(e3 == apply_op(e2, ops[2]));
    lemma_assoc_find_set_same(entries, r.id, f1);
    assert(assoc_find(e2, r.id) == Some(f1));
    lemma_assoc_set_append(f1, key_height(), ValView::VInt(r.height));
    assert(e3 == assoc_set(e2, r.id, f2));
    lemma_assoc_set_set_same(entries, r.id, f1, f2);
    assert(e3 == assoc_set(entries, r.id, f2));

    let e4 = apply_ops(entries, o4);
    assert(e4 == apply_op(e3, ops[3]));
    lemma_assoc_find_set_same(entries, r.id, f2);
    assert(assoc_find(e3, r.id) == Some(f2));
    lemma_assoc_set_append(f2, key_visibility(), ValView::VBool(r.visibility));
    assert(e4 == assoc_set(e3, r.id, f3));
    lemma_assoc_set_set_same(entries, r.id, f2, f3);
    assert(e4 == assoc_set(entries, r.id, f3));

    let e5 = apply_ops(entries, ops);
    assert(e5 == apply_op(e4, ops[4]));
    lemma_assoc_find_set_same(entries, r.id, f3);
    assert(assoc_find(e4, r.id) == Some(f3));
    lemma_assoc_set_append(f3, key_cells(), ValView::VCells(r.cells));
    assert(e5 == assoc_set(e4, r.id, f4));
    lemma_assoc_set_set_same(entries, r.id, f3, f4);
    assert(e5 == assoc_set(entries, r.id, f4));
}

/// A row just written reads back exactly: looking up its id right after the
/// insert operations apply decodes to the very row that was written.
pub proof fn lemma_insert_then_get(
    entries: Seq<(Seq<char>, Seq<(Seq<char>, ValView)>)>,
    r: RowView,
)
    ensures
        lookup_row(apply_ops(entries, insert_ops(r)), r.id) == Some(r),
{
    lemma_insert_ops_effect(entries, r);
    lemma_assoc_find_set_same(entries, r.id, encode_entry(r));
    lemma_encode_decode_row(r);
}

/// Field-granular merge: two edits of the same row committed one after the
/// other, touching disjoint fields — the first the row's height, the second
/// one cell — both take effect; neither clobbers the other's field.
pub proof fn lemma_field_granular_merge(
    entries: Seq<(Seq<char>, Seq<(Seq<char>, ValView)>)>,
    row_id: Seq<char>,
    height: int,
    field_id: Seq<char>,
    data: Seq<char>,
)
    requires
        assoc_find(entries, row_id) is Some,
    ensures
        ({
            let height_edit = RowUpdateView {
                height: Some(height),
                visibility: None,
                cells: Seq::empty(),
            };
            let cell_edit = RowUpdateView {
                height: None,
                visibility: None,
                cells: seq![(field_id, data)],
            };
            let merged = apply_ops(
                apply_ops(entries, edit_ops(row_id, height_edit)),
                edit_ops(row_id, cell_edit),
            );
            &&& assoc_find(merged, row_id) is Some
            &&& assoc_find(assoc_find(merged, row_id).unwrap(), key_height()) == Some(
                ValView::VInt(height),
            )
            &&& match assoc_find(assoc_find(merged, row_id).unwrap(), key_cells()) {
                Some(ValView::VCells(cs)) => assoc_find(cs, field_id) == Some(data),
                _ => false,
            }
        }),
{
    lemma_reserved_keys_distinct();
    let height_edit = RowUpdateView { height: Some(height), visibility: None, cells: Seq::empty() };
    let cell_edit = RowUpdateView {
        height: None,
        visibility: None,
        cells: seq![(field_id, data)],
    };
    let e0 = assoc_find(entries, row_id).unwrap();

    let ops1 = edit_ops(row_id, height_edit);
    let op_h = OpView::PutField { row_id, key: key_height(), value: ValView::VInt(height) };
    assert(ops1 =~= seq![op_h]);
    assert(ops1.drop_last() =~= Seq::<OpView>::empty());
    assert(apply_ops(entries, ops1.drop_last()) == entries);
    let after1 = apply_ops(entries, ops1);
    assert(after1 == apply_op(entries, op_h));
    let f1 = assoc_set(e0, key_height(), ValView::VInt(height));
    assert(after1 == assoc_set(entries, row_id, f1));

    let ops2 = edit_ops(row_id, cell_edit);
    let op_c = OpView::PutCell { row_id, field_id, data };
    assert(ops2 =~= seq![op_c]);
    assert(ops2.drop_last() =~= Seq::<OpView>::empty());
    assert(apply_ops(after1, ops2.drop_last()) == after1);
    let merged = apply_ops(after1, ops2);
    assert(merged == apply_op(after1, op_c));

    lemma_assoc_find_set_same(entries, row_id, f1);
    assert(assoc_find(after1, row_id) == Some(f1));
    let cells0 = match assoc_find(f1, key_cells()) {
        Some(ValView::VCells(cs)) => cs,
        _ => Seq::<(Seq<char>, Seq<char>)>::empty(),
    };
    let cells1 = assoc_set(cells0, field_id, data);
    let f2 = assoc_set(f1, key_cells(), ValView::VCells(cells1));
    assert(merged == assoc_set(after1, row_id, f2));

    lemma_assoc_find_set_same(after1, row_id, f2);
    assert(assoc_find(merged, row_id) == Some(f2));
    lemma_assoc_find_set_other(f1, key_cells(), ValView::VCells(cells1), key_height());
    lemma_assoc_find_set_same(e0, key_height(), ValView::VInt(height));
    assert(assoc_find(f2, key_height()) == Some(ValView::VInt(height)));
    lemma_assoc_find_set_same(f1, key_cells(), ValView::VCells(cells1));
    assert(assoc_find(f2, key_cells()) == Some(ValView::VCells(cells1)));
    lemma_assoc_find_set_same(cells0, field_id, data);
    assert(assoc_find(cells1, field_id) == Some(data));
}

/// The row stored under `row_id`: its decoded entry, or nothing when the
/// entry is missing or structurally invalid.
pub open spec fn lookup_row(
    entries: Seq<(Seq<char>, Seq<(Seq<char>, ValView)>)>,
    row_id: Seq<char>,
) -> Option<RowView> {
    match assoc_find(entries, row_id) {
        None => None,
        Some(e) => decode_entry(e),
    }
}

/// The rows a bulk scan yields: every entry that decodes, in container
/// order, with entries that fail to decode silently omitted.
pub open spec fn decode_all(
    entries: Seq<(Seq<char>, Seq<(Seq<char>, ValView)>)>,
) -> Seq<RowView>
    decreases entries.len(),
{
    if entries.len() == 0 {
        Seq::empty()
    } else {
        match decode_entry(entries.last().1) {
            Some(r) => decode_all(entries.drop_last()).push(r),
            None => decode_all(entries.drop_last()),
        }
    }
}

/// The structured row store over one document's row container.
pub struct RowMap {
    container: Document,
}

impl View for RowMap {
    type V = DocumentView;

    closed spec fn view(&self) -> DocumentView {
        self.container@
    }
}

impl RowMap {
    /// Row ids are unique within the row container.
    pub closed spec fn inv(&self) -> bool {
        self.container.inv()
    }

    /// A row store over the given document.
    pub fn new(container: Document) -> (r: Self)
        ensures
            r@ == container@,
            container.inv() ==> r.inv(),
    {
        RowMap { container }
    }

    /// A shared view of the underlying document.
    pub fn doc(&self) -> (r: &Document)
        ensures
            r@ == self@,
            self.inv() ==> r.inv(),
    {
        &self.container
    }

    /// An exclusive handle on the underlying document, for persistence and
    /// record exchange around the store.
    pub fn doc_mut(&mut self) -> (r: &mut Document)
        ensures
            (*r)@ == old(self)@,
            ((*r).inv() <== old(self).inv()),
            final(self)@ == (*final(r))@,
            ((*final(r)).inv() ==> final(self).inv()),
    {
        &mut self.container
    }

    /// Open a read transaction on the row container.
    pub fn begin_read(&self) -> (r: ReadTransaction<'_>)
        ensures
            r@ == self@.entries,
    {
        self.container.begin_read()
    }

    /// Write `row` into the container inside a write transaction of its own:
    /// the entry under the row's id becomes exactly the encoded row, one
    /// update record is committed, and no other row is touched.
    pub fn insert_row(&mut self, row: Row)
        requires
            !old(self)@.write_open,
            old(self)@.version < u64::MAX,
        ensures
            final(self)@.entries == assoc_set(
                old(self)@.entries,
                row@.id,
                encode_entry(row@),
            ),
            final(self)@.version == old(self)@.version + 1,
            !final(self)@.write_open,
            final(self)@.origin == old(self)@.origin,
            final(self)@.outbox == old(self)@.outbox.push(
                RecordView {
                    seq: old(self)@.version,
                    origin: old(self)@.origin,
                    ops: insert_ops(row@),
                },
            ),
            old(self).inv() ==> final(self).inv(),
    {
        let ghost row_view = row@;
        let mut txn = match self.container.try_begin_write() {
            Ok(t) => t,
            Err(_) => vstd::pervasive::unreached(),
        };
        self.insert_row_with_txn(&mut txn, row);
        proof {
            assert(txn@.ops =~= Seq::<OpView>::empty() + insert_ops(row_view));
            lemma_insert_ops_effect(old(self)@.entries, row_view);
        }
        self.container.commit(txn);
    }

    /// Stage `row` into an already-open write transaction: a fresh entry
    /// under its id, then height, visibility and the cells mapping as
    /// separate fields of that entry.
    pub fn insert_row_with_txn(&self, txn: &mut WriteTransaction, row: Row)
        ensures
            final(txn)@ == (WriteTxnView {
                ops: old(txn)@.ops + insert_ops(row@),
                ..old(txn)@
            }),
    {
        let ghost row_view = row@;
        let Row { id, height, visibility, cells } = row;
        txn.put_entry(id.clone());
        txn.put_field(id.clone(), "id".to_owned(), EntryValue::VStr(id.clone()));
        txn.put_field(id.clone(), "height".to_owned(), EntryValue::VInt(height));
        txn.put_field(id.clone(), "visibility".to_owned(), EntryValue::VBool(visibility));
        txn.put_field(id, "cells".to_owned(), EntryValue::VCells(cells));
        proof {
            assert(txn@.ops =~= old(txn)@.ops + insert_ops(row_view));
            assert(txn@ =~= (WriteTxnView {
                ops: old(txn)@.ops + insert_ops(row_view),
                ..old(txn)@
            }));
        }
    }

    /// The row stored under `row_id`, read through an open transaction:
    /// nothing when no entry exists, and nothing for an entry that fails to
    /// decode.
    pub fn get_row_with_txn(&self, txn: &ReadTransaction<'_>, row_id: &str) -> (r: Option<Row>)
        ensures
            match r {
                Some(row) => lookup_row(txn@, row_id@) == Some(row@),
                None => lookup_row(txn@, row_id@) is None,
            },
    {
        let entries = txn.entries();
        let ghost view = txn@;
        let mut i: usize = 0;
        while i < entries.len()
            invariant
                0 <= i <= entries.len(),
                view == txn@,
                view == entries@.map_values(|e: crate::document::DocEntry| e@),
                forall|j: int| 0 <= j < i ==> view[j].0 != row_id@,
            decreases entries.len() - i,
        {
            if crate::rows::str_eq(entries[i].row_id.as_str(), row_id) {
                proof {
                    assert(view[i as int] == entries@[i as int]@);
                    crate::assoc::lemma_assoc_find_present(view, row_id@, i as int);
                    assert(assoc_find(view, row_id@) == Some(entries@[i as int].entry@));
                }
                let res = row_from_entry(&entries[i].entry);
                proof {
                    assert(lookup_row(view, row_id@) == decode_entry(entries@[i as int].entry@));
                    match res {
                        Some(ref row) => {
                            assert(decode_entry(entries@[i as int].entry@) == Some(row@));
                            assert(lookup_row(txn@, row_id@) == Some(row@));
                        },
                        None => {
                            assert(decode_entry(entries@[i as int].entry@) is None);
                            assert(lookup_row(txn@, row_id@) is None);
                        },
                    }
                }
                return res;
            }
            i += 1;
        }
        proof {
            crate::assoc::lemma_assoc_find_absent(view, row_id@);
        }
        None
    }

    /// Every row of the container, through a read transaction of this call's
    /// own: each entry decoded in container order, with entries that fail to
    /// decode silently omitted.
    pub fn get_all_rows(&self) -> (r: Vec<Row>)
        ensures
            r@.map_values(|row: Row| row@) == decode_all(self@.entries),
    {
        let txn = self.container.begin_read();
        self.get_all_rows_with_txn(&txn)
    }

    /// Every row of the container visible to an open read transaction.
    pub fn get_all_rows_with_txn(&self, txn: &ReadTransaction<'_>) -> (r: Vec<Row>)
        ensures
            r@.map_values(|row: Row| row@) == decode_all(txn@),
    {
        let entries = txn.entries();
        let ghost view = txn@;
        let mut out: Vec<Row> = Vec::new();
        let mut i: usize = 0;
        while i < entries.len()
            invariant
                0 <= i <= entries.len(),
                view == txn@,
                view == entries@.map_values(|e: crate::document::DocEntry| e@),
                out@.map_values(|row: Row| row@) == decode_all(view.take(i as int)),
            decreases entries.len() - i,
        {
            let ghost prefix = view.take(i as int);
            let ghost next = view.take(i + 1 as int);
            match row_from_entry(&entries[i].entry) {
                Some(row) => {
                    out.push(row);
                },
                None => {},
            }
            proof {
                assert(next.drop_last() =~= prefix);
                assert(next.last() == view[i as int]);
                assert(out@.map_values(|row: Row| row@) =~= decode_all(next));
            }
            i += 1;
        }
        proof {
            assert(view.take(view.len() as int) =~= view);
        }
        out
    }

    /// Edit the row under `row_id` inside a write transaction of this call's
    /// own. With no entry under that id, nothing is returned, nothing is
    /// created, and the mutator is never invoked. Otherwise the mutator
    /// builds a field-granular edit from an empty one, the edit is committed
    /// as one update record, and the row as now stored is returned.
    pub fn update_row<F: FnOnce(RowUpdate) -> RowUpdate>(
        &mut self,
        row_id: &str,
        f: F,
    ) -> (r: Option<Row>)
        requires
            !old(self)@.write_open,
            old(self)@.version < u64::MAX,
            forall|u: RowUpdate| u@ == empty_row_update() ==> #[trigger] call_requires(f, (u,)),
        ensures
            assoc_find(old(self)@.entries, row_id@) is None ==> {
                &&& r is None
                &&& final(self)@ == old(self)@
            },
            assoc_find(old(self)@.entries, row_id@) is Some ==> exists|u0: RowUpdate, u1: RowUpdate|
                {
                    &&& u0@ == empty_row_update()
                    &&& #[trigger] call_ensures(f, (u0,), u1)
                    &&& final(self)@.entries == apply_ops(
                        old(self)@.entries,
                        edit_ops(row_id@, u1@),
                    )
                    &&& final(self)@.version == old(self)@.version + 1
                    &&& final(self)@.outbox == old(self)@.outbox.push(
                        RecordView {
                            seq: old(self)@.version,
                            origin: old(self)@.origin,
                            ops: edit_ops(row_id@, u1@),
                        },
                    )
                    &&& match r {
                        Some(row) => lookup_row(final(self)@.entries, row_id@) == Some(row@),
                        None => lookup_row(final(self)@.entries, row_id@) is None,
                    }
                },
            !final(self)@.write_open,
            final(self)@.origin == old(self)@.origin,
            old(self).inv() ==> final(self).inv(),
    {
        let present = self.container.entry_of(row_id).is_some();
        if !present {
            return None;
        }
        let mut txn = match self.container.try_begin_write() {
            Ok(t) => t,
            Err(_) => vstd::pervasive::unreached(),
        };
        let empty_edit = RowUpdate::new();
        let ghost u0g = empty_edit;
        let edit = f(empty_edit);
        let ghost u1g = edit;
        let RowUpdate { height, visibility, cells } = edit;
        match height {
            Some(h) => {
                txn.put_field(row_id.to_owned(), "height".to_owned(), EntryValue::VInt(h));
            },
            None => {},
        }
        match visibility {
            Some(v) => {
                txn.put_field(
                    row_id.to_owned(),
                    "visibility".to_owned(),
                    EntryValue::VBool(v),
                );
            },
            None => {},
        }
        let ghost cells_view = cells@.map_values(|c: RowCell| c@);
        let ghost base_ops = txn@.ops;
        let mut k: usize = 0;
        while k < cells.len()
            invariant
                0 <= k <= cells.len(),
                cells_view == cells@.map_values(|c: RowCell| c@),
                txn@.ops == base_ops + cells_view.take(k as int).map_values(
                    |c: (Seq<char>, Seq<char>)| OpView::PutCell {
                        row_id: row_id@,
                        field_id: c.0,
                        data: c.1,
                    },
                ),
                txn@.origin == old(self)@.origin,
                txn@.base_version == old(self)@.version,
            decreases cells.len() - k,
        {
            let cell = cells[k].clone();
            txn.put_cell(row_id.to_owned(), cell.field_id, cell.data);
            proof {
                let op_of = |c: (Seq<char>, Seq<char>)| OpView::PutCell {
                    row_id: row_id@,
                    field_id: c.0,
                    data: c.1,
                };
                assert(cells_view.take(k + 1 as int).map_values(op_of) =~= cells_view.take(
                    k as int,
                ).map_values(op_of).push(op_of(cells_view[k as int])));
                assert(txn@.ops =~= base_ops + cells_view.take(k + 1 as int).map_values(op_of));
            }
            k += 1;
        }
        proof {
            assert(cells_view.take(cells_view.len() as int) =~= cells_view);
            assert(txn@.ops =~= edit_ops(row_id@, u1g@));
        }
        self.container.commit(txn);
        let r = match self.container.entry_of(row_id) {
            Some(entry) => row_from_entry(entry),
            None => None,
        };
        proof {
            assert(call_ensures(f, (u0g,), u1g));
        }
        r
    }
}

} // verus!

