//! The relational projection: typed rows with sparse per-field cells, laid
//! over the generic nested-map entries of a replicated document. A row entry
//! is a small map from reserved keys (`id`, `height`, `visibility`, `cells`)
//! to generic values; decoding tolerates missing optional keys by defaulting
//! them, while a structurally invalid entry decodes to nothing and is skipped
//! by bulk scans.

use vstd::prelude::*;

use crate::assoc::assoc_find;

verus! {

/// The default height given to a row whose entry stores none.
pub const DEFAULT_ROW_HEIGHT: i64 = 60;

/// One cell of a row: an opaque, field-type-specific payload (held as its
/// serialized text) keyed by the id of the field it belongs to.
pub struct RowCell {
    pub field_id: String,
    pub data: String,
}

impl View for RowCell {
    type V = (Seq<char>, Seq<char>);

    open spec fn view(&self) -> (Seq<char>, Seq<char>) {
        (self.field_id@, self.data@)
    }
}

impl Clone for RowCell {
    fn clone(&self) -> (res: Self)
        ensures
            res@ == self@,
    {
        RowCell { field_id: self.field_id.clone(), data: self.data.clone() }
    }
}

/// A generic value stored under one key of a row entry.
pub enum EntryValue {
    VInt(i64),
    VBool(bool),
    VStr(String),
    VCells(Vec<RowCell>),
}

/// The mathematical shape of an [`EntryValue`].
#[verifier::ext_equal]
pub enum ValView {
    VInt(int),
    VBool(bool),
    VStr(Seq<char>),
    VCells(Seq<(Seq<char>, Seq<char>)>),
}

impl View for EntryValue {
    type V = ValView;

    open spec fn view(&self) -> ValView {
        match self {
            EntryValue::VInt(x) => ValView::VInt(*x as int),
            EntryValue::VBool(b) => ValView::VBool(*b),
            EntryValue::VStr(s) => ValView::VStr(s@),
            EntryValue::VCells(cs) => ValView::VCells(cs@.map_values(|c: RowCell| c@)),
        }
    }
}

impl Clone for EntryValue {
    fn clone(&self) -> (res: Self)
        ensures
            res@ == self@,
    {
        match self {
            EntryValue::VInt(x) => EntryValue::VInt(*x),
            EntryValue::VBool(b) => EntryValue::VBool(*b),
            EntryValue::VStr(s) => EntryValue::VStr(s.clone()),
            EntryValue::VCells(cs) => {
                let copy = cs.clone();
                proof {
                    assert(copy@.map_values(|c: RowCell| c@) =~= cs@.map_values(
                        |c: RowCell| c@,
                    ));
                }
                EntryValue::VCells(copy)
            },
        }
    }
}

/// One key/value binding of a row entry.
pub struct EntryField {
    pub key: String,
    pub value: EntryValue,
}

impl View for EntryField {
    type V = (Seq<char>, ValView);

    open spec fn view(&self) -> (Seq<char>, ValView) {
        (self.key@, self.value@)
    }
}

impl Clone for EntryField {
    fn clone(&self) -> (res: Self)
        ensures
            res@ == self@,
    {
        EntryField { key: self.key.clone(), value: self.value.clone() }
    }
}

/// A row entry: the generic nested-map value one row is stored as.
pub struct RowEntry {
    pub fields: Vec<EntryField>,
}

impl View for RowEntry {
    type V = Seq<(Seq<char>, ValView)>;

    open spec fn view(&self) -> Seq<(Seq<char>, ValView)> {
        self.fields@.map_values(|f: EntryField| f@)
    }
}

impl Clone for RowEntry {
    fn clone(&self) -> (res: Self)
        ensures
            res@ == self@,
    {
        let copy = self.fields.clone();
        proof {
            assert(copy@.map_values(|f: EntryField| f@) =~= self.fields@.map_values(
                |f: EntryField| f@,
            ));
        }
        RowEntry { fields: copy }
    }
}

/// A decoded row: id, height, visibility, and a sparse cells mapping. A field
/// absent from `cells` means "no value for this row", which is distinct from
/// an explicit empty payload.
pub struct Row {
    pub id: String,
    pub height: i64,
    pub visibility: bool,
    pub cells: Vec<RowCell>,
}

/// The mathematical shape of a [`Row`].
#[verifier::ext_equal]
pub struct RowView {
    pub id: Seq<char>,
    pub height: int,
    pub visibility: bool,
    pub cells: Seq<(Seq<char>, Seq<char>)>,
}

impl View for Row {
    type V = RowView;

    open spec fn view(&self) -> RowView {
        RowView {
            id: self.id@,
            height: self.height as int,
            visibility: self.visibility,
            cells: self.cells@.map_values(|c: RowCell| c@),
        }
    }
}

impl Clone for Row {
    fn clone(&self) -> (res: Self)
        ensures
            res@ == self@,
    {
        let copy = self.cells.clone();
        proof {
            assert(copy@.map_values(|c: RowCell| c@) =~= self.cells@.map_values(
                |c: RowCell| c@,
            ));
        }
        Row {
            id: self.id.clone(),
            height: self.height,
            visibility: self.visibility,
            cells: copy,
        }
    }
}

/// The reserved entry key holding the row id.
pub open spec fn key_id() -> Seq<char> {
    "id"@
}

/// The reserved entry key holding the row height.
pub open spec fn key_height() -> Seq<char> {
    "height"@
}

/// The reserved entry key holding the row visibility.
pub open spec fn key_visibility() -> Seq<char> {
    "visibility"@
}

/// The reserved entry key holding the cells mapping.
pub open spec fn key_cells() -> Seq<char> {
    "cells"@
}

/// The four reserved keys are pairwise distinct.
pub proof fn lemma_reserved_keys_distinct()
    ensures
        key_id() != key_height(),
        key_id() != key_visibility(),
        key_id() != key_cells(),
        key_height() != key_visibility(),
        key_height() != key_cells(),
        key_visibility() != key_cells(),
{
    reveal_strlit("id");
    reveal_strlit("height");
    reveal_strlit("visibility");
    reveal_strlit("cells");
    assert(key_id().len() == 2);
    assert(key_height().len() == 6);
    assert(key_visibility().len() == 10);
    assert(key_cells().len() == 5);
}

/// The id a row entry declares, if it declares one correctly.
pub open spec fn decode_id(e: Seq<(Seq<char>, ValView)>) -> Option<Seq<char>> {
    match assoc_find(e, key_id()) {
        Some(ValView::VStr(id)) => Some(id),
        _ => None,
    }
}

/// The height a row entry stores: missing defaults, a wrong shape fails.
pub open spec fn decode_height(e: Seq<(Seq<char>, ValView)>) -> Option<int> {
    match assoc_find(e, key_height()) {
        None => Some(DEFAULT_ROW_HEIGHT as int),
        Some(ValView::VInt(h)) => Some(h),
        Some(_) => None,
    }
}

/// The visibility a row entry stores: missing defaults to visible.
pub open spec fn decode_visibility(e: Seq<(Seq<char>, ValView)>) -> Option<bool> {
    match assoc_find(e, key_visibility()) {
        None => Some(true),
        Some(ValView::VBool(b)) => Some(b),
        Some(_) => None,
    }
}

/// The cells a row entry stores: missing means no cells at all.
pub open spec fn decode_cells(e: Seq<(Seq<char>, ValView)>) -> Option<
    Seq<(Seq<char>, Seq<char>)>,
> {
    match assoc_find(e, key_cells()) {
        None => Some(Seq::empty()),
        Some(ValView::VCells(cs)) => Some(cs),
        Some(_) => None,
    }
}

/// The row a generic entry decodes to, or nothing for a structurally invalid
/// entry. Missing optional keys are defaulted; a key of the wrong shape, or a
/// missing id, makes the whole entry invalid.
pub open spec fn decode_entry(e: Seq<(Seq<char>, ValView)>) -> Option<RowView> {
    match (decode_id(e), decode_height(e), decode_visibility(e), decode_cells(e)) {
        (Some(id), Some(height), Some(visibility), Some(cells)) => Some(
            RowView { id, height, visibility, cells },
        ),
        _ => None,
    }
}

/// The entry a row is written as: one binding per reserved key.
pub open spec fn encode_entry(r: RowView) -> Seq<(Seq<char>, ValView)> {
    seq![
        (key_id(), ValView::VStr(r.id)),
        (key_height(), ValView::VInt(r.height)),
        (key_visibility(), ValView::VBool(r.visibility)),
        (key_cells(), ValView::VCells(r.cells)),
    ]
}

/// Decoding is left inverse to encoding: a written row reads back exactly.
pub proof fn lemma_encode_decode_row(r: RowView)
    ensures
        decode_entry(encode_entry(r)) == Some(r),
{
    lemma_reserved_keys_distinct();
    let e = encode_entry(r);
    assert(e.drop_first() =~= seq![
        (key_height(), ValView::VInt(r.height)),
        (key_visibility(), ValView::VBool(r.visibility)),
        (key_cells(), ValView::VCells(r.cells)),
    ]);
    assert(e.drop_first().drop_first() =~= seq![
        (key_visibility(), ValView::VBool(r.visibility)),
        (key_cells(), ValView::VCells(r.cells)),
    ]);
    assert(e.drop_first().drop_first().drop_first() =~= seq![
        (key_cells(), ValView::VCells(r.cells)),
    ]);
    let t1 = e.drop_first();
    let t2 = t1.drop_first();
    let t3 = t2.drop_first();
    assert(assoc_find(e, key_id()) == Some(ValView::VStr(r.id)));
    assert(assoc_find(e, key_height()) == assoc_find(t1, key_height()));
    assert(assoc_find(t1, key_height()) == Some(ValView::VInt(r.height)));
    assert(assoc_find(e, key_visibility()) == assoc_find(t1, key_visibility()));
    assert(assoc_find(t1, key_visibility()) == assoc_find(t2, key_visibility()));
    assert(assoc_find(t2, key_visibility()) == Some(ValView::VBool(r.visibility)));
    assert(assoc_find(e, key_cells()) == assoc_find(t1, key_cells()));
    assert(assoc_find(t1, key_cells()) == assoc_find(t2, key_cells()));
    assert(assoc_find(t2, key_cells()) == assoc_find(t3, key_cells()));
    assert(assoc_find(t3, key_cells()) == Some(ValView::VCells(r.cells)));
}

/// Whether two strings read the same.
pub fn str_eq(a: &str, b: &str) -> (r: bool)
    ensures
        r == (a@ == b@),
{
    let owned_a = a.to_owned();
    let owned_b = b.to_owned();
    owned_a == owned_b
}

/// The first field of `fields` bound to `key`, as `assoc_find` names it.
pub fn find_field<'a>(fields: &'a Vec<EntryField>, key: &str) -> (r: Option<&'a EntryValue>)
    ensures
        match r {
            Some(v) => assoc_find(
                fields@.map_values(|f: EntryField| f@),
                key@,
            ) == Some(v@),
            None => assoc_find(fields@.map_values(|f: EntryField| f@), key@) is None,
        },
{
    let ghost view = fields@.map_values(|f: EntryField| f@);
    let mut i: usize = 0;
    while i < fields.len()
        invariant
            0 <= i <= fields.len(),
            view == fields@.map_values(|f: EntryField| f@),
            forall|j: int| 0 <= j < i ==> view[j].0 != key@,
        decreases fields.len() - i,
    {
        if str_eq(fields[i].key.as_str(), key) {
            proof {
                crate::assoc::lemma_assoc_find_present(view, key@, i as int);
            }
            return Some(&fields[i].value);
        }
        i += 1;
    }
    proof {
        crate::assoc::lemma_assoc_find_absent(view, key@);
    }
    None
}

/// The row `entry` decodes to, or nothing for a structurally invalid entry.
pub fn row_from_entry(entry: &RowEntry) -> (r: Option<Row>)
    ensures
        match r {
            Some(row) => decode_entry(entry@) == Some(row@),
            None => decode_entry(entry@) is None,
        },
{
    let id: String = match find_field(&entry.fields, "id") {
        Some(EntryValue::VStr(s)) => s.clone(),
        _ => {
            return None;
        },
    };
    let height: i64 = match find_field(&entry.fields, "height") {
        None => DEFAULT_ROW_HEIGHT,
        Some(EntryValue::VInt(h)) => *h,
        Some(_) => {
            return None;
        },
    };
    let visibility: bool = match find_field(&entry.fields, "visibility") {
        None => true,
        Some(EntryValue::VBool(b)) => *b,
        Some(_) => {
            return None;
        },
    };
    let cells: Vec<RowCell> = match find_field(&entry.fields, "cells") {
        None => Vec::new(),
        Some(EntryValue::VCells(cs)) => {
            let copy = cs.clone();
            proof {
                assert(copy@.map_values(|c: RowCell| c@) =~= cs@.map_values(|c: RowCell| c@));
            }
            copy
        },
        Some(_) => {
            return None;
        },
    };
    proof {
        assert(cells@.map_values(|c: RowCell| c@) =~= decode_cells(entry@).unwrap());
    }
    Some(Row { id, height, visibility, cells })
}

} // verus!
