//! The replicated document: a container of generic row entries, mutated only
//! through scoped transactions. At most one write transaction is open at a
//! time; each committed write transaction yields exactly one update record,
//! which carries the operations it applied, a causal sequence marker, and the
//! origin tag of the authoring actor. Applying a record to a document whose
//! version matches the record's marker replays exactly the committed
//! operations; any other record is a no-op, so duplicate delivery is
//! harmless.

use vstd::prelude::*;
use vstd::pervasive::VecAdditionalExecFns;

use crate::CollabError;
use crate::assoc::{
    assoc_find, assoc_keys_distinct, assoc_set, lemma_assoc_find_absent,
    lemma_assoc_find_present, lemma_assoc_set_append, lemma_assoc_set_distinct,
    lemma_assoc_set_update,
};
use crate::rows::{key_cells, EntryField, EntryValue, RowCell, RowEntry, ValView};

verus! {

/// One operation on the row container. Operations are field-granular: two
/// writers that touch different keys of the same entry both take effect.
pub enum DocOp {
    /// Bind `row_id` to a fresh, empty entry.
    PutEntry { row_id: String },
    /// Bind one key of the entry under `row_id`; no entry, no effect.
    PutField { row_id: String, key: String, value: EntryValue },
    /// Bind one cell of the entry under `row_id`; no entry, no effect.
    PutCell { row_id: String, field_id: String, data: String },
}

/// The mathematical shape of a [`DocOp`].
pub enum OpView {
    PutEntry { row_id: Seq<char> },
    PutField { row_id: Seq<char>, key: Seq<char>, value: ValView },
    PutCell { row_id: Seq<char>, field_id: Seq<char>, data: Seq<char> },
}

impl View for DocOp {
    type V = OpView;

    open spec fn view(&self) -> OpView {
        match self {
            DocOp::PutEntry { row_id } => OpView::PutEntry { row_id: row_id@ },
            DocOp::PutField { row_id, key, value } => OpView::PutField {
                row_id: row_id@,
                key: key@,
                value: value@,
            },
            DocOp::PutCell { row_id, field_id, data } => OpView::PutCell {
                row_id: row_id@,
                field_id: field_id@,
                data: data@,
            },
        }
    }
}

/// The state one operation leaves the row container in.
pub open spec fn apply_op(
    entries: Seq<(Seq<char>, Seq<(Seq<char>, ValView)>)>,
    op: OpView,
) -> Seq<(Seq<char>, Seq<(Seq<char>, ValView)>)> {
    match op {
        OpView::PutEntry { row_id } => assoc_set(entries, row_id, Seq::empty()),
        OpView::PutField { row_id, key, value } => match assoc_find(entries, row_id) {
            None => entries,
            Some(e) => assoc_set(entries, row_id, assoc_set(e, key, value)),
        },
        OpView::PutCell { row_id, field_id, data } => match assoc_find(entries, row_id) {
            None => entries,
            Some(e) => {
                let cells = match assoc_find(e, key_cells()) {
                    Some(ValView::VCells(cs)) => cs,
                    _ => Seq::empty(),
                };
                let updated = ValView::VCells(assoc_set(cells, field_id, data));
                assoc_set(entries, row_id, assoc_set(e, key_cells(), updated))
            },
        },
    }
}

/// The state a sequence of operations leaves the row container in, applied in
/// order.
pub open spec fn apply_ops(
    entries: Seq<(Seq<char>, Seq<(Seq<char>, ValView)>)>,
    ops: Seq<OpView>,
) -> Seq<(Seq<char>, Seq<(Seq<char>, ValView)>)>
    decreases ops.len(),
{
    if ops.len() == 0 {
        entries
    } else {
        apply_op(apply_ops(entries, ops.drop_last()), ops.last())
    }
}

/// Applying operations never duplicates a row id.
pub proof fn lemma_apply_ops_distinct(
    entries: Seq<(Seq<char>, Seq<(Seq<char>, ValView)>)>,
    ops: Seq<OpView>,
)
    requires
        assoc_keys_distinct(entries),
    ensures
        assoc_keys_distinct(apply_ops(entries, ops)),
    decreases ops.len(),
{
    if ops.len() > 0 {
        lemma_apply_ops_distinct(entries, ops.drop_last());
        let mid = apply_ops(entries, ops.drop_last());
        match ops.last() {
            OpView::PutEntry { row_id } => {
                lemma_assoc_set_distinct(mid, row_id, Seq::empty());
            },
            OpView::PutField { row_id, key, value } => {
                if let Some(e) = assoc_find(mid, row_id) {
                    lemma_assoc_set_distinct(mid, row_id, assoc_set(e, key, value));
                }
            },
            OpView::PutCell { row_id, field_id, data } => {
                if let Some(e) = assoc_find(mid, row_id) {
                    let cells = match assoc_find(e, key_cells()) {
                        Some(ValView::VCells(cs)) => cs,
                        _ => Seq::empty(),
                    };
                    let updated = ValView::VCells(assoc_set(cells, field_id, data));
                    lemma_assoc_set_distinct(mid, row_id, assoc_set(e, key_cells(), updated));
                }
            },
        }
    }
}

impl Clone for DocOp {
    fn clone(&self) -> (res: Self)
        ensures
            res@ == self@,
    {
        match self {
            DocOp::PutEntry { row_id } => DocOp::PutEntry { row_id: row_id.clone() },
            DocOp::PutField { row_id, key, value } => DocOp::PutField {
                row_id: row_id.clone(),
                key: key.clone(),
                value: value.clone(),
            },
            DocOp::PutCell { row_id, field_id, data } => DocOp::PutCell {
                row_id: row_id.clone(),
                field_id: field_id.clone(),
                data: data.clone(),
            },
        }
    }
}

/// The minimal encoded delta of one committed write transaction: a causal
/// marker summarizing what the writer already knew (the document version it
/// committed against), the operations applied, and the origin tag of the
/// authoring actor. Immutable once produced.
pub struct UpdateRecord {
    pub seq: u64,
    pub origin: String,
    pub ops: Vec<DocOp>,
}

/// The mathematical shape of an [`UpdateRecord`].
#[verifier::ext_equal]
pub struct RecordView {
    pub seq: int,
    pub origin: Seq<char>,
    pub ops: Seq<OpView>,
}

impl View for UpdateRecord {
    type V = RecordView;

    open spec fn view(&self) -> RecordView {
        RecordView {
            seq: self.seq as int,
            origin: self.origin@,
            ops: self.ops@.map_values(|op: DocOp| op@),
        }
    }
}

impl Clone for UpdateRecord {
    fn clone(&self) -> (res: Self)
        ensures
            res@ == self@,
    {
        let ops = self.ops.clone();
        proof {
            assert(ops@.map_values(|op: DocOp| op@) =~= self.ops@.map_values(|op: DocOp| op@));
        }
        UpdateRecord { seq: self.seq, origin: self.origin.clone(), ops }
    }
}

/// The observable content of a document: its row container and its version,
/// the count of update records folded into it.
#[verifier::ext_equal]
pub struct DocContent {
    pub entries: Seq<(Seq<char>, Seq<(Seq<char>, ValView)>)>,
    pub version: int,
}

/// The state one update record leaves a document in. A record whose causal
/// marker does not name the document's present version — a duplicate or a
/// reordered delivery — is a no-op.
pub open spec fn apply_record(c: DocContent, r: RecordView) -> DocContent {
    if r.seq == c.version {
        DocContent { entries: apply_ops(c.entries, r.ops), version: c.version + 1 }
    } else {
        c
    }
}

/// One row entry of a document, keyed by row id.
pub struct DocEntry {
    pub row_id: String,
    pub entry: RowEntry,
}

impl View for DocEntry {
    type V = (Seq<char>, Seq<(Seq<char>, ValView)>);

    open spec fn view(&self) -> (Seq<char>, Seq<(Seq<char>, ValView)>) {
        (self.row_id@, self.entry@)
    }
}

impl Clone for DocEntry {
    fn clone(&self) -> (res: Self)
        ensures
            res@ == self@,
    {
        DocEntry { row_id: self.row_id.clone(), entry: self.entry.clone() }
    }
}

/// An open write transaction: the origin it was requested with, the version
/// it is based on, and the operations staged so far. Committing it applies
/// the operations and seals them into one update record.
pub struct WriteTransaction {
    origin: String,
    base_version: u64,
    ops: Vec<DocOp>,
}

/// The mathematical shape of a [`WriteTransaction`].
#[verifier::ext_equal]
pub struct WriteTxnView {
    pub origin: Seq<char>,
    pub base_version: int,
    pub ops: Seq<OpView>,
}

impl View for WriteTransaction {
    type V = WriteTxnView;

    closed spec fn view(&self) -> WriteTxnView {
        WriteTxnView {
            origin: self.origin@,
            base_version: self.base_version as int,
            ops: self.ops@.map_values(|op: DocOp| op@),
        }
    }
}

impl WriteTransaction {
    /// Stage a fresh, empty entry under `row_id`.
    pub fn put_entry(&mut self, row_id: String)
        ensures
            final(self)@ == (WriteTxnView {
                ops: old(self)@.ops.push(OpView::PutEntry { row_id: row_id@ }),
                ..old(self)@
            }),
    {
        self.ops.push(DocOp::PutEntry { row_id });
        proof {
            assert(self@.ops =~= old(self)@.ops.push(OpView::PutEntry { row_id: row_id@ }));
            assert(self@ =~= (WriteTxnView {
                ops: old(self)@.ops.push(OpView::PutEntry { row_id: row_id@ }),
                ..old(self)@
            }));
        }
    }

    /// Stage one key of the entry under `row_id`.
    pub fn put_field(&mut self, row_id: String, key: String, value: EntryValue)
        ensures
            final(self)@ == (WriteTxnView {
                ops: old(self)@.ops.push(
                    OpView::PutField { row_id: row_id@, key: key@, value: value@ },
                ),
                ..old(self)@
            }),
    {
        let ghost op_view = OpView::PutField { row_id: row_id@, key: key@, value: value@ };
        self.ops.push(DocOp::PutField { row_id, key, value });
        proof {
            assert(self@.ops =~= old(self)@.ops.push(op_view));
            assert(self@ =~= (WriteTxnView { ops: old(self)@.ops.push(op_view), ..old(self)@ }));
        }
    }

    /// Stage one cell of the entry under `row_id`.
    pub fn put_cell(&mut self, row_id: String, field_id: String, data: String)
        ensures
            final(self)@ == (WriteTxnView {
                ops: old(self)@.ops.push(
                    OpView::PutCell { row_id: row_id@, field_id: field_id@, data: data@ },
                ),
                ..old(self)@
            }),
    {
        let ghost op_view = OpView::PutCell {
            row_id: row_id@,
            field_id: field_id@,
            data: data@,
        };
        self.ops.push(DocOp::PutCell { row_id, field_id, data });
        proof {
            assert(self@.ops =~= old(self)@.ops.push(op_view));
            assert(self@ =~= (WriteTxnView { ops: old(self)@.ops.push(op_view), ..old(self)@ }));
        }
    }

    /// The origin this transaction was requested with.
    pub fn origin(&self) -> (r: &String)
        ensures
            r@ == self@.origin,
    {
        &self.origin
    }

    /// The document version this transaction is based on.
    pub fn base_version(&self) -> (r: u64)
        ensures
            r as int == self@.base_version,
    {
        self.base_version
    }
}

/// A read transaction: a shared handle observing one consistent snapshot of
/// the document. Any number may coexist.
pub struct ReadTransaction<'a> {
    doc: &'a Document,
}

impl<'a> View for ReadTransaction<'a> {
    type V = Seq<(Seq<char>, Seq<(Seq<char>, ValView)>)>;

    closed spec fn view(&self) -> Seq<(Seq<char>, Seq<(Seq<char>, ValView)>)> {
        self.doc@.entries
    }
}

impl<'a> ReadTransaction<'a> {
    /// The entries visible to this transaction, in container order.
    pub fn entries(&self) -> (r: &'a Vec<DocEntry>)
        ensures
            r@.map_values(|e: DocEntry| e@) == self@,
    {
        &self.doc.entries
    }
}

/// The full state of a document, as contracts speak of it.
#[verifier::ext_equal]
pub struct DocumentView {
    pub origin: Seq<char>,
    pub entries: Seq<(Seq<char>, Seq<(Seq<char>, ValView)>)>,
    pub version: int,
    pub write_open: bool,
    pub outbox: Seq<RecordView>,
}

/// The replicated state for one object: a row container plus the transaction
/// and record bookkeeping around it.
pub struct Document {
    origin: String,
    entries: Vec<DocEntry>,
    version: u64,
    write_open: bool,
    outbox: Vec<UpdateRecord>,
}

impl View for Document {
    type V = DocumentView;

    closed spec fn view(&self) -> DocumentView {
        DocumentView {
            origin: self.origin@,
            entries: self.entries@.map_values(|e: DocEntry| e@),
            version: self.version as int,
            write_open: self.write_open,
            outbox: self.outbox@.map_values(|r: UpdateRecord| r@),
        }
    }
}

/// Pure arbitration: grant a write transaction only on a document with none
/// open, and lock the document by granting.
pub open spec fn grant_write(d: DocumentView) -> (DocumentView, bool) {
    if !d.write_open {
        (DocumentView { write_open: true, ..d }, true)
    } else {
        (d, false)
    }
}

/// Write-transaction mutual exclusion: of two write-transaction requests
/// racing on one document, at most one is granted; the second is refused
/// until the first transaction completes and releases the document.
pub proof fn lemma_write_mutual_exclusion(d: DocumentView)
    ensures
        !(grant_write(d).1 && grant_write(grant_write(d).0).1),
        grant_write(grant_write(d).0).0 == grant_write(d).0,
{
    assert(grant_write(grant_write(d).0).0 =~= grant_write(d).0);
}

impl Document {
    /// Row ids are unique within the row container.
    pub open spec fn inv(&self) -> bool {
        assoc_keys_distinct(self@.entries)
    }

    /// The observable content of this document.
    pub open spec fn content(&self) -> DocContent {
        DocContent { entries: self@.entries, version: self@.version }
    }

    /// A fresh, empty document owned by the actor tagged `origin`.
    pub fn new(origin: String) -> (r: Self)
        ensures
            r@ == (DocumentView {
                origin: origin@,
                entries: Seq::empty(),
                version: 0,
                write_open: false,
                outbox: Seq::empty(),
            }),
            r.inv(),
    {
        let r = Document {
            origin,
            entries: Vec::new(),
            version: 0,
            write_open: false,
            outbox: Vec::new(),
        };
        proof {
            assert(r@ =~= (DocumentView {
                origin: r.origin@,
                entries: Seq::empty(),
                version: 0,
                write_open: false,
                outbox: Seq::empty(),
            }));
        }
        r
    }

    /// Open a read transaction. Read transactions are freely concurrent and
    /// observe the state before any pending write commits.
    pub fn begin_read(&self) -> (r: ReadTransaction<'_>)
        ensures
            r@ == self@.entries,
    {
        ReadTransaction { doc: self }
    }

    /// Request a write transaction with this document's own origin,
    /// refusing if one is already open.
    pub fn try_begin_write(&mut self) -> (r: Result<WriteTransaction, CollabError>)
        ensures
            r is Ok <==> !old(self)@.write_open,
            r is Ok <==> grant_write(old(self)@).1,
            final(self)@ == grant_write(old(self)@).0,
            r matches Ok(txn) ==> txn@ == (WriteTxnView {
                origin: old(self)@.origin,
                base_version: old(self)@.version,
                ops: Seq::empty(),
            }),
            r is Err ==> r == Err::<WriteTransaction, CollabError>(
                CollabError::AcquiredWriteTxnFail,
            ),
            old(self).inv() ==> final(self).inv(),
    {
        let origin = self.origin.clone();
        self.try_begin_write_with(origin)
    }

    /// Request a write transaction on behalf of `origin`, refusing if one is
    /// already open. The origin is threaded unchanged into the update record
    /// the transaction commits to.
    pub fn try_begin_write_with(&mut self, origin: String) -> (r: Result<
        WriteTransaction,
        CollabError,
    >)
        ensures
            r is Ok <==> !old(self)@.write_open,
            r is Ok <==> grant_write(old(self)@).1,
            final(self)@ == grant_write(old(self)@).0,
            r matches Ok(txn) ==> txn@ == (WriteTxnView {
                origin: origin@,
                base_version: old(self)@.version,
                ops: Seq::empty(),
            }),
            r is Err ==> r == Err::<WriteTransaction, CollabError>(
                CollabError::AcquiredWriteTxnFail,
            ),
            old(self).inv() ==> final(self).inv(),
    {
        if self.write_open {
            proof {
                assert(self@ =~= grant_write(old(self)@).0);
            }
            Err(CollabError::AcquiredWriteTxnFail)
        } else {
            self.write_open = true;
            let txn = WriteTransaction { origin, base_version: self.version, ops: Vec::new() };
            proof {
                assert(self@ =~= grant_write(old(self)@).0);
                assert(txn@ =~= (WriteTxnView {
                    origin: txn.origin@,
                    base_version: old(self)@.version,
                    ops: Seq::empty(),
                }));
            }
            Ok(txn)
        }
    }

    /// Abandon an open write transaction: the document is released and no
    /// effect of the transaction is visible.
    pub fn abandon_write(&mut self, txn: WriteTransaction)
        requires
            old(self)@.write_open,
        ensures
            final(self)@ == (DocumentView { write_open: false, ..old(self)@ }),
            old(self).inv() ==> final(self).inv(),
    {
        let WriteTransaction { origin: _, base_version: _, ops: _ } = txn;
        self.write_open = false;
        proof {
            assert(self@ =~= (DocumentView { write_open: false, ..old(self)@ }));
        }
    }

    /// Commit an open write transaction: apply its staged operations, advance
    /// the version, release the document, and append the one update record
    /// this commit yields to the outbox.
    pub fn commit(&mut self, txn: WriteTransaction)
        requires
            old(self)@.write_open,
            txn@.base_version == old(self)@.version,
            old(self)@.version < u64::MAX,
        ensures
            final(self)@.entries == apply_ops(old(self)@.entries, txn@.ops),
            final(self)@.version == old(self)@.version + 1,
            !final(self)@.write_open,
            final(self)@.origin == old(self)@.origin,
            final(self)@.outbox == old(self)@.outbox.push(
                RecordView { seq: old(self)@.version, origin: txn@.origin, ops: txn@.ops },
            ),
            final(self).content() == apply_record(
                old(self).content(),
                RecordView { seq: old(self)@.version, origin: txn@.origin, ops: txn@.ops },
            ),
            old(self).inv() ==> final(self).inv(),
    {
        let WriteTransaction { origin, base_version: _, ops } = txn;
        let ghost op_views = ops@.map_values(|op: DocOp| op@);
        let mut i: usize = 0;
        while i < ops.len()
            invariant
                0 <= i <= ops.len(),
                op_views == ops@.map_values(|op: DocOp| op@),
                self@.entries == apply_ops(old(self)@.entries, op_views.take(i as int)),
                self.version == old(self).version,
                self.write_open == old(self).write_open,
                self@.origin == old(self)@.origin,
                self@.outbox == old(self)@.outbox,
            decreases ops.len() - i,
        {
            apply_one(&mut self.entries, &ops[i]);
            proof {
                assert(op_views.take(i + 1 as int).drop_last() =~= op_views.take(i as int));
                assert(op_views.take(i + 1 as int).last() == op_views[i as int]);
            }
            i += 1;
        }
        proof {
            assert(op_views.take(ops@.len() as int) =~= op_views);
        }
        let record = UpdateRecord { seq: self.version, origin, ops };
        let ghost record_view = record@;
        self.version = self.version + 1;
        self.write_open = false;
        self.outbox.push(record);
        proof {
            assert(self@.outbox =~= old(self)@.outbox.push(record_view));
            assert(self.content() =~= apply_record(old(self).content(), record_view));
            if old(self).inv() {
                lemma_apply_ops_distinct(old(self)@.entries, op_views);
            }
        }
    }

    /// Apply one incoming update record, as received from a replica or
    /// replayed from a log. A record whose causal marker does not name this
    /// document's present version is a duplicate or out of order and has no
    /// effect. Nothing is re-emitted: the outbox carries only locally
    /// committed records.
    pub fn apply_update(&mut self, record: &UpdateRecord)
        requires
            !old(self)@.write_open,
            old(self)@.version < u64::MAX,
        ensures
            final(self).content() == apply_record(old(self).content(), record@),
            final(self)@.origin == old(self)@.origin,
            final(self)@.write_open == old(self)@.write_open,
            final(self)@.outbox == old(self)@.outbox,
            old(self).inv() ==> final(self).inv(),
    {
        if record.seq == self.version {
            let ghost op_views = record.ops@.map_values(|op: DocOp| op@);
            let mut i: usize = 0;
            while i < record.ops.len()
                invariant
                    0 <= i <= record.ops.len(),
                    op_views == record.ops@.map_values(|op: DocOp| op@),
                    self@.entries == apply_ops(old(self)@.entries, op_views.take(i as int)),
                    self.version == old(self).version,
                    self.write_open == old(self).write_open,
                    self@.origin == old(self)@.origin,
                    self@.outbox == old(self)@.outbox,
                decreases record.ops.len() - i,
            {
                apply_one(&mut self.entries, &record.ops[i]);
                proof {
                    assert(op_views.take(i + 1 as int).drop_last() =~= op_views.take(i as int));
                    assert(op_views.take(i + 1 as int).last() == op_views[i as int]);
                }
                i += 1;
            }
            proof {
                assert(op_views.take(record.ops@.len() as int) =~= op_views);
            }
            self.version = self.version + 1;
            proof {
                assert(self.content() =~= apply_record(old(self).content(), record@));
                if old(self).inv() {
                    lemma_apply_ops_distinct(old(self)@.entries, op_views);
                }
            }
        } else {
            proof {
                assert(self.content() =~= apply_record(old(self).content(), record@));
            }
        }
    }

    /// Drain the update records committed so far, in commit order, for
    /// durable append or outbound broadcast.
    pub fn take_updates(&mut self) -> (r: Vec<UpdateRecord>)
        ensures
            r@.map_values(|rec: UpdateRecord| rec@) == old(self)@.outbox,
            final(self)@ == (DocumentView { outbox: Seq::empty(), ..old(self)@ }),
            old(self).inv() ==> final(self).inv(),
    {
        let r = self.outbox.split_off(0);
        proof {
            assert(r@.map_values(|rec: UpdateRecord| rec@) =~= old(self)@.outbox);
            assert(self@ =~= (DocumentView { outbox: Seq::empty(), ..old(self)@ }));
        }
        r
    }

    /// The number of committed update records not yet drained.
    pub fn pending_update_count(&self) -> (r: usize)
        ensures
            r == self@.outbox.len(),
    {
        self.outbox.len()
    }

    /// The number of row entries the container holds.
    pub fn entry_count(&self) -> (r: usize)
        ensures
            r == self@.entries.len(),
    {
        self.entries.len()
    }

    /// The count of update records folded into this document.
    pub fn version(&self) -> (r: u64)
        ensures
            r as int == self@.version,
    {
        self.version
    }

    /// Whether a write transaction is currently open.
    pub fn is_write_open(&self) -> (r: bool)
        ensures
            r == self@.write_open,
    {
        self.write_open
    }

    /// The origin tag this document commits on behalf of by default.
    pub fn origin(&self) -> (r: &String)
        ensures
            r@ == self@.origin,
    {
        &self.origin
    }

    /// Install a stored snapshot into this still-empty document, as the
    /// first step of replaying a persisted entry.
    pub fn restore_snapshot(&mut self, entries: Vec<DocEntry>, version: u64)
        requires
            old(self)@.entries.len() == 0,
            old(self)@.version == 0,
            !old(self)@.write_open,
        ensures
            final(self)@ == (DocumentView {
                entries: entries@.map_values(|e: DocEntry| e@),
                version: version as int,
                ..old(self)@
            }),
            assoc_keys_distinct(entries@.map_values(|e: DocEntry| e@)) ==> final(self).inv(),
    {
        self.entries = entries;
        self.version = version;
        proof {
            assert(self@ =~= (DocumentView {
                entries: self.entries@.map_values(|e: DocEntry| e@),
                version: version as int,
                ..old(self)@
            }));
        }
    }

    /// A copy of the row container, for use as a compaction snapshot.
    pub fn clone_entries(&self) -> (r: Vec<DocEntry>)
        ensures
            r@.map_values(|e: DocEntry| e@) == self@.entries,
    {
        let r = self.entries.clone();
        proof {
            assert(r@.map_values(|e: DocEntry| e@) =~= self.entries@.map_values(
                |e: DocEntry| e@,
            ));
        }
        r
    }

    /// The entry bound to `row_id`, if any.
    pub fn entry_of(&self, row_id: &str) -> (r: Option<&RowEntry>)
        ensures
            match r {
                Some(e) => assoc_find(self@.entries, row_id@) == Some(e@),
                None => assoc_find(self@.entries, row_id@) is None,
            },
    {
        let ghost view = self@.entries;
        match find_entry_index(&self.entries, row_id) {
            Some(i) => {
                proof {
                    assert forall|j: int| 0 <= j < i implies view[j].0 != row_id@ by {
                        assert(view[j] == self.entries@[j]@);
                    }
                    lemma_assoc_find_present(view, row_id@, i as int);
                }
                Some(&self.entries[i].entry)
            },
            None => {
                proof {
                    assert forall|j: int| 0 <= j < view.len() implies view[j].0 != row_id@ by {
                        assert(view[j] == self.entries@[j]@);
                    }
                    lemma_assoc_find_absent(view, row_id@);
                }
                None
            },
        }
    }
}

/// The index of the entry bound to `row_id`, if any.
fn find_entry_index(entries: &Vec<DocEntry>, row_id: &str) -> (r: Option<usize>)
    ensures
        match r {
            Some(i) => {
                &&& i < entries@.len()
                &&& entries@.map_values(|e: DocEntry| e@)[i as int].0 == row_id@
                &&& forall|j: int| 0 <= j < i ==> (#[trigger] entries@[j])@.0 != row_id@
            },
            None => forall|j: int|
                0 <= j < entries@.len() ==> (#[trigger] entries@[j])@.0 != row_id@,
        },
{
    let mut i: usize = 0;
    while i < entries.len()
        invariant
            0 <= i <= entries.len(),
            forall|j: int| 0 <= j < i ==> (#[trigger] entries@[j])@.0 != row_id@,
        decreases entries.len() - i,
    {
        if crate::rows::str_eq(entries[i].row_id.as_str(), row_id) {
            return Some(i);
        }
        i += 1;
    }
    None
}

/// Bind one key within a field list, replacing its first binding or
/// appending one.
fn set_field_in(fields: &mut Vec<EntryField>, key: String, value: EntryValue)
    ensures
        final(fields)@.map_values(|f: EntryField| f@) == assoc_set(
            old(fields)@.map_values(|f: EntryField| f@),
            key@,
            value@,
        ),
{
    let ghost view = old(fields)@.map_values(|f: EntryField| f@);
    let mut i: usize = 0;
    while i < fields.len()
        invariant
            0 <= i <= fields.len(),
            fields@ == old(fields)@,
            view == fields@.map_values(|f: EntryField| f@),
            forall|j: int| 0 <= j < i ==> view[j].0 != key@,
        decreases fields.len() - i,
    {
        if crate::rows::str_eq(fields[i].key.as_str(), key.as_str()) {
            proof {
                lemma_assoc_set_update(view, key@, value@, i as int);
            }
            let ghost key_view = key@;
            let ghost value_view = value@;
            fields.set(i, EntryField { key, value });
            proof {
                assert(fields@.map_values(|f: EntryField| f@) =~= view.update(
                    i as int,
                    (key_view, value_view),
                ));
            }
            return ;
        }
        i += 1;
    }
    proof {
        lemma_assoc_set_append(view, key@, value@);
    }
    let ghost key_view = key@;
    let ghost value_view = value@;
    fields.push(EntryField { key, value });
    proof {
        assert(fields@.map_values(|f: EntryField| f@) =~= view.push((key_view, value_view)));
    }
}

/// Bind one cell within a cell list, replacing its first binding or
/// appending one.
fn set_cell_in(cells: &mut Vec<RowCell>, field_id: String, data: String)
    ensures
        final(cells)@.map_values(|c: RowCell| c@) == assoc_set(
            old(cells)@.map_values(|c: RowCell| c@),
            field_id@,
            data@,
        ),
{
    let ghost view = old(cells)@.map_values(|c: RowCell| c@);
    let mut i: usize = 0;
    while i < cells.len()
        invariant
            0 <= i <= cells.len(),
            cells@ == old(cells)@,
            view == cells@.map_values(|c: RowCell| c@),
            forall|j: int| 0 <= j < i ==> view[j].0 != field_id@,
        decreases cells.len() - i,
    {
        if crate::rows::str_eq(cells[i].field_id.as_str(), field_id.as_str()) {
            proof {
                lemma_assoc_set_update(view, field_id@, data@, i as int);
            }
            let ghost field_view = field_id@;
            let ghost data_view = data@;
            cells.set(i, RowCell { field_id, data });
            proof {
                assert(cells@.map_values(|c: RowCell| c@) =~= view.update(
                    i as int,
                    (field_view, data_view),
                ));
            }
            return ;
        }
        i += 1;
    }
    proof {
        lemma_assoc_set_append(view, field_id@, data@);
    }
    let ghost field_view = field_id@;
    let ghost data_view = data@;
    cells.push(RowCell { field_id, data });
    proof {
        assert(cells@.map_values(|c: RowCell| c@) =~= view.push((field_view, data_view)));
    }
}

/// Apply one operation to the row container.
fn apply_one(entries: &mut Vec<DocEntry>, op: &DocOp)
    ensures
        final(entries)@.map_values(|e: DocEntry| e@) == apply_op(
            old(entries)@.map_values(|e: DocEntry| e@),
            op@,
        ),
{
    let ghost view = old(entries)@.map_values(|e: DocEntry| e@);
    match op {
        DocOp::PutEntry { row_id } => {
            let fresh = RowEntry { fields: Vec::new() };
            let ghost fresh_view = fresh@;
            proof {
                assert(fresh_view =~= Seq::<(Seq<char>, ValView)>::empty());
            }
            match find_entry_index(entries, row_id.as_str()) {
                Some(i) => {
                    proof {
                        lemma_assoc_set_update(view, row_id@, fresh_view, i as int);
                    }
                    entries.set(i, DocEntry { row_id: row_id.clone(), entry: fresh });
                    proof {
                        assert(entries@.map_values(|e: DocEntry| e@) =~= view.update(
                            i as int,
                            (row_id@, fresh_view),
                        ));
                    }
                },
                None => {
                    proof {
                        lemma_assoc_find_absent(view, row_id@);
                        lemma_assoc_set_append(view, row_id@, fresh_view);
                    }
                    entries.push(DocEntry { row_id: row_id.clone(), entry: fresh });
                    proof {
                        assert(entries@.map_values(|e: DocEntry| e@) =~= view.push(
                            (row_id@, fresh_view),
                        ));
                    }
                },
            }
        },
        DocOp::PutField { row_id, key, value } => {
            match find_entry_index(entries, row_id.as_str()) {
                Some(i) => {
                    proof {
                        lemma_assoc_find_present(view, row_id@, i as int);
                    }
                    let mut fields = entries[i].entry.clone().fields;
                    set_field_in(&mut fields, key.clone(), value.clone());
                    let updated = RowEntry { fields };
                    proof {
                        lemma_assoc_set_update(view, row_id@, updated@, i as int);
                    }
                    let ghost updated_view = updated@;
                    entries.set(i, DocEntry { row_id: row_id.clone(), entry: updated });
                    proof {
                        assert(entries@.map_values(|e: DocEntry| e@) =~= view.update(
                            i as int,
                            (row_id@, updated_view),
                        ));
                    }
                },
                None => {
                    proof {
                        lemma_assoc_find_absent(view, row_id@);
                    }
                },
            }
        },
        DocOp::PutCell { row_id, field_id, data } => {
            match find_entry_index(entries, row_id.as_str()) {
                Some(i) => {
                    proof {
                        lemma_assoc_find_present(view, row_id@, i as int);
                    }
                    let base = entries[i].entry.clone();
                    let mut cells: Vec<RowCell> = match crate::rows::find_field(
                        &base.fields,
                        "cells",
                    ) {
                        Some(EntryValue::VCells(cs)) => {
                            let copy = cs.clone();
                            proof {
                                assert(copy@.map_values(|c: RowCell| c@) =~= cs@.map_values(
                                    |c: RowCell| c@,
                                ));
                            }
                            copy
                        },
                        _ => Vec::new(),
                    };
                    set_cell_in(&mut cells, field_id.clone(), data.clone());
                    let mut fields = base.fields;
                    set_field_in(&mut fields, "cells".to_owned(), EntryValue::VCells(cells));
                    let updated = RowEntry { fields };
                    proof {
                        lemma_assoc_set_update(view, row_id@, updated@, i as int);
                    }
                    let ghost updated_view = updated@;
                    entries.set(i, DocEntry { row_id: row_id.clone(), entry: updated });
                    proof {
                        assert(entries@.map_values(|e: DocEntry| e@) =~= view.update(
                            i as int,
                            (row_id@, updated_view),
                        ));
                    }
                },
                None => {
                    proof {
                        lemma_assoc_find_absent(view, row_id@);
                    }
                },
            }
        },
    }
}

} // verus!
