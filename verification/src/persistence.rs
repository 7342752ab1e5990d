//! Durable, multi-tenant storage of documents as a snapshot plus an
//! append-only log of update records, keyed by (owner id, scope id, object
//! id) — the same object id under different scopes is a fully independent
//! entry. Each entry tracks the records pending since its last snapshot;
//! when they reach the configured threshold, they are folded into a new
//! snapshot and discarded, which bounds the cost of a load. A mutating call
//! through `&mut` is the durability boundary: it returns with the whole
//! batch applied, and no half-applied state can be observed.

use vstd::prelude::*;

use crate::assoc::{
    assoc_find, assoc_remove, assoc_set, lemma_assoc_find_absent, lemma_assoc_find_present,
    lemma_assoc_find_set_other, lemma_assoc_remove_absent, lemma_assoc_remove_at,
    lemma_assoc_set_append, lemma_assoc_set_update,
};
use crate::document::{
    apply_record, DocContent, DocEntry, Document, RecordView, UpdateRecord,
};

verus! {

/// The key of one persisted entry: owner, scope, object.
pub struct EntryKey {
    pub uid: i64,
    pub workspace_id: String,
    pub object_id: String,
}

impl View for EntryKey {
    type V = (int, Seq<char>, Seq<char>);

    open spec fn view(&self) -> (int, Seq<char>, Seq<char>) {
        (self.uid as int, self.workspace_id@, self.object_id@)
    }
}

impl Clone for EntryKey {
    fn clone(&self) -> (res: Self)
        ensures
            res@ == self@,
    {
        EntryKey {
            uid: self.uid,
            workspace_id: self.workspace_id.clone(),
            object_id: self.object_id.clone(),
        }
    }
}

/// Whether two entry keys name the same entry.
pub fn key_eq(a: &EntryKey, b: &EntryKey) -> (r: bool)
    ensures
        r == (a@ == b@),
{
    a.uid == b.uid && a.workspace_id == b.workspace_id && a.object_id == b.object_id
}

/// A full encoded document state, used as a compaction checkpoint.
pub struct DocSnapshot {
    pub entries: Vec<DocEntry>,
    pub version: u64,
}

impl View for DocSnapshot {
    type V = DocContent;

    open spec fn view(&self) -> DocContent {
        DocContent {
            entries: self.entries@.map_values(|e: DocEntry| e@),
            version: self.version as int,
        }
    }
}

/// One persisted entry: a base snapshot plus the update records appended
/// since, in append order. The pending count is the length of the record
/// list.
pub struct PersistedEntry {
    pub snapshot: DocSnapshot,
    pub records: Vec<UpdateRecord>,
}

/// The mathematical shape of a [`PersistedEntry`].
#[verifier::ext_equal]
pub struct PersistedEntryView {
    pub snapshot: DocContent,
    pub records: Seq<RecordView>,
}

impl View for PersistedEntry {
    type V = PersistedEntryView;

    open spec fn view(&self) -> PersistedEntryView {
        PersistedEntryView {
            snapshot: self.snapshot@,
            records: self.records@.map_values(|r: UpdateRecord| r@),
        }
    }
}

/// The state a snapshot and an ordered record log replay to.
pub open spec fn replay(snapshot: DocContent, records: Seq<RecordView>) -> DocContent
    decreases records.len(),
{
    if records.len() == 0 {
        snapshot
    } else {
        apply_record(replay(snapshot, records.drop_last()), records.last())
    }
}

/// The state one persisted entry replays to.
pub open spec fn replay_entry(e: PersistedEntryView) -> DocContent {
    replay(e.snapshot, e.records)
}

/// The entry a missing key stands for: an empty document with no history.
pub open spec fn empty_entry() -> PersistedEntryView {
    PersistedEntryView {
        snapshot: DocContent { entries: Seq::empty(), version: 0 },
        records: Seq::empty(),
    }
}

/// The entry stored under `key`, or the empty one for a missing key.
pub open spec fn target_entry(
    items: Seq<((int, Seq<char>, Seq<char>), PersistedEntryView)>,
    key: (int, Seq<char>, Seq<char>),
) -> PersistedEntryView {
    match assoc_find(items, key) {
        Some(e) => e,
        None => empty_entry(),
    }
}

/// An entry with one more record appended to its pending log.
pub open spec fn appended(e: PersistedEntryView, rec: RecordView) -> PersistedEntryView {
    PersistedEntryView { snapshot: e.snapshot, records: e.records.push(rec) }
}

/// An entry folded into a single snapshot: the pending records are merged
/// into the base and discarded, and the pending count is zero.
pub open spec fn compacted(e: PersistedEntryView) -> PersistedEntryView {
    PersistedEntryView { snapshot: replay_entry(e), records: Seq::empty() }
}

/// The entry after appending one record under the compaction policy: the
/// pending log grows by one, and is folded into a new snapshot the moment it
/// reaches the threshold.
pub open spec fn after_flush(
    e: PersistedEntryView,
    rec: RecordView,
    threshold: int,
) -> PersistedEntryView {
    let grown = appended(e, rec);
    if grown.records.len() >= threshold {
        compacted(grown)
    } else {
        grown
    }
}

/// Replay determinism, record by record: if a snapshot and a log replay to a
/// document state, then the same log extended by the record of one more
/// committed transaction replays to exactly that transaction's effect on the
/// state. Replay itself is a function of the entry alone, so two replays of
/// one entry always agree.
pub proof fn lemma_replay_extends_commit(
    snapshot: DocContent,
    records: Seq<RecordView>,
    d: DocContent,
    rec: RecordView,
)
    requires
        replay(snapshot, records) == d,
    ensures
        replay(snapshot, records.push(rec)) == apply_record(d, rec),
{
    assert(records.push(rec).drop_last() =~= records);
}

/// Compaction losslessness: folding the pending records into a new snapshot
/// and discarding them preserves the replayed state exactly, and leaves the
/// pending count at zero.
pub proof fn lemma_compaction_lossless(e: PersistedEntryView)
    ensures
        replay_entry(compacted(e)) == replay_entry(e),
        compacted(e).records.len() == 0,
{
}

/// A persisted entry mirrors a document state when replaying the entry's
/// snapshot and ordered log reconstructs that state exactly.
pub open spec fn mirrors(e: PersistedEntryView, d: DocContent) -> bool {
    replay_entry(e) == d
}

/// Replay determinism, end to end: an entry that mirrors a document still
/// mirrors it after the record of one more committed transaction is flushed
/// under the compaction policy — so a load of the entry always reconstructs
/// the live document's content, however often the log was folded.
pub proof fn lemma_mirror_maintained(
    e: PersistedEntryView,
    d: DocContent,
    rec: RecordView,
    threshold: int,
)
    requires
        mirrors(e, d),
    ensures
        mirrors(after_flush(e, rec, threshold), apply_record(d, rec)),
{
    lemma_replay_extends_commit(e.snapshot, e.records, d, rec);
    lemma_flush_preserves_replay(e, rec, threshold);
}

/// An empty entry mirrors an empty document.
pub proof fn lemma_mirror_empty()
    ensures
        mirrors(empty_entry(), DocContent { entries: Seq::empty(), version: 0 }),
{
}

/// The compaction policy loses nothing: appending a record under the
/// threshold rule replays to the same state as the plain append, whether or
/// not the append tripped a fold into a new snapshot.
pub proof fn lemma_flush_preserves_replay(e: PersistedEntryView, rec: RecordView, threshold: int)
    ensures
        replay_entry(after_flush(e, rec, threshold)) == replay_entry(appended(e, rec)),
{
    lemma_compaction_lossless(appended(e, rec));
}

/// A replayed state's version grows by at most one per record.
pub proof fn lemma_replay_version_bound(snapshot: DocContent, records: Seq<RecordView>)
    ensures
        replay(snapshot, records).version <= snapshot.version + records.len(),
        snapshot.version <= replay(snapshot, records).version,
    decreases records.len(),
{
    if records.len() > 0 {
        lemma_replay_version_bound(snapshot, records.drop_last());
    }
}

/// The store after an atomic batch of appends, applied in order.
pub open spec fn flush_fold(
    items: Seq<((int, Seq<char>, Seq<char>), PersistedEntryView)>,
    batch: Seq<((int, Seq<char>, Seq<char>), RecordView)>,
    threshold: int,
) -> Seq<((int, Seq<char>, Seq<char>), PersistedEntryView)>
    decreases batch.len(),
{
    if batch.len() == 0 {
        items
    } else {
        let prev = flush_fold(items, batch.drop_last(), threshold);
        assoc_set(
            prev,
            batch.last().0,
            after_flush(target_entry(prev, batch.last().0), batch.last().1, threshold),
        )
    }
}

/// The keyed record views of a batch, in batch order.
pub open spec fn batch_views(batch: Seq<(EntryKey, UpdateRecord)>) -> Seq<
    ((int, Seq<char>, Seq<char>), RecordView),
> {
    batch.map_values(|p: (EntryKey, UpdateRecord)| (p.0@, p.1@))
}

/// Room in the version counter to append and fold one more record.
pub open spec fn fits_one_more(e: PersistedEntryView) -> bool {
    e.snapshot.version + e.records.len() + 1 <= u64::MAX
}

struct KvSlot {
    key: EntryKey,
    entry: PersistedEntry,
}

impl View for KvSlot {
    type V = ((int, Seq<char>, Seq<char>), PersistedEntryView);

    closed spec fn view(&self) -> ((int, Seq<char>, Seq<char>), PersistedEntryView) {
        (self.key@, self.entry@)
    }
}

/// The full state of the store, as contracts speak of it.
#[verifier::ext_equal]
pub struct CollabKvView {
    pub items: Seq<((int, Seq<char>, Seq<char>), PersistedEntryView)>,
    pub threshold: int,
}

/// The durable store: one persisted entry per key, with a configured
/// updates-per-snapshot compaction threshold.
pub struct CollabKv {
    slots: Vec<KvSlot>,
    snapshot_per_update: usize,
}

impl View for CollabKv {
    type V = CollabKvView;

    closed spec fn view(&self) -> CollabKvView {
        CollabKvView {
            items: self.slots@.map_values(|s: KvSlot| s@),
            threshold: self.snapshot_per_update as int,
        }
    }
}

/// A fresh document state replayed from `entry`, applying each pending
/// record in append order to the snapshot.
fn replay_into(entry: PersistedEntry, doc: &mut Document)
    requires
        old(doc)@.entries.len() == 0,
        old(doc)@.version == 0,
        !old(doc)@.write_open,
        entry@.snapshot.version + entry@.records.len() <= u64::MAX,
    ensures
        final(doc).content() == replay_entry(entry@),
        final(doc)@.origin == old(doc)@.origin,
        final(doc)@.write_open == old(doc)@.write_open,
        final(doc)@.outbox == old(doc)@.outbox,
{
    let ghost snapshot_view = entry@.snapshot;
    let ghost record_views = entry@.records;
    let PersistedEntry { snapshot, records } = entry;
    doc.restore_snapshot(snapshot.entries, snapshot.version);
    let mut k: usize = 0;
    while k < records.len()
        invariant
            0 <= k <= records.len(),
            record_views == records@.map_values(|r: UpdateRecord| r@),
            snapshot_view.version + record_views.len() <= u64::MAX,
            doc.content() == replay(snapshot_view, record_views.take(k as int)),
            doc@.origin == old(doc)@.origin,
            doc@.write_open == old(doc)@.write_open,
            !doc@.write_open,
            doc@.outbox == old(doc)@.outbox,
        decreases records.len() - k,
    {
        proof {
            lemma_replay_version_bound(snapshot_view, record_views.take(k as int));
        }
        doc.apply_update(&records[k]);
        proof {
            assert(record_views.take(k + 1 as int).drop_last() =~= record_views.take(k as int));
            assert(record_views.take(k + 1 as int).last() == record_views[k as int]);
        }
        k += 1;
    }
    proof {
        assert(record_views.take(record_views.len() as int) =~= record_views);
    }
}

/// A copy of a stored snapshot's row container.
fn clone_doc_entries(v: &Vec<DocEntry>) -> (r: Vec<DocEntry>)
    ensures
        r@.map_values(|e: DocEntry| e@) == v@.map_values(|e: DocEntry| e@),
{
    let r = v.clone();
    proof {
        assert(r@.map_values(|e: DocEntry| e@) =~= v@.map_values(|e: DocEntry| e@));
    }
    r
}

/// The entry folded into a single snapshot, by replaying it into a scratch
/// document and keeping the result as the new base.
fn compact_entry(entry: PersistedEntry) -> (r: PersistedEntry)
    requires
        entry@.snapshot.version + entry@.records.len() <= u64::MAX,
    ensures
        r@ == compacted(entry@),
{
    let ghost entry_view = entry@;
    let mut doc = Document::new(String::new());
    replay_into(entry, &mut doc);
    let r = PersistedEntry {
        snapshot: DocSnapshot { entries: doc.clone_entries(), version: doc.version() },
        records: Vec::new(),
    };
    proof {
        assert(r@.records =~= Seq::<RecordView>::empty());
        assert(r@.snapshot =~= replay_entry(entry_view));
        assert(r@ =~= compacted(entry_view));
    }
    r
}

/// The index of the slot stored under `key`, if any.
fn find_slot_index(slots: &Vec<KvSlot>, key: &EntryKey) -> (r: Option<usize>)
    ensures
        match r {
            Some(i) => {
                &&& i < slots@.len()
                &&& (#[trigger] slots@[i as int])@.0 == key@
                &&& forall|j: int| 0 <= j < i ==> (#[trigger] slots@[j])@.0 != key@
            },
            None => forall|j: int| 0 <= j < slots@.len() ==> (#[trigger] slots@[j])@.0 != key@,
        },
{
    let mut i: usize = 0;
    while i < slots.len()
        invariant
            0 <= i <= slots.len(),
            forall|j: int| 0 <= j < i ==> (#[trigger] slots@[j])@.0 != key@,
        decreases slots.len() - i,
    {
        if key_eq(&slots[i].key, key) {
            return Some(i);
        }
        i += 1;
    }
    None
}

impl CollabKv {
    /// An empty store that folds an entry's pending records into a new
    /// snapshot whenever they reach `snapshot_per_update`.
    pub fn new(snapshot_per_update: usize) -> (r: Self)
        ensures
            r@ == (CollabKvView { items: Seq::empty(), threshold: snapshot_per_update as int }),
    {
        let r = CollabKv { slots: Vec::new(), snapshot_per_update };
        proof {
            assert(r@ =~= (CollabKvView {
                items: Seq::empty(),
                threshold: snapshot_per_update as int,
            }));
        }
        r
    }

    /// Whether an entry is stored under `key`. No side effects.
    pub fn is_exist(&self, key: &EntryKey) -> (r: bool)
        ensures
            r == (assoc_find(self@.items, key@) is Some),
    {
        let ghost items = self@.items;
        match find_slot_index(&self.slots, key) {
            Some(i) => {
                proof {
                    self.lemma_slots_items(i as int);
                    lemma_assoc_find_present(items, key@, i as int);
                }
                true
            },
            None => {
                proof {
                    assert forall|j: int| 0 <= j < items.len() implies items[j].0 != key@ by {
                        assert(items[j] == self.slots@[j]@);
                    }
                    lemma_assoc_find_absent(items, key@);
                }
                false
            },
        }
    }

    /// The number of update records pending under `key` since its last
    /// snapshot; a missing entry has none.
    pub fn number_of_updates(&self, key: &EntryKey) -> (r: usize)
        ensures
            r == (match assoc_find(self@.items, key@) {
                Some(e) => e.records.len(),
                None => 0,
            }),
    {
        let ghost items = self@.items;
        match find_slot_index(&self.slots, key) {
            Some(i) => {
                proof {
                    self.lemma_slots_items(i as int);
                    lemma_assoc_find_present(items, key@, i as int);
                }
                self.slots[i].entry.records.len()
            },
            None => {
                proof {
                    assert forall|j: int| 0 <= j < items.len() implies items[j].0 != key@ by {
                        assert(items[j] == self.slots@[j]@);
                    }
                    lemma_assoc_find_absent(items, key@);
                }
                0
            },
        }
    }

    /// Bridge one slot's view to the items sequence.
    proof fn lemma_slots_items(&self, i: int)
        requires
            0 <= i < self.slots@.len(),
        ensures
            self@.items[i] == self.slots@[i]@,
            self@.items.len() == self.slots@.len(),
    {
    }

    /// Load the entry stored under `key` into the given empty document:
    /// install the snapshot, then replay every pending record in append
    /// order. A missing entry is not an error — the document stays empty.
    pub fn load_doc(&self, key: &EntryKey, doc: &mut Document)
        requires
            old(doc)@.entries.len() == 0,
            old(doc)@.version == 0,
            !old(doc)@.write_open,
            match assoc_find(self@.items, key@) {
                Some(e) => e.snapshot.version + e.records.len() <= u64::MAX,
                None => true,
            },
        ensures
            match assoc_find(self@.items, key@) {
                Some(e) => {
                    &&& final(doc).content() == replay_entry(e)
                    &&& final(doc)@.origin == old(doc)@.origin
                    &&& final(doc)@.write_open == old(doc)@.write_open
                    &&& final(doc)@.outbox == old(doc)@.outbox
                },
                None => final(doc)@ == old(doc)@,
            },
    {
        let ghost items = self@.items;
        match find_slot_index(&self.slots, key) {
            Some(i) => {
                proof {
                    self.lemma_slots_items(i as int);
                    lemma_assoc_find_present(items, key@, i as int);
                }
                let stored = &self.slots[i].entry;
                let copy = PersistedEntry {
                    snapshot: DocSnapshot {
                        entries: clone_doc_entries(&stored.snapshot.entries),
                        version: stored.snapshot.version,
                    },
                    records: clone_records(&stored.records),
                };
                proof {
                    assert(copy@ =~= stored@);
                }
                replay_into(copy, doc);
            },
            None => {
                proof {
                    assert forall|j: int| 0 <= j < items.len() implies items[j].0 != key@ by {
                        assert(items[j] == self.slots@[j]@);
                    }
                    lemma_assoc_find_absent(items, key@);
                }
            },
        }
    }

    /// Durably append one update record to the entry under `key`, creating
    /// the entry if the key is new, and fold the pending log into a new
    /// snapshot the moment it reaches the threshold.
    pub fn push_update(&mut self, key: &EntryKey, record: UpdateRecord)
        requires
            fits_one_more(target_entry(old(self)@.items, key@)),
        ensures
            final(self)@.items == assoc_set(
                old(self)@.items,
                key@,
                after_flush(target_entry(old(self)@.items, key@), record@, old(self)@.threshold),
            ),
            final(self)@.threshold == old(self)@.threshold,
    {
        let ghost items = self@.items;
        let ghost record_view = record@;
        match find_slot_index(&self.slots, key) {
            Some(i) => {
                proof {
                    self.lemma_slots_items(i as int);
                    lemma_assoc_find_present(items, key@, i as int);
                }
                let mut slot = self.slots.remove(i);
                let ghost base = slot.entry@;
                slot.entry.records.push(record);
                proof {
                    assert(slot.entry@.records =~= base.records.push(record_view));
                    assert(slot.entry@ =~= appended(base, record_view));
                }
                if slot.entry.records.len() >= self.snapshot_per_update {
                    let compacted_entry = compact_entry(slot.entry);
                    slot = KvSlot { key: slot.key, entry: compacted_entry };
                } else {
                    slot = KvSlot { key: slot.key, entry: slot.entry };
                }
                let ghost new_entry = slot.entry@;
                self.slots.insert(i, slot);
                proof {
                    lemma_assoc_set_update(items, key@, new_entry, i as int);
                    assert(self@.items =~= items.update(i as int, (key@, new_entry)));
                    assert(new_entry == after_flush(target_entry(items, key@), record_view,
                        self@.threshold));
                }
            },
            None => {
                proof {
                    assert forall|j: int| 0 <= j < items.len() implies items[j].0 != key@ by {
                        assert(items[j] == self.slots@[j]@);
                    }
                    lemma_assoc_find_absent(items, key@);
                }
                let mut entry = PersistedEntry {
                    snapshot: DocSnapshot { entries: Vec::new(), version: 0 },
                    records: Vec::new(),
                };
                entry.records.push(record);
                proof {
                    assert(entry@.snapshot =~= empty_entry().snapshot);
                    assert(entry@.records =~= empty_entry().records.push(record_view));
                    assert(entry@ =~= appended(empty_entry(), record_view));
                }
                let final_entry = if entry.records.len() >= self.snapshot_per_update {
                    compact_entry(entry)
                } else {
                    entry
                };
                let ghost new_entry = final_entry@;
                self.slots.push(KvSlot { key: key.clone(), entry: final_entry });
                proof {
                    lemma_assoc_set_append(items, key@, new_entry);
                    assert(self@.items =~= items.push((key@, new_entry)));
                    assert(new_entry == after_flush(target_entry(items, key@), record_view,
                        self@.threshold));
                }
            },
        }
    }

    /// Replace the entry under `key` with a single snapshot and no pending
    /// records — the forced flush on close of a document, which compacts
    /// regardless of the threshold.
    pub fn flush_doc(&mut self, key: &EntryKey, snapshot: DocSnapshot)
        ensures
            final(self)@.items == assoc_set(
                old(self)@.items,
                key@,
                PersistedEntryView { snapshot: snapshot@, records: Seq::empty() },
            ),
            final(self)@.threshold == old(self)@.threshold,
    {
        let ghost items = self@.items;
        let ghost snapshot_view = snapshot@;
        let entry = PersistedEntry { snapshot, records: Vec::new() };
        proof {
            assert(entry@ =~= (PersistedEntryView {
                snapshot: snapshot_view,
                records: Seq::empty(),
            }));
        }
        let ghost new_entry = entry@;
        match find_slot_index(&self.slots, key) {
            Some(i) => {
                proof {
                    self.lemma_slots_items(i as int);
                }
                let removed = self.slots.remove(i);
                self.slots.insert(i, KvSlot { key: removed.key, entry });
                proof {
                    lemma_assoc_set_update(items, key@, new_entry, i as int);
                    assert(self@.items =~= items.update(i as int, (key@, new_entry)));
                }
            },
            None => {
                proof {
                    assert forall|j: int| 0 <= j < items.len() implies items[j].0 != key@ by {
                        assert(items[j] == self.slots@[j]@);
                    }
                    lemma_assoc_find_absent(items, key@);
                    lemma_assoc_set_append(items, key@, new_entry);
                }
                self.slots.push(KvSlot { key: key.clone(), entry });
                proof {
                    assert(self@.items =~= items.push((key@, new_entry)));
                }
            },
        }
    }

    /// Durably append a batch of records, one per key, as one atomic batch:
    /// the call returns with every append applied, in order, under the same
    /// compaction policy as a single append — all succeed or none are
    /// observable.
    pub fn flush_many(&mut self, batch: Vec<(EntryKey, UpdateRecord)>)
        requires
            crate::assoc::assoc_keys_distinct(batch_views(batch@)),
            forall|j: int|
                0 <= j < batch@.len() ==> fits_one_more(
                    target_entry(old(self)@.items, (#[trigger] batch_views(batch@)[j]).0),
                ),
        ensures
            final(self)@.items == flush_fold(
                old(self)@.items,
                batch_views(batch@),
                old(self)@.threshold,
            ),
            final(self)@.threshold == old(self)@.threshold,
    {
        let ghost bviews = batch_views(batch@);
        let ghost base_items = self@.items;
        let ghost threshold = self@.threshold;
        let mut rest = batch;
        let ghost mut k: int = 0;
        while rest.len() > 0
            invariant
                0 <= k,
                k + rest@.len() == bviews.len(),
                batch_views(rest@) == bviews.skip(k),
                self@.items == flush_fold(base_items, bviews.take(k), threshold),
                self@.threshold == threshold,
                forall|j: int|
                    k <= j < bviews.len() ==> assoc_find(self@.items, (#[trigger] bviews[j]).0)
                        == assoc_find(base_items, bviews[j].0),
                crate::assoc::assoc_keys_distinct(bviews),
                forall|j: int|
                    0 <= j < bviews.len() ==> fits_one_more(
                        target_entry(base_items, (#[trigger] bviews[j]).0),
                    ),
            decreases rest.len(),
        {
            let ghost items_before = self@.items;
            let ghost rest_before = rest@;
            let (key, record) = rest.remove(0);
            let ghost record_view = record@;
            proof {
                assert(batch_views(rest_before)[0] == (rest_before[0].0@, rest_before[0].1@));
                assert(batch_views(rest_before)[0] == bviews.skip(k)[0]);
                assert(bviews[k] == (key@, record_view));
                assert(target_entry(items_before, key@) == target_entry(base_items, key@));
            }
            self.push_update(&key, record);
            proof {
                assert(bviews.take(k + 1).drop_last() =~= bviews.take(k));
                assert(bviews.take(k + 1).last() == bviews[k]);
                assert(self@.items == flush_fold(base_items, bviews.take(k + 1), threshold));
                assert forall|j: int|
                    k + 1 <= j < bviews.len() implies assoc_find(
                    self@.items,
                    (#[trigger] bviews[j]).0,
                ) == assoc_find(base_items, bviews[j].0) by {
                    assert(bviews[j].0 != bviews[k].0);
                    lemma_assoc_find_set_other(
                        items_before,
                        key@,
                        after_flush(target_entry(items_before, key@), record_view, threshold),
                        bviews[j].0,
                    );
                }
                assert forall|j: int| 0 <= j < rest@.len() implies batch_views(rest@)[j]
                    == bviews.skip(k + 1)[j] by {
                    assert(rest@[j] == rest_before[j + 1]);
                    assert(batch_views(rest@)[j] == (rest@[j].0@, rest@[j].1@));
                    assert(batch_views(rest_before)[j + 1] == (
                        rest_before[j + 1].0@,
                        rest_before[j + 1].1@,
                    ));
                    assert(batch_views(rest_before)[j + 1] == bviews.skip(k)[j + 1]);
                }
                assert(batch_views(rest@) =~= bviews.skip(k + 1));
            }
            proof {
                k = k + 1;
            }
        }
        proof {
            assert(bviews.take(bviews.len() as int) =~= bviews);
        }
    }

    /// Remove the snapshot and all pending records under `key`, atomically.
    pub fn delete_doc(&mut self, key: &EntryKey)
        ensures
            final(self)@.items == assoc_remove(old(self)@.items, key@),
            final(self)@.threshold == old(self)@.threshold,
    {
        let ghost items = self@.items;
        match find_slot_index(&self.slots, key) {
            Some(i) => {
                proof {
                    self.lemma_slots_items(i as int);
                    lemma_assoc_remove_at(items, key@, i as int);
                }
                let _ = self.slots.remove(i);
                proof {
                    assert(self@.items =~= items.remove(i as int));
                }
            },
            None => {
                proof {
                    assert forall|j: int| 0 <= j < items.len() implies items[j].0 != key@ by {
                        assert(items[j] == self.slots@[j]@);
                    }
                    lemma_assoc_remove_absent(items, key@);
                }
            },
        }
    }
}

/// A copy of a stored record log.
fn clone_records(v: &Vec<UpdateRecord>) -> (r: Vec<UpdateRecord>)
    ensures
        r@.map_values(|rec: UpdateRecord| rec@) == v@.map_values(|rec: UpdateRecord| rec@),
{
    let r = v.clone();
    proof {
        assert(r@.map_values(|rec: UpdateRecord| rec@) =~= v@.map_values(
            |rec: UpdateRecord| rec@,
        ));
    }
    r
}

} // verus!
