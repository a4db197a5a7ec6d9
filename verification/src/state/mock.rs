//! In-memory state store.

use vstd::prelude::*;

use crate::state;
use crate::state::rows;
use crate::state::rows::{Row, Rows};
use crate::state::{
    ChunkBitmap, ChunkBitmapView, CommitJournalEntry, CommitJournalEntryView, CommitStatus,
    JournalRecovery, Role, StateStore, StateStoreError, StateStoreResult, TransferRecord,
    TransferRecordView, TransferStatus, UpsertOutcome,
};
use crate::text;
use crate::util;
use crate::util::TransferId;

verus! {

impl Row for TransferRecord {
    type Key = TransferId;

    open spec fn key(&self) -> Seq<u8> {
        self.transfer_id@
    }

    fn has_key(&self, k: &TransferId) -> (r: bool) {
        util::same_bytes(self.transfer_id.as_bytes().as_slice(), k.as_bytes().as_slice())
    }
}

/// An idempotency key of a role.
pub struct IdempotencyKey {
    pub role: Role,
    pub key: String,
}

impl View for IdempotencyKey {
    type V = (Role, Seq<char>);

    open spec fn view(&self) -> (Role, Seq<char>) {
        (self.role, self.key@)
    }
}

/// The transfer of an idempotency key.
pub struct IdempotencyRow {
    pub role: Role,
    pub key: String,
    pub transfer_id: TransferId,
}

impl View for IdempotencyRow {
    type V = Seq<u8>;

    open spec fn view(&self) -> Seq<u8> {
        self.transfer_id@
    }
}

impl Row for IdempotencyRow {
    type Key = IdempotencyKey;

    open spec fn key(&self) -> (Role, Seq<char>) {
        (self.role, self.key@)
    }

    fn has_key(&self, k: &IdempotencyKey) -> (r: bool) {
        self.role == k.role && text::same_text(self.key.as_str(), k.key.as_str())
    }
}

/// The completion bitmap of a transfer.
pub struct BitmapRow {
    pub transfer_id: TransferId,
    pub bitmap: ChunkBitmap,
}

impl View for BitmapRow {
    type V = ChunkBitmapView;

    open spec fn view(&self) -> ChunkBitmapView {
        self.bitmap@
    }
}

impl Row for BitmapRow {
    type Key = TransferId;

    open spec fn key(&self) -> Seq<u8> {
        self.transfer_id@
    }

    fn has_key(&self, k: &TransferId) -> (r: bool) {
        util::same_bytes(self.transfer_id.as_bytes().as_slice(), k.as_bytes().as_slice())
    }
}

/// A file of a transfer.
pub struct JournalKey {
    pub transfer_id: TransferId,
    pub file_id: u64,
}

impl View for JournalKey {
    type V = (Seq<u8>, u64);

    open spec fn view(&self) -> (Seq<u8>, u64) {
        (self.transfer_id@, self.file_id)
    }
}

impl Row for CommitJournalEntry {
    type Key = JournalKey;

    open spec fn key(&self) -> (Seq<u8>, u64) {
        (self.transfer_id@, self.file_id)
    }

    fn has_key(&self, k: &JournalKey) -> (r: bool) {
        self.file_id == k.file_id && util::same_bytes(
            self.transfer_id.as_bytes().as_slice(),
            k.transfer_id.as_bytes().as_slice(),
        )
    }
}

/// In-memory state store.
pub struct MockStateStore {
    transfers: Rows<TransferRecord>,
    idem_index: Rows<IdempotencyRow>,
    bitmaps: Rows<BitmapRow>,
    journal: Rows<CommitJournalEntry>,
}

/// Contents of an in-memory state store.
#[verifier::ext_equal]
pub struct MockStateStoreView {
    /// Transfers by id.
    pub transfers: Map<Seq<u8>, TransferRecordView>,
    /// Ids of transfers by role and key.
    pub idem: Map<(Role, Seq<char>), Seq<u8>>,
    /// Completion bitmaps by id.
    pub bitmaps: Map<Seq<u8>, ChunkBitmapView>,
    /// Journal rows by id and file.
    pub journal: Map<(Seq<u8>, u64), CommitJournalEntryView>,
}

impl View for MockStateStore {
    type V = MockStateStoreView;

    closed spec fn view(&self) -> MockStateStoreView {
        MockStateStoreView {
            transfers: self.transfers@,
            idem: self.idem_index@,
            bitmaps: self.bitmaps@,
            journal: self.journal@,
        }
    }
}

/// An operation that the store answers, by its contents.
pub enum UpsertView {
    Inserted,
    Reused(TransferRecordView),
    Conflict(Seq<char>),
    Corrupt,
}

impl MockStateStoreView {
    /// The store with nothing in it.
    pub open spec fn empty() -> MockStateStoreView {
        MockStateStoreView {
            transfers: Map::empty(),
            idem: Map::empty(),
            bitmaps: Map::empty(),
            journal: Map::empty(),
        }
    }

    /// The store with a record put in, whatever was there.
    pub open spec fn with_record(self, r: TransferRecordView) -> MockStateStoreView {
        MockStateStoreView {
            transfers: self.transfers.insert(r.transfer_id, r),
            idem: self.idem.insert((r.role, r.idempotency_key), r.transfer_id),
            ..self
        }
    }

    /// The store after an upsert, and its outcome.
    pub open spec fn upserted(self, r: TransferRecordView) -> (MockStateStoreView, UpsertView) {
        let k = (r.role, r.idempotency_key);
        if self.idem.dom().contains(k) {
            let id = self.idem[k];
            if !self.transfers.dom().contains(id) {
                (self, UpsertView::Corrupt)
            } else if self.transfers[id].same_request(r) {
                (self, UpsertView::Reused(self.transfers[id]))
            } else {
                (self, UpsertView::Conflict(state::conflict_text(self.transfers[id], r)))
            }
        } else {
            (self.with_record(r), UpsertView::Inserted)
        }
    }

    /// The transfer with a key.
    pub open spec fn by_idempotency(self, role: Role, key: Seq<char>) -> Option<
        TransferRecordView,
    > {
        if self.idem.dom().contains((role, key)) && self.transfers.dom().contains(
            self.idem[(role, key)],
        ) {
            Some(self.transfers[self.idem[(role, key)]])
        } else {
            None
        }
    }

    /// The store without a transfer.
    pub open spec fn deleted(self, id: Seq<u8>) -> MockStateStoreView {
        MockStateStoreView {
            transfers: self.transfers.remove(id),
            idem: if self.transfers.dom().contains(id) {
                self.idem.remove((self.transfers[id].role, self.transfers[id].idempotency_key))
            } else {
                self.idem
            },
            bitmaps: self.bitmaps.remove(id),
            journal: self.journal.restrict(Set::new(|k: (Seq<u8>, u64)| k.0 != id)),
        }
    }

    /// The store with every active transfer resumable.
    pub open spec fn interrupted(self, now_ms: u64) -> MockStateStoreView {
        MockStateStoreView {
            transfers: self.transfers.map_values(|r: TransferRecordView| resumable(r, now_ms)),
            ..self
        }
    }
}

/// A record whose transfer is not active any more.
pub open spec fn resumable(r: TransferRecordView, now_ms: u64) -> TransferRecordView {
    if r.status == TransferStatus::Active {
        TransferRecordView { status: TransferStatus::Resumable, updated_ms: now_ms, ..r }
    } else {
        r
    }
}

/// The record belongs to a role and lies below a path.
pub open spec fn lies_below(r: TransferRecordView, role: Role, prefix: Seq<char>) -> bool {
    r.role == role && prefix.is_prefix_of(r.remote_path)
}

/// Ordered by creation time.
pub open spec fn oldest_first(s: Seq<TransferRecordView>) -> bool {
    forall|i: int, j: int| 0 <= i < j < s.len() ==> s[i].created_ms <= s[j].created_ms
}

/// Views of records.
pub open spec fn record_views(s: Seq<TransferRecord>) -> Seq<TransferRecordView> {
    s.map_values(|r: TransferRecord| r@)
}

/// Views of journal rows.
pub open spec fn journal_views(s: Seq<CommitJournalEntry>) -> Seq<CommitJournalEntryView> {
    s.map_values(|e: CommitJournalEntry| e@)
}

/// `s` lists the journal rows that are not committed.
pub open spec fn lists_pending(
    s: Seq<CommitJournalEntryView>,
    m: Map<(Seq<u8>, u64), CommitJournalEntryView>,
) -> bool {
    rows::lists(
        s,
        |e: CommitJournalEntryView| (e.transfer_id, e.file_id),
        m,
        |e: CommitJournalEntryView| e.status != CommitStatus::Committed,
    )
}

impl Default for MockStateStore {
    fn default() -> (r: Self)
        ensures
            r@ == MockStateStoreView::empty(),
    {
        MockStateStore::new()
    }
}

impl MockStateStore {
    /// An empty store.
    pub fn new() -> (r: Self)
        ensures
            r@ == MockStateStoreView::empty(),
    {
        MockStateStore {
            transfers: Rows::new(),
            idem_index: Rows::new(),
            bitmaps: Rows::new(),
            journal: Rows::new(),
        }
    }

    fn put_record(&mut self, record: &TransferRecord)
        ensures
            final(self)@ == old(self)@.with_record(record@),
    {
        self.transfers.put(&record.transfer_id, record.clone());
        self.idem_index.put(
            &IdempotencyKey { role: record.role, key: record.idempotency_key.clone() },
            IdempotencyRow {
                role: record.role,
                key: record.idempotency_key.clone(),
                transfer_id: record.transfer_id,
            },
        );
    }
}

impl StateStore for MockStateStore {
    fn upsert_transfer(&mut self, record: &TransferRecord) -> (r: StateStoreResult<UpsertOutcome>)
        ensures
            final(self)@ == old(self)@.upserted(record@).0,
            match old(self)@.upserted(record@).1 {
                UpsertView::Inserted => r matches Ok(UpsertOutcome::Inserted),
                UpsertView::Reused(e) => r matches Ok(UpsertOutcome::Reused(x)) && x@ == e,
                UpsertView::Conflict(t) => r matches Err(StateStoreError::IdempotencyConflict(s))
                    && s@ == t,
                UpsertView::Corrupt => r matches Err(StateStoreError::Corrupt(s)) && s@
                    == "idempotency index points at missing transfer"@,
            },
    {
        let key = IdempotencyKey { role: record.role, key: record.idempotency_key.clone() };
        match self.idem_index.get(&key) {
            Some(row) => match self.transfers.get(&row.transfer_id) {
                Some(existing) => match state::verify_idempotency_compat(existing, record) {
                    Ok(()) => Ok(UpsertOutcome::Reused(existing.clone())),
                    Err(e) => Err(e),
                },
                None => Err(
                    StateStoreError::Corrupt(
                        "idempotency index points at missing transfer".to_owned(),
                    ),
                ),
            },
            None => {
                self.put_record(record);
                Ok(UpsertOutcome::Inserted)
            },
        }
    }

    fn update_transfer(&mut self, record: &TransferRecord) -> (r: StateStoreResult<()>)
        ensures
            if old(self)@.transfers.dom().contains(record@.transfer_id) {
                r is Ok && final(self)@ == old(self)@.with_record(record@)
            } else {
                r == Err::<(), StateStoreError>(StateStoreError::NotFound) && final(self)@ == old(
                    self,
                )@
            },
    {
        if self.transfers.get(&record.transfer_id).is_none() {
            return Err(StateStoreError::NotFound);
        }
        self.put_record(record);
        Ok(())
    }

    fn get_transfer(&self, transfer_id: TransferId) -> (r: StateStoreResult<TransferRecord>)
        ensures
            if self@.transfers.dom().contains(transfer_id@) {
                r matches Ok(x) && x@ == self@.transfers[transfer_id@]
            } else {
                r matches Err(StateStoreError::NotFound)
            },
    {
        match self.transfers.get(&transfer_id) {
            Some(x) => Ok(x.clone()),
            None => Err(StateStoreError::NotFound),
        }
    }

    fn get_transfer_by_idempotency(&self, role: Role, idempotency_key: &str) -> (r:
        StateStoreResult<TransferRecord>)
        ensures
            match self@.by_idempotency(role, idempotency_key@) {
                Some(v) => r matches Ok(x) && x@ == v,
                None => r matches Err(StateStoreError::NotFound),
            },
    {
        let key = IdempotencyKey { role, key: idempotency_key.to_owned() };
        match self.idem_index.get(&key) {
            Some(row) => match self.transfers.get(&row.transfer_id) {
                Some(x) => Ok(x.clone()),
                None => Err(StateStoreError::NotFound),
            },
            None => Err(StateStoreError::NotFound),
        }
    }

    fn list_transfers_by_path(&self, role: Role, path_prefix: &str) -> (r: StateStoreResult<
        Vec<TransferRecord>,
    >)
        ensures
            r matches Ok(v) && oldest_first(record_views(v@)) && rows::lists(
                record_views(v@),
                |x: TransferRecordView| x.transfer_id,
                self@.transfers,
                |x: TransferRecordView| lies_below(x, role, path_prefix@),
            ),
    {
        let n: usize = self.transfers.len();
        let ghost list = self.transfers.list();
        let mut out: Vec<TransferRecord> = Vec::new();
        let mut i: usize = 0;
        while i < n
            invariant
                i <= n == list.len(),
                list == self.transfers.list(),
                rows::distinct_keys(list),
                oldest_first(record_views(out@)),
                listed_from(record_views(out@), list, i as int, role, path_prefix@),
            decreases n - i,
        {
            let row = self.transfers.at(i);
            if row.role == role && text::starts_with(row.remote_path.as_str(), path_prefix) {
                let mut at: usize = out.len();
                while at > 0 && out[at - 1].created_ms > row.created_ms
                    invariant
                        at <= out.len(),
                        forall|j: int|
                            at <= j < out@.len() ==> (#[trigger] out@[j]).created_ms
                                > row.created_ms,
                    decreases at,
                {
                    at = at - 1;
                }
                let ghost before = record_views(out@);
                out.insert(at, row.clone());
                proof {
                    let after = record_views(out@);
                    assert(after =~= before.insert(at as int, list[i as int]@));
                    lemma_listed_insert(
                        before,
                        list,
                        i as int,
                        role,
                        path_prefix@,
                        at as int,
                    );
                    assert(oldest_first(after)) by {
                        assert forall|a: int, b: int| 0 <= a < b < after.len() implies after[a].created_ms
                            <= after[b].created_ms by {
                            if a < at && b == at {
                                assert(before[a].created_ms <= before[at - 1].created_ms);
                            }
                            if b > at {
                                assert(after[b] == before[b - 1]);
                            }
                            if a > at {
                                assert(after[a] == before[a - 1]);
                            }
                        }
                    }
                }
            } else {
                assert forall|v: TransferRecordView| record_views(out@).contains(
                    v,
                ) implies listed_before(v, list, i + 1, role, path_prefix@) by {
                    let j = choose|j: int|
                        0 <= j < i && list[j]@ == v && lies_below(v, role, path_prefix@);
                    assert(0 <= j < i + 1 && list[j]@ == v);
                }
            }
            i = i + 1;
        }
        proof {
            lemma_listed_all(record_views(out@), list, role, path_prefix@);
        }
        Ok(out)
    }

    fn write_bitmap(&mut self, transfer_id: TransferId, bitmap: &ChunkBitmap) -> (r:
        StateStoreResult<()>)
        ensures
            if old(self)@.transfers.dom().contains(transfer_id@) {
                r is Ok && final(self)@ == (MockStateStoreView {
                    bitmaps: old(self)@.bitmaps.insert(transfer_id@, bitmap@),
                    ..old(self)@
                })
            } else {
                r == Err::<(), StateStoreError>(StateStoreError::NotFound) && final(self)@ == old(
                    self,
                )@
            },
    {
        if self.transfers.get(&transfer_id).is_none() {
            return Err(StateStoreError::NotFound);
        }
        self.bitmaps.put(&transfer_id, BitmapRow { transfer_id, bitmap: bitmap.clone() });
        Ok(())
    }

    fn read_bitmap(&self, transfer_id: TransferId) -> (r: StateStoreResult<ChunkBitmap>)
        ensures
            if self@.transfers.dom().contains(transfer_id@) && self@.bitmaps.dom().contains(
                transfer_id@,
            ) {
                r matches Ok(b) && b@ == self@.bitmaps[transfer_id@]
            } else {
                r matches Err(StateStoreError::NotFound)
            },
    {
        if self.transfers.get(&transfer_id).is_none() {
            return Err(StateStoreError::NotFound);
        }
        match self.bitmaps.get(&transfer_id) {
            Some(row) => Ok(row.bitmap.clone()),
            None => Err(StateStoreError::NotFound),
        }
    }

    fn delete_bitmap(&mut self, transfer_id: TransferId) -> (r: StateStoreResult<()>)
        ensures
            r is Ok,
            final(self)@ == (MockStateStoreView {
                bitmaps: old(self)@.bitmaps.remove(transfer_id@),
                ..old(self)@
            }),
    {
        let _ = self.bitmaps.remove(&transfer_id);
        Ok(())
    }

    fn write_journal(&mut self, entry: &CommitJournalEntry) -> (r: StateStoreResult<()>)
        ensures
            r is Ok,
            final(self)@ == (MockStateStoreView {
                journal: old(self)@.journal.insert((entry@.transfer_id, entry@.file_id), entry@),
                ..old(self)@
            }),
    {
        self.journal.put(
            &JournalKey { transfer_id: entry.transfer_id, file_id: entry.file_id },
            entry.clone(),
        );
        Ok(())
    }

    fn pending_journal(&self) -> (r: StateStoreResult<Vec<CommitJournalEntry>>)
        ensures
            r matches Ok(v) && lists_pending(journal_views(v@), self@.journal),
    {
        let n: usize = self.journal.len();
        let ghost list = self.journal.list();
        let mut out: Vec<CommitJournalEntry> = Vec::new();
        let mut i: usize = 0;
        while i < n
            invariant
                i <= n == list.len(),
                list == self.journal.list(),
                rows::distinct_keys(list),
                journal_views(out@) == pending_part(list, i as int),
            decreases n - i,
        {
            let row = self.journal.at(i);
            if row.status != CommitStatus::Committed {
                out.push(row.clone());
            }
            assert(journal_views(out@) =~= pending_part(list, i + 1));
            i = i + 1;
        }
        proof {
            lemma_pending_part(list, list.len() as int);
            rows::lemma_by_key(list);
            lemma_pending_all(list);
        }
        Ok(out)
    }

    fn mark_journal_committed(&mut self, transfer_id: TransferId, file_id: u64) -> (r:
        StateStoreResult<()>)
        ensures
            ({
                let k = (transfer_id@, file_id);
                if old(self)@.journal.dom().contains(k) {
                    &&& r is Ok
                    &&& final(self)@ == (MockStateStoreView {
                        journal: old(self)@.journal.insert(
                            k,
                            CommitJournalEntryView {
                                status: CommitStatus::Committed,
                                ..old(self)@.journal[k]
                            },
                        ),
                        ..old(self)@
                    })
                } else {
                    &&& r matches Err(StateStoreError::NotFound)
                    &&& final(self)@ == old(self)@
                }
            }),
    {
        let key = JournalKey { transfer_id, file_id };
        let entry = match self.journal.get(&key) {
            None => {
                return Err(StateStoreError::NotFound);
            },
            Some(row) => CommitJournalEntry {
                transfer_id: row.transfer_id,
                file_id: row.file_id,
                remote_path: row.remote_path.clone(),
                status: CommitStatus::Committed,
                updated_ms: row.updated_ms,
            },
        };
        self.journal.put(&key, entry);
        Ok(())
    }

    fn delete_transfer(&mut self, transfer_id: TransferId) -> (r: StateStoreResult<()>)
        ensures
            r is Ok,
            final(self)@ == old(self)@.deleted(transfer_id@),
    {
        match self.transfers.remove(&transfer_id) {
            Some(record) => {
                let _ = self.idem_index.remove(
                    &IdempotencyKey { role: record.role, key: record.idempotency_key },
                );
            },
            None => {},
        }
        let _ = self.bitmaps.remove(&transfer_id);
        let kept = without_transfer(&self.journal, &transfer_id);
        self.journal = kept;
        Ok(())
    }

    fn recover_commit_journal(&self) -> (r: StateStoreResult<Vec<JournalRecovery>>)
        ensures
            r matches Ok(v) && exists|p: Seq<CommitJournalEntryView>| #[trigger]
                lists_pending(p, self@.journal) && p.len() == v@.len() && forall|i: int|
                    0 <= i < v@.len() ==> (#[trigger] v@[i]).is_for(p[i]),
    {
        let entries = match self.pending_journal() {
            Ok(v) => v,
            Err(e) => {
                return Err(e);
            },
        };
        let ghost p = journal_views(entries@);
        let mut out: Vec<JournalRecovery> = Vec::new();
        let mut i: usize = 0;
        while i < entries.len()
            invariant
                i <= entries.len(),
                p == journal_views(entries@),
                lists_pending(p, self@.journal),
                out@.len() == i,
                forall|j: int| 0 <= j < i ==> (#[trigger] out@[j]).is_for(p[j]),
            decreases entries.len() - i,
        {
            assert(p[i as int] == entries@[i as int]@);
            match state::journal_recovery(&entries[i]) {
                Some(a) => {
                    out.push(a);
                },
                None => {},
            }
            i = i + 1;
        }
        Ok(out)
    }

    fn mark_active_transfers_resumable(&mut self, now_ms: u64) -> (r: StateStoreResult<usize>)
        ensures
            final(self)@ == old(self)@.interrupted(now_ms),
            r matches Ok(n) && n == old(self)@.transfers.dom().filter(
                |k: Seq<u8>| old(self)@.transfers[k].status == TransferStatus::Active,
            ).len(),
    {
        let n: usize = self.transfers.len();
        let ghost list = self.transfers.list();
        let ghost active = |x: TransferRecord| x@.status == TransferStatus::Active;
        let mut count: usize = 0;
        let mut i: usize = 0;
        proof {
            reveal(Seq::filter);
            assert(list.take(0) =~= Seq::empty());
        }
        while i < n
            invariant
                i <= n == list.len(),
                active == (|x: TransferRecord| x@.status == TransferStatus::Active),
                self.transfers.list().len() == n,
                count == list.take(i as int).filter(active).len(),
                count <= i,
                forall|j: int|
                    0 <= j < i ==> (#[trigger] self.transfers.list()[j])@ == resumable(
                        list[j]@,
                        now_ms,
                    ),
                forall|j: int| i <= j < n ==> #[trigger] self.transfers.list()[j] == list[j],
                self.idem_index == old(self).idem_index,
                self.bitmaps == old(self).bitmaps,
                self.journal == old(self).journal,
            decreases n - i,
        {
            proof {
                reveal(Seq::filter);
                assert(list.take(i + 1).drop_last() =~= list.take(i as int));
                assert(list.take(i + 1).last() == list[i as int]);
                assert(self.transfers.list()[i as int] == list[i as int]);
            }
            let row = self.transfers.at(i);
            if row.status == TransferStatus::Active {
                let changed = TransferRecord {
                    transfer_id: row.transfer_id,
                    idempotency_key: row.idempotency_key.clone(),
                    role: row.role,
                    direction: row.direction,
                    status: TransferStatus::Resumable,
                    remote_path: row.remote_path.clone(),
                    local_path: row.local_path.clone(),
                    file_size: row.file_size,
                    file_hash: row.file_hash,
                    verified_up_to: row.verified_up_to,
                    last_checkpoint_ms: row.last_checkpoint_ms,
                    bytes_completed: row.bytes_completed,
                    staging_relpath: row.staging_relpath.clone(),
                    created_ms: row.created_ms,
                    updated_ms: now_ms,
                };
                self.transfers.set_at(i, changed);
                count = count + 1;
            }
            i = i + 1;
        }
        let _ = self.transfers.len();
        proof {
            assert(list.take(n as int) =~= list);
            lemma_interrupted(list, self.transfers.list(), now_ms);
            let p = |x: TransferRecordView| x.status == TransferStatus::Active;
            rows::lemma_count(list, p);
            assert(list.filter(active).len() == list.filter(|x: TransferRecord| p(x@)).len()) by {
                lemma_same_filter(list, active, |x: TransferRecord| p(x@));
            }
            let a = old(self)@.transfers.dom().filter(
                |k: Seq<u8>| old(self)@.transfers[k].status == TransferStatus::Active,
            );
            let b = rows::by_key(list).dom().filter(|k: Seq<u8>| p(rows::by_key(list)[k]));
            assert(a =~= b);
        }
        Ok(count)
    }
}

proof fn lemma_same_filter(
    s: Seq<TransferRecord>,
    f: spec_fn(TransferRecord) -> bool,
    g: spec_fn(TransferRecord) -> bool,
)
    requires
        forall|x: TransferRecord| #[trigger] f(x) == g(x),
    ensures
        s.filter(f) == s.filter(g),
    decreases s.len(),
{
    reveal(Seq::filter);
    if s.len() > 0 {
        lemma_same_filter(s.drop_last(), f, g);
        assert(f(s.last()) == g(s.last()));
    }
}

proof fn lemma_interrupted(s: Seq<TransferRecord>, t: Seq<TransferRecord>, now_ms: u64)
    requires
        rows::distinct_keys(s),
        s.len() == t.len(),
        forall|j: int| 0 <= j < s.len() ==> (#[trigger] t[j])@ == resumable(s[j]@, now_ms),
    ensures
        rows::by_key(t) == rows::by_key(s).map_values(
            |r: TransferRecordView| resumable(r, now_ms),
        ),
    decreases s.len(),
{
    let f = |r: TransferRecordView| resumable(r, now_ms);
    if s.len() > 0 {
        let a = s.drop_last();
        let b = t.drop_last();
        assert forall|i: int, j: int| 0 <= i < j < a.len() implies a[i].key() != a[j].key() by {
            assert(a[i] == s[i] && a[j] == s[j]);
        }
        assert forall|j: int| 0 <= j < a.len() implies (#[trigger] b[j])@ == resumable(
            a[j]@,
            now_ms,
        ) by {
            assert(b[j] == t[j] && a[j] == s[j]);
        }
        lemma_interrupted(a, b, now_ms);
        assert(t.last()@ == resumable(s.last()@, now_ms));
    }
    assert(rows::by_key(t) =~= rows::by_key(s).map_values(f));
}

/// A journal without the rows of a transfer.
fn without_transfer(journal: &Rows<CommitJournalEntry>, id: &TransferId) -> (r: Rows<
    CommitJournalEntry,
>)
    ensures
        r@ == journal@.restrict(Set::new(|k: (Seq<u8>, u64)| k.0 != id@)),
{
    let n: usize = journal.len();
    let ghost list = journal.list();
    let ghost other = Set::new(|k: (Seq<u8>, u64)| k.0 != id@);
    let mut kept: Rows<CommitJournalEntry> = Rows::new();
    let mut i: usize = 0;
    assert(list.take(0) =~= Seq::empty());
    assert(kept@ =~= rows::by_key(list.take(0)).restrict(other));
    while i < n
        invariant
            i <= n == list.len(),
            list == journal.list(),
            other == Set::new(|k: (Seq<u8>, u64)| k.0 != id@),
            kept@ == rows::by_key(list.take(i as int)).restrict(other),
        decreases n - i,
    {
        let row = journal.at(i);
        let ghost before = rows::by_key(list.take(i as int));
        proof {
            assert(list.take(i + 1).drop_last() =~= list.take(i as int));
            assert(list.take(i + 1).last() == list[i as int]);
        }
        if !util::same_bytes(row.transfer_id.as_bytes().as_slice(), id.as_bytes().as_slice()) {
            kept.put(
                &JournalKey { transfer_id: row.transfer_id, file_id: row.file_id },
                row.clone(),
            );
        }
        assert(kept@ =~= rows::by_key(list.take(i + 1)).restrict(other));
        i = i + 1;
    }
    assert(list.take(n as int) =~= list);
    kept
}

/// The rows among the first `n` that are not committed.
pub open spec fn pending_part(s: Seq<CommitJournalEntry>, n: int) -> Seq<CommitJournalEntryView>
    decreases n,
{
    if n <= 0 {
        Seq::empty()
    } else if s[n - 1].status != CommitStatus::Committed {
        pending_part(s, n - 1).push(s[n - 1]@)
    } else {
        pending_part(s, n - 1)
    }
}

proof fn lemma_pending_part(s: Seq<CommitJournalEntry>, n: int)
    requires
        0 <= n <= s.len(),
        rows::distinct_keys(s),
    ensures
        ({
            let p = pending_part(s, n);
            &&& forall|i: int|
                0 <= i < p.len() ==> exists|j: int|
                    0 <= j < n && (#[trigger] s[j])@ == #[trigger] p[i] && s[j].status
                        != CommitStatus::Committed
            &&& forall|j: int|
                0 <= j < n && (#[trigger] s[j]).status != CommitStatus::Committed ==> p.contains(
                    s[j]@,
                )
            &&& forall|a: int, b: int|
                0 <= a < b < p.len() ==> (p[a].transfer_id, p[a].file_id) != (
                    p[b].transfer_id,
                    p[b].file_id,
                )
        }),
    decreases n,
{
    if n > 0 {
        lemma_pending_part(s, n - 1);
        let q = pending_part(s, n - 1);
        let p = pending_part(s, n);
        assert forall|i: int| 0 <= i < p.len() implies exists|j: int|
            0 <= j < n && (#[trigger] s[j])@ == #[trigger] p[i] && s[j].status
                != CommitStatus::Committed by {
            if i < q.len() {
                assert(p[i] == q[i]);
                let j = choose|j: int|
                    0 <= j < n - 1 && (#[trigger] s[j])@ == q[i] && s[j].status
                        != CommitStatus::Committed;
                assert(s[j]@ == p[i]);
            } else {
                assert(s[n - 1]@ == p[i]);
            }
        }
        assert forall|j: int|
            0 <= j < n && (#[trigger] s[j]).status != CommitStatus::Committed implies p.contains(
            s[j]@,
        ) by {
            if j < n - 1 {
                let i = choose|i: int| 0 <= i < q.len() && q[i] == s[j]@;
                assert(p[i] == s[j]@);
            } else {
                assert(p[p.len() - 1] == s[j]@);
            }
        }
        assert forall|a: int, b: int| 0 <= a < b < p.len() implies (
            p[a].transfer_id,
            p[a].file_id,
        ) != (p[b].transfer_id, p[b].file_id) by {
            assert(p[a] == q[a]);
            if b < q.len() {
                assert(p[b] == q[b]);
            } else {
                let j = choose|j: int|
                    0 <= j < n - 1 && (#[trigger] s[j])@ == q[a] && s[j].status
                        != CommitStatus::Committed;
                assert(s[j].key() != s[n - 1].key());
            }
        }
    }
}

proof fn lemma_pending_all(s: Seq<CommitJournalEntry>)
    requires
        rows::distinct_keys(s),
    ensures
        lists_pending(pending_part(s, s.len() as int), rows::by_key(s)),
{
    let p = pending_part(s, s.len() as int);
    let m = rows::by_key(s);
    lemma_pending_part(s, s.len() as int);
    rows::lemma_by_key(s);
    assert forall|i: int| 0 <= i < p.len() implies {
        let v = #[trigger] p[i];
        m.dom().contains((v.transfer_id, v.file_id)) && m[(v.transfer_id, v.file_id)] == v
            && v.status != CommitStatus::Committed
    } by {
        let j = choose|j: int|
            0 <= j < s.len() && (#[trigger] s[j])@ == p[i] && s[j].status
                != CommitStatus::Committed;
        assert(m[s[j].key()] == s[j]@);
    }
    assert forall|k: (Seq<u8>, u64)| #[trigger]
        m.dom().contains(k) && m[k].status != CommitStatus::Committed implies p.contains(m[k]) by {
        let j = choose|j: int| 0 <= j < s.len() && s[j].key() == k;
        assert(m[s[j].key()] == s[j]@);
    }
}

/// A record among the first `n` that belongs to a role and lies below a path.
pub open spec fn listed_before(
    v: TransferRecordView,
    list: Seq<TransferRecord>,
    n: int,
    role: Role,
    prefix: Seq<char>,
) -> bool {
    exists|j: int| 0 <= j < n && (#[trigger] list[j])@ == v && lies_below(v, role, prefix)
}

/// `out` holds, once each, the records among the first `n` that belong to a
/// role and lie below a path.
pub open spec fn listed_from(
    out: Seq<TransferRecordView>,
    list: Seq<TransferRecord>,
    n: int,
    role: Role,
    prefix: Seq<char>,
) -> bool {
    &&& forall|v: TransferRecordView| #[trigger]
        out.contains(v) ==> listed_before(v, list, n, role, prefix)
    &&& forall|j: int|
        0 <= j < n && lies_below((#[trigger] list[j])@, role, prefix) ==> out.contains(list[j]@)
    &&& forall|a: int, b: int|
        0 <= a < b < out.len() ==> out[a].transfer_id != out[b].transfer_id
}

proof fn lemma_listed_insert(
    out: Seq<TransferRecordView>,
    list: Seq<TransferRecord>,
    n: int,
    role: Role,
    prefix: Seq<char>,
    at: int,
)
    requires
        0 <= n < list.len(),
        0 <= at <= out.len(),
        rows::distinct_keys(list),
        listed_from(out, list, n, role, prefix),
        lies_below(list[n]@, role, prefix),
    ensures
        listed_from(out.insert(at, list[n]@), list, n + 1, role, prefix),
{
    let x = list[n]@;
    let new = out.insert(at, x);
    assert forall|v: TransferRecordView| #[trigger] new.contains(v) implies listed_before(
        v,
        list,
        n + 1,
        role,
        prefix,
    ) by {
        let i = choose|i: int| 0 <= i < new.len() && new[i] == v;
        if i == at {
            assert(list[n]@ == v);
        } else {
            let i2 = if i < at {
                i
            } else {
                i - 1
            };
            assert(out[i2] == v);
            assert(out.contains(v));
            let j = choose|j: int|
                0 <= j < n && (#[trigger] list[j])@ == v && lies_below(v, role, prefix);
            assert(0 <= j < n + 1 && list[j]@ == v);
        }
    }
    assert forall|j: int|
        0 <= j < n + 1 && lies_below((#[trigger] list[j])@, role, prefix) implies new.contains(
        list[j]@,
    ) by {
        if j == n {
            assert(new[at] == list[j]@);
        } else {
            let i = choose|i: int| 0 <= i < out.len() && out[i] == list[j]@;
            let i2 = if i < at {
                i
            } else {
                i + 1
            };
            assert(new[i2] == list[j]@);
        }
    }
    assert forall|a: int, b: int| 0 <= a < b < new.len() implies new[a].transfer_id
        != new[b].transfer_id by {
        if a == at || b == at {
            let o = if a == at {
                b - 1
            } else {
                a
            };
            assert(out.contains(out[o]));
            let j = choose|j: int|
                0 <= j < n && (#[trigger] list[j])@ == out[o] && lies_below(out[o], role, prefix);
            assert(list[j].key() != list[n].key());
        } else {
            let a2 = if a < at {
                a
            } else {
                a - 1
            };
            let b2 = if b < at {
                b
            } else {
                b - 1
            };
            assert(out[a2].transfer_id != out[b2].transfer_id);
        }
    }
}

proof fn lemma_listed_all(
    out: Seq<TransferRecordView>,
    list: Seq<TransferRecord>,
    role: Role,
    prefix: Seq<char>,
)
    requires
        rows::distinct_keys(list),
        listed_from(out, list, list.len() as int, role, prefix),
    ensures
        rows::lists(
            out,
            |x: TransferRecordView| x.transfer_id,
            rows::by_key(list),
            |x: TransferRecordView| lies_below(x, role, prefix),
        ),
{
    let m = rows::by_key(list);
    rows::lemma_by_key(list);
    assert forall|i: int| 0 <= i < out.len() implies {
        let v = #[trigger] out[i];
        m.dom().contains(v.transfer_id) && m[v.transfer_id] == v && lies_below(v, role, prefix)
    } by {
        assert(out.contains(out[i]));
        let j = choose|j: int|
            0 <= j < list.len() && (#[trigger] list[j])@ == out[i] && lies_below(
                out[i],
                role,
                prefix,
            );
        assert(m[list[j].key()] == list[j]@);
    }
    assert forall|k: Seq<u8>| #[trigger]
        m.dom().contains(k) && lies_below(m[k], role, prefix) implies out.contains(m[k]) by {
        let j = choose|j: int| 0 <= j < list.len() && list[j].key() == k;
        assert(m[list[j].key()] == list[j]@);
    }
}

/// A retry is idempotent: after a record was inserted, the same record again
/// changes nothing and is answered with the record that is there.
pub proof fn law_upsert_idempotent(s: MockStateStoreView, r: TransferRecordView)
    requires
        s.upserted(r).1 is Inserted,
    ensures
        s.upserted(r).0.upserted(r) == (s.upserted(r).0, UpsertView::Reused(r)),
        s.upserted(r).0.transfers[r.transfer_id] == r,
        s.upserted(r).0.by_idempotency(r.role, r.idempotency_key) == Some(r),
{
}

/// A retry that asks for something else is refused, and nothing changes.
pub proof fn law_upsert_conflict(s: MockStateStoreView, r: TransferRecordView, q: TransferRecordView)
    requires
        s.upserted(r).1 is Inserted,
        q.role == r.role,
        q.idempotency_key == r.idempotency_key,
        !r.same_request(q),
    ensures
        s.upserted(r).0.upserted(q) == (
            s.upserted(r).0,
            UpsertView::Conflict(state::conflict_text(r, q)),
        ),
{
}

/// Nothing is left of a deleted transfer: neither its record, nor the key it
/// was recorded under, nor its bitmap, nor its journal rows.
pub proof fn law_delete_removes_everything(s: MockStateStoreView, id: Seq<u8>)
    ensures
        ({
            let t = s.deleted(id);
            &&& !t.transfers.dom().contains(id)
            &&& !t.bitmaps.dom().contains(id)
            &&& forall|k: (Seq<u8>, u64)| t.journal.dom().contains(k) ==> k.0 != id
            &&& s.transfers.dom().contains(id) ==> t.by_idempotency(
                s.transfers[id].role,
                s.transfers[id].idempotency_key,
            ) is None
        }),
{
}

/// Deleting a transfer leaves the others alone.
pub proof fn law_delete_keeps_others(s: MockStateStoreView, id: Seq<u8>, other: Seq<u8>, file: u64)
    requires
        id != other,
    ensures
        ({
            let t = s.deleted(id);
            &&& t.transfers.dom().contains(other) == s.transfers.dom().contains(other)
            &&& t.transfers[other] == s.transfers[other]
            &&& t.bitmaps.dom().contains(other) == s.bitmaps.dom().contains(other)
            &&& t.bitmaps[other] == s.bitmaps[other]
            &&& t.journal.dom().contains((other, file)) == s.journal.dom().contains((other, file))
            &&& s.journal.dom().contains((other, file)) ==> t.journal[(other, file)]
                == s.journal[(other, file)]
        }),
{
}

/// After an interruption no transfer is active, and none is lost.
pub proof fn law_interrupted_none_active(s: MockStateStoreView, now_ms: u64)
    ensures
        s.interrupted(now_ms).transfers.dom() == s.transfers.dom(),
        forall|k: Seq<u8>| #[trigger]
            s.interrupted(now_ms).transfers.dom().contains(k) ==> s.interrupted(
                now_ms,
            ).transfers[k].status != TransferStatus::Active,
{
    assert(s.interrupted(now_ms).transfers.dom() =~= s.transfers.dom());
}

} // verus!
