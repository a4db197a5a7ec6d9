//! Transfer state that outlives a connection.
//!
//! `StateStore` is the seam between the transfer engine and the state
//! database; `MockStateStore` keeps the same state in memory. An idempotency
//! key is unique for a role and is the lasting handle to a transfer. The
//! commit journal advances from pending to renamed to committed; renamed is
//! the midpoint that lets recovery decide between finishing a commit and
//! leaving it alone.

use vstd::prelude::*;

use crate::text;
use crate::util;
use crate::util::TransferId;

pub mod bitmap;
pub mod keeping;
pub mod mock;
pub mod reading;
pub mod rows;
pub mod sqlite;

pub use self::bitmap::{ChunkBitmap, ChunkBitmapView, MAX_WIRE_CHUNKS};
pub use self::mock::{MockStateStore, MockStateStoreView};
pub use crate::error::Result;

verus! {

/// The side that records state.
#[derive(Debug, Clone, Copy, PartialEq, Eq, Hash, Structural)]
pub enum Role {
    /// The client.
    Client,
    /// The server.
    Server,
}

/// Lifecycle of a transfer.
#[derive(Debug, Clone, Copy, PartialEq, Eq, Hash, Structural)]
pub enum TransferStatus {
    /// Bytes are still being moved.
    Active,
    /// Cancelled by the user.
    Cancelled,
    /// Finished: the destination was renamed in.
    Committed,
    /// Interrupted; what was staged is kept for a resume.
    Resumable,
}

impl TransferStatus {
    /// The name in output, logs and storage.
    pub open spec fn text(self) -> &'static str {
        match self {
            TransferStatus::Active => "active",
            TransferStatus::Cancelled => "cancelled",
            TransferStatus::Committed => "committed",
            TransferStatus::Resumable => "resumable",
        }
    }

    /// The name in output, logs and storage.
    pub fn name(self) -> (r: &'static str)
        ensures
            r == self.text(),
    {
        match self {
            TransferStatus::Active => "active",
            TransferStatus::Cancelled => "cancelled",
            TransferStatus::Committed => "committed",
            TransferStatus::Resumable => "resumable",
        }
    }
}

/// Direction of a transfer.
#[derive(Debug, Clone, Copy, PartialEq, Eq, Hash, Structural)]
pub enum Direction {
    /// Client to server.
    Upload,
    /// Server to client.
    Download,
}

impl Direction {
    /// The name in output and logs.
    pub open spec fn text(self) -> &'static str {
        match self {
            Direction::Upload => "upload",
            Direction::Download => "download",
        }
    }

    /// The name in output and logs.
    pub fn name(self) -> (r: &'static str)
        ensures
            r == self.text(),
    {
        match self {
            Direction::Upload => "upload",
            Direction::Download => "download",
        }
    }
}

/// What is recorded of a transfer.
#[derive(Debug, PartialEq, Eq)]
pub struct TransferRecord {
    /// Stable across resumes.
    pub transfer_id: TransferId,
    /// Unique within the role; a retry with the same key is the same
    /// transfer.
    pub idempotency_key: String,
    /// The side that recorded it.
    pub role: Role,
    /// Direction.
    pub direction: Direction,
    /// Status.
    pub status: TransferStatus,
    /// Path on the server.
    pub remote_path: String,
    /// Path on the caller's file system.
    pub local_path: String,
    /// Declared file size in bytes.
    pub file_size: u64,
    /// Expected digest of the whole file; zero if unknown.
    pub file_hash: util::Hash,
    /// Highest contiguous offset that was verified.
    pub verified_up_to: u64,
    /// Time of the last checkpoint, in ms since the epoch.
    pub last_checkpoint_ms: u64,
    /// Bytes recorded as complete.
    pub bytes_completed: u64,
    /// Path of the staging file below the staging root.
    pub staging_relpath: String,
    /// Creation time, in ms since the epoch.
    pub created_ms: u64,
    /// Last update, in ms since the epoch.
    pub updated_ms: u64,
}

/// Contents of a transfer record.
#[verifier::ext_equal]
pub struct TransferRecordView {
    pub transfer_id: Seq<u8>,
    pub idempotency_key: Seq<char>,
    pub role: Role,
    pub direction: Direction,
    pub status: TransferStatus,
    pub remote_path: Seq<char>,
    pub local_path: Seq<char>,
    pub file_size: u64,
    pub file_hash: Seq<u8>,
    pub verified_up_to: u64,
    pub last_checkpoint_ms: u64,
    pub bytes_completed: u64,
    pub staging_relpath: Seq<char>,
    pub created_ms: u64,
    pub updated_ms: u64,
}

impl View for TransferRecord {
    type V = TransferRecordView;

    open spec fn view(&self) -> TransferRecordView {
        TransferRecordView {
            transfer_id: self.transfer_id@,
            idempotency_key: self.idempotency_key@,
            role: self.role,
            direction: self.direction,
            status: self.status,
            remote_path: self.remote_path@,
            local_path: self.local_path@,
            file_size: self.file_size,
            file_hash: self.file_hash@,
            verified_up_to: self.verified_up_to,
            last_checkpoint_ms: self.last_checkpoint_ms,
            bytes_completed: self.bytes_completed,
            staging_relpath: self.staging_relpath@,
            created_ms: self.created_ms,
            updated_ms: self.updated_ms,
        }
    }
}

impl Clone for TransferRecord {
    fn clone(&self) -> (r: Self)
        ensures
            r@ == self@,
    {
        TransferRecord {
            transfer_id: self.transfer_id,
            idempotency_key: self.idempotency_key.clone(),
            role: self.role,
            direction: self.direction,
            status: self.status,
            remote_path: self.remote_path.clone(),
            local_path: self.local_path.clone(),
            file_size: self.file_size,
            file_hash: self.file_hash,
            verified_up_to: self.verified_up_to,
            last_checkpoint_ms: self.last_checkpoint_ms,
            bytes_completed: self.bytes_completed,
            staging_relpath: self.staging_relpath.clone(),
            created_ms: self.created_ms,
            updated_ms: self.updated_ms,
        }
    }
}

impl TransferRecordView {
    /// Two records agree in what a retry may not change.
    pub open spec fn same_request(self, other: TransferRecordView) -> bool {
        &&& self.role == other.role
        &&& self.direction == other.direction
        &&& self.remote_path == other.remote_path
        &&& self.local_path == other.local_path
        &&& self.file_size == other.file_size
        &&& self.file_hash == other.file_hash
    }
}

/// Progress of a commit.
#[derive(Debug, Clone, Copy, PartialEq, Eq, Structural)]
pub enum CommitStatus {
    /// The commit has not started.
    Pending,
    /// The rename has happened; only the journal is behind.
    Renamed,
    /// Rename and journal are both done.
    Committed,
}

impl CommitStatus {
    /// The name in storage.
    pub open spec fn text(self) -> &'static str {
        match self {
            CommitStatus::Pending => "pending",
            CommitStatus::Renamed => "renamed",
            CommitStatus::Committed => "committed",
        }
    }

    /// The name in storage.
    pub fn name(self) -> (r: &'static str)
        ensures
            r == self.text(),
    {
        match self {
            CommitStatus::Pending => "pending",
            CommitStatus::Renamed => "renamed",
            CommitStatus::Committed => "committed",
        }
    }

    /// The status with a stored name.
    pub fn parse(s: &str) -> (r: Option<Self>)
        ensures
            r matches Some(c) ==> s@ == c.text()@,
            r is None ==> forall|c: CommitStatus| s@ != (#[trigger] c.text())@,
    {
        if text::same_text(s, "pending") {
            Some(CommitStatus::Pending)
        } else if text::same_text(s, "renamed") {
            Some(CommitStatus::Renamed)
        } else if text::same_text(s, "committed") {
            Some(CommitStatus::Committed)
        } else {
            None
        }
    }
}

/// A row of the commit journal.
#[derive(Debug)]
pub struct CommitJournalEntry {
    /// The transfer.
    pub transfer_id: TransferId,
    /// The file within the transfer.
    pub file_id: u64,
    /// Destination path on the server.
    pub remote_path: String,
    /// How far the commit is.
    pub status: CommitStatus,
    /// Last update, in ms since the epoch.
    pub updated_ms: u64,
}

/// Contents of a journal row.
#[verifier::ext_equal]
pub struct CommitJournalEntryView {
    pub transfer_id: Seq<u8>,
    pub file_id: u64,
    pub remote_path: Seq<char>,
    pub status: CommitStatus,
    pub updated_ms: u64,
}

impl View for CommitJournalEntry {
    type V = CommitJournalEntryView;

    open spec fn view(&self) -> CommitJournalEntryView {
        CommitJournalEntryView {
            transfer_id: self.transfer_id@,
            file_id: self.file_id,
            remote_path: self.remote_path@,
            status: self.status,
            updated_ms: self.updated_ms,
        }
    }
}

impl Clone for CommitJournalEntry {
    fn clone(&self) -> (r: Self)
        ensures
            r@ == self@,
    {
        CommitJournalEntry {
            transfer_id: self.transfer_id,
            file_id: self.file_id,
            remote_path: self.remote_path.clone(),
            status: self.status,
            updated_ms: self.updated_ms,
        }
    }
}

/// Errors of a state store.
#[derive(Debug)]
pub enum StateStoreError {
    /// The transfer is not there.
    NotFound,
    /// A retry with the same key asks for something else.
    IdempotencyConflict(String),
    /// The database failed.
    Database(String),
    /// The stored data contradicts itself.
    Corrupt(String),
}

impl StateStoreError {
    /// The text of the error.
    pub open spec fn text(self) -> Seq<char> {
        match self {
            StateStoreError::NotFound => "transfer not found"@,
            StateStoreError::IdempotencyConflict(s) => "idempotency key conflict: "@ + s@,
            StateStoreError::Database(s) => "database error: "@ + s@,
            StateStoreError::Corrupt(s) => "corrupt state: "@ + s@,
        }
    }

    /// The text of the error.
    pub fn to_string(&self) -> (r: String)
        ensures
            r@ == self.text(),
    {
        let mut t: String = match self {
            StateStoreError::NotFound => {
                return "transfer not found".to_owned();
            },
            StateStoreError::IdempotencyConflict(_) => "idempotency key conflict: ".to_owned(),
            StateStoreError::Database(_) => "database error: ".to_owned(),
            StateStoreError::Corrupt(_) => "corrupt state: ".to_owned(),
        };
        match self {
            StateStoreError::NotFound => {},
            StateStoreError::IdempotencyConflict(s) => {
                text::push_str(&mut t, s.as_str());
            },
            StateStoreError::Database(s) => {
                text::push_str(&mut t, s.as_str());
            },
            StateStoreError::Corrupt(s) => {
                text::push_str(&mut t, s.as_str());
            },
        }
        t
    }
}

/// Result of a state store operation.
pub type StateStoreResult<T> = std::result::Result<T, StateStoreError>;

/// What to do about a journal row at startup.
#[derive(Debug, Clone, Copy, PartialEq, Eq)]
pub enum JournalRecovery {
    /// The rename has happened: mark the row committed.
    Finalize { transfer_id: TransferId, file_id: u64 },
    /// The rename has not happened: leave the row to the next resume.
    LeavePending { transfer_id: TransferId, file_id: u64 },
}

impl JournalRecovery {
    /// The action is the one for the given row.
    pub open spec fn is_for(self, e: CommitJournalEntryView) -> bool {
        match e.status {
            CommitStatus::Renamed => self matches JournalRecovery::Finalize { transfer_id, file_id }
                && transfer_id@ == e.transfer_id && file_id == e.file_id,
            CommitStatus::Pending => self matches JournalRecovery::LeavePending {
                transfer_id,
                file_id,
            } && transfer_id@ == e.transfer_id && file_id == e.file_id,
            CommitStatus::Committed => false,
        }
    }
}

/// What to do about a journal row at startup; nothing if it is committed.
pub fn journal_recovery(e: &CommitJournalEntry) -> (r: Option<JournalRecovery>)
    ensures
        r is None <==> e.status == CommitStatus::Committed,
        r matches Some(a) ==> a.is_for(e@),
{
    match e.status {
        CommitStatus::Renamed => Some(
            JournalRecovery::Finalize { transfer_id: e.transfer_id, file_id: e.file_id },
        ),
        CommitStatus::Pending => Some(
            JournalRecovery::LeavePending { transfer_id: e.transfer_id, file_id: e.file_id },
        ),
        CommitStatus::Committed => None,
    }
}

/// Outcome of an upsert.
#[derive(Debug, PartialEq, Eq)]
pub enum UpsertOutcome {
    /// The record is new.
    Inserted,
    /// The key was there already; the existing record is returned.
    Reused(TransferRecord),
}

/// Where transfer state is kept. An implementation decides by itself what it
/// finds; nothing is promised of it here.
pub trait StateStore {
    /// Insert a transfer. If its key exists for the role, the existing
    /// record is returned, provided that the retry asks for the same.
    fn upsert_transfer(&mut self, record: &TransferRecord) -> StateStoreResult<UpsertOutcome>;

    /// Replace a transfer.
    fn update_transfer(&mut self, record: &TransferRecord) -> StateStoreResult<()>;

    /// A transfer by its id.
    fn get_transfer(&self, transfer_id: TransferId) -> StateStoreResult<TransferRecord>;

    /// A transfer by its key.
    fn get_transfer_by_idempotency(
        &self,
        role: Role,
        idempotency_key: &str,
    ) -> StateStoreResult<TransferRecord>;

    /// Transfers whose remote path begins with a prefix, oldest first.
    fn list_transfers_by_path(
        &self,
        role: Role,
        path_prefix: &str,
    ) -> StateStoreResult<Vec<TransferRecord>>;

    /// Replace the completion bitmap of a transfer.
    fn write_bitmap(
        &mut self,
        transfer_id: TransferId,
        bitmap: &ChunkBitmap,
    ) -> StateStoreResult<()>;

    /// The completion bitmap of a transfer.
    fn read_bitmap(&self, transfer_id: TransferId) -> StateStoreResult<ChunkBitmap>;

    /// Delete the completion bitmap of a transfer.
    fn delete_bitmap(&mut self, transfer_id: TransferId) -> StateStoreResult<()>;

    /// Write a row of the commit journal.
    fn write_journal(&mut self, entry: &CommitJournalEntry) -> StateStoreResult<()>;

    /// All rows of the commit journal that are not committed.
    fn pending_journal(&self) -> StateStoreResult<Vec<CommitJournalEntry>>;

    /// Mark a row of the commit journal as committed.
    fn mark_journal_committed(
        &mut self,
        transfer_id: TransferId,
        file_id: u64,
    ) -> StateStoreResult<()>;

    /// Delete everything that is recorded of a transfer.
    fn delete_transfer(&mut self, transfer_id: TransferId) -> StateStoreResult<()>;

    /// What to do about each row of the commit journal that is not
    /// committed. Nothing is changed.
    fn recover_commit_journal(&self) -> StateStoreResult<Vec<JournalRecovery>>;

    /// Mark every active transfer as resumable at the given time; returns
    /// how many there were.
    fn mark_active_transfers_resumable(&mut self, now_ms: u64) -> StateStoreResult<usize>;
}

/// The text of a key that was used for something else.
pub open spec fn conflict_text(existing: TransferRecordView, request: TransferRecordView) -> Seq<
    char,
> {
    "idempotency key '"@ + request.idempotency_key + "' already used by transfer "@
        + util::transfer_id_text(existing.transfer_id) + " with different parameters"@
}

/// A retry with the same key must ask for the same transfer.
pub fn verify_idempotency_compat(existing: &TransferRecord, request: &TransferRecord) -> (r:
    StateStoreResult<()>)
    ensures
        if existing@.same_request(request@) {
            r is Ok
        } else {
            r matches Err(StateStoreError::IdempotencyConflict(t)) && t@ == conflict_text(
                existing@,
                request@,
            )
        },
{
    if existing.role != request.role || existing.direction != request.direction
        || !text::same_text(existing.remote_path.as_str(), request.remote_path.as_str())
        || !text::same_text(existing.local_path.as_str(), request.local_path.as_str())
        || existing.file_size != request.file_size || !util::same_bytes(
        existing.file_hash.as_bytes().as_slice(),
        request.file_hash.as_bytes().as_slice(),
    ) {
        let mut t: String = "idempotency key '".to_owned();
        text::push_str(&mut t, request.idempotency_key.as_str());
        text::push_str(&mut t, "' already used by transfer ");
        text::push_str(&mut t, existing.transfer_id.to_string().as_str());
        text::push_str(&mut t, " with different parameters");
        return Err(StateStoreError::IdempotencyConflict(t));
    }
    Ok(())
}

/// A request to commit a transfer.
#[derive(Debug, Clone)]
pub struct CommitRequest {
    /// The transfer.
    pub transfer_id: TransferId,
    /// The file within the transfer.
    pub file_id: u64,
    /// Destination path on the server.
    pub remote_path: String,
    /// Absolute path of the staging file.
    pub staging_path: String,
    /// Absolute path of the destination.
    pub final_path: String,
}

} // verus!
