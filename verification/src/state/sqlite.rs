//! Transfer records and journal rows as database rows.
//!
//! Unsigned counters are stored as the signed integers with the same bits;
//! roles and directions as small integers; statuses by name.

use vstd::prelude::*;

use crate::protocol::wire;
use crate::state::{
    CommitJournalEntry, CommitJournalEntryView, CommitStatus, Direction, Role, StateStoreError,
    StateStoreResult, TransferRecord, TransferRecordView, TransferStatus,
};
use crate::text;
use crate::util;
use crate::util::TransferId;

verus! {

/// Current schema version of the state database.
pub const SCHEMA_VERSION: i32 = 1;

/// What to do with a database of a given schema version.
#[derive(Debug, Clone, Copy, PartialEq, Eq, Structural)]
pub enum Migration {
    /// Create the tables.
    Create,
    /// Nothing.
    UpToDate,
}

/// Decide what to do with a database of schema version `current`.
pub fn migration_for(current: i32) -> (r: StateStoreResult<Migration>)
    ensures
        if current == 0 {
            r == Ok::<Migration, StateStoreError>(Migration::Create)
        } else if current == SCHEMA_VERSION {
            r == Ok::<Migration, StateStoreError>(Migration::UpToDate)
        } else {
            r matches Err(StateStoreError::Database(t)) && t@ == "state DB schema is v"@
                + text::signed(current as int) + ", this binary expects v1"@
        },
{
    if current == 0 {
        return Ok(Migration::Create);
    }
    if current == SCHEMA_VERSION {
        return Ok(Migration::UpToDate);
    }
    let mut t: String = "state DB schema is v".to_owned();
    text::push_signed(&mut t, current as i64);
    text::push_str(&mut t, ", this binary expects v1");
    Err(StateStoreError::Database(t))
}

/// A role as stored.
pub open spec fn role_code(r: Role) -> i32 {
    match r {
        Role::Client => 1,
        Role::Server => 2,
    }
}

/// A role as stored.
pub fn role_to_int(r: Role) -> (v: i32)
    ensures
        v == role_code(r),
{
    match r {
        Role::Client => 1,
        Role::Server => 2,
    }
}

/// A stored role.
pub fn int_to_role(v: i32) -> (r: StateStoreResult<Role>)
    ensures
        match r {
            Ok(role) => v == role_code(role),
            Err(e) => {
                &&& forall|role: Role| v != #[trigger] role_code(role)
                &&& e matches StateStoreError::Corrupt(t)
                &&& t@ == "unknown role value: "@ + text::signed(v as int)
            },
        },
{
    match v {
        1 => Ok(Role::Client),
        2 => Ok(Role::Server),
        _ => {
            let mut t: String = "unknown role value: ".to_owned();
            text::push_signed(&mut t, v as i64);
            Err(StateStoreError::Corrupt(t))
        },
    }
}

/// A direction as stored.
pub open spec fn direction_code(d: Direction) -> i32 {
    match d {
        Direction::Upload => 1,
        Direction::Download => 2,
    }
}

/// A direction as stored.
pub fn direction_to_int(d: Direction) -> (v: i32)
    ensures
        v == direction_code(d),
{
    match d {
        Direction::Upload => 1,
        Direction::Download => 2,
    }
}

/// A stored direction.
pub fn int_to_direction(v: i32) -> (r: StateStoreResult<Direction>)
    ensures
        match r {
            Ok(d) => v == direction_code(d),
            Err(e) => {
                &&& forall|d: Direction| v != #[trigger] direction_code(d)
                &&& e matches StateStoreError::Corrupt(t)
                &&& t@ == "unknown direction value: "@ + text::signed(v as int)
            },
        },
{
    match v {
        1 => Ok(Direction::Upload),
        2 => Ok(Direction::Download),
        _ => {
            let mut t: String = "unknown direction value: ".to_owned();
            text::push_signed(&mut t, v as i64);
            Err(StateStoreError::Corrupt(t))
        },
    }
}

/// A stored status.
pub fn str_to_status(s: &str) -> (r: StateStoreResult<TransferStatus>)
    ensures
        match r {
            Ok(x) => s@ == x.text()@,
            Err(e) => {
                &&& forall|x: TransferStatus| s@ != (#[trigger] x.text())@
                &&& e matches StateStoreError::Corrupt(t)
                &&& t@ == "unknown status: "@ + s@
            },
        },
{
    if text::same_text(s, "active") {
        Ok(TransferStatus::Active)
    } else if text::same_text(s, "cancelled") {
        Ok(TransferStatus::Cancelled)
    } else if text::same_text(s, "committed") {
        Ok(TransferStatus::Committed)
    } else if text::same_text(s, "resumable") {
        Ok(TransferStatus::Resumable)
    } else {
        let mut t: String = "unknown status: ".to_owned();
        text::push_str(&mut t, s);
        Err(StateStoreError::Corrupt(t))
    }
}

/// The columns of a transfer.
#[derive(Debug)]
pub struct TransferRow {
    pub transfer_id: Vec<u8>,
    pub role: i32,
    pub idempotency_key: String,
    pub direction: i32,
    pub status: String,
    pub remote_path: String,
    pub local_path: String,
    pub file_size: i64,
    pub file_hash: Vec<u8>,
    pub verified_up_to: i64,
    pub last_checkpoint_ms: i64,
    pub bytes_completed: i64,
    pub staging_relpath: String,
    pub created_ms: i64,
    pub updated_ms: i64,
}

/// The columns of a transfer, by their contents.
#[verifier::ext_equal]
pub struct TransferRowView {
    pub transfer_id: Seq<u8>,
    pub role: i32,
    pub idempotency_key: Seq<char>,
    pub direction: i32,
    pub status: Seq<char>,
    pub remote_path: Seq<char>,
    pub local_path: Seq<char>,
    pub file_size: i64,
    pub file_hash: Seq<u8>,
    pub verified_up_to: i64,
    pub last_checkpoint_ms: i64,
    pub bytes_completed: i64,
    pub staging_relpath: Seq<char>,
    pub created_ms: i64,
    pub updated_ms: i64,
}

impl View for TransferRow {
    type V = TransferRowView;

    open spec fn view(&self) -> TransferRowView {
        TransferRowView {
            transfer_id: self.transfer_id@,
            role: self.role,
            idempotency_key: self.idempotency_key@,
            direction: self.direction,
            status: self.status@,
            remote_path: self.remote_path@,
            local_path: self.local_path@,
            file_size: self.file_size,
            file_hash: self.file_hash@,
            verified_up_to: self.verified_up_to,
            last_checkpoint_ms: self.last_checkpoint_ms,
            bytes_completed: self.bytes_completed,
            staging_relpath: self.staging_relpath@,
            created_ms: self.created_ms,
            updated_ms: self.updated_ms,
        }
    }
}

/// The row of a record.
pub open spec fn stored(r: TransferRecordView) -> TransferRowView {
    TransferRowView {
        transfer_id: r.transfer_id,
        role: role_code(r.role),
        idempotency_key: r.idempotency_key,
        direction: direction_code(r.direction),
        status: r.status.text()@,
        remote_path: r.remote_path,
        local_path: r.local_path,
        file_size: r.file_size as i64,
        file_hash: r.file_hash,
        verified_up_to: r.verified_up_to as i64,
        last_checkpoint_ms: r.last_checkpoint_ms as i64,
        bytes_completed: r.bytes_completed as i64,
        staging_relpath: r.staging_relpath,
        created_ms: r.created_ms as i64,
        updated_ms: r.updated_ms as i64,
    }
}

/// A row that holds the columns of some record.
pub open spec fn row_well_formed(row: TransferRowView) -> bool {
    &&& row.transfer_id.len() == 16
    &&& row.file_hash.len() == 32
    &&& exists|r: Role| row.role == #[trigger] role_code(r)
    &&& exists|d: Direction| row.direction == #[trigger] direction_code(d)
    &&& exists|s: TransferStatus| row.status == (#[trigger] s.text())@
}

/// The row of a record.
pub fn record_to_row(r: &TransferRecord) -> (row: TransferRow)
    ensures
        row@ == stored(r@),
{
    TransferRow {
        transfer_id: wire::to_vec(r.transfer_id.as_bytes().as_slice()),
        role: role_to_int(r.role),
        idempotency_key: r.idempotency_key.clone(),
        direction: direction_to_int(r.direction),
        status: r.status.name().to_owned(),
        remote_path: r.remote_path.clone(),
        local_path: r.local_path.clone(),
        file_size: r.file_size as i64,
        file_hash: wire::to_vec(r.file_hash.as_bytes().as_slice()),
        verified_up_to: r.verified_up_to as i64,
        last_checkpoint_ms: r.last_checkpoint_ms as i64,
        bytes_completed: r.bytes_completed as i64,
        staging_relpath: r.staging_relpath.clone(),
        created_ms: r.created_ms as i64,
        updated_ms: r.updated_ms as i64,
    }
}

/// The record of a row; none if the row is not one of a record.
pub fn row_to_record(row: TransferRow) -> (r: Option<TransferRecord>)
    ensures
        r is Some <==> row_well_formed(row@),
        r matches Some(rec) ==> stored(rec@) == row@,
{
    let transfer_id = match TransferId::from_bytes(row.transfer_id.as_slice()) {
        Some(x) => x,
        None => {
            return None;
        },
    };
    let file_hash = match util::Hash::from_bytes(row.file_hash.as_slice()) {
        Some(x) => x,
        None => {
            return None;
        },
    };
    let role = match int_to_role(row.role) {
        Ok(x) => x,
        Err(_) => {
            return None;
        },
    };
    let direction = match int_to_direction(row.direction) {
        Ok(x) => x,
        Err(_) => {
            return None;
        },
    };
    let status = match str_to_status(row.status.as_str()) {
        Ok(x) => x,
        Err(_) => {
            return None;
        },
    };
    proof {
        lemma_i64_roundtrip(row.file_size);
        lemma_i64_roundtrip(row.verified_up_to);
        lemma_i64_roundtrip(row.last_checkpoint_ms);
        lemma_i64_roundtrip(row.bytes_completed);
        lemma_i64_roundtrip(row.created_ms);
        lemma_i64_roundtrip(row.updated_ms);
    }
    Some(
        TransferRecord {
            transfer_id,
            idempotency_key: row.idempotency_key,
            role,
            direction,
            status,
            remote_path: row.remote_path,
            local_path: row.local_path,
            file_size: row.file_size as u64,
            file_hash,
            verified_up_to: row.verified_up_to as u64,
            last_checkpoint_ms: row.last_checkpoint_ms as u64,
            bytes_completed: row.bytes_completed as u64,
            staging_relpath: row.staging_relpath,
            created_ms: row.created_ms as u64,
            updated_ms: row.updated_ms as u64,
        },
    )
}

proof fn lemma_i64_roundtrip(x: i64)
    ensures
        (x as u64) as i64 == x,
{
    assert((x as u64) as i64 == x) by (bit_vector);
}

proof fn lemma_u64_roundtrip(x: u64)
    ensures
        (x as i64) as u64 == x,
{
    assert((x as i64) as u64 == x) by (bit_vector);
}

/// A record is determined by its row: what is read back is what was written.
pub proof fn law_record_row_roundtrip(a: TransferRecordView, b: TransferRecordView)
    requires
        stored(a) == stored(b),
    ensures
        a == b,
{
    lemma_u64_roundtrip(a.file_size);
    lemma_u64_roundtrip(b.file_size);
    lemma_u64_roundtrip(a.verified_up_to);
    lemma_u64_roundtrip(b.verified_up_to);
    lemma_u64_roundtrip(a.last_checkpoint_ms);
    lemma_u64_roundtrip(b.last_checkpoint_ms);
    lemma_u64_roundtrip(a.bytes_completed);
    lemma_u64_roundtrip(b.bytes_completed);
    lemma_u64_roundtrip(a.created_ms);
    lemma_u64_roundtrip(b.created_ms);
    lemma_u64_roundtrip(a.updated_ms);
    lemma_u64_roundtrip(b.updated_ms);
    lemma_status_names(a.status, b.status);
}

proof fn lemma_status_names(a: TransferStatus, b: TransferStatus)
    requires
        a.text()@ == b.text()@,
    ensures
        a == b,
{
    reveal_strlit("active");
    reveal_strlit("cancelled");
    reveal_strlit("committed");
    reveal_strlit("resumable");
    let s = a.text()@;
    let t = b.text()@;
    assert(s.len() == t.len());
    assert(s[0] == t[0]);
    assert(s[1] == t[1]);
    assert("active"@.len() == 6 && "resumable"@[0] == 'r');
    assert("cancelled"@.len() == 9 && "cancelled"@[0] == 'c' && "cancelled"@[1] == 'a');
    assert("committed"@.len() == 9 && "committed"@[0] == 'c' && "committed"@[1] == 'o');
    match a {
        TransferStatus::Active => {},
        TransferStatus::Cancelled => {},
        TransferStatus::Committed => {},
        TransferStatus::Resumable => {},
    }
    match b {
        TransferStatus::Active => {},
        TransferStatus::Cancelled => {},
        TransferStatus::Committed => {},
        TransferStatus::Resumable => {},
    }
}

/// The columns of a journal row.
#[derive(Debug)]
pub struct JournalRow {
    pub transfer_id: Vec<u8>,
    pub file_id: i64,
    pub remote_path: String,
    pub status: String,
    pub updated_ms: i64,
}

/// The journal entry of a row; none if the row is not one of an entry.
pub fn row_to_journal_entry(row: JournalRow) -> (r: Option<CommitJournalEntry>)
    ensures
        r is Some <==> row.transfer_id@.len() == 16 && exists|s: CommitStatus|
            row.status@ == (#[trigger] s.text())@,
        r matches Some(e) ==> row.status@ == e.status.text()@ && e@ == (CommitJournalEntryView {
            transfer_id: row.transfer_id@,
            file_id: row.file_id as u64,
            remote_path: row.remote_path@,
            status: e.status,
            updated_ms: row.updated_ms as u64,
        }),
{
    let transfer_id = match TransferId::from_bytes(row.transfer_id.as_slice()) {
        Some(x) => x,
        None => {
            return None;
        },
    };
    let status = match CommitStatus::parse(row.status.as_str()) {
        Some(x) => x,
        None => {
            return None;
        },
    };
    Some(
        CommitJournalEntry {
            transfer_id,
            file_id: row.file_id as u64,
            remote_path: row.remote_path,
            status,
            updated_ms: row.updated_ms as u64,
        },
    )
}

} // verus!
