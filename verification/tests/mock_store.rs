//! The state store in memory.

use velcrux::state::mock::MockStateStore;
use velcrux::state::{
    ChunkBitmap, CommitJournalEntry, CommitStatus, Direction, JournalRecovery, Role, StateStore,
    StateStoreError, TransferRecord, TransferStatus, UpsertOutcome,
};
use velcrux::util;

fn rec(idem: &str, tid: util::TransferId) -> TransferRecord {
    TransferRecord {
        transfer_id: tid,
        idempotency_key: idem.into(),
        role: Role::Client,
        direction: Direction::Upload,
        status: TransferStatus::Active,
        remote_path: "data/x.bin".into(),
        local_path: "/tmp/x.bin".into(),
        file_size: 10,
        file_hash: util::Hash::zero(),
        verified_up_to: 0,
        last_checkpoint_ms: 0,
        bytes_completed: 0,
        staging_relpath: String::new(),
        created_ms: 0,
        updated_ms: 0,
    }
}

#[test]
fn upsert_inserts_then_reuses() {
    let mut s = MockStateStore::new();
    let tid = util::TransferId::generate();
    let r = rec("k", tid);
    match s.upsert_transfer(&r).unwrap() {
        UpsertOutcome::Inserted => {}
        other => panic!("first call should insert, got {:?}", other),
    }
    match s.upsert_transfer(&r).unwrap() {
        UpsertOutcome::Reused(got) => assert_eq!(got.transfer_id, tid),
        other => panic!("second call should reuse, got {:?}", other),
    }
}

#[test]
fn mock_upsert_rejects_mismatched_retry() {
    let mut s = MockStateStore::new();
    let tid = util::TransferId::generate();
    let mut r = rec("k", tid);
    s.upsert_transfer(&r).unwrap();
    r.file_size = 99;
    assert!(matches!(
        s.upsert_transfer(&r).unwrap_err(),
        StateStoreError::IdempotencyConflict(_)
    ));
}

#[test]
fn update_not_found() {
    let mut s = MockStateStore::new();
    let r = rec("k", util::TransferId::generate());
    assert!(matches!(
        s.update_transfer(&r).unwrap_err(),
        StateStoreError::NotFound
    ));
}

#[test]
fn bitmap_roundtrip() {
    let mut s = MockStateStore::new();
    let tid = util::TransferId::generate();
    s.upsert_transfer(&rec("k", tid)).unwrap();
    let mut bm = ChunkBitmap::new();
    bm.mark_complete(0, 1024);
    bm.mark_complete(7, 4096);
    s.write_bitmap(tid, &bm).unwrap();
    let read = s.read_bitmap(tid).unwrap();
    assert_eq!(read, bm);
}

#[test]
fn mock_journal_recovery_split() {
    let mut s = MockStateStore::new();
    let t1 = util::TransferId::generate();
    let t2 = util::TransferId::generate();
    s.write_journal(&CommitJournalEntry {
        transfer_id: t1,
        file_id: 1,
        remote_path: "a".into(),
        status: CommitStatus::Renamed,
        updated_ms: 0,
    })
    .unwrap();
    s.write_journal(&CommitJournalEntry {
        transfer_id: t2,
        file_id: 1,
        remote_path: "b".into(),
        status: CommitStatus::Pending,
        updated_ms: 0,
    })
    .unwrap();
    s.write_journal(&CommitJournalEntry {
        transfer_id: util::TransferId::generate(),
        file_id: 1,
        remote_path: "c".into(),
        status: CommitStatus::Committed,
        updated_ms: 0,
    })
    .unwrap();
    let rec = s.recover_commit_journal().unwrap();
    assert_eq!(rec.len(), 2);
    assert!(rec.iter().any(
        |r| matches!(r, JournalRecovery::Finalize { transfer_id, .. } if *transfer_id == t1)
    ));
    assert!(rec.iter().any(
        |r| matches!(r, JournalRecovery::LeavePending { transfer_id, .. } if *transfer_id == t2)
    ));
}

#[test]
fn delete_transfer_removes_everything() {
    let mut s = MockStateStore::new();
    let tid = util::TransferId::generate();
    s.upsert_transfer(&rec("k", tid)).unwrap();
    let mut bm = ChunkBitmap::new();
    bm.mark_complete(0, 1);
    s.write_bitmap(tid, &bm).unwrap();
    s.write_journal(&CommitJournalEntry {
        transfer_id: tid,
        file_id: 1,
        remote_path: "x".into(),
        status: CommitStatus::Pending,
        updated_ms: 0,
    })
    .unwrap();
    s.delete_transfer(tid).unwrap();
    assert!(s.read_bitmap(tid).is_err());
    assert!(s.get_transfer(tid).is_err());
    assert!(s.get_transfer_by_idempotency(Role::Client, "k").is_err());
    assert!(s.pending_journal().unwrap().is_empty());
}
