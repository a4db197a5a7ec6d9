//! Records as database rows, and the scanning of files.

use velcrux::chunking::{ChunkMode, ChunkParams};
use velcrux::manifest::scanner::{scanned_mtime, scanned_path};
use velcrux::manifest::{FileEntry, FileScan};
use velcrux::state::sqlite::{
    int_to_direction, int_to_role, migration_for, record_to_row, row_to_journal_entry,
    row_to_record, str_to_status, JournalRow, Migration,
};
use velcrux::state::{CommitStatus, Direction, Role, StateStoreError, TransferRecord, TransferStatus};
use velcrux::storage::VPath;
use velcrux::util;

fn record() -> TransferRecord {
    TransferRecord {
        transfer_id: util::TransferId::generate(),
        idempotency_key: "k".to_string(),
        role: Role::Server,
        direction: Direction::Download,
        status: TransferStatus::Resumable,
        remote_path: "data/x".to_string(),
        local_path: "/tmp/x".to_string(),
        file_size: u64::MAX,
        file_hash: util::Hash::of(b"x"),
        verified_up_to: 1,
        last_checkpoint_ms: 2,
        bytes_completed: 1 << 63,
        staging_relpath: "s/x".to_string(),
        created_ms: 3,
        updated_ms: 4,
    }
}

#[test]
fn records_survive_the_database() {
    let r = record();
    let row = record_to_row(&r);
    assert_eq!(row.file_size, -1);
    assert_eq!(row.bytes_completed, i64::MIN);
    assert_eq!((row.role, row.direction), (2, 2));
    assert_eq!(row.status, "resumable");
    assert_eq!(row_to_record(row).unwrap(), r);
}

#[test]
fn corrupt_rows_are_refused() {
    let mut row = record_to_row(&record());
    row.role = 3;
    assert!(row_to_record(row).is_none());
    let mut row = record_to_row(&record());
    row.transfer_id.pop();
    assert!(row_to_record(row).is_none());
    let mut row = record_to_row(&record());
    row.status = "done".to_string();
    assert!(row_to_record(row).is_none());
    let mut row = record_to_row(&record());
    row.file_hash.push(0);
    assert!(row_to_record(row).is_none());
    assert!(int_to_role(0).is_err());
    assert!(int_to_direction(-1).is_err());
    assert_eq!(str_to_status("cancelled").unwrap(), TransferStatus::Cancelled);
}

#[test]
fn schema_versions() {
    assert_eq!(migration_for(0).unwrap(), Migration::Create);
    assert_eq!(migration_for(1).unwrap(), Migration::UpToDate);
    match migration_for(-7) {
        Err(StateStoreError::Database(t)) => {
            assert_eq!(t, "state DB schema is v-7, this binary expects v1")
        }
        other => panic!("unexpected {other:?}"),
    }
}

#[test]
fn journal_rows() {
    let id = util::TransferId::generate();
    let row = |status: &str, len: usize| JournalRow {
        transfer_id: id.as_bytes()[..len].to_vec(),
        file_id: -1,
        remote_path: "a".to_string(),
        status: status.to_string(),
        updated_ms: 5,
    };
    let e = row_to_journal_entry(row("renamed", 16)).unwrap();
    assert_eq!(e.status, CommitStatus::Renamed);
    assert_eq!(e.file_id, u64::MAX);
    assert!(row_to_journal_entry(row("gone", 16)).is_none());
    assert!(row_to_journal_entry(row("pending", 15)).is_none());
}

#[test]
fn scanned_chunks_are_those_of_the_file() {
    let data: Vec<u8> = (0..=255u8).cycle().take(40_000).collect();
    let params = ChunkParams { min: 1024, target: 2048, max: 4096 };
    for mode in [ChunkMode::Fixed, ChunkMode::Cdc] {
        let mut whole = FileScan::new(mode, params);
        whole = whole.push(&data);
        let (hash, chunks) = whole.finish();
        let mut pieces = FileScan::new(mode, params);
        for p in data.chunks(333) {
            pieces = pieces.push(p);
        }
        let (hash2, chunks2) = pieces.finish();
        assert_eq!(hash, util::Hash::of(&data));
        assert_eq!((hash, &chunks), (hash2, &chunks2));
        let mut at = 0usize;
        for c in &chunks {
            let end = at + c.length as usize;
            assert_eq!(c.hash, Some(util::Hash::of(&data[at..end])));
            at = end;
        }
        assert_eq!(at, data.len());
        let path = VPath::validate("f").unwrap();
        let entry =
            FileEntry::regular(path, data.len() as u64, 0o644, 0, 0, hash, chunks);
        assert_eq!(entry.chunk_length_sum(), 40_000);
        assert_eq!(entry.to_string(), format!("f (40000 bytes, {} chunks)", entry.chunks.len()));
    }
}

#[test]
fn scanned_names_and_times() {
    assert_eq!(scanned_path("a/b").unwrap().as_str(), "a/b");
    assert!(scanned_path("../b").is_err());
    assert_eq!(scanned_mtime(Some((7, 9))), (7, 9));
    assert_eq!(scanned_mtime(None), (0, 0));
}
