//! Synchronizing directories, and machine-readable reports.

use velcrux::chunking::ChunkMode;
use velcrux::client::report::{
    action_fields, cancel_event, download_event, list_event, remote_sync_event, resume_event,
    stat_event, sync_event, upload_event, Field, Value,
};
use velcrux::client::sync::{
    on_sync_created, remote_file, schedule, sync_chunk_store, sync_request, sync_route, sync_work,
    DeleteMode, DirectoryDiffSummary, FileAction, FileActionType, SyncRoute, SyncTally,
};
use velcrux::protocol::frame::decode_frame;
use velcrux::protocol::message::{Message, StatResult, TransferCreated, TransferOp};
use velcrux::session::encode_message;
use velcrux::util;

#[test]
fn one_side_may_be_remote() {
    let route = |a: &str, b: &str| sync_route(a, b, false, true, false, false);
    assert_eq!(
        route("/a", "velcrux://h/b").unwrap(),
        SyncRoute::Upload { dry_run: false, delete_after: true }
    );
    assert_eq!(
        route("velcrux://h/a", "/b").unwrap(),
        SyncRoute::Download { dry_run: false, delete_after: true }
    );
    assert_eq!(
        route("velcrux://h/a", "velcrux://h/b").unwrap_err().to_string(),
        "cross-server sync between two remote URLs is not supported"
    );
    match route("/a", "/b").unwrap() {
        SyncRoute::Local(o) => {
            assert_eq!((o.mode, o.delete_mode), (ChunkMode::Fixed, DeleteMode::DeleteAfter));
            assert_eq!((o.params.target, o.read_buffer_size), (1 << 20, 2 << 20));
        }
        other => panic!("unexpected {other:?}"),
    }
    match sync_route("a", "b", true, false, false, true).unwrap() {
        SyncRoute::Local(o) => {
            assert_eq!((o.mode, o.delete_mode, o.dry_run), (ChunkMode::Cdc, DeleteMode::Keep, true));
            assert_eq!((o.params.min, o.params.max), (256 * 1024, 4 << 20));
        }
        other => panic!("unexpected {other:?}"),
    }
}

#[test]
fn either_flag_asks_for_deletion() {
    for (after, delete) in [(false, false), (true, false), (false, true), (true, true)] {
        assert_eq!(
            sync_route("/a", "velcrux://h/b", false, after, delete, false).unwrap(),
            SyncRoute::Upload { dry_run: false, delete_after: after || delete }
        );
        match sync_route("/a", "/b", false, after, delete, false).unwrap() {
            SyncRoute::Local(o) => {
                assert_eq!(o.delete_mode == DeleteMode::DeleteAfter, after || delete)
            }
            other => panic!("unexpected {other:?}"),
        }
    }
}

#[test]
fn requests_for_manifests() {
    match sync_request(true, "/dir") {
        Message::TransferCreate(c) => {
            assert_eq!(c.op, TransferOp::SyncUpload);
            assert_eq!((c.src_path.as_str(), c.dst_path.as_str()), ("", "dir"));
        }
        other => panic!("unexpected {other:?}"),
    }
    match sync_request(false, "dir") {
        Message::TransferCreate(c) => {
            assert_eq!(c.op, TransferOp::SyncDownload);
            assert_eq!((c.src_path.as_str(), c.dst_path.as_str()), ("dir", ""));
        }
        other => panic!("unexpected {other:?}"),
    }
    let m = Message::TransferCreated(TransferCreated {
        transfer_id: util::TransferId::generate(),
        resumed: false,
        max_chunk_size: 1,
    });
    let bytes = encode_message(&m, 0).unwrap();
    assert!(on_sync_created(decode_frame(&bytes).unwrap()).is_ok());
}

#[test]
fn remote_files() {
    assert_eq!(remote_file("", "a/b"), "a/b");
    assert_eq!(remote_file("dir", "a"), "dir/a");
    assert_eq!(remote_file("dir//", "a"), "dir/a");
}

fn action(action: FileActionType) -> FileAction {
    FileAction { action, rel_path: "f".to_string(), src_size: 9, bytes_reusable: 4 }
}

#[test]
fn files_are_deleted_last_and_only_when_asked() {
    let a = vec![
        action(FileActionType::Delete),
        action(FileActionType::Add),
        action(FileActionType::Unchanged),
        action(FileActionType::Delete),
        action(FileActionType::Modify),
    ];
    assert_eq!(schedule(&a, true), vec![1, 4, 0, 3]);
    assert_eq!(schedule(&a, false), vec![1, 4]);
    assert_eq!(sync_work(&a, true, false), vec![1, 4, 0, 3]);
    assert!(sync_work(&a, true, true).is_empty());
    assert!(sync_work(&a, false, true).is_empty());
}

#[test]
fn where_the_chunks_of_a_sync_are_kept() {
    let given = Some("/chunks".to_string());
    assert_eq!(sync_chunk_store(false, &given, "/dst"), None);
    assert_eq!(sync_chunk_store(true, &given, "/dst"), given);
    assert_eq!(sync_chunk_store(true, &None, "/dst"), Some("/dst/.velcrux-chunks".to_string()));
    assert_eq!(sync_chunk_store(true, &None, "dst/"), Some("dst/.velcrux-chunks".to_string()));
}

#[test]
fn the_report_of_a_sync_with_a_server() {
    let summary = DirectoryDiffSummary {
        files_unchanged: 1,
        files_modified: 2,
        files_added: 3,
        files_deleted: 4,
        data_present: 5,
        data_to_transfer: 6,
    };
    let tally = SyncTally::new().transferred(15).deleted();
    assert_eq!(
        shown(&remote_sync_event("/a", "velcrux://h/b", &summary, &tally)),
        "v=1 event=sync_summary dry_run=false source=/a destination=velcrux://h/b \
         files_unchanged=1 files_modified=2 files_added=3 files_deleted=4 data_present=5 \
         data_to_transfer=6 files_transferred=1 files_committed=1 files_deleted_count=1 \
         wire_bytes_transferred=15"
    );
}

#[test]
fn tallies() {
    let t = SyncTally::new().transferred(10).transferred(5).deleted();
    assert_eq!((t.files_transferred, t.files_committed), (2, 2));
    assert_eq!((t.files_deleted, t.wire_bytes), (1, 15));
}

fn shown(f: &[Field]) -> String {
    let parts: Vec<String> = f
        .iter()
        .map(|x| match &x.value {
            Value::Number(n) => format!("{}={n}", x.name),
            Value::Text(s) => format!("{}={s}", x.name),
            Value::Flag(b) => format!("{}={b}", x.name),
        })
        .collect();
    parts.join(" ")
}

#[test]
fn reports() {
    let id = util::TransferId::from_bytes(&[0u8; 16]).unwrap();
    let zeros = "0".repeat(26);
    let hash = util::Hash::zero();
    let hex = "0".repeat(64);
    assert_eq!(
        shown(&upload_event(id, 9, 4, hash)),
        format!(
            "v=1 event=transfer_complete op=upload transfer_id={zeros} file_size=9 \
             bytes_transferred=4 bytes_completed=4 file_hash={hex} status=committed"
        )
    );
    assert_eq!(
        shown(&download_event(id, 4, hash, "/x")),
        format!(
            "v=1 event=transfer_complete op=download transfer_id={zeros} bytes_completed=4 \
             file_hash={hex} local_path=/x status=committed"
        )
    );
    assert_eq!(
        shown(&resume_event(id, 9, hash)),
        format!(
            "v=1 event=transfer_complete op=resume transfer_id={zeros} file_size=9 \
             file_hash={hex} status=committed"
        )
    );
    assert_eq!(shown(&cancel_event("T")), "v=1 event=cancel transfer_id=T status=cancelled");
    assert_eq!(
        shown(&action_fields(&action(FileActionType::Modify))),
        "action=modify path=f size=9 reused=4"
    );
    let s = StatResult {
        transfer_id: id,
        found: true,
        status: "active".to_string(),
        direction: "upload".to_string(),
        remote_path: "p".to_string(),
        file_size: 1,
        bytes_completed: 2,
        verified_up_to: 3,
        created_ms: 4,
        updated_ms: 5,
    };
    let short = format!(
        "v=1 event=stat transfer_id={zeros} status=active direction=upload remote_path=p \
         file_size=1 bytes_completed=2"
    );
    assert_eq!(shown(&list_event(&s)), short);
    assert_eq!(
        shown(&stat_event(&s)),
        format!("{short} verified_up_to=3 created_ms=4 updated_ms=5")
    );
    let summary = DirectoryDiffSummary {
        files_unchanged: 1,
        files_modified: 2,
        files_added: 3,
        files_deleted: 4,
        data_present: 5,
        data_to_transfer: 6,
    };
    assert_eq!(
        shown(&sync_event(true, "a", "b", &summary, &SyncTally::new().transferred(1))),
        "v=1 event=sync_summary dry_run=true source=a destination=b files_unchanged=1 \
         files_modified=2 files_added=3 files_deleted=4 data_present=5 data_to_transfer=6 \
         files_transferred=1 files_committed=1 files_deleted_count=0"
    );
}
