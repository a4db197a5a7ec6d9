//! Transfers on the side of the server.

use velcrux::auth::{FileAuthorizer, Grant, MtlsAuthenticator, PermSet};
use velcrux::client::download::{Download, DownloadStep};
use velcrux::client::resume::{check_hash, check_size, on_resume_state};
use velcrux::error::{ProtocolError, VelcruxError};
use velcrux::protocol::error::ErrorCode;
use velcrux::protocol::frame::decode_frame;
use velcrux::protocol::message::{
    ChunkQuery, ChunkResponse, Commit, Hello, InventoryHint, Message, Resume, TransferBegin,
    TransferCreate, TransferOp, Verify,
};
use velcrux::session::client::hello_message;
use velcrux::session::server::Counted;
use velcrux::session::transfer::{
    begin_resumed, check_begin, committed_record, Outcome, Reuse, ServerTransfer, Transfer,
    TransferOpening, TransferRequest, TransferStage, TransferStep,
};
use velcrux::session::{encode_message, ServerConn, ServerStats};
use velcrux::state::{ChunkBitmap, CommitStatus, Direction, Role, TransferStatus};
use velcrux::transfer::{delta_answer, skip_bitmap, Bloom, ChunkSource, TRANSFER_CHUNK};
use velcrux::transport::identity::Identity;
use velcrux::util;

type Conn = ServerConn<MtlsAuthenticator, FileAuthorizer>;

fn serving() -> Conn {
    let authorizer = FileAuthorizer::from_grants(vec![Grant {
        identity: "alice".to_string(),
        path_prefix: "data".to_string(),
        permissions: PermSet::upload() | PermSet::download() | PermSet::resume() | PermSet::delete(),
    }]);
    let id = Identity::new("alice", "issuer", "cert");
    let caps = Hello::default_client().capabilities;
    let mut c = ServerConn::with_state(
        caps,
        "velcruxd",
        Some(id),
        true,
        MtlsAuthenticator::new(),
        authorizer,
    );
    for m in [hello_message(), Message::Auth(velcrux::protocol::message::Auth::mtls())] {
        let bytes = encode_message(&m, 0).unwrap();
        c.on_frame(decode_frame(&bytes).unwrap(), 0).unwrap();
    }
    c
}

fn create(op: TransferOp, path: &str, size: u64) -> TransferCreate {
    TransferCreate {
        op,
        src_path: path.to_string(),
        dst_path: path.to_string(),
        idempotency_key: "key".to_string(),
        file_size: size,
        file_hash: util::Hash::of(b"file"),
    }
}

fn open(op: TransferOp, path: &str, size: u64) -> TransferOpening {
    serving().open_transfer(&create(op, path, size).encode().unwrap()).unwrap()
}

fn request(op: TransferOp, size: u64) -> TransferRequest {
    match open(op, "data/x", size) {
        TransferOpening::Start { request, then: Counted::TransferStarted } => request,
        other => panic!("unexpected {other:?}"),
    }
}

fn transfer(op: TransferOp, size: u64) -> Transfer {
    request(op, size).identify(None).measure(Some(size)).unwrap()
}

fn on(t: &mut ServerTransfer, m: &Message) -> Result<TransferStep, VelcruxError> {
    let bytes = encode_message(m, 0).unwrap();
    t.on_frame(Some(decode_frame(&bytes).unwrap()))
}

fn begin(t: &ServerTransfer) -> Message {
    Message::TransferBegin(TransferBegin { transfer_id: t.transfer.transfer_id })
}

fn verify(t: &ServerTransfer) -> Message {
    Message::Verify(Verify {
        transfer_id: t.transfer.transfer_id,
        expected_hash: t.transfer.create.file_hash,
    })
}

fn commit(t: &ServerTransfer) -> Message {
    Message::Commit(Commit { transfer_id: t.transfer.transfer_id })
}

fn on_begin(t: &mut ServerTransfer) -> Result<TransferStep, VelcruxError> {
    let m = begin(t);
    on(t, &m)
}

fn on_verify(t: &mut ServerTransfer) -> Result<TransferStep, VelcruxError> {
    let m = verify(t);
    on(t, &m)
}

fn on_commit(t: &mut ServerTransfer) -> Result<TransferStep, VelcruxError> {
    let m = commit(t);
    on(t, &m)
}

fn plan(m: &Message) -> (u64, u64, u64) {
    match m {
        Message::TransferPlan(p) => (p.bytes_total, p.bytes_to_transfer, p.bytes_reusable),
        other => panic!("unexpected {other:?}"),
    }
}

#[test]
fn denied_and_missing_look_the_same() {
    let denied = match open(TransferOp::Download, "other/x", 0) {
        TransferOpening::Refused { reply, then: Counted::Denied } => reply,
        other => panic!("unexpected {other:?}"),
    };
    let traversal = match open(TransferOp::Download, "data/../x", 0) {
        TransferOpening::Refused { reply, then: Counted::Denied } => reply,
        other => panic!("unexpected {other:?}"),
    };
    let (missing, ended) = request(TransferOp::Download, 0).identify(None).measure(None).unwrap_err();
    assert_eq!(ended, Counted::TransferEnded);
    assert_eq!(denied, missing);
    assert_eq!(traversal, missing);
    match missing {
        Message::Error(e) => {
            assert_eq!(e.code, ErrorCode::FileNotFound);
            assert_eq!(e.detail.as_str(), "not found");
        }
        other => panic!("unexpected {other:?}"),
    }
}

#[test]
fn deletes_and_syncs_need_their_own_permission() {
    match open(TransferOp::Delete, "data/x", 0) {
        TransferOpening::Delete { path, reply: Message::Committed(c) } => {
            assert_eq!((path.as_str(), c.files), ("data/x", 1));
        }
        other => panic!("unexpected {other:?}"),
    }
    assert!(matches!(open(TransferOp::SyncUpload, "data", 0), TransferOpening::Refused { .. }));
    assert!(serving().open_transfer(&[1, 2, 3]).is_err());
}

#[test]
fn an_earlier_attempt_gives_its_id_and_its_bytes() {
    let id = util::TransferId::generate();
    let t = request(TransferOp::Upload, 100).identify(Some((id, Some(40))));
    assert!(t.resumed);
    assert_eq!((t.transfer_id, t.reusable), (id, 40));
    let t = t.measure(None).unwrap();
    assert_eq!(t.total, 100);
    let r = t.record(7);
    assert_eq!((r.role, r.direction, r.status), (Role::Server, Direction::Upload, TransferStatus::Active));
    assert_eq!((r.bytes_completed, r.verified_up_to, r.created_ms), (40, 0, 7));
    assert_eq!(r.staging_relpath, format!("{}/data/x", id.to_string()));
    let j = t.journal(8).unwrap();
    assert_eq!((j.file_id, j.status, j.updated_ms), (1, CommitStatus::Pending, 8));
    assert!(transfer(TransferOp::Download, 5).journal(8).is_none());
    let done = committed_record(r, 100, 9);
    assert_eq!((done.status, done.bytes_completed, done.updated_ms), (TransferStatus::Committed, 100, 9));
}

#[test]
fn what_is_there_decides_how_an_upload_goes() {
    let t = transfer(TransferOp::Upload, 100);
    let same = Some((100, Some(util::Hash::of(b"file"))));
    assert_eq!(t.reuse(same, true, true), Reuse::Identical);
    assert_eq!(t.reuse(Some((99, Some(util::Hash::of(b"file")))), true, false), Reuse::Delta);
    assert_eq!(t.reuse(Some((100, None)), false, false), Reuse::Plain);
    assert_eq!(t.reuse(None, false, true), Reuse::Delta);
    assert_eq!(t.reuse(None, false, false), Reuse::Plain);
    assert_eq!(transfer(TransferOp::Download, 100).reuse(same, true, true), Reuse::Plain);
}

#[test]
fn a_plain_upload_moves_after_begin() {
    let (mut t, out) = ServerTransfer::start(transfer(TransferOp::Upload, 100), Reuse::Plain);
    assert_eq!(out.len(), 2);
    assert_eq!(plan(&out[1]), (100, 100, 0));
    assert!(on_verify(&mut t).is_err());
    let other = Message::TransferBegin(TransferBegin { transfer_id: util::TransferId::generate() });
    assert!(matches!(
        on(&mut t, &other),
        Err(VelcruxError::Protocol(ProtocolError::InvalidStateTransition(
            "TRANSFER_BEGIN transfer_id mismatch"
        )))
    ));
    assert!(t.on_frame(None).is_err());
    assert!(matches!(on_begin(&mut t).unwrap(), TransferStep::Move));
    assert_eq!(t.stage, TransferStage::Moving);
    assert_eq!(
        t.on_moved(true),
        Outcome {
            counted: Counted::Upload { transferred: 100, reused: 0 },
            committed: Some(100),
            journal: Some(1),
            ingest: false,
            then: Counted::TransferEnded,
        }
    );
}

#[test]
fn a_file_that_is_there_is_committed_without_bytes() {
    let (mut t, out) = ServerTransfer::start(transfer(TransferOp::Upload, 100), Reuse::Identical);
    assert_eq!(plan(&out[1]), (100, 0, 100));
    assert!(matches!(on_begin(&mut t).unwrap(), TransferStep::Send(v) if v.is_empty()));
    match on_verify(&mut t).unwrap() {
        TransferStep::Send(v) => match &v[0] {
            Message::VerifyResult(r) => assert!(r.ok),
            other => panic!("unexpected {other:?}"),
        },
        other => panic!("unexpected {other:?}"),
    }
    match on_commit(&mut t).unwrap() {
        TransferStep::Commit { reply: Message::Committed(_), counted, then } => {
            assert_eq!(counted, Counted::Upload { transferred: 0, reused: 100 });
            assert_eq!(then, Counted::TransferEnded);
        }
        other => panic!("unexpected {other:?}"),
    }
    let (mut t, _) = ServerTransfer::start(transfer(TransferOp::Upload, 100), Reuse::Identical);
    on_begin(&mut t).unwrap();
    assert!(matches!(
        on_begin(&mut t).unwrap(),
        TransferStep::Abandon { then: Counted::TransferEnded }
    ));
}

fn staged(size: u64, sources: Vec<ChunkSource>) -> (ServerTransfer, Message, Message) {
    let (mut t, out) = ServerTransfer::start(transfer(TransferOp::Upload, size), Reuse::Delta);
    assert_eq!(out.len(), 1);
    let hashes: Vec<util::Hash> = sources.iter().map(|_| util::Hash::zero()).collect();
    let query = Message::ChunkQuery(ChunkQuery {
        transfer_id: t.transfer.transfer_id,
        query_seq: 5,
        chunk_hashes: hashes,
    });
    let hashes = match on(&mut t, &query).unwrap() {
        TransferStep::Locate(q) => q.chunk_hashes,
        other => panic!("unexpected {other:?}"),
    };
    let answer = delta_answer(size, &hashes, &sources, true);
    let (response, plan) = t.on_located(&answer, bytes::Bytes::from_static(b"r"));
    (t, response, plan)
}

#[test]
fn an_upload_sends_only_what_is_missing() {
    let size = 2 * TRANSFER_CHUNK;
    let here = ChunkSource::File { offset: 0, length: TRANSFER_CHUNK };
    let (mut t, response, p) = staged(size, vec![here, ChunkSource::Missing]);
    match response {
        Message::ChunkResponse(r) => {
            assert_eq!((r.query_seq, r.total_chunks, r.have_count), (5, 2, 1))
        }
        other => panic!("unexpected {other:?}"),
    }
    assert_eq!(plan(&p), (size, TRANSFER_CHUNK, TRANSFER_CHUNK));
    assert!(matches!(on_begin(&mut t).unwrap(), TransferStep::Move));
    assert_eq!(
        t.on_moved(true),
        Outcome {
            counted: Counted::Upload { transferred: TRANSFER_CHUNK, reused: TRANSFER_CHUNK },
            committed: None,
            journal: None,
            ingest: true,
            then: Counted::TransferEnded,
        }
    );
}

#[test]
fn an_upload_that_was_staged_as_a_whole_is_digested() {
    let whole = || staged(10, vec![ChunkSource::File { offset: 0, length: 10 }]).0;
    let mut t = whole();
    assert!(matches!(on_begin(&mut t).unwrap(), TransferStep::Send(v) if v.is_empty()));
    assert!(on_commit(&mut t).is_err());
    assert!(matches!(on_verify(&mut t).unwrap(), TransferStep::Digest));
    let (reply, ok) = t.on_digest(util::Hash::of(b"file"));
    assert!(ok.is_ok());
    assert!(matches!(reply, Message::VerifyResult(r) if r.ok));
    assert!(matches!(
        on_commit(&mut t).unwrap(),
        TransferStep::Commit {
            counted: Counted::Upload { transferred: 0, reused: 10 },
            then: Counted::TransferEnded,
            ..
        }
    ));
    let mut t = whole();
    on_begin(&mut t).unwrap();
    on_verify(&mut t).unwrap();
    let (reply, ok) = t.on_digest(util::Hash::of(b"other"));
    assert!(matches!(reply, Message::VerifyResult(r) if !r.ok));
    assert!(matches!(
        ok,
        Err(VelcruxError::Protocol(ProtocolError::Malformed("checksum mismatch")))
    ));
    assert_eq!(t.stage, TransferStage::Over);
    assert_eq!(t.fail(), Counted::TransferEnded);
}

#[test]
fn a_client_that_asks_nothing_gets_the_plain_plan() {
    let (mut t, _) = ServerTransfer::start(transfer(TransferOp::Upload, 100), Reuse::Delta);
    match on_begin(&mut t).unwrap() {
        TransferStep::Send(v) => assert_eq!(plan(&v[1]), (100, 100, 0)),
        other => panic!("unexpected {other:?}"),
    }
    assert_eq!(t.stage, TransferStage::Plain);
}

#[test]
fn a_download_skips_what_the_client_has() {
    let size = TRANSFER_CHUNK + 10;
    let (mut t, _) = ServerTransfer::start(transfer(TransferOp::Download, size), Reuse::Plain);
    let hint = Message::InventoryHint(InventoryHint {
        transfer_id: t.transfer.transfer_id,
        filter_bits: 8,
        num_hashes: 1,
        bitset: bytes::Bytes::from_static(&[1]),
    });
    assert!(matches!(on(&mut t, &hint).unwrap(), TransferStep::Digests(_)));
    match t.on_digests(vec![util::Hash::zero(); 2]) {
        Message::ChunkQuery(q) => assert_eq!((q.query_seq, q.chunk_hashes.len()), (1, 2)),
        other => panic!("unexpected {other:?}"),
    }
    let response = Message::ChunkResponse(ChunkResponse {
        transfer_id: t.transfer.transfer_id,
        query_seq: 1,
        total_chunks: 2,
        have_count: 1,
        rle_bitmap: bytes::Bytes::from_static(&[0]),
    });
    assert!(matches!(on(&mut t, &response).unwrap(), TransferStep::Unpack(_)));
    let (bitmap, p) = t.on_unpacked(&vec![false, true]);
    assert_eq!(bitmap.indices(), vec![1]);
    assert_eq!(plan(&p), (size, TRANSFER_CHUNK, 10));
    assert!(matches!(on_begin(&mut t).unwrap(), TransferStep::Move));
    assert_eq!(
        t.on_moved(false),
        Outcome {
            counted: Counted::Mismatch,
            committed: None,
            journal: None,
            ingest: false,
            then: Counted::TransferEnded,
        }
    );
}

#[test]
fn a_download_is_complete_or_its_file_is_gone() {
    let start = || {
        let (mut t, _) = ServerTransfer::start(transfer(TransferOp::Download, 7), Reuse::Plain);
        on_begin(&mut t).unwrap();
        t
    };
    assert_eq!(
        start().on_moved(true),
        Outcome {
            counted: Counted::Download { transferred: 7 },
            committed: Some(7),
            journal: None,
            ingest: false,
            then: Counted::TransferEnded,
        }
    );
    let (reply, then) = start().on_gone();
    assert!(matches!(reply, Message::Error(e) if e.code == ErrorCode::FileNotFound));
    assert_eq!(then, Counted::TransferEnded);
}

#[test]
fn refusals_starts_and_ends_are_counted() {
    let mut stats = ServerStats::default();
    let mut expected = stats;
    match open(TransferOp::Upload, "other/x", 1) {
        TransferOpening::Refused { then, .. } => stats.count(then),
        other => panic!("unexpected {other:?}"),
    }
    expected.authz_denials = 1;
    assert_eq!(stats, expected);
    let request = match open(TransferOp::Upload, "data/x", 1) {
        TransferOpening::Start { request, then } => {
            stats.count(then);
            request
        }
        other => panic!("unexpected {other:?}"),
    };
    assert_eq!(stats.transfers_active, 1);
    let t = request.identify(None).measure(None).unwrap();
    let (mut t, _) = ServerTransfer::start(t, Reuse::Plain);
    stats.count(t.fail());
    assert_eq!(stats, expected);
}

#[test]
fn resuming() {
    let c = serving();
    let mut r = transfer(TransferOp::Upload, 100).record(1);
    r.verified_up_to = 5;
    let request = Resume { transfer_id: r.transfer_id, idempotency_key: String::new() };
    assert_eq!(Conn::resume_target(&request.encode().unwrap()).unwrap(), request);
    assert!(Conn::resume_target(&[0]).is_none());
    let bitmap = ChunkBitmap::from_sorted_indices(&[2, 4], 7);
    let (reply, found) = c.resume_reply(None, Some(r.clone()), Some(bitmap));
    match reply {
        Message::ResumeState(s) => {
            assert_eq!(s.completed_chunks, vec![2, 4]);
            assert_eq!((s.file_size, s.bytes_completed, s.verified_up_to), (100, 7, 5));
        }
        other => panic!("unexpected {other:?}"),
    }
    let found = found.unwrap();
    let start = Message::TransferBegin(TransferBegin { transfer_id: found.transfer_id });
    let bytes = encode_message(&start, 0).unwrap();
    let path = begin_resumed(Some(decode_frame(&bytes).unwrap()), &found).unwrap();
    assert_eq!(path.as_str(), "data/x");
    let other = util::TransferId::generate();
    assert!(check_begin(Some(decode_frame(&bytes).unwrap()), other).is_err());
    let (missing, none) = c.resume_reply(None, None, None);
    assert!(none.is_none());
    r.remote_path = "other/x".to_string();
    assert_eq!(c.resume_reply(Some(r), None, None).0, missing);
}

#[test]
fn both_sides_of_a_resumed_upload_skip_the_same_chunks() {
    let c = serving();
    let r = transfer(TransferOp::Upload, 3 * TRANSFER_CHUNK).record(1);
    let bitmap = ChunkBitmap::from_sorted_indices(&[0, 2], 2 * TRANSFER_CHUNK);
    let (reply, found) = c.resume_reply(Some(r.clone()), None, Some(bitmap));
    let bytes = encode_message(&reply, 0).unwrap();
    let state = on_resume_state(decode_frame(&bytes).unwrap()).unwrap();
    assert_eq!((state.file_size, state.file_hash), (r.file_size, r.file_hash));
    check_size(&state, 3 * TRANSFER_CHUNK).unwrap();
    let (go_on, skipped) = check_hash(&state, r.transfer_id, r.file_hash).unwrap();
    assert_eq!(skipped.indices(), vec![0, 2]);
    assert_eq!(skipped.bytes_completed(), 2 * TRANSFER_CHUNK);
    let bytes = encode_message(&go_on, 0).unwrap();
    begin_resumed(Some(decode_frame(&bytes).unwrap()), &found.unwrap()).unwrap();
}

#[test]
fn both_sides_of_a_download_plan_the_same_bytes() {
    let (mut t, messages) = ServerTransfer::start(transfer(TransferOp::Download, 100), Reuse::Plain);
    let (mut d, _) = Download::start("data/x");
    for m in &messages {
        let bytes = encode_message(m, 0).unwrap();
        d.on_frame(decode_frame(&bytes).unwrap()).unwrap();
    }
    match d.on_looked(None) {
        DownloadStep::Move(m, n, false) => {
            assert_eq!(n, 100);
            assert!(matches!(on(&mut t, &m).unwrap(), TransferStep::Move));
        }
        other => panic!("unexpected {other:?}"),
    }
}

#[test]
fn a_server_tells_what_it_has() {
    let (t, _) = ServerTransfer::start(transfer(TransferOp::Upload, 100), Reuse::Delta);
    let bloom = Bloom {
        filter_bits: 16,
        num_hashes: 3,
        bitset: bytes::Bytes::from_static(&[0xF0, 0x0F]),
    };
    match t.hint(bloom) {
        Message::InventoryHint(h) => {
            assert_eq!(h.transfer_id, t.transfer.transfer_id);
            assert_eq!((h.filter_bits, h.num_hashes), (16, 3));
            assert_eq!(&h.bitset[..], &[0xF0, 0x0F]);
        }
        other => panic!("unexpected {other:?}"),
    }
}

#[test]
fn what_is_skipped_is_complete_at_the_server() {
    let size = 2 * TRANSFER_CHUNK + 1;
    let sources = vec![
        ChunkSource::Missing,
        ChunkSource::File { offset: 0, length: TRANSFER_CHUNK },
        ChunkSource::Store,
    ];
    let hashes = vec![util::Hash::zero(); 3];
    let answer = delta_answer(size, &hashes, &sources, true);
    let skipped = skip_bitmap(size, &answer.have);
    assert_eq!(skipped.indices(), vec![1, 2]);
    assert_eq!(skipped.indices(), answer.bitmap.indices());
    assert_eq!(skipped.bytes_completed(), answer.bitmap.bytes_completed());
}
