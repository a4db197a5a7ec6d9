//! Messages of the control stream.

use bytes::Bytes;
use velcrux::chunking::ChunkParams;
use velcrux::error::ProtocolError;
use velcrux::protocol::capabilities::Capabilities;
use velcrux::protocol::error::{ErrorCode, ErrorDetail};
use velcrux::protocol::limits::PROTOCOL_VERSION;
use velcrux::protocol::message::{
    Bye, Cancel, Checkpoint, ChunkQuery, ChunkResponse, Commit, Committed, ErrorMsg, Hello,
    HelloAck, InventoryHint, Limits, ListQuery, ListResult, ManifestBatch, ManifestBegin,
    ManifestEnd, Message, Ping, Resume, ResumeState, SessionOptions, StatQuery, StatResult,
    TransferBegin, TransferCreate, TransferCreated, TransferOp, TransferPlan, Verify, VerifyResult,
    HELLO,
};
use velcrux::protocol::varint;
use velcrux::util;

#[test]
fn hello_roundtrip() {
    let h = Hello::default_client();
    let p = h.encode().unwrap();
    let h2 = Hello::decode(&p).unwrap();
    assert_eq!(h, h2);
}

#[test]
fn hello_ack_roundtrip() {
    let h = HelloAck {
        version: PROTOCOL_VERSION,
        capabilities: Capabilities::empty(),
        limits: Limits::default(),
        agent: "velcruxd/0.1".into(),
    };
    let p = h.encode().unwrap();
    let h2 = HelloAck::decode(&p).unwrap();
    assert_eq!(h, h2);
}

#[test]
fn ping_roundtrip() {
    let p = Ping {
        nonce: 0xDEAD_BEEF,
        sender_ts_ms: 1234,
    };
    let buf = p.encode();
    let p2 = Ping::decode(&buf).unwrap();
    assert_eq!(p, p2);
}

#[test]
fn error_roundtrip() {
    let e = ErrorMsg::new(ErrorCode::ChecksumMismatch, ErrorDetail::new("bad chunk".to_string()));
    let buf = e.encode().unwrap();
    let e2 = ErrorMsg::decode(&buf).unwrap();
    assert_eq!(e, e2);
}

#[test]
fn bye_roundtrip() {
    let b = Bye {
        code: ErrorCode::TransferCancelled.to_wire(),
    };
    let buf = b.encode();
    let b2 = Bye::decode(&buf).unwrap();
    assert_eq!(b, b2);
}

#[test]
fn session_init_roundtrip() {
    let s = SessionOptions {
        bandwidth_bps: 1_000_000,
        priority: 7,
    };
    let buf = s.encode();
    let s2 = SessionOptions::decode(&buf).unwrap();
    assert_eq!(s, s2);
}

#[test]
fn message_enum_hello_roundtrip() {
    let m = Message::Hello(Hello::default_client());
    let (tb, p) = m.encode().unwrap();
    assert_eq!(tb, HELLO);
    let m2 = Message::decode(tb, &p).unwrap();
    assert_eq!(m, m2);
}

#[test]
fn rejects_truncated_hello() {
    let e = Hello::decode(&[0x01]).unwrap_err();
    assert!(matches!(e, ProtocolError::Malformed(_)));
}

#[test]
fn rejects_overlong_agent() {
    let mut h = Hello::default_client();
    h.agent = "x".repeat(70_000);
    let e = h.encode().unwrap_err();
    assert!(matches!(e, ProtocolError::Malformed(_)));
}

#[test]
fn transfer_op_roundtrip() {
    assert_eq!(TransferOp::from_wire(1).unwrap(), TransferOp::Upload);
    assert_eq!(TransferOp::from_wire(2).unwrap(), TransferOp::Download);
    assert_eq!(TransferOp::from_wire(3).unwrap(), TransferOp::SyncUpload);
    assert_eq!(TransferOp::from_wire(4).unwrap(), TransferOp::SyncDownload);
    assert_eq!(TransferOp::from_wire(5).unwrap(), TransferOp::Delete);
    assert!(TransferOp::from_wire(0).is_err());
    assert!(TransferOp::from_wire(99).is_err());
}

#[test]
fn checkpoint_roundtrip() {
    let cp = Checkpoint {
        transfer_id: util::TransferId::generate(),
        bytes_transferred: 1_000_000,
        verified_up_to: 512_000,
        ts_ms: 1234,
        completed_chunks: vec![0, 1, 2, 3, 4],
    };
    let buf = cp.encode().unwrap();
    let cp2 = Checkpoint::decode(&buf).unwrap();
    assert_eq!(cp, cp2);
}

#[test]
fn checkpoint_rejects_non_monotonic() {
    let mut buf = vec![0u8; 16];
    buf.extend_from_slice(&1000u64.to_le_bytes());
    buf.extend_from_slice(&0u64.to_le_bytes());
    buf.extend_from_slice(&0u64.to_le_bytes());
    let mut tmp = [0u8; 10];
    let n = varint::encode_varint(2, &mut tmp);
    buf.extend_from_slice(&tmp[..n]);
    let n = varint::encode_varint(5, &mut tmp);
    buf.extend_from_slice(&tmp[..n]);
    let n = varint::encode_varint(3, &mut tmp);
    buf.extend_from_slice(&tmp[..n]);
    assert!(Checkpoint::decode(&buf).is_err());
}

#[test]
fn resume_roundtrip() {
    let r = Resume {
        transfer_id: util::TransferId::generate(),
        idempotency_key: "abc-123".into(),
    };
    let buf = r.encode().unwrap();
    let r2 = Resume::decode(&buf).unwrap();
    assert_eq!(r, r2);
}

#[test]
fn resume_state_roundtrip() {
    let r = ResumeState {
        transfer_id: util::TransferId::generate(),
        staging_relpath: "x/1.velcrux-partial".into(),
        file_size: 10_000_000,
        bytes_completed: 4_000_000,
        verified_up_to: 0,
        file_hash: util::Hash::of(b"hello"),
        completed_chunks: vec![0, 1, 2],
    };
    let buf = r.encode().unwrap();
    let r2 = ResumeState::decode(&buf).unwrap();
    assert_eq!(r, r2);
}

#[test]
fn cancel_roundtrip() {
    let c = Cancel {
        transfer_id: util::TransferId::generate(),
        reason_code: 5000,
    };
    let buf = c.encode().unwrap();
    let c2 = Cancel::decode(&buf).unwrap();
    assert_eq!(c, c2);
}

#[test]
fn stat_query_roundtrip() {
    let q = StatQuery {
        transfer_id: util::TransferId::generate(),
    };
    let buf = q.encode();
    let q2 = StatQuery::decode(&buf).unwrap();
    assert_eq!(q, q2);
}

#[test]
fn stat_result_roundtrip() {
    let r = StatResult {
        transfer_id: util::TransferId::generate(),
        found: true,
        status: "active".into(),
        direction: "upload".into(),
        remote_path: "data/x.bin".into(),
        file_size: 12345,
        bytes_completed: 6000,
        verified_up_to: 0,
        created_ms: 1,
        updated_ms: 2,
    };
    let buf = r.encode().unwrap();
    let r2 = StatResult::decode(&buf).unwrap();
    assert_eq!(r, r2);
}

#[test]
fn list_query_roundtrip() {
    let q = ListQuery {
        url_prefix: "data/".into(),
    };
    let buf = q.encode().unwrap();
    let q2 = ListQuery::decode(&buf).unwrap();
    assert_eq!(q, q2);
}

#[test]
fn list_result_roundtrip() {
    let r = ListResult {
        entries: vec![
            StatResult {
                transfer_id: util::TransferId::generate(),
                found: true,
                status: "active".into(),
                direction: "upload".into(),
                remote_path: "data/a.bin".into(),
                file_size: 1,
                bytes_completed: 0,
                verified_up_to: 0,
                created_ms: 1,
                updated_ms: 2,
            },
            StatResult {
                transfer_id: util::TransferId::generate(),
                found: true,
                status: "committed".into(),
                direction: "download".into(),
                remote_path: "data/b.bin".into(),
                file_size: 2,
                bytes_completed: 2,
                verified_up_to: 2,
                created_ms: 3,
                updated_ms: 4,
            },
        ],
    };
    let buf = r.encode().unwrap();
    let r2 = ListResult::decode(&buf).unwrap();
    assert_eq!(r, r2);
}

#[test]
fn message_enum_full_roundtrip() {
    let cases = vec![
        Message::Checkpoint(Checkpoint {
            transfer_id: util::TransferId::generate(),
            bytes_transferred: 1,
            verified_up_to: 0,
            ts_ms: 0,
            completed_chunks: vec![0],
        }),
        Message::Resume(Resume {
            transfer_id: util::TransferId::generate(),
            idempotency_key: "k".into(),
        }),
        Message::Cancel(Cancel {
            transfer_id: util::TransferId::generate(),
            reason_code: 5000,
        }),
        Message::Stat(StatQuery {
            transfer_id: util::TransferId::generate(),
        }),
    ];
    for m in cases {
        let (tb, p) = m.encode().unwrap();
        let m2 = Message::decode(tb, &p).unwrap();
        assert_eq!(m, m2);
    }
}

#[test]
fn transfer_create_roundtrip() {
    let m = TransferCreate {
        op: TransferOp::Upload,
        src_path: "local/foo.bin".into(),
        dst_path: "data/foo.bin".into(),
        idempotency_key: "abc-123".into(),
        file_size: 12345,
        file_hash: util::Hash::of(b"hello"),
    };
    let buf = m.encode().unwrap();
    let m2 = TransferCreate::decode(&buf).unwrap();
    assert_eq!(m, m2);
}

#[test]
fn transfer_create_rejects_truncated() {
    let m = TransferCreate {
        op: TransferOp::Download,
        src_path: "".into(),
        dst_path: "data/x".into(),
        idempotency_key: "k".into(),
        file_size: 0,
        file_hash: util::Hash::zero(),
    };
    let buf = m.encode().unwrap();
    let mut bad = buf.to_vec();
    bad.pop();
    assert!(TransferCreate::decode(&bad).is_err());
}

#[test]
fn transfer_created_roundtrip() {
    let tid = util::TransferId::generate();
    let m = TransferCreated {
        transfer_id: tid,
        resumed: false,
        max_chunk_size: 4 * 1024 * 1024,
    };
    let buf = m.encode().unwrap();
    let m2 = TransferCreated::decode(&buf).unwrap();
    assert_eq!(m, m2);
}

#[test]
fn transfer_plan_roundtrip() {
    let tid = util::TransferId::generate();
    let m = TransferPlan {
        transfer_id: tid,
        bytes_total: 100,
        bytes_to_transfer: 100,
        bytes_reusable: 0,
    };
    let buf = m.encode().unwrap();
    let m2 = TransferPlan::decode(&buf).unwrap();
    assert_eq!(m, m2);
}

#[test]
fn transfer_begin_roundtrip() {
    let tid = util::TransferId::generate();
    let m = TransferBegin { transfer_id: tid };
    let buf = m.encode().unwrap();
    let m2 = TransferBegin::decode(&buf).unwrap();
    assert_eq!(m, m2);
}

#[test]
fn verify_roundtrip() {
    let tid = util::TransferId::generate();
    let m = Verify {
        transfer_id: tid,
        expected_hash: util::Hash::of(b"x"),
    };
    let buf = m.encode().unwrap();
    let m2 = Verify::decode(&buf).unwrap();
    assert_eq!(m, m2);
}

#[test]
fn verify_result_roundtrip() {
    let tid = util::TransferId::generate();
    let m = VerifyResult {
        transfer_id: tid,
        ok: true,
        computed_hash: util::Hash::of(b"x"),
    };
    let buf = m.encode().unwrap();
    let m2 = VerifyResult::decode(&buf).unwrap();
    assert_eq!(m, m2);
}

#[test]
fn commit_roundtrip() {
    let tid = util::TransferId::generate();
    let m = Commit { transfer_id: tid };
    let buf = m.encode().unwrap();
    let m2 = Commit::decode(&buf).unwrap();
    assert_eq!(m, m2);
}

#[test]
fn committed_roundtrip() {
    let tid = util::TransferId::generate();
    let m = Committed {
        transfer_id: tid,
        files: 1,
    };
    let buf = m.encode().unwrap();
    let m2 = Committed::decode(&buf).unwrap();
    assert_eq!(m, m2);
}

#[test]
fn message_enum_routes_all_m2_variants() {
    let tid = util::TransferId::generate();
    let cases = vec![
        Message::TransferCreate(TransferCreate {
            op: TransferOp::Upload,
            src_path: "x".into(),
            dst_path: "y".into(),
            idempotency_key: "k".into(),
            file_size: 1,
            file_hash: util::Hash::zero(),
        }),
        Message::TransferCreated(TransferCreated {
            transfer_id: tid,
            resumed: false,
            max_chunk_size: 1024,
        }),
        Message::TransferPlan(TransferPlan {
            transfer_id: tid,
            bytes_total: 1,
            bytes_to_transfer: 1,
            bytes_reusable: 0,
        }),
        Message::TransferBegin(TransferBegin { transfer_id: tid }),
        Message::Verify(Verify {
            transfer_id: tid,
            expected_hash: util::Hash::zero(),
        }),
        Message::VerifyResult(VerifyResult {
            transfer_id: tid,
            ok: true,
            computed_hash: util::Hash::zero(),
        }),
        Message::Commit(Commit { transfer_id: tid }),
        Message::Committed(Committed {
            transfer_id: tid,
            files: 1,
        }),
        Message::ManifestBegin(ManifestBegin {
            file_count: 42,
            total_bytes: 1024 * 1024 * 10,
            chunker_params: ChunkParams::default(),
            manifest_hash: util::Hash::zero(),
        }),
        Message::ManifestBatch(ManifestBatch {
            batch_index: 1,
            entry_count: 10,
            compressed_payload: Bytes::from_static(b"compressed_data"),
        }),
        Message::ManifestEnd(ManifestEnd {
            manifest_hash: util::Hash::zero(),
        }),
        Message::InventoryHint(InventoryHint {
            transfer_id: tid,
            filter_bits: 64,
            num_hashes: 3,
            bitset: Bytes::from_static(&[0xFF; 8]),
        }),
        Message::ChunkQuery(ChunkQuery {
            transfer_id: tid,
            query_seq: 1,
            chunk_hashes: vec![util::Hash::zero(), util::Hash::from_bytes(&[1u8; 32]).unwrap()],
        }),
        Message::ChunkResponse(ChunkResponse {
            transfer_id: tid,
            query_seq: 1,
            total_chunks: 2,
            have_count: 1,
            rle_bitmap: Bytes::from_static(&[0x01, 0x01]),
        }),
    ];
    for m in cases {
        let (tb, payload) = m.encode().unwrap();
        let m2 = Message::decode(tb, &payload).unwrap();
        assert_eq!(m, m2);
    }
}

#[test]
fn manifest_messages_roundtrip() {
    let begin = ManifestBegin {
        file_count: 1000,
        total_bytes: 50_000_000,
        chunker_params: ChunkParams::new(128 * 1024, 512 * 1024, 2 * 1024 * 1024).unwrap(),
        manifest_hash: util::Hash::from_bytes(&[7u8; 32]).unwrap(),
    };
    let bytes = begin.encode().unwrap();
    let decoded = ManifestBegin::decode(&bytes).unwrap();
    assert_eq!(begin, decoded);

    let batch = ManifestBatch {
        batch_index: 3,
        entry_count: 4096,
        compressed_payload: Bytes::from_static(b"payload_bytes"),
    };
    let bytes = batch.encode().unwrap();
    let decoded = ManifestBatch::decode(&bytes).unwrap();
    assert_eq!(batch, decoded);

    let end = ManifestEnd {
        manifest_hash: util::Hash::from_bytes(&[9u8; 32]).unwrap(),
    };
    let bytes = end.encode().unwrap();
    let decoded = ManifestEnd::decode(&bytes).unwrap();
    assert_eq!(end, decoded);
}

#[test]
fn delta_messages_roundtrip() {
    let tid = util::TransferId::generate();

    let hint = InventoryHint {
        transfer_id: tid,
        filter_bits: 128,
        num_hashes: 4,
        bitset: Bytes::from_static(&[0xAA; 16]),
    };
    let bytes = hint.encode().unwrap();
    let decoded = InventoryHint::decode(&bytes).unwrap();
    assert_eq!(hint, decoded);

    let query = ChunkQuery {
        transfer_id: tid,
        query_seq: 42,
        chunk_hashes: vec![
            util::Hash::from_bytes(&[1u8; 32]).unwrap(),
            util::Hash::from_bytes(&[2u8; 32]).unwrap(),
            util::Hash::from_bytes(&[3u8; 32]).unwrap(),
        ],
    };
    let bytes = query.encode().unwrap();
    let decoded = ChunkQuery::decode(&bytes).unwrap();
    assert_eq!(query, decoded);

    let resp = ChunkResponse {
        transfer_id: tid,
        query_seq: 42,
        total_chunks: 100,
        have_count: 95,
        rle_bitmap: Bytes::from_static(&[0x5F, 0x05]),
    };
    let bytes = resp.encode().unwrap();
    let decoded = ChunkResponse::decode(&bytes).unwrap();
    assert_eq!(resp, decoded);
}

#[test]
fn a_long_detail_is_cut_on_receipt() {
    let long = |text: String| {
        let m = ErrorMsg { code: ErrorCode::InvalidPath, retryable: false, detail: ErrorDetail(text) };
        ErrorMsg::decode(&m.encode().unwrap()).unwrap().detail
    };
    assert_eq!(long("x".repeat(256)).as_str(), "x".repeat(256));
    assert_eq!(long("x".repeat(300)).as_str(), "x".repeat(256));
    assert_eq!(long("\u{e4}".repeat(200)).as_str(), "\u{e4}".repeat(128));
    let odd = format!("x{}", "\u{e4}".repeat(200));
    assert_eq!(long(odd).as_str(), format!("x{}", "\u{e4}".repeat(127)));
}
