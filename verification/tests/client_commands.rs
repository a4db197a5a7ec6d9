//! The commands of the client.

use velcrux::client::download::{partial_name, Bloom, Download, DownloadStage, DownloadStep};
use velcrux::client::options::{load_client_config, ClientOptions, FileClientConfig};
use velcrux::client::query::{
    cancel_request, delete_request, list_lines, list_request, on_deleted, on_list_result,
    on_stat_result, stat_line, stat_request,
};
use velcrux::client::resume::{
    check_hash, check_size, local_file, on_resume_state, resume_request, transfer_id_of,
};
use velcrux::client::upload::{Upload, UploadStage, UploadStep};
use velcrux::client::url::{get_sni, parse_url, parse_url_with_path, UrlError};
use velcrux::client::ClientError;
use velcrux::protocol::capabilities::{Capability, DEFINED_MASK};
use velcrux::protocol::error::{ErrorCode, ErrorDetail};
use velcrux::protocol::frame::decode_frame;
use velcrux::protocol::message::{
    ChunkQuery, ChunkResponse, Committed, ErrorMsg, InventoryHint, ListResult, Message, Ping,
    ResumeState, StatResult, TransferCreated, TransferOp, TransferPlan, VerifyResult,
};
use velcrux::session::encode_message;
use velcrux::transfer::{delta_answer, ChunkSource, TRANSFER_CHUNK};
use velcrux::util;

fn target(url: &str) -> (String, u16, String) {
    let t = parse_url_with_path(url).unwrap();
    (t.host, t.port, t.path)
}

#[test]
fn urls() {
    let t = |h: &str, p: u16, s: &str| (h.to_string(), p, s.to_string());
    assert_eq!(target("velcrux://host:9000/a/b"), t("host", 9000, "/a/b"));
    assert_eq!(target("velcrux://host"), t("host", 7443, "/"));
    assert_eq!(target("velcrux://host/"), t("host", 7443, "/"));
    assert_eq!(target("velcrux://host/a:1"), t("host", 7443, "/a:1"));
    assert_eq!(target("velcrux://[::1]:+80"), t("[::1]", 80, "/"));
    assert_eq!(target("velcrux://h:0065535//x"), t("h", 65535, "//x"));
    assert_eq!(parse_url("velcrux://h:1/x").unwrap(), ("h".to_string(), 1));
    assert_eq!(target("velcrux://127.0.0.1:7443/a%20b"), t("127.0.0.1", 7443, "/a b"));
    assert_eq!(target("velcrux://h/%c3%A4/100%/%2g%2"), t("h", 7443, "/\u{e4}/100%/%2g%2"));
    assert_eq!(target("velcrux://h/a%2520b"), t("h", 7443, "/a%20b"));
    assert_eq!(target("velcrux://h/a%20%ff"), t("h", 7443, "/a%20%ff"));
    let err = |u: &str| parse_url_with_path(u).unwrap_err();
    assert_eq!(err("http://host"), UrlError::Scheme);
    assert_eq!(err("velcrux:/host"), UrlError::Scheme);
    assert_eq!(err("velcrux://host:65536"), UrlError::Port);
    assert_eq!(err("velcrux://host:"), UrlError::Port);
    assert_eq!(err("velcrux://host:+"), UrlError::Port);
    assert_eq!(err("velcrux://host:-1"), UrlError::Port);
    assert_eq!(err("velcrux://:80"), UrlError::NoHost);
    assert_eq!(err("velcrux:///x"), UrlError::NoHost);
    assert_eq!(UrlError::Port.message(), "invalid port");
    let t = parse_url_with_path("velcrux://host/data").unwrap();
    assert_eq!(get_sni(&None, &t), "host");
    assert_eq!(get_sni(&Some("name".to_string()), &t), "name");
}

fn options() -> ClientOptions {
    ClientOptions {
        ca: Some("ca.pem".to_string()),
        cert: None,
        key: None,
        sni: None,
        log_format: "text".to_string(),
        json: false,
        state_db: None,
        dedup: false,
        chunk_store: None,
    }
}

#[test]
fn the_command_line_wins_over_the_file() {
    let file = FileClientConfig {
        ca: Some("other.pem".to_string()),
        cert: Some("c.pem".to_string()),
        key: Some("k.pem".to_string()),
        sni: None,
        log_format: Some("json".to_string()),
        json: Some(false),
        state_db: None,
        dedup: Some(true),
        chunk_store: None,
    };
    assert!(!options().cli_log_json(false));
    assert!(options().cli_log_json(true));
    let o = load_client_config(options(), file);
    assert_eq!(o.ca.as_deref(), Some("ca.pem"));
    assert_eq!(o.cert.as_deref(), Some("c.pem"));
    assert!(o.presents_certificate());
    assert!(o.cli_log_json(false));
    assert!(o.dedup);
    assert!(o.capabilities().has(Capability::DedupChunkStore));
    assert!(!options().capabilities().has(Capability::DedupChunkStore));
    for bits in [o.capabilities().0, options().capabilities().0] {
        assert_eq!(bits & DEFINED_MASK, bits);
    }
    let home = || Some("/home/a".to_string());
    assert_eq!(o.chunk_store_dir(home()).unwrap(), "/home/a/.velcrux/chunks");
    assert_eq!(o.chunk_store_dir(None).unwrap(), ".velcrux-chunks");
    assert_eq!(options().chunk_store_dir(home()), None);
    assert_eq!(o.state_db_path(home()).unwrap(), "/home/a/.velcrux/client.db");
    assert_eq!(o.state_db_path(None), None);
}

fn up(u: &mut Upload, m: &Message) -> Result<UploadStep, ClientError> {
    let bytes = encode_message(m, 0).unwrap();
    u.on_frame(decode_frame(&bytes).unwrap())
}

fn down(d: &mut Download, m: &Message) -> Result<DownloadStep, ClientError> {
    let bytes = encode_message(m, 0).unwrap();
    d.on_frame(decode_frame(&bytes).unwrap())
}

fn created(id: util::TransferId) -> Message {
    Message::TransferCreated(TransferCreated {
        transfer_id: id,
        resumed: false,
        max_chunk_size: 1,
    })
}

fn plan(id: util::TransferId, total: u64, reusable: u64) -> Message {
    Message::TransferPlan(TransferPlan {
        transfer_id: id,
        bytes_total: total,
        bytes_to_transfer: total - reusable,
        bytes_reusable: reusable,
    })
}

fn not_found() -> Message {
    Message::Error(ErrorMsg::new(
        ErrorCode::FileNotFound,
        ErrorDetail::new("not found".to_string()),
    ))
}

#[test]
fn an_upload_of_a_file_that_the_server_has() {
    let id = util::TransferId::generate();
    let hash = util::Hash::of(b"x");
    let (mut u, request) = Upload::start("/tmp/x", "//data/x", 5, hash);
    match request {
        Message::TransferCreate(c) => {
            assert_eq!(c.op, TransferOp::Upload);
            assert_eq!((c.src_path.as_str(), c.dst_path.as_str()), ("/tmp/x", "data/x"));
            assert_eq!(c.idempotency_key, u.idempotency_key);
            assert_eq!(c.idempotency_key.len(), 26);
        }
        other => panic!("unexpected {other:?}"),
    }
    assert!(matches!(up(&mut u, &created(id)).unwrap(), UploadStep::Send(v) if v.is_empty()));
    match up(&mut u, &plan(id, 5, 5)).unwrap() {
        UploadStep::Send(v) => {
            assert!(matches!(&v[0], Message::TransferBegin(b) if b.transfer_id == id));
            assert!(matches!(&v[1], Message::Verify(w) if w.expected_hash == hash));
        }
        other => panic!("unexpected {other:?}"),
    }
    let result = |ok: bool| {
        Message::VerifyResult(VerifyResult { transfer_id: id, ok, computed_hash: hash })
    };
    assert_eq!(
        up(&mut u, &result(false)).unwrap_err().to_string(),
        "server reported verify mismatch on skip"
    );
    assert!(matches!(up(&mut u, &result(true)).unwrap(), UploadStep::Send(v) if v.len() == 1));
    let done = Message::Committed(Committed { transfer_id: id, files: 1 });
    assert!(matches!(up(&mut u, &done).unwrap(), UploadStep::Done));
    assert_eq!(u.stage, UploadStage::Over);
}

#[test]
fn an_upload_of_which_the_server_has_parts() {
    let id = util::TransferId::generate();
    let size = TRANSFER_CHUNK + 3;
    let (mut u, _) = Upload::start("x", "data/x", size, util::Hash::zero());
    up(&mut u, &created(id)).unwrap();
    let hint = Message::InventoryHint(InventoryHint {
        transfer_id: id,
        filter_bits: 8,
        num_hashes: 1,
        bitset: bytes::Bytes::from_static(&[0]),
    });
    assert!(matches!(up(&mut u, &hint).unwrap(), UploadStep::Digests(_)));
    assert!(matches!(
        u.on_digests(vec![util::Hash::zero(); 2]),
        Message::ChunkQuery(q) if q.query_seq == 1 && q.transfer_id == id
    ));
    let response = Message::ChunkResponse(ChunkResponse {
        transfer_id: id,
        query_seq: 1,
        total_chunks: 2,
        have_count: 1,
        rle_bitmap: bytes::Bytes::from_static(&[0]),
    });
    assert!(matches!(up(&mut u, &response).unwrap(), UploadStep::Unpack(_)));
    assert_eq!(u.on_unpacked(&vec![true, false]).indices(), vec![0]);
    assert!(matches!(
        up(&mut u, &plan(id, size, TRANSFER_CHUNK)).unwrap(),
        UploadStep::Move(Message::TransferBegin(_), 3)
    ));
}

#[test]
fn what_an_upload_fails_with() {
    let (mut u, _) = Upload::start("x", "data/x", 1, util::Hash::zero());
    assert_eq!(
        up(&mut u, &not_found()).unwrap_err().to_string(),
        "server error: code=FileNotFound detail=ErrorDetail(\"not found\")"
    );
    let ping = Message::Ping(Ping { nonce: 0, sender_ts_ms: 0 });
    assert_eq!(
        up(&mut u, &ping).unwrap_err().to_string(),
        "expected TRANSFER_CREATED, got 0x06"
    );
    up(&mut u, &created(util::TransferId::generate())).unwrap();
    assert_eq!(
        up(&mut u, &ping).unwrap_err().to_string(),
        "expected TRANSFER_PLAN or INVENTORY_HINT, got 0x06"
    );
    assert_eq!(u.stage, UploadStage::Offer);
}

#[test]
fn a_download_without_and_with_parts() {
    let id = util::TransferId::generate();
    let start = || {
        let (mut d, m) = Download::start("/data/x");
        assert!(matches!(m, Message::TransferCreate(c) if c.dst_path == "data/x"));
        assert!(matches!(down(&mut d, &created(id)).unwrap(), DownloadStep::Wait));
        let size = 2 * TRANSFER_CHUNK;
        assert!(matches!(down(&mut d, &plan(id, size, 0)).unwrap(), DownloadStep::Look(_)));
        d
    };
    let bloom = || Bloom {
        filter_bits: 8,
        num_hashes: 2,
        bitset: bytes::Bytes::from_static(&[9]),
    };
    let size = 2 * TRANSFER_CHUNK;
    let mut d = start();
    assert!(matches!(
        d.on_looked(None),
        DownloadStep::Move(Message::TransferBegin(_), n, false) if n == size
    ));
    let mut d = start();
    assert!(matches!(
        d.on_looked(Some(bloom())),
        DownloadStep::Send(Message::InventoryHint(h)) if h.num_hashes == 2
    ));
    let query = Message::ChunkQuery(ChunkQuery {
        transfer_id: id,
        query_seq: 3,
        chunk_hashes: vec![util::Hash::zero(); 2],
    });
    let hashes = match down(&mut d, &query).unwrap() {
        DownloadStep::Locate(q) => q.chunk_hashes,
        other => panic!("unexpected {other:?}"),
    };
    let sources = vec![ChunkSource::Store, ChunkSource::Missing];
    let answer = delta_answer(size, &hashes, &sources, true);
    assert!(matches!(
        d.on_located(&answer, bytes::Bytes::from_static(b"r")),
        Message::ChunkResponse(r) if r.query_seq == 3 && r.have_count == 1
    ));
    assert!(matches!(
        down(&mut d, &plan(id, size, TRANSFER_CHUNK)).unwrap(),
        DownloadStep::Move(_, TRANSFER_CHUNK, true)
    ));
    assert_eq!(d.stage, DownloadStage::Moving);
    let mut d = start();
    d.on_looked(Some(bloom()));
    assert!(matches!(
        down(&mut d, &plan(id, size, 0)).unwrap(),
        DownloadStep::Move(_, n, false) if n == size
    ));
    assert_eq!(partial_name("/tmp/x"), "/tmp/x.velcrux-partial");
}

#[test]
fn resuming_a_transfer() {
    let id = util::TransferId::generate();
    assert_eq!(transfer_id_of(&id.to_string()).unwrap(), id);
    assert_eq!(transfer_id_of("x").unwrap_err().to_string(), "invalid transfer id: x");
    assert!(matches!(resume_request(id), Message::Resume(r) if r.idempotency_key.is_empty()));
    let state = ResumeState {
        transfer_id: id,
        staging_relpath: "s/data/x.bin".to_string(),
        file_size: 10,
        bytes_completed: 4,
        verified_up_to: 0,
        file_hash: util::Hash::of(b"x"),
        completed_chunks: vec![1, 3],
    };
    let bytes = encode_message(&Message::ResumeState(state.clone()), 0).unwrap();
    assert_eq!(on_resume_state(decode_frame(&bytes).unwrap()).unwrap(), state);
    let bytes = encode_message(&not_found(), 0).unwrap();
    assert!(on_resume_state(decode_frame(&bytes).unwrap()).is_err());
    assert!(check_size(&state, 10).is_ok());
    assert_eq!(
        check_size(&state, 11).unwrap_err().to_string(),
        "local file size (11) does not match remote transfer size (10)"
    );
    let (m, b) = check_hash(&state, id, util::Hash::of(b"x")).unwrap();
    assert!(matches!(m, Message::TransferBegin(_)));
    assert_eq!((b.indices(), b.bytes_completed()), (vec![1, 3], 4));
    assert_eq!(
        check_hash(&state, id, util::Hash::zero()).unwrap_err().to_string(),
        "local file hash does not match transfer file hash"
    );
}

#[test]
fn the_local_file_of_a_transfer() {
    let some = |s: &str| Some(s.to_string());
    assert_eq!(local_file(&some("a"), some("b"), "c/d"), "a");
    assert_eq!(local_file(&None, some("b"), "c/d"), "b");
    assert_eq!(local_file(&None, None, "c/d"), "d");
    assert_eq!(local_file(&None, None, "c/d/./"), "d");
    assert_eq!(local_file(&None, None, "c/d//"), "d");
    assert_eq!(local_file(&None, None, "c/.."), "download");
    assert_eq!(local_file(&None, None, "/"), "download");
    assert_eq!(local_file(&None, None, ""), "download");
    for p in ["c/d", "c/d/./", "./x", ".", "a/..", "a/../b", "/usr/", "...", "a/.b"] {
        let expected = std::path::Path::new(p)
            .file_name()
            .map(|n| n.to_str().unwrap().to_string())
            .unwrap_or("download".to_string());
        assert_eq!(local_file(&None, None, p), expected, "{p}");
    }
}

fn stat(found: bool) -> StatResult {
    StatResult {
        transfer_id: util::TransferId::from_bytes(&[0u8; 16]).unwrap(),
        found,
        status: "active".to_string(),
        direction: "upload".to_string(),
        remote_path: "data/x".to_string(),
        file_size: 1234,
        bytes_completed: 56,
        verified_up_to: 0,
        created_ms: 1,
        updated_ms: 2,
    }
}

#[test]
fn asking_about_a_transfer() {
    let id = "00000000000000000000000000";
    assert!(matches!(stat_request(id).unwrap(), Message::Stat(_)));
    assert!(stat_request("nonsense").is_err());
    let bytes = encode_message(&Message::StatResult(stat(true)), 0).unwrap();
    let s = on_stat_result(decode_frame(&bytes).unwrap(), id).unwrap();
    assert_eq!(
        stat_line(&s),
        "00000000000000000000000000  active      upload            1234          56  data/x"
    );
    let bytes = encode_message(&Message::StatResult(stat(false)), 0).unwrap();
    assert_eq!(
        on_stat_result(decode_frame(&bytes).unwrap(), id).unwrap_err().to_string(),
        "transfer not found: 00000000000000000000000000"
    );
    match cancel_request(id).unwrap() {
        Message::Cancel(c) => assert_eq!(c.reason_code, 5000),
        other => panic!("unexpected {other:?}"),
    }
}

#[test]
fn asking_about_many_transfers() {
    assert!(matches!(list_request("/data"), Message::List(q) if q.url_prefix == "data"));
    let bytes =
        encode_message(&Message::ListResult(ListResult { entries: vec![stat(true)] }), 0).unwrap();
    let l = on_list_result(decode_frame(&bytes).unwrap()).unwrap();
    assert_eq!(
        list_lines(&l, "data"),
        vec!["00000000000000000000000000  active            1234  data/x".to_string()]
    );
    let none = ListResult { entries: vec![] };
    assert_eq!(list_lines(&none, "data"), vec!["(no transfers match data)".to_string()]);
}

#[test]
fn deleting_a_file() {
    assert!(matches!(
        delete_request("/data/x"),
        Message::TransferCreate(c) if c.op == TransferOp::Delete && c.dst_path == "data/x"
    ));
    let frame = |m: &Message| encode_message(m, 0).unwrap();
    let ok = Message::Committed(Committed { transfer_id: util::TransferId::generate(), files: 1 });
    assert!(on_deleted(decode_frame(&frame(&ok)).unwrap()).is_ok());
    assert_eq!(
        on_deleted(decode_frame(&frame(&not_found())).unwrap()).unwrap_err().to_string(),
        "remote delete failed: code=FileNotFound detail=ErrorDetail(\"not found\")"
    );
    let ping = Message::Ping(Ping { nonce: 0, sender_ts_ms: 0 });
    assert_eq!(
        on_deleted(decode_frame(&frame(&ping)).unwrap()).unwrap_err().to_string(),
        "expected COMMITTED for delete, got 0x06"
    );
}
