//! Both sides of a session, in memory.

use velcrux::auth::{Authenticator, FileAuthorizer, Grant, MtlsAuthenticator, PermSet};
use velcrux::error::{ProtocolError, VelcruxError};
use velcrux::protocol::capabilities::{Capabilities, Capability};
use velcrux::protocol::error::ErrorCode;
use velcrux::protocol::frame::{decode_frame, Frame};
use velcrux::protocol::message::{
    Auth, Hello, Message, StatQuery, ListQuery, Cancel, BYE, CHUNK_QUERY, LIST, STAT,
    TRANSFER_CREATE,
};
use velcrux::session::client::{
    bye_message, hello_message, hello_with_capabilities, new_ping, on_auth_ok, on_hello_ack,
    on_pong,
};
use velcrux::session::server::{cancelled_record, Counted, ServerAction};
use velcrux::session::{
    encode_message, encode_reply, frame_progress, ClientSession, FrameProgress, ServerConn, ServerState,
    ServerStats,
};
use velcrux::state::{Direction, Role, TransferRecord, TransferStatus};
use velcrux::transport::identity::{Identity, IdentityView};
use velcrux::util;

type Conn = ServerConn<MtlsAuthenticator, FileAuthorizer>;

fn grants() -> FileAuthorizer {
    FileAuthorizer::from_grants(vec![Grant {
        identity: "alice".to_string(),
        path_prefix: "data".to_string(),
        permissions: PermSet::upload() | PermSet::list() | PermSet::resume(),
    }])
}

fn server() -> Conn {
    let mut caps = Capabilities::empty();
    caps.set(Capability::Blake3);
    caps.set(Capability::FixedChunking);
    caps.set(Capability::Symlinks);
    let id = Identity::new("alice", "issuer", "cert");
    ServerConn::with_state(caps, "velcruxd", Some(id), true, MtlsAuthenticator::new(), grants())
}

/// Hand a message to the server.
fn hand(c: &mut Conn, m: &Message, now_ms: u64) -> Result<ServerAction, VelcruxError> {
    let bytes = encode_message(m, 0).unwrap();
    c.on_frame(decode_frame(&bytes).unwrap(), now_ms)
}

fn sent(a: ServerAction) -> (Message, Option<Counted>) {
    match a {
        ServerAction::Send { reply, then } => (reply, then),
        other => panic!("unexpected {other:?}"),
    }
}

fn serving() -> Conn {
    let mut c = server();
    sent(hand(&mut c, &hello_message(), 0).unwrap());
    sent(hand(&mut c, &Message::Auth(Auth::mtls()), 0).unwrap());
    c
}

fn record(path: &str) -> TransferRecord {
    TransferRecord {
        transfer_id: util::TransferId::generate(),
        idempotency_key: "k".to_string(),
        role: Role::Server,
        direction: Direction::Upload,
        status: TransferStatus::Active,
        remote_path: path.to_string(),
        local_path: String::new(),
        file_size: 10,
        file_hash: util::Hash::zero(),
        verified_up_to: 3,
        last_checkpoint_ms: 0,
        bytes_completed: 4,
        staging_relpath: String::new(),
        created_ms: 1,
        updated_ms: 2,
    }
}

#[test]
fn handshake_settles_the_common_capabilities() {
    let mut c = server();
    let mut stats = ServerStats::default();
    let (ack, then) = sent(hand(&mut c, &hello_message(), 0).unwrap());
    stats.count(then.unwrap());
    assert_eq!(stats.handshakes, 1);
    assert_eq!(c.state, ServerState::AwaitAuth);
    let bytes = encode_message(&ack, 0).unwrap();
    let (negotiated, auth) = on_hello_ack(Some(decode_frame(&bytes).unwrap())).unwrap();
    assert_eq!(negotiated.capabilities.to_string(), "{fixed,blake3,symlinks}");
    assert_eq!(negotiated.server_agent, "velcruxd/0.1.0");
    let (ok, then) = sent(hand(&mut c, &auth, 0).unwrap());
    assert!(then.is_none());
    assert_eq!(c.state, ServerState::Serving);
    let bytes = encode_message(&ok, 0).unwrap();
    let ok = on_auth_ok(Some(decode_frame(&bytes).unwrap())).unwrap();
    assert_eq!(ok.identity, "alice");
    assert_eq!(ok.permissions, (PermSet::upload() | PermSet::list() | PermSet::resume()).0);
    let mut session = ClientSession::from_handshake_parts(negotiated, 1u8, 2u8);
    *session.send_mut() = 5;
    assert_eq!(session.negotiated().version, 1);
    assert_eq!(session.send_mut_owned(0), 5);
    assert_eq!(session.recv_mut_owned(0), 2);
}

#[test]
fn nothing_in_common_is_refused() {
    let mut c = server();
    let mut caps = Capabilities::empty();
    caps.set(Capability::Blake3);
    match hand(&mut c, &hello_with_capabilities(caps), 0).unwrap() {
        ServerAction::Refuse { reply: Message::Error(e), code, .. } => {
            assert_eq!(e.code, ErrorCode::ProtocolVersionUnsupported);
            assert_eq!(code, 1002);
            assert_eq!(e.detail.as_str(), "intersection lacks any chunking mode");
        }
        other => panic!("unexpected {other:?}"),
    }
    assert_eq!(c.state, ServerState::Closed);
    assert_eq!(c.awaits_frame().unwrap(), false);
}

#[test]
fn frames_out_of_order_are_errors() {
    let mut c = server();
    assert!(matches!(
        hand(&mut c, &Message::Auth(Auth::mtls()), 0),
        Err(VelcruxError::Protocol(ProtocolError::InvalidStateTransition("expected HELLO")))
    ));
    sent(hand(&mut c, &hello_message(), 0).unwrap());
    assert!(matches!(
        hand(&mut c, &hello_message(), 0),
        Err(VelcruxError::Protocol(ProtocolError::InvalidStateTransition("expected AUTH")))
    ));
}

#[test]
fn peers_without_a_certificate_are_refused() {
    let mut c = ServerConn::new(Hello::default_client().capabilities, "s", None);
    sent(hand(&mut c, &hello_message(), 0).unwrap());
    assert!(matches!(
        hand(&mut c, &Message::Auth(Auth::mtls()), 0),
        Err(VelcruxError::Protocol(ProtocolError::InvalidIdentity("no peer identity")))
    ));
}

#[test]
fn other_mechanisms_are_refused() {
    let mut c = server();
    sent(hand(&mut c, &hello_message(), 0).unwrap());
    let auth = Auth { mechanism: 1, token: vec![7; 96] };
    match hand(&mut c, &Message::Auth(auth), 0).unwrap() {
        ServerAction::Refuse { reply: Message::Error(e), .. } => {
            assert_eq!(e.code, ErrorCode::AuthFailed)
        }
        other => panic!("unexpected {other:?}"),
    }
    assert_eq!(c.state, ServerState::Closed);
}

#[test]
fn ping_is_answered_by_its_pong() {
    let mut c = serving();
    let ping = new_ping();
    let (pong, then) = sent(hand(&mut c, &Message::Ping(ping), 77).unwrap());
    assert_eq!(then, Some(Counted::Ping));
    let bytes = encode_message(&pong, 0).unwrap();
    let frame = decode_frame(&bytes).unwrap();
    assert!(on_pong(ping.nonce, Some(frame)).is_ok());
    let frame = decode_frame(&bytes).unwrap();
    assert!(on_pong(ping.nonce.wrapping_add(1), Some(frame)).is_err());
    assert!(on_pong(ping.nonce, None).is_err());
}

#[test]
fn bye_closes() {
    let mut c = serving();
    assert!(matches!(hand(&mut c, &bye_message(), 0).unwrap(), ServerAction::Finish));
    assert_eq!(c.state, ServerState::Closed);
    assert_eq!(encode_message(&bye_message(), 0).unwrap()[1], BYE);
}

#[test]
fn requests_are_dispatched() {
    let mut c = serving();
    let frame = |t: u8| Frame {
        version: 1,
        type_byte: t,
        flags: Default::default(),
        length: 0,
        request_id: 0,
        payload: &[],
    };
    assert!(matches!(c.on_frame(frame(TRANSFER_CREATE), 0).unwrap(), ServerAction::Transfer));
    assert!(matches!(c.on_frame(frame(STAT), 0).unwrap(), ServerAction::Stat));
    assert!(matches!(c.on_frame(frame(LIST), 0).unwrap(), ServerAction::List));
    match c.on_frame(frame(CHUNK_QUERY), 0).unwrap() {
        ServerAction::TrySend(Message::Error(e)) => {
            assert_eq!(e.code, ErrorCode::UnsupportedMessage)
        }
        other => panic!("unexpected {other:?}"),
    }
    assert_eq!(c.state, ServerState::Serving);
}

#[test]
fn stat_hides_what_may_not_be_listed() {
    let c = serving();
    let q = StatQuery { transfer_id: util::TransferId::generate() };
    let id = Conn::stat_target(&q.encode()).unwrap();
    assert_eq!(id, q.transfer_id);
    let missing = c.stat_reply(id, None);
    let mut hidden = record("other/x");
    hidden.transfer_id = id;
    assert_eq!(c.stat_reply(id, Some(hidden)), missing);
    let mut shown = record("data/x");
    shown.transfer_id = id;
    match c.stat_reply(id, Some(shown)) {
        Message::StatResult(s) => {
            assert!(s.found);
            assert_eq!((s.file_size, s.bytes_completed, s.verified_up_to), (10, 4, 3));
            assert_eq!(s.status, "active");
        }
        other => panic!("unexpected {other:?}"),
    }
    match missing {
        Message::StatResult(s) => assert_eq!((s.found, s.status.as_str()), (false, "missing")),
        other => panic!("unexpected {other:?}"),
    }
    assert!(Conn::stat_target(&[1, 2, 3]).is_none());
}

#[test]
fn list_shows_only_what_may_be_listed() {
    let c = serving();
    let q = ListQuery { url_prefix: "//data".to_string() };
    assert_eq!(Conn::list_target(&q.encode().unwrap()).unwrap(), "data");
    match c.list_reply(vec![record("data/a"), record("other/b"), record("data/c")]) {
        Message::ListResult(l) => {
            let paths: Vec<&str> = l.entries.iter().map(|e| e.remote_path.as_str()).collect();
            assert_eq!(paths, vec!["data/a", "data/c"]);
        }
        other => panic!("unexpected {other:?}"),
    }
}

#[test]
fn cancel_needs_permission() {
    let c = serving();
    let q = Cancel { transfer_id: util::TransferId::generate(), reason_code: 5000 };
    assert_eq!(Conn::cancel_target(&q.encode().unwrap()), Some(q.transfer_id));
    assert!(c.cancels(&Some(record("data/a"))));
    assert!(!c.cancels(&Some(record("other/a"))));
    assert!(!c.cancels(&None));
    let before = record("data/a");
    let after = cancelled_record(before.clone(), 99);
    assert_eq!((after.status, after.updated_ms), (TransferStatus::Cancelled, 99));
    assert_eq!((after.transfer_id, after.created_ms), (before.transfer_id, before.created_ms));
}

#[test]
fn replies_echo_the_id_of_the_request() {
    let request = encode_message(&Message::Ping(new_ping()), 77).unwrap();
    let request = decode_frame(&request).unwrap();
    let reply = encode_reply(&bye_message(), &request).unwrap();
    let reply = decode_frame(&reply).unwrap();
    assert_eq!((reply.request_id, reply.type_byte), (77, BYE));
}

struct Suspicious;

impl Authenticator for Suspicious {
    fn accepts(&self, _identity: IdentityView) -> Result<IdentityView, ProtocolError> {
        unreachable!()
    }

    fn authenticate(&self, _identity: &Identity) -> Result<Identity, VelcruxError> {
        Err(VelcruxError::Protocol(ProtocolError::InvalidIdentity("revoked")))
    }
}

#[test]
fn the_error_of_the_authenticator_is_passed_on() {
    let caps = Hello::default_client().capabilities;
    let id = Identity::new("alice", "issuer", "cert");
    let mut c = ServerConn::with_state(caps, "velcruxd", Some(id), true, Suspicious, grants());
    let hello = encode_message(&hello_message(), 0).unwrap();
    c.on_frame(decode_frame(&hello).unwrap(), 0).unwrap();
    let auth = encode_message(&Message::Auth(Auth::mtls()), 0).unwrap();
    assert!(matches!(
        c.on_frame(decode_frame(&auth).unwrap(), 0),
        Err(VelcruxError::Protocol(ProtocolError::InvalidIdentity("revoked")))
    ));
    assert_eq!(c.state, ServerState::AwaitAuth);
}

#[test]
fn counters_count() {
    let mut s = ServerStats::default();
    s.count(Counted::Connection);
    s.count(Counted::TransferStarted);
    s.count(Counted::Upload { transferred: 10, reused: 3 });
    s.count(Counted::Download { transferred: 7 });
    s.count(Counted::Denied);
    s.count(Counted::Mismatch);
    s.count(Counted::TransferEnded);
    assert_eq!((s.connections, s.transfers_active), (1, 0));
    assert_eq!((s.bytes_transferred_upload, s.bytes_reused), (10, 3));
    assert_eq!((s.transfers_total_download, s.bytes_transferred_download), (1, 7));
    assert_eq!((s.authz_denials, s.checksum_mismatches), (1, 1));
}

#[test]
fn frames_are_read_exactly() {
    let m = Message::List(ListQuery { url_prefix: "x".repeat(300) });
    let bytes = encode_message(&m, 9).unwrap();
    let mut follow = bytes.clone();
    follow.extend_from_slice(&[1, 2, 3]);
    for early in [false, true] {
        let mut have = 0usize;
        loop {
            match frame_progress(&follow[..have], early).unwrap() {
                FrameProgress::Complete => break,
                FrameProgress::Need(n) => have += n,
            }
        }
        assert_eq!(have, bytes.len());
    }
    let f = decode_frame(&bytes).unwrap();
    assert_eq!(f.request_id, 9);
    assert_eq!(Message::decode(f.type_byte, f.payload).unwrap(), m);
}

#[test]
fn oversized_frames_are_refused_before_they_are_read() {
    let mut head = vec![1u8, 6, 0, 0];
    head.extend_from_slice(&[0x81, 0x80, 0x40]);
    assert!(matches!(
        frame_progress(&head, true),
        Err(ProtocolError::FrameTooLarge { declared: 1048577, limit: 1048576 })
    ));
    assert!(matches!(frame_progress(&head, false), Ok(FrameProgress::Need(8))));
}
