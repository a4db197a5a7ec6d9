//! What a connection that serves does about the requests of a client.

use vstd::prelude::*;
use vstd::utf8;

use crate::auth::grants;
use crate::auth::{Authenticator, Authorizer, Op};
use crate::client::sync;
use crate::client::upload;
use crate::error::{ProtocolError, VelcruxError};
use crate::foreign;
use crate::protocol::capabilities;
use crate::protocol::capabilities::Capability;
use crate::protocol::error::ErrorCode;
use crate::protocol::frame::Frame;
use crate::protocol::message;
use crate::protocol::message::{
    Auth, Cancel, CancelView, Commit, CommittedView, Hello, HelloAck, ListQuery, ListQueryView,
    MessageView, Resume, ResumeView, StatQuery, StatQueryView, TransferBegin, TransferCreate,
    TransferCreateView, TransferOp, Verify,
};
use crate::session;
use crate::session::agreement;
use crate::session::client as side;
use crate::session::server;
use crate::session::server::{
    Answer, Counted, ServerAction, ServerActionView, ServerConn, ServerState, ServerStats,
};
use crate::session::transfer;
use crate::session::transfer::{
    ServerTransfer, Transfer, TransferStage, TransferStart, TransferStepView,
};
use crate::state::bitmap;
use crate::state::{ChunkBitmapView, Direction, Role, TransferRecordView, TransferStatus};
use crate::transfer::Bloom;
use crate::util;

verus! {

/// While a connection serves, each request of a client comes to the action
/// that is made for it, and the connection goes on serving the same identity;
/// BYE ends it. Anything else is answered as not supported.
pub proof fn law_each_request_has_its_action<N: Authenticator, A: Authorizer>(
    c: ServerConn<N, A>,
    m: MessageView,
    now_ms: u64,
)
    requires
        c.state == ServerState::Serving,
        m.encoding() is Ok,
        m !is Ping,
        m !is Pong,
    ensures
        c.answer(agreement::sent(m).0, agreement::sent(m).1, now_ms) matches Ok(a) && {
            &&& a.identity == server::identity_view(c.identity)
            &&& a.state == if m is Bye {
                ServerState::Closed
            } else {
                ServerState::Serving
            }
            &&& m is TransferCreate <==> a.action is Transfer
            &&& m is Resume <==> a.action is Resume
            &&& m is Stat <==> a.action is Stat
            &&& m is List <==> a.action is List
            &&& m is Cancel <==> a.action is Cancel
            &&& m is Bye <==> a.action is Finish
            &&& a.action !is Send && a.action !is Refuse
            &&& a.action matches ServerActionView::TrySend(e) ==> e == server::error_reply(
                ErrorCode::UnsupportedMessage,
                "unsupported"@,
            )
        },
{
}

/// The types of the frames that a connection acts on while it serves.
pub proof fn law_frame_types_of_requests<N: Authenticator, A: Authorizer>(
    c: ServerConn<N, A>,
    t: u8,
    payload: Seq<u8>,
    now_ms: u64,
)
    requires
        c.state == ServerState::Serving,
        t != 0x06,
    ensures
        c.answer(t, payload, now_ms) matches Ok(a) && {
            &&& t == 0x07 <==> a.action is Finish
            &&& t == 0x10 <==> a.action is Transfer
            &&& t == 0x19 <==> a.action is Resume
            &&& t == 0x1B <==> a.action is Cancel
            &&& t == 0x1C <==> a.action is Stat
            &&& t == 0x1E <==> a.action is List
        },
{
}

/// Before a connection serves, a request comes to nothing but an error.
pub proof fn law_nothing_before_serving<N: Authenticator, A: Authorizer>(
    c: ServerConn<N, A>,
    m: MessageView,
    now_ms: u64,
)
    requires
        c.state != ServerState::Serving,
        m !is Hello,
        m !is Auth,
    ensures
        c.answer(m.type_byte(), agreement::sent(m).1, now_ms) is Err,
{
}

/// A RESUME that a client sends is read as it was meant, and answered with
/// what is recorded of the transfer: its id, size and digest, and exactly the
/// chunks that are complete. An upload is resumed by whoever may resume on its
/// path, a download by whoever may download it; nobody else, and nothing
/// without recorded state.
pub proof fn law_resume_is_answered<N: Authenticator, A: Authorizer>(
    c: ServerConn<N, A>,
    m: Resume,
    r: TransferRecordView,
    by_key: Option<TransferRecordView>,
    done: ChunkBitmapView,
    now_ms: u64,
)
    requires
        c.state == ServerState::Serving,
        utf8::encode_utf8(m.idempotency_key@).len() <= 65535,
        done.set.finite(),
    ensures
        m@.encoding() is Ok,
        ({
            let f = agreement::sent(MessageView::Resume(m@));
            &&& c.answer(f.0, f.1, now_ms) == Ok::<Answer, ProtocolError>(
                Answer {
                    state: ServerState::Serving,
                    identity: server::identity_view(c.identity),
                    action: ServerActionView::Resume,
                },
            )
            &&& ResumeView::parse(f.1) == Ok::<ResumeView, ProtocolError>(m@)
        }),
        c.resume_answer(Some(r), by_key, Some(done)) is Some <==> c.has_state && (if r.direction
            == Direction::Upload {
            c.allows(Op::Resume, r.remote_path)
        } else {
            c.allows(Op::Download, r.remote_path)
        }),
        c.resume_answer(None, Some(r), Some(done)) == c.resume_answer(Some(r), by_key, Some(done)),
        c.resume_answer(None, None, Some(done)) is None,
        c.resume_answer(Some(r), by_key, Some(done)) matches Some(s) ==> {
            &&& s.transfer_id == r.transfer_id
            &&& s.staging_relpath == r.staging_relpath
            &&& s.file_size == r.file_size
            &&& s.file_hash == r.file_hash
            &&& s.verified_up_to == r.verified_up_to
            &&& s.bytes_completed == done.bytes_completed
            &&& s.completed_chunks.to_set() == done.set
            &&& forall|i: int, j: int|
                0 <= i < j < s.completed_chunks.len() ==> s.completed_chunks[i]
                    < s.completed_chunks[j]
        },
        c.resume_answer(Some(r), by_key, None) matches Some(s) ==> s.bytes_completed == 0
            && s.completed_chunks.len() == 0,
{
    message::progress::law_resume_roundtrip(m);
    bitmap::lemma_ascending_lists(done.set);
    bitmap::lemma_ascending_lists(Set::<u64>::empty());
    let none = bitmap::ascending(Set::<u64>::empty());
    if none.len() > 0 {
        assert(none.to_set().contains(none[0]));
    }
}

/// What is recorded of a transfer that starts is what a RESUME of it is
/// answered later: the same id, the declared size and digest.
pub proof fn law_started_transfer_resumes<N: Authenticator, A: Authorizer>(
    c: ServerConn<N, A>,
    t: Transfer,
    done: ChunkBitmapView,
    now_ms: u64,
)
    requires
        c.has_state,
        t.create.op == TransferOp::Upload || t.create.op == TransferOp::Download,
        c.allows(
            if t.create.op == TransferOp::Upload {
                Op::Resume
            } else {
                Op::Download
            },
            t.create.dst_path@,
        ),
    ensures
        c.resume_answer(Some(t.record_view(now_ms)), None, Some(done)) matches Some(s)
            && s.transfer_id == t.transfer_id@ && s.file_size == t.total && s.file_hash
            == t.create.file_hash@ && s.verified_up_to == 0,
        ({
            let r = t.record_view(now_ms);
            &&& r.idempotency_key == t.create.idempotency_key@
            &&& r.role == Role::Server
            &&& r.status == TransferStatus::Active
            &&& r.remote_path == t.create.dst_path@
            &&& r.local_path.len() == 0
            &&& r.bytes_completed == t.reusable
            &&& r.created_ms == now_ms && r.updated_ms == now_ms && r.last_checkpoint_ms == now_ms
        }),
{
    reveal_strlit("");
}

/// A request of a client is read as it was meant, and the path that it is
/// checked for is the one on the server: for a synchronization from the server
/// the source, for everything else the destination.
pub proof fn law_request_is_checked_on_its_path<N: Authenticator, A: Authorizer>(
    c: ServerConn<N, A>,
    m: TransferCreate,
    now_ms: u64,
)
    requires
        c.state == ServerState::Serving,
        utf8::encode_utf8(m.src_path@).len() <= 65535,
        utf8::encode_utf8(m.dst_path@).len() <= 65535,
        utf8::encode_utf8(m.idempotency_key@).len() <= 65535,
    ensures
        m@.encoding() is Ok,
        ({
            let f = agreement::sent(MessageView::TransferCreate(m@));
            &&& c.answer(f.0, f.1, now_ms) == Ok::<Answer, ProtocolError>(
                Answer {
                    state: ServerState::Serving,
                    identity: server::identity_view(c.identity),
                    action: ServerActionView::Transfer,
                },
            )
            &&& TransferCreateView::parse(f.1) == Ok::<TransferCreateView, ProtocolError>(m@)
        }),
        m.op == TransferOp::SyncDownload ==> transfer::required(m@) == (Op::Sync, m.src_path@),
        m.op != TransferOp::SyncDownload ==> transfer::required(m@).1 == m.dst_path@,
        transfer::required(m@).0 == Op::Sync <==> m.op == TransferOp::SyncDownload || m.op
            == TransferOp::SyncUpload,
        transfer::required(m@).0 == Op::Upload <==> m.op == TransferOp::Upload,
        transfer::required(m@).0 == Op::Download <==> m.op == TransferOp::Download,
        transfer::required(m@).0 == Op::Delete <==> m.op == TransferOp::Delete,
{
    message::transfer::law_transfer_create_roundtrip(m);
}

/// The requests that a client makes about a path are checked by the server for
/// that path, without the slashes in front of it, and for the permission that
/// the command is about.
pub proof fn law_client_requests_reach_their_path(
    a: Seq<char>,
    path: Seq<char>,
    local: Seq<char>,
    key: Seq<char>,
    size: u64,
    hash: Seq<u8>,
)
    requires
        grants::slashes(a),
        path.len() > 0,
        path[0] != '/',
    ensures
        transfer::required(sync::sync_create(false, a + path, key)) == (Op::Sync, path),
        transfer::required(sync::sync_create(true, a + path, key)) == (Op::Sync, path),
        sync::sync_create(false, a + path, key).op == TransferOp::SyncDownload,
        sync::sync_create(true, a + path, key).op == TransferOp::SyncUpload,
        transfer::required(
            upload::request(TransferOp::Upload, local, a + path, key, size, hash),
        ) == (Op::Upload, path),
        transfer::required(
            upload::request(TransferOp::Download, local, a + path, key, size, hash),
        ) == (Op::Download, path),
        transfer::required(
            upload::request(TransferOp::Delete, local, a + path, key, size, hash),
        ) == (Op::Delete, path),
        ({
            let r = upload::request(TransferOp::Upload, local, a + path, key, size, hash);
            r.src_path == local && r.idempotency_key == key && r.file_size == size && r.file_hash
                == hash
        }),
{
    grants::law_leading_slashes(a, path);
}

/// STAT, LIST and CANCEL are read as they were meant.
pub proof fn law_questions_are_understood(stat: StatQuery, list: ListQuery, cancel: Cancel)
    requires
        utf8::encode_utf8(list.url_prefix@).len() <= 65535,
    ensures
        StatQueryView::parse(agreement::sent(MessageView::Stat(stat@)).1) == Ok::<
            StatQueryView,
            ProtocolError,
        >(stat@),
        list@.encoding() is Ok,
        ListQueryView::parse(agreement::sent(MessageView::List(list@)).1) == Ok::<
            ListQueryView,
            ProtocolError,
        >(list@),
        CancelView::parse(agreement::sent(MessageView::Cancel(cancel@)).1) == Ok::<
            CancelView,
            ProtocolError,
        >(cancel@),
{
    message::progress::law_stat_query_roundtrip(stat);
    message::progress::law_list_query_roundtrip(list);
    message::progress::law_cancel_roundtrip(cancel);
}

/// A STAT tells what is recorded of a transfer if the identity may list its
/// path. Otherwise, and if there is none, it tells of no transfer but the one
/// that was asked for, and nothing of it.
pub proof fn law_stat_tells_what_is_recorded<N: Authenticator, A: Authorizer>(
    c: ServerConn<N, A>,
    id: Seq<u8>,
    r: TransferRecordView,
)
    ensures
        c.stat_answer(id, Some(r)) matches MessageView::StatResult(s) && {
            &&& s.found <==> c.has_state && c.allows(Op::List, r.remote_path)
            &&& s.found ==> s.transfer_id == r.transfer_id && s.remote_path == r.remote_path
                && s.file_size == r.file_size && s.bytes_completed == r.bytes_completed
                && s.verified_up_to == r.verified_up_to && s.created_ms == r.created_ms
                && s.updated_ms == r.updated_ms
            &&& s.found && r.status == TransferStatus::Active ==> s.status == "active"@
            &&& s.found && r.status == TransferStatus::Cancelled ==> s.status == "cancelled"@
            &&& s.found && r.status == TransferStatus::Committed ==> s.status == "committed"@
            &&& s.found && r.status == TransferStatus::Resumable ==> s.status == "resumable"@
            &&& s.found && r.direction == Direction::Upload ==> s.direction == "upload"@
            &&& s.found && r.direction == Direction::Download ==> s.direction == "download"@
        },
        c.stat_answer(id, None) matches MessageView::StatResult(s) && {
            &&& !s.found
            &&& s.transfer_id == id
            &&& s.status == if c.has_state {
                "missing"@
            } else {
                "no_state"@
            }
            &&& s.remote_path.len() == 0 && s.direction.len() == 0 && s.file_size == 0
            &&& s.bytes_completed == 0 && s.verified_up_to == 0 && s.created_ms == 0
                && s.updated_ms == 0
        },
{
    reveal_strlit("");
}

/// A LIST keeps the order of the transfers that it shows, and shows each once.
pub proof fn law_list_keeps_order<N: Authenticator, A: Authorizer>(
    c: ServerConn<N, A>,
    a: Seq<TransferRecordView>,
    b: Seq<TransferRecordView>,
)
    ensures
        c.list_answer(a + b) == c.list_answer(a) + c.list_answer(b),
    decreases b.len(),
{
    if b.len() == 0 {
        assert(a + b =~= a);
        assert(c.list_answer(a) + c.list_answer(b) =~= c.list_answer(a));
    } else {
        law_list_keeps_order(c, a, b.drop_last());
        assert((a + b).drop_last() =~= a + b.drop_last());
        assert(c.list_answer(a + b) =~= c.list_answer(a) + c.list_answer(b));
    }
}

/// A LIST shows of one transfer what a STAT of it tells.
pub proof fn law_list_shows_like_stat<N: Authenticator, A: Authorizer>(
    c: ServerConn<N, A>,
    r: TransferRecordView,
)
    requires
        c.has_state,
    ensures
        c.allows(Op::List, r.remote_path) ==> c.list_answer(seq![r]).len() == 1
            && MessageView::StatResult(c.list_answer(seq![r])[0]) == c.stat_answer(
            r.transfer_id,
            Some(r),
        ),
        !c.allows(Op::List, r.remote_path) ==> c.list_answer(seq![r]).len() == 0,
{
    reveal_with_fuel(ServerConn::list_answer, 2);
    assert(seq![r].last() == r);
}

/// Each thing that is counted goes to its own counters, once, with its bytes,
/// and leaves the others alone.
pub proof fn law_counters_are_kept_apart(s: ServerStats, n: u64, m: u64)
    requires
        s.connections < u64::MAX,
        s.handshakes < u64::MAX,
        s.pings < u64::MAX,
        0 < s.transfers_active < u64::MAX,
        s.transfers_total_upload < u64::MAX,
        s.transfers_total_download < u64::MAX,
        s.authz_denials < u64::MAX,
        s.checksum_mismatches < u64::MAX,
        s.bytes_transferred_upload + n <= u64::MAX,
        s.bytes_transferred_download + n <= u64::MAX,
        s.bytes_reused + m <= u64::MAX,
    ensures
        s.counted(Counted::Connection) == (ServerStats {
            connections: (s.connections + 1) as u64,
            ..s
        }),
        s.counted(Counted::Handshake) == (ServerStats {
            handshakes: (s.handshakes + 1) as u64,
            ..s
        }),
        s.counted(Counted::Ping) == (ServerStats { pings: (s.pings + 1) as u64, ..s }),
        s.counted(Counted::TransferStarted) == (ServerStats {
            transfers_active: (s.transfers_active + 1) as u64,
            ..s
        }),
        s.counted(Counted::TransferEnded) == (ServerStats {
            transfers_active: (s.transfers_active - 1) as u64,
            ..s
        }),
        s.counted(Counted::Upload { transferred: n, reused: m }) == (ServerStats {
            transfers_total_upload: (s.transfers_total_upload + 1) as u64,
            bytes_transferred_upload: (s.bytes_transferred_upload + n) as u64,
            bytes_reused: (s.bytes_reused + m) as u64,
            ..s
        }),
        s.counted(Counted::Download { transferred: n }) == (ServerStats {
            transfers_total_download: (s.transfers_total_download + 1) as u64,
            bytes_transferred_download: (s.bytes_transferred_download + n) as u64,
            ..s
        }),
        s.counted(Counted::Denied) == (ServerStats {
            authz_denials: (s.authz_denials + 1) as u64,
            ..s
        }),
        s.counted(Counted::Mismatch) == (ServerStats {
            checksum_mismatches: (s.checksum_mismatches + 1) as u64,
            ..s
        }),
{
}

/// What an identity may do is what the authorizer allows to its name; without a
/// verified identity nothing is allowed.
pub proof fn law_allowed_by_the_authorizer<N: Authenticator, A: Authorizer>(
    c: ServerConn<N, A>,
    op: Op,
    path: Seq<char>,
)
    ensures
        c.identity is None ==> !c.allows(op, path),
        c.identity matches Some(i) ==> (c.allows(op, path) <==> c.authorizer.verdict(
            i.name@,
            op,
            path,
        ) is None),
{
}

/// An ERROR carries the code that it is made with, says whether to try again as
/// the code does, and keeps a detail that is not too long.
pub proof fn law_error_replies(code: ErrorCode, detail: Seq<char>)
    requires
        utf8::encode_utf8(detail).len() <= 256,
    ensures
        server::error_reply(code, detail) matches MessageView::Error(e) && e.code == code
            && e.detail == detail && e.retryable == code.may_retry(),
        server::not_found() == server::error_reply(ErrorCode::FileNotFound, "not found"@),
{
}

/// The limits that a server announces.
pub proof fn law_announced_limits()
    ensures
        server::default_limits().max_message_size == 1048576,
        server::default_limits().max_chunk_size == 4194304,
        server::default_limits().max_manifest_entries == 50000000,
        server::default_limits().max_concurrent_streams == 32,
{
}

/// The frame that begins a transfer names it; one that names another transfer,
/// another frame and the end of the stream are refused.
pub proof fn law_begin_names_its_transfer(b: TransferBegin, id: Seq<u8>, t: u8, payload: Seq<u8>)
    ensures
        transfer::begin_fault(Some(agreement::sent(MessageView::TransferBegin(b@))), id) is None
            <==> b.transfer_id@ == id,
        transfer::begin_fault(None, id) is Some,
        t != 0x13 ==> transfer::begin_fault(Some((t, payload)), id) is Some,
{
    message::transfer::law_transfer_begin_roundtrip(b);
}

/// A plan and a result are about their transfer: the plan tells its size, what
/// is there and what is missing; the result is good exactly if the digest is
/// the declared one.
pub proof fn law_replies_are_about_the_transfer(t: ServerTransfer, n: u64, digest: Seq<u8>, r: bool)
    ensures
        t.transfer.planned(n) matches MessageView::TransferPlan(p) && p.transfer_id
            == t.transfer.transfer_id@ && p.bytes_total == t.transfer.total && p.bytes_reusable == n
            && p.bytes_to_transfer == if n <= t.transfer.total {
            t.transfer.total - n
        } else {
            0
        },
        t.verified(digest) matches MessageView::VerifyResult(v) && v.transfer_id
            == t.transfer.transfer_id@ && v.computed_hash == digest && (v.ok <==> digest
            == t.transfer.create.file_hash@),
        t.transfer.created(r) matches MessageView::TransferCreated(c) && c.transfer_id
            == t.transfer.transfer_id@ && c.resumed == r && c.max_chunk_size == 4194304,
{
}

/// An upload of which everything was found is verified by its digest and then
/// committed, with nothing sent and all of it reused.
pub proof fn law_staged_upload_completes(t: ServerTransfer, v: Verify, c: Commit, n: u64)
    ensures
        ({
            let verify = ServerTransfer { stage: TransferStage::StagedVerify, ..t };
            let commit = ServerTransfer {
                stage: TransferStage::StagedCommit,
                staged: Some(n),
                ..t
            };
            &&& verify.answer(Some(agreement::sent(MessageView::Verify(v@)))) == Ok::<
                (TransferStage, TransferStepView),
                ProtocolError,
            >((TransferStage::StagedDigest, TransferStepView::Digest))
            &&& verify.answer(Some(agreement::sent(MessageView::Commit(c@)))) is Err
            &&& commit.answer(Some(agreement::sent(MessageView::Verify(v@)))) is Err
            &&& commit.answer(Some(agreement::sent(MessageView::Commit(c@)))) == Ok::<
                (TransferStage, TransferStepView),
                ProtocolError,
            >(
                (
                    TransferStage::Over,
                    TransferStepView::Commit {
                        reply: MessageView::Committed(
                            CommittedView { transfer_id: t.transfer.transfer_id@, files: 1 },
                        ),
                        counted: Counted::Upload { transferred: 0, reused: n },
                        then: Counted::TransferEnded,
                    },
                ),
            )
        }),
{
}

/// A transfer that is recorded goes in the direction that was asked for.
pub proof fn law_recorded_direction(t: Transfer, now_ms: u64)
    ensures
        t.create.op == TransferOp::Upload ==> t.record_view(now_ms).direction == Direction::Upload,
        t.create.op == TransferOp::Download ==> t.record_view(now_ms).direction
            == Direction::Download,
        t.record_view(now_ms).staging_relpath == util::transfer_id_text(t.transfer_id@) + seq!['/']
            + t.dst@,
{
    reveal_strlit("/");
    assert("/"@ =~= seq!['/']);
}

/// AUTH by a signature instead of the certificate of the connection is refused
/// and ends the connection; without a certificate, or with one that is not
/// accepted, it is an error.
pub proof fn law_other_mechanism_is_refused<N: Authenticator, A: Authorizer>(
    c: ServerConn<N, A>,
    auth: Auth,
    now_ms: u64,
)
    requires
        c.state == ServerState::AwaitAuth,
        auth.mechanism == 1,
        auth.token@.len() <= 4096,
    ensures
        ({
            let f = agreement::sent(MessageView::Auth(auth@));
            match c.peer_identity {
                None => c.answer(f.0, f.1, now_ms) is Err,
                Some(p) => if c.authenticator.accepts(p@) is Err {
                    c.answer(f.0, f.1, now_ms) is Err
                } else {
                    c.answer(f.0, f.1, now_ms) matches Ok(a) && a.state == ServerState::Closed
                        && a.action is Refuse
                },
            }
        }),
{
    message::session::law_auth_roundtrip(auth);
}

/// A message is sent as one frame, under its own type and with the id of the
/// request that it answers.
pub proof fn law_message_is_one_frame(m: MessageView, request_id: u64)
    ensures
        m.encoding() is Ok <==> session::message_frame(m, request_id) is Ok,
        session::message_frame(m, request_id) matches Ok(f) ==> f.type_byte == m.type_byte()
            && f.flags == 0 && f.request_id == request_id && f.payload == agreement::sent(m).1,
{
}

/// A client that has too little in common with the server is told so, and the
/// connection ends.
pub proof fn law_too_little_in_common<N: Authenticator, A: Authorizer>(
    c: ServerConn<N, A>,
    hello: Hello,
    now_ms: u64,
)
    requires
        c.state == ServerState::AwaitHello,
        hello@.encoding() is Ok,
        !(c.server_caps.contains(Capability::Blake3) && hello.capabilities.contains(
            Capability::Blake3,
        )),
    ensures
        ({
            let f = agreement::sent(MessageView::Hello(hello@));
            c.answer(f.0, f.1, now_ms) matches Ok(a) && a.state == ServerState::Closed && (a.action
                matches ServerActionView::Refuse { reply, code, .. } && code == 1002 && (reply
                matches MessageView::Error(e) && e.code == ErrorCode::ProtocolVersionUnsupported))
        }),
{
    message::session::law_hello_roundtrip(hello);
    capabilities::lemma_mask_contains(hello.capabilities, Capability::Blake3);
    capabilities::law_intersect_contains(
        message::session::received(hello.capabilities),
        c.server_caps,
        Capability::Blake3,
    );
}

/// An upload whose staged bytes reach the size is verified without moving
/// anything; with fewer the rest is moved.
pub proof fn law_staged_bytes_decide(t: ServerTransfer, n: u64, b: TransferBegin)
    requires
        t.stage == TransferStage::Staged,
        t.staged == Some(n),
    ensures
        t.answer(Some(agreement::sent(MessageView::TransferBegin(b@)))) == Ok::<
            (TransferStage, TransferStepView),
            ProtocolError,
        >(
            if n >= t.transfer.total {
                (TransferStage::StagedVerify, TransferStepView::Send(Seq::empty()))
            } else {
                (TransferStage::Moving, TransferStepView::Move)
            },
        ),
{
    assert(seq![] =~= Seq::<MessageView>::empty());
}

/// A client that does not ask which chunks are there is told the plan for the
/// whole file, as if nothing had been offered.
pub proof fn law_unused_offer(t: ServerTransfer, f: u8, payload: Seq<u8>)
    requires
        t.stage == TransferStage::Query,
        f != 0x34,
    ensures
        t.answer(Some((f, payload))) matches Ok((stage, TransferStepView::Send(m))) && {
            &&& stage == TransferStage::Plain
            &&& m.len() == 2
            &&& m[0] matches MessageView::TransferCreated(c) && c.transfer_id
                == t.transfer.transfer_id@ && c.resumed == t.transfer.resumed && c.max_chunk_size
                == 4_194_304
            &&& m[1] matches MessageView::TransferPlan(p) && p.transfer_id
                == t.transfer.transfer_id@ && p.bytes_total == t.transfer.total && p.bytes_reusable
                == t.transfer.reusable && (t.transfer.reusable <= t.transfer.total
                ==> p.bytes_to_transfer == t.transfer.total - t.transfer.reusable)
        },
{
}

/// What a server offers to a client is its filter.
pub proof fn law_offer_is_the_filter(t: ServerTransfer, bloom: Bloom)
    ensures
        t.hinted(bloom) matches MessageView::InventoryHint(h) && h.transfer_id
            == t.transfer.transfer_id@ && h.filter_bits == bloom.filter_bits && h.num_hashes
            == bloom.num_hashes && h.bitset == foreign::bytes_content(bloom.bitset),
{
}

/// A download is announced with the size of the file that is there; nothing
/// else of it changes.
pub proof fn law_size_is_measured(t: TransferStart, total: u64)
    ensures
        t.measured(total).total == total,
        t.measured(total).transfer_id == t.transfer_id,
        t.measured(total).create == t.create,
        t.measured(total).dst == t.dst,
        t.measured(total).resumed == t.resumed,
        t.measured(total).reusable == t.reusable,
{
}

/// What is recorded of a transfer when it starts: what the client asked for,
/// that it is active, and when.
pub proof fn law_record_of_transfer(t: Transfer, now_ms: u64)
    ensures
        ({
            let r = t.record_view(now_ms);
            &&& r.transfer_id == t.transfer_id@
            &&& r.idempotency_key == t.create.idempotency_key@
            &&& r.remote_path == t.create.dst_path@
            &&& r.local_path.len() == 0
            &&& r.file_hash == t.create.file_hash@
            &&& r.file_size == t.total
            &&& r.bytes_completed == t.reusable
            &&& r.verified_up_to == 0
            &&& r.role == Role::Server
            &&& r.status == TransferStatus::Active
            &&& r.created_ms == now_ms && r.updated_ms == now_ms && r.last_checkpoint_ms == now_ms
        }),
{
    reveal_strlit("");
}

/// A transfer that is not known is answered with its id and nothing else.
pub proof fn law_unknown_transfer<N: Authenticator, A: Authorizer>(
    c: ServerConn<N, A>,
    id: Seq<u8>,
    r: TransferRecordView,
)
    ensures
        c.stat_answer(id, None) matches MessageView::StatResult(s) && {
            &&& s.transfer_id == id
            &&& !s.found
            &&& s.status == if c.has_state {
                "missing"@
            } else {
                "no_state"@
            }
            &&& s.direction.len() == 0 && s.remote_path.len() == 0
            &&& s.file_size == 0 && s.bytes_completed == 0 && s.verified_up_to == 0
            &&& s.created_ms == 0 && s.updated_ms == 0
        },
        !c.has_state ==> c.stat_answer(id, Some(r)) == c.stat_answer(id, None),
{
    reveal_strlit("");
}

/// A client does not go on with a server that has too little in common with it.
pub proof fn law_client_wants_enough_in_common(ack: HelloAck)
    requires
        ack@.encoding() is Ok,
        !ack.capabilities.contains(Capability::Blake3),
    ensures
        side::hello_answer(Some(agreement::sent(MessageView::HelloAck(ack@)))) is Err,
{
    message::session::law_hello_ack_roundtrip(ack);
    capabilities::lemma_mask_contains(ack.capabilities, Capability::Blake3);
}

/// A connection that serves acts on a RESUME, and on each other request, as is
/// made for it; the next state and identity are those of the request.
pub proof fn law_connection_acts_on_requests<N: Authenticator, A: Authorizer>(
    c: &mut ServerConn<N, A>,
    m: MessageView,
    f: Frame<'_>,
    now_ms: u64,
    r: Result<ServerAction, VelcruxError>,
)
    requires
        c.state == ServerState::Serving,
        m.encoding() is Ok,
        m !is Ping,
        m !is Pong,
        f.type_byte == agreement::sent(m).0,
        f.payload@ == agreement::sent(m).1,
        call_ensures(ServerConn::<N, A>::on_frame, (c, f, now_ms), r),
    ensures
        r matches Ok(x) && {
            &&& m is Resume <==> x@ is Resume
            &&& m is TransferCreate <==> x@ is Transfer
            &&& m is Stat <==> x@ is Stat
            &&& m is List <==> x@ is List
            &&& m is Cancel <==> x@ is Cancel
            &&& m is Bye <==> x@ is Finish
        },
        final(c).state == if m is Bye {
            ServerState::Closed
        } else {
            ServerState::Serving
        },
        server::identity_view(final(c).identity) == server::identity_view(old(c).identity),
        final(c).same_setup(*old(c)),
{
    law_each_request_has_its_action(*old(c), m, now_ms);
}

} // verus!
