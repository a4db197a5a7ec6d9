//! What each side makes of what the other sends: the laws of the handshake
//! and of transfers.

use vstd::prelude::*;

use crate::auth::{Authenticator, Authorizer};
use crate::client::download::{DownloadStage, DownloadStepView, DownloadView};
use crate::client::query;
use crate::client::resume;
use crate::client::upload;
use crate::client::upload::{UploadStage, UploadStepView, UploadView};
use crate::client as cli;
use crate::client::ClientFault;
use crate::protocol::capabilities;
use crate::protocol::capabilities::{Capabilities, Capability};
use crate::protocol::error::{ErrorCode, ErrorDetail};
use crate::protocol::limits::{
    IMPLEMENTATION_VERSION, MAX_CHUNK_SIZE, MAX_MANIFEST_ENTRIES, PROTOCOL_VERSION,
};
use crate::protocol::message;
use crate::protocol::message::{
    Auth, AuthOk, ChunkQuery, ChunkResponse, Commit, CommitView, Committed, CommittedView, ErrorMsg,
    Hello, HelloAck, HelloAckView, InventoryHint, MessageView, Ping, ResumeState, ResumeStateView,
    StatResult, StatResultView, TransferBegin, TransferCreated, TransferPlan, Verify, VerifyResult,
    VerifyView,
};
use crate::session::client;
use crate::session::server;
use crate::session::server::{Answer, Counted, ServerActionView, ServerConn, ServerState};
use crate::session::transfer;
use crate::session::transfer::{ServerTransfer, TransferStage, TransferStepView};
use crate::state::bitmap;
use crate::state::{ChunkBitmapView, TransferRecordView};
use crate::transfer as chunks;
use crate::transfer::{Bloom, ChunkSource};
use crate::util;

verus! {

/// A message as it arrives at the other side: its type and its payload.
pub open spec fn sent(m: MessageView) -> (u8, Seq<u8>) {
    (m.type_byte(), m.encoding()->Ok_0)
}

/// The server answers a HELLO with which it has enough in common by HELLO_ACK,
/// the client accepts that, and both then hold the same capabilities: those
/// that both have.
pub proof fn law_handshake_agrees<N: Authenticator, A: Authorizer>(
    c: ServerConn<N, A>,
    hello: Hello,
    ack: HelloAck,
    now_ms: u64,
    k: Capability,
)
    requires
        c.state == ServerState::AwaitHello,
        hello@.encoding() is Ok,
        Capabilities(
            message::session::received(hello.capabilities).0 & c.server_caps.0,
        ).intersection_fault() is None,
        ack@ == (HelloAckView {
            version: PROTOCOL_VERSION,
            capabilities: Capabilities(
                message::session::received(hello.capabilities).0 & c.server_caps.0,
            ),
            limits: server::default_limits(),
            agent: c.server_name@ + "/"@ + IMPLEMENTATION_VERSION@,
        }),
        ack@.encoding() is Ok,
    ensures
        c.answer(message::HELLO, sent(MessageView::Hello(hello@)).1, now_ms) == Ok::<
            Answer,
            crate::error::ProtocolError,
        >(
            Answer {
                state: ServerState::AwaitAuth,
                identity: server::identity_view(c.identity),
                action: ServerActionView::Send {
                    reply: MessageView::HelloAck(ack@),
                    then: Some(Counted::Handshake),
                },
            },
        ),
        client::hello_answer(Some(sent(MessageView::HelloAck(ack@)))) matches Ok(v) && v.version
            == PROTOCOL_VERSION && v.agent == ack@.agent && v.limits == ack@.limits && (
        v.capabilities.contains(k) <==> hello.capabilities.contains(k) && c.server_caps.contains(
            k,
        )),
{
    message::session::law_hello_roundtrip(hello);
    message::session::law_hello_ack_roundtrip(ack);
    let common = ack@.capabilities;
    capabilities::lemma_mask_contains(common, Capability::Blake3);
    capabilities::lemma_mask_contains(common, Capability::FixedChunking);
    capabilities::lemma_mask_contains(common, Capability::CdcChunking);
    capabilities::lemma_mask_contains(common, k);
    capabilities::lemma_mask_contains(hello.capabilities, k);
    capabilities::law_intersect_contains(
        message::session::received(hello.capabilities),
        c.server_caps,
        k,
    );
}

/// The AUTH that the client sends is answered by AUTH_OK if the server accepts
/// the identity of the connection, and the client then knows its name and its
/// permissions.
pub proof fn law_auth_agrees<N: Authenticator, A: Authorizer>(
    c: ServerConn<N, A>,
    auth: Auth,
    ok: AuthOk,
    now_ms: u64,
)
    requires
        c.state == ServerState::AwaitAuth,
        auth.mechanism == message::AUTH_MECHANISM_MTLS,
        auth.token@.len() == 0,
        c.peer_identity matches Some(p) && (c.authenticator.accepts(p@) matches Ok(v) && ok.identity@
            == v.name && ok.permissions == c.authorizer.permissions(v.name)),
        ok@.encoding() is Ok,
    ensures
        c.answer(message::AUTH, sent(MessageView::Auth(auth@)).1, now_ms) matches Ok(a)
            && a.state == ServerState::Serving && a.identity is Some && a.action == (
        ServerActionView::Send { reply: MessageView::AuthOk(ok@), then: None }),
        client::auth_answer(Some(sent(MessageView::AuthOk(ok@)))) matches Ok(v) && v == ok@,
{
    message::session::law_auth_roundtrip(auth);
    message::session::law_auth_ok_roundtrip(ok);
}

/// A PING is answered by the PONG that the client waits for.
pub proof fn law_ping_answered<N: Authenticator, A: Authorizer>(
    c: ServerConn<N, A>,
    ping: Ping,
    now_ms: u64,
)
    requires
        c.state == ServerState::Serving,
    ensures
        ({
            let pong = MessageView::Pong(Ping { nonce: ping.nonce, sender_ts_ms: now_ms });
            &&& c.answer(message::PING, sent(MessageView::Ping(ping)).1, now_ms) matches Ok(a)
                && a.action == (ServerActionView::Send { reply: pong, then: Some(Counted::Ping) })
            &&& client::pong_fault(ping.nonce, Some(sent(pong))) is None
        }),
{
    message::session::law_ping_roundtrip(ping);
    message::session::law_ping_roundtrip(Ping { nonce: ping.nonce, sender_ts_ms: now_ms });
}

/// A client whose request is refused is told that nothing was found, whatever
/// the reason: where it waits for the start of an upload, a download, a resumed
/// transfer or a manifest, and where it waits for a file to be deleted.
pub proof fn law_refusal_reported(t: u8, what: &'static str, detail: ErrorDetail)
    requires
        t != message::ERROR,
        detail.0@ == "not found"@,
    ensures
        cli::expected(sent(server::not_found()), t, what, true) == Err::<Seq<u8>, ClientFault>(
            ClientFault::Server { code: ErrorCode::FileNotFound, detail: "not found"@ },
        ),
        query::delete_fault(sent(server::not_found())) == Some(
            ClientFault::Delete { code: ErrorCode::FileNotFound, detail: "not found"@ },
        ),
{
    let m = ErrorMsg { code: ErrorCode::FileNotFound, retryable: false, detail };
    message::session::lemma_short_detail(detail);
    message::session::law_error_msg_roundtrip(m);
}

/// The messages between both sides about a file that the server has already:
/// the client verifies and commits, the server counts the file as reused, and
/// no byte is moved.
#[verifier::rlimit(40)]
pub proof fn law_identical_upload_completes(u: UploadView, t: ServerTransfer, hash: util::Hash)
    requires
        u.stage == UploadStage::Created,
        t.stage == TransferStage::Present,
        t.staged is None,
        u.file_hash == hash@,
        t.transfer.create.file_hash == hash,
    ensures
        ({
            let id = t.transfer.transfer_id@;
            let u1 = UploadView { transfer_id: Some(id), stage: UploadStage::Offer, ..u };
            let begin = upload::begin(id);
            let verify = MessageView::Verify(
                VerifyView { transfer_id: id, expected_hash: u.file_hash },
            );
            let commit = MessageView::Commit(CommitView { transfer_id: id });
            let committed = MessageView::Committed(CommittedView { transfer_id: id, files: 1 });
            let t1 = ServerTransfer { stage: TransferStage::PresentVerify, ..t };
            let t2 = ServerTransfer { stage: TransferStage::PresentCommit, ..t };
            &&& u.answer(sent(t.transfer.created(false))) == Ok::<
                (UploadView, UploadStepView),
                ClientFault,
            >((u1, UploadStepView::Send(seq![])))
            &&& u1.answer(sent(t.transfer.planned(t.transfer.total))) == Ok::<
                (UploadView, UploadStepView),
                ClientFault,
            >((u1.at(UploadStage::Verify), UploadStepView::Send(seq![begin, verify])))
            &&& t.answer(Some(sent(begin))) == Ok::<
                (TransferStage, TransferStepView),
                crate::error::ProtocolError,
            >((TransferStage::PresentVerify, TransferStepView::Send(seq![])))
            &&& t1.answer(Some(sent(verify))) == Ok::<
                (TransferStage, TransferStepView),
                crate::error::ProtocolError,
            >((TransferStage::PresentCommit, TransferStepView::Send(seq![t.verified(hash@)])))
            &&& u1.at(UploadStage::Verify).answer(sent(t.verified(hash@))) == Ok::<
                (UploadView, UploadStepView),
                ClientFault,
            >((u1.at(UploadStage::Commit), UploadStepView::Send(seq![commit])))
            &&& t2.answer(Some(sent(commit))) == Ok::<
                (TransferStage, TransferStepView),
                crate::error::ProtocolError,
            >(
                (
                    TransferStage::Over,
                    TransferStepView::Commit {
                        reply: committed,
                        counted: Counted::Upload { transferred: 0, reused: t.transfer.total },
                        then: Counted::TransferEnded,
                    },
                ),
            )
            &&& u1.at(UploadStage::Commit).answer(sent(committed)) == Ok::<
                (UploadView, UploadStepView),
                ClientFault,
            >((u1.at(UploadStage::Over), UploadStepView::Done))
        }),
{
    let transfer_id = t.transfer.transfer_id;
    message::transfer::law_transfer_created_roundtrip(
        TransferCreated { transfer_id, resumed: false, max_chunk_size: MAX_CHUNK_SIZE },
    );
    message::transfer::law_transfer_plan_roundtrip(
        TransferPlan {
            transfer_id,
            bytes_total: t.transfer.total,
            bytes_to_transfer: 0,
            bytes_reusable: t.transfer.total,
        },
    );
    message::transfer::law_verify_result_roundtrip(
        VerifyResult { transfer_id, ok: true, computed_hash: hash },
    );
}

/// The messages between both sides about a file of which some bytes are to be
/// sent: both sides then move bytes, and the client as many as the server has
/// planned.
pub proof fn law_plain_upload_begins(u: UploadView, t: ServerTransfer)
    requires
        u.stage == UploadStage::Created,
        t.stage == TransferStage::Plain,
        t.transfer.create.op == message::TransferOp::Upload,
        t.transfer.reusable < t.transfer.total,
    ensures
        ({
            let x = t.transfer;
            let u1 = UploadView {
                transfer_id: Some(x.transfer_id@),
                stage: UploadStage::Offer,
                ..u
            };
            let begin = upload::begin(x.transfer_id@);
            &&& u.answer(sent(x.created(x.resumed))) == Ok::<
                (UploadView, UploadStepView),
                ClientFault,
            >((u1, UploadStepView::Send(seq![])))
            &&& u1.answer(sent(x.planned(x.reusable))) == Ok::<
                (UploadView, UploadStepView),
                ClientFault,
            >(
                (
                    u1.at(UploadStage::Moving),
                    UploadStepView::Move(begin, (x.total - x.reusable) as u64),
                ),
            )
            &&& t.answer(Some(sent(begin))) == Ok::<
                (TransferStage, TransferStepView),
                crate::error::ProtocolError,
            >((TransferStage::Moving, TransferStepView::Move))
        }),
{
    let x = t.transfer;
    let transfer_id = x.transfer_id;
    message::transfer::law_transfer_created_roundtrip(
        TransferCreated { transfer_id, resumed: x.resumed, max_chunk_size: MAX_CHUNK_SIZE },
    );
    message::transfer::law_transfer_plan_roundtrip(
        TransferPlan {
            transfer_id,
            bytes_total: x.total,
            bytes_to_transfer: (x.total - x.reusable) as u64,
            bytes_reusable: x.reusable,
        },
    );
    message::transfer::law_transfer_begin_roundtrip(TransferBegin { transfer_id });
}

/// A client that asks about a transfer learns what is recorded of it if the
/// identity may list it, and otherwise that there is no such transfer.
pub proof fn law_stat_seen<N: Authenticator, A: Authorizer>(
    c: ServerConn<N, A>,
    found: Option<TransferRecordView>,
    reply: StatResult,
    given: Seq<char>,
)
    requires
        MessageView::StatResult(reply@) == c.stat_answer(reply.transfer_id@, found),
        reply@.encoding() is Ok,
    ensures
        query::stat_answer(sent(MessageView::StatResult(reply@)), given) == if c.has_state && (
        found matches Some(r) && c.allows(crate::auth::Op::List, r.remote_path)) {
            Ok::<StatResultView, ClientFault>(server::stat_of(found->0))
        } else {
            Err(ClientFault::TransferNotFound(given))
        },
{
    message::progress::law_stat_result_roundtrip(reply);
}

/// The messages between both sides about a download of which the client has
/// nothing yet: both sides then move bytes, and the client as many as the server
/// has planned.
pub proof fn law_plain_download_begins(d: DownloadView, t: ServerTransfer)
    requires
        d.stage == DownloadStage::Created,
        t.stage == TransferStage::Plain,
        t.transfer.create.op == message::TransferOp::Download,
        t.transfer.reusable <= t.transfer.total,
    ensures
        ({
            let x = t.transfer;
            let d1 = DownloadView {
                transfer_id: Some(x.transfer_id@),
                stage: DownloadStage::Plan,
                ..d
            };
            let d2 = DownloadView {
                bytes_to_transfer: (x.total - x.reusable) as u64,
                stage: DownloadStage::Look,
                ..d1
            };
            let begin = upload::begin(x.transfer_id@);
            &&& d.answer(sent(x.created(x.resumed))) == Ok::<
                (DownloadView, DownloadStepView),
                ClientFault,
            >((d1, DownloadStepView::Wait))
            &&& d1.answer(sent(x.planned(x.reusable))) matches Ok((next, _)) && next == d2
            &&& d2.moves(false) == DownloadStepView::Move(
                begin,
                (x.total - x.reusable) as u64,
                false,
            )
            &&& t.answer(Some(sent(begin))) == Ok::<
                (TransferStage, TransferStepView),
                crate::error::ProtocolError,
            >((TransferStage::Moving, TransferStepView::Move))
        }),
{
    let x = t.transfer;
    let transfer_id = x.transfer_id;
    message::transfer::law_transfer_created_roundtrip(
        TransferCreated { transfer_id, resumed: x.resumed, max_chunk_size: MAX_CHUNK_SIZE },
    );
    message::transfer::law_transfer_plan_roundtrip(
        TransferPlan {
            transfer_id,
            bytes_total: x.total,
            bytes_to_transfer: (x.total - x.reusable) as u64,
            bytes_reusable: x.reusable,
        },
    );
    message::transfer::law_transfer_begin_roundtrip(TransferBegin { transfer_id });
}

/// A client that resumes a transfer learns what the server has recorded of it:
/// its size and digest, and exactly the chunks that are complete. The message
/// with which the client then goes on is the one that the server waits for.
pub proof fn law_resume_agrees<N: Authenticator, A: Authorizer>(
    c: ServerConn<N, A>,
    r: TransferRecordView,
    by_key: Option<TransferRecordView>,
    done: ChunkBitmapView,
    reply: ResumeState,
)
    requires
        done.set.finite(),
        c.resume_answer(Some(r), by_key, Some(done)) == Some(reply@),
        reply@.encoding() is Ok,
    ensures
        resume::resume_answer(sent(MessageView::ResumeState(reply@))) == Ok::<
            ResumeStateView,
            ClientFault,
        >(reply@),
        reply@.transfer_id == r.transfer_id,
        reply@.file_size == r.file_size,
        reply@.file_hash == r.file_hash,
        reply@.bytes_completed == done.bytes_completed,
        reply@.completed_chunks.to_set() == done.set,
        transfer::begin_fault(Some(sent(upload::begin(r.transfer_id))), r.transfer_id) is None,
{
    bitmap::lemma_ascending_lists(done.set);
    message::progress::law_resume_state_roundtrip(reply);
    message::transfer::law_transfer_begin_roundtrip(
        TransferBegin { transfer_id: reply.transfer_id },
    );
}

/// CHUNK_QUERY as the digests of a file are sent.
pub open spec fn asked(transfer_id: util::TransferId, digests: Vec<util::Hash>) -> ChunkQuery {
    ChunkQuery { transfer_id, query_seq: 1, chunk_hashes: digests }
}

/// CHUNK_RESPONSE to the first query. `rle` is the packed form of what is
/// announced.
pub open spec fn answered(
    transfer_id: util::TransferId,
    sources: Seq<ChunkSource>,
    rle: bytes::Bytes,
) -> ChunkResponse {
    let have = chunks::announced(sources);
    ChunkResponse {
        transfer_id,
        query_seq: 1,
        total_chunks: have.len() as u32,
        have_count: chunks::count_true(have) as u32,
        rle_bitmap: rle,
    }
}

/// The messages between both sides about a file of which parts are found: the
/// client takes the hint, the server its query, the client the answer and the
/// new plan. If some bytes are left both sides then move, and the client as many
/// as the server has planned; if none are, the client verifies at once. The
/// chunks that the client skips are those that the server has completed.
#[verifier::spinoff_prover]
pub proof fn law_delta_upload_agrees(
    u: UploadView,
    t: ServerTransfer,
    bloom: Bloom,
    digests: Vec<util::Hash>,
    sources: Seq<ChunkSource>,
    rle: bytes::Bytes,
    found: u64,
)
    requires
        u.stage == UploadStage::Created,
        t.stage == TransferStage::Query,
        digests@.len() == sources.len() <= MAX_MANIFEST_ENTRIES,
    ensures
        ({
            let id = t.transfer.transfer_id@;
            let query = asked(t.transfer.transfer_id, digests);
            let response = answered(t.transfer.transfer_id, sources, rle);
            let total = t.transfer.total;
            let u1 = UploadView { transfer_id: Some(id), stage: UploadStage::Offer, ..u };
            let begin = upload::begin(id);
            let staged = ServerTransfer { stage: TransferStage::Staged, staged: Some(found), ..t };
            &&& u.answer(sent(t.transfer.created(false))) == Ok::<
                (UploadView, UploadStepView),
                ClientFault,
            >((u1, UploadStepView::Send(seq![])))
            &&& u1.answer(sent(t.hinted(bloom))) == Ok::<(UploadView, UploadStepView), ClientFault>(
                (
                    u1.at(UploadStage::Digests),
                    UploadStepView::Digests(t.hinted(bloom)->InventoryHint_0),
                ),
            )
            &&& t.answer(Some(sent(MessageView::ChunkQuery(query@)))) == Ok::<
                (TransferStage, TransferStepView),
                crate::error::ProtocolError,
            >((TransferStage::Locate { query_seq: 1 }, TransferStepView::Locate(query@)))
            &&& u1.at(UploadStage::Response).answer(sent(MessageView::ChunkResponse(response@)))
                == Ok::<(UploadView, UploadStepView), ClientFault>(
                (u1.at(UploadStage::Unpack), UploadStepView::Unpack(response@)),
            )
            &&& found < total ==> u1.at(UploadStage::Plan).answer(
                sent(t.transfer.planned(found)),
            ) == Ok::<(UploadView, UploadStepView), ClientFault>(
                (
                    u1.at(UploadStage::Moving),
                    UploadStepView::Move(begin, (total - found) as u64),
                ),
            ) && staged.answer(Some(sent(begin))) == Ok::<
                (TransferStage, TransferStepView),
                crate::error::ProtocolError,
            >((TransferStage::Moving, TransferStepView::Move))
            &&& found >= total ==> u1.at(UploadStage::Plan).answer(
                sent(t.transfer.planned(found)),
            ) == Ok::<(UploadView, UploadStepView), ClientFault>(
                (
                    u1.at(UploadStage::Verify),
                    UploadStepView::Send(
                        seq![
                            begin,
                            MessageView::Verify(
                                VerifyView { transfer_id: id, expected_hash: u.file_hash },
                            ),
                        ],
                    ),
                ),
            ) && staged.answer(Some(sent(begin))) == Ok::<
                (TransferStage, TransferStepView),
                crate::error::ProtocolError,
            >((TransferStage::StagedVerify, TransferStepView::Send(seq![])))
            &&& forall|i: u64|
                chunks::had_chunks(u.file_size, chunks::announced(sources)).contains(i) <==> i
                    < chunks::chunk_count(u.file_size) && chunks::completed(
                    sources,
                    true,
                ).contains(i)
        }),
{
    let transfer_id = t.transfer.transfer_id;
    let total = t.transfer.total;
    message::transfer::law_transfer_created_roundtrip(
        TransferCreated { transfer_id, resumed: false, max_chunk_size: MAX_CHUNK_SIZE },
    );
    message::delta::law_inventory_hint_roundtrip(
        InventoryHint {
            transfer_id,
            filter_bits: bloom.filter_bits,
            num_hashes: bloom.num_hashes,
            bitset: bloom.bitset,
        },
    );
    message::delta::law_chunk_query_roundtrip(asked(transfer_id, digests));
    message::delta::law_chunk_response_roundtrip(answered(transfer_id, sources, rle));
    message::transfer::law_transfer_plan_roundtrip(
        TransferPlan {
            transfer_id,
            bytes_total: total,
            bytes_to_transfer: if found < total {
                (total - found) as u64
            } else {
                0
            },
            bytes_reusable: found,
        },
    );
    message::transfer::law_transfer_begin_roundtrip(TransferBegin { transfer_id });
    chunks::law_skipped_is_completed(u.file_size, sources);
}

/// The messages between both sides about a download of which the client has
/// parts: the server takes the hint, the client its query, the server the
/// answer, and the client the new plan. Both sides then move, and the client as
/// many bytes as the server has planned. The chunks that the server skips are
/// those that the client has completed.
#[verifier::spinoff_prover]
pub proof fn law_delta_download_agrees(
    d: DownloadView,
    t: ServerTransfer,
    bloom: Bloom,
    digests: Vec<util::Hash>,
    sources: Seq<ChunkSource>,
    rle: bytes::Bytes,
    found: u64,
)
    requires
        d.stage == DownloadStage::Query,
        d.transfer_id == Some(t.transfer.transfer_id@),
        t.stage == TransferStage::Plain,
        t.transfer.create.op == message::TransferOp::Download,
        digests@.len() == sources.len() <= MAX_MANIFEST_ENTRIES,
        found <= t.transfer.total,
    ensures
        ({
            let id = t.transfer.transfer_id@;
            let total = t.transfer.total;
            let query = asked(t.transfer.transfer_id, digests);
            let response = answered(t.transfer.transfer_id, sources, rle);
            let begin = upload::begin(id);
            let left = (total - found) as u64;
            let moving = DownloadView {
                bytes_to_transfer: left,
                stage: DownloadStage::Moving,
                ..d
            };
            &&& t.answer(Some(sent(t.hinted(bloom)))) == Ok::<
                (TransferStage, TransferStepView),
                crate::error::ProtocolError,
            >(
                (
                    TransferStage::Digests,
                    TransferStepView::Digests(t.hinted(bloom)->InventoryHint_0),
                ),
            )
            &&& d.answer(sent(MessageView::ChunkQuery(query@))) == Ok::<
                (DownloadView, DownloadStepView),
                ClientFault,
            >((d.at(DownloadStage::Locate { query_seq: 1 }), DownloadStepView::Locate(query@)))
            &&& (ServerTransfer { stage: TransferStage::Response, ..t }).answer(
                Some(sent(MessageView::ChunkResponse(response@))),
            ) == Ok::<(TransferStage, TransferStepView), crate::error::ProtocolError>(
                (TransferStage::Unpack, TransferStepView::Unpack(response@)),
            )
            &&& d.at(DownloadStage::Update).answer(sent(t.transfer.planned(found))) == Ok::<
                (DownloadView, DownloadStepView),
                ClientFault,
            >((moving, DownloadStepView::Move(begin, left, true)))
            &&& (ServerTransfer { stage: TransferStage::Skip, ..t }).answer(Some(sent(begin)))
                == Ok::<(TransferStage, TransferStepView), crate::error::ProtocolError>(
                (TransferStage::Moving, TransferStepView::Move),
            )
            &&& forall|i: u64|
                chunks::had_chunks(total, chunks::announced(sources)).contains(i) <==> i
                    < chunks::chunk_count(total) && chunks::completed(sources, true).contains(i)
        }),
{
    let transfer_id = t.transfer.transfer_id;
    let total = t.transfer.total;
    message::delta::law_inventory_hint_roundtrip(
        InventoryHint {
            transfer_id,
            filter_bits: bloom.filter_bits,
            num_hashes: bloom.num_hashes,
            bitset: bloom.bitset,
        },
    );
    message::delta::law_chunk_query_roundtrip(asked(transfer_id, digests));
    message::delta::law_chunk_response_roundtrip(answered(transfer_id, sources, rle));
    message::transfer::law_transfer_plan_roundtrip(
        TransferPlan {
            transfer_id,
            bytes_total: total,
            bytes_to_transfer: (total - found) as u64,
            bytes_reusable: found,
        },
    );
    message::transfer::law_transfer_begin_roundtrip(TransferBegin { transfer_id });
    chunks::law_skipped_is_completed(total, sources);
}

} // verus!
