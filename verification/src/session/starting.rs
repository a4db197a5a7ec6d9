//! How transfers start and end on the server, told of what its functions give
//! back.

use vstd::prelude::*;

use crate::auth::{Authenticator, Authorizer, FileAuthorizer, MtlsAuthenticator, Op};
use crate::error::{ProtocolError, VelcruxError};
use crate::protocol::capabilities::{Capabilities, Capability};
use crate::protocol::frame::Frame;
use crate::protocol::message;
use crate::protocol::message::{Message, MessageView, TransferCreateView, TransferOp};
use crate::session::agreement;
use crate::session::client as side;
use crate::session::server;
use crate::session::server::{Counted, ServerConn, ServerState};
use crate::session::transfer;
use crate::session::transfer::{
    Outcome, Reuse, ServerTransfer, Transfer, TransferOpening, TransferRequest, TransferStage,
    TransferStart,
};
use crate::state::{
    ChunkBitmap, CommitJournalEntry, CommitStatus, Direction, TransferRecord, TransferStatus,
};
use crate::storage;
use crate::storage::VPath;
use crate::text;
use crate::transfer as chunks;
use crate::transfer::DeltaAnswer;
use crate::transport::Identity;
use crate::util;
use crate::util::TransferId;

verus! {

/// A request opens a transfer, a deletion or a sync only if its operation is
/// allowed on the path it is about: what is deleted or uploaded to is the
/// destination, and so is what is downloaded; a sync to the client is about its
/// source. Otherwise the path looks missing.
pub proof fn law_request_is_opened_if_allowed<N: Authenticator, A: Authorizer>(
    c: ServerConn<N, A>,
    q: TransferCreateView,
    payload: &[u8],
    r: Result<TransferOpening, VelcruxError>,
)
    requires
        call_ensures(ServerConn::<N, A>::open_transfer, (&c, payload), r),
        TransferCreateView::parse(payload@) == Ok::<TransferCreateView, ProtocolError>(q),
    ensures
        r matches Ok(o) && {
            let allowed = match q.op {
                TransferOp::Delete => c.allows(Op::Delete, q.dst_path),
                TransferOp::SyncUpload => c.allows(Op::Sync, q.dst_path),
                TransferOp::SyncDownload => c.allows(Op::Sync, q.src_path),
                TransferOp::Upload => c.allows(Op::Upload, q.dst_path),
                TransferOp::Download => c.allows(Op::Download, q.dst_path),
            };
            &&& o is Refused <==> !allowed
            &&& o matches TransferOpening::Refused { reply, then } ==> reply@
                == server::not_found() && then == Counted::Denied
            &&& o is Delete ==> q.op == TransferOp::Delete
            &&& o is Sync ==> q.op == TransferOp::SyncUpload || q.op == TransferOp::SyncDownload
            &&& o is Start ==> q.op == TransferOp::Upload || q.op == TransferOp::Download
            &&& o matches TransferOpening::Delete { path, .. } ==> path@ == q.dst_path
            &&& o matches TransferOpening::Sync { path, .. } ==> path@ == if q.op
                == TransferOp::SyncDownload {
                q.src_path
            } else {
                q.dst_path
            }
            &&& o matches TransferOpening::Start { request, then } ==> request.create@ == q
                && request.dst@ == q.dst_path && then == Counted::TransferStarted
        },
{
}

/// A transfer that is known goes on under its id, with the bytes that are there
/// of it; another starts with none.
pub proof fn law_known_transfer_goes_on(
    q: TransferRequest,
    id: TransferId,
    n: u64,
    a: TransferStart,
    b: TransferStart,
    c: TransferStart,
)
    requires
        call_ensures(TransferRequest::identify, (q, Some((id, Some(n)))), a),
        call_ensures(TransferRequest::identify, (q, Some((id, None))), b),
        call_ensures(TransferRequest::identify, (q, None), c),
    ensures
        a.transfer_id == id && a.resumed && a.reusable == n,
        b.transfer_id == id && b.resumed && b.reusable == 0,
        !c.resumed && c.reusable == 0,
        a.create == q.create && b.create == q.create && c.create == q.create,
        a.dst == q.dst && b.dst == q.dst && c.dst == q.dst,
{
}

/// A download is as large as the file that is there; if there is none it looks
/// missing. An upload is as large as the client says, whatever is there.
pub proof fn law_size_of_transfer(
    t: TransferStart,
    on_disk: Option<u64>,
    r: Result<Transfer, (Message, Counted)>,
)
    requires
        call_ensures(TransferStart::measure, (t, on_disk), r),
    ensures
        r is Err <==> t.create.op == TransferOp::Download && on_disk is None,
        r matches Ok(x) ==> x.total == (if t.create.op == TransferOp::Download {
            on_disk->0
        } else {
            t.create.file_size
        }) && x.transfer_id == t.transfer_id && x.reusable == t.reusable && x.resumed == t.resumed,
        r matches Err((m, k)) ==> m@ == server::not_found() && k == Counted::TransferEnded,
{
}

/// A file that is there already with the declared size and digest is not sent
/// again. One that differs is compared chunk by chunk if there is something to
/// compare with. A download is not compared here.
pub proof fn law_identical_file_is_not_sent(
    t: Transfer,
    size: u64,
    hash: util::Hash,
    inventory: bool,
    chunk_store: bool,
    r: Reuse,
    s: Reuse,
    none: Reuse,
)
    requires
        call_ensures(Transfer::reuse, (&t, Some((size, Some(hash))), inventory, chunk_store), r),
        call_ensures(Transfer::reuse, (&t, Some((size, None)), inventory, chunk_store), s),
        call_ensures(Transfer::reuse, (&t, None, inventory, chunk_store), none),
    ensures
        t.create.op == TransferOp::Upload ==> {
            &&& r == Reuse::Identical <==> size == t.create.file_size && hash@
                == t.create.file_hash@
            &&& r != Reuse::Identical ==> (r == Reuse::Delta <==> inventory || chunk_store)
            &&& s != Reuse::Identical
            &&& s == Reuse::Delta <==> inventory || chunk_store
            &&& none != Reuse::Identical
            &&& none == Reuse::Delta <==> chunk_store
        },
        t.create.op == TransferOp::Download ==> r == Reuse::Plain && s == Reuse::Plain && none
            == Reuse::Plain,
{
}

/// What the client is told first: of a file that is there already that all of
/// it can be reused, of one that is compared only that the transfer exists, and
/// otherwise what has to be moved.
pub proof fn law_first_messages(
    t: Transfer,
    same: (ServerTransfer, Vec<Message>),
    delta: (ServerTransfer, Vec<Message>),
    plain: (ServerTransfer, Vec<Message>),
)
    requires
        call_ensures(ServerTransfer::start, (t, Reuse::Identical), same),
        call_ensures(ServerTransfer::start, (t, Reuse::Delta), delta),
        call_ensures(ServerTransfer::start, (t, Reuse::Plain), plain),
    ensures
        same.0.transfer == t && delta.0.transfer == t && plain.0.transfer == t,
        same.0.staged is None && delta.0.staged is None && plain.0.staged is None,
        same.0.stage == TransferStage::Present,
        delta.0.stage == TransferStage::Query,
        plain.0.stage == TransferStage::Plain,
        same.1@.len() == 2 && delta.1@.len() == 1 && plain.1@.len() == 2,
        same.1@[0] is TransferCreated && delta.1@[0] is TransferCreated && plain.1@[0] is
            TransferCreated,
        same.1@[1]@ matches MessageView::TransferPlan(p) && p.bytes_to_transfer == 0
            && p.bytes_reusable == t.total && p.bytes_total == t.total,
        plain.1@[1]@ matches MessageView::TransferPlan(p) && p.bytes_reusable == t.reusable
            && p.bytes_total == t.total,
        plain.1@[0]@ matches MessageView::TransferCreated(k) && k.resumed == t.resumed
            && k.transfer_id == t.transfer_id@,
        delta.1@[0]@ matches MessageView::TransferCreated(k) && !k.resumed && k.transfer_id
            == t.transfer_id@,
{
    assert(transfer::message_views(same.1@).len() == same.1@.len());
    assert(transfer::message_views(delta.1@).len() == delta.1@.len());
    assert(transfer::message_views(plain.1@).len() == plain.1@.len());
    assert(transfer::message_views(same.1@)[0] == same.1@[0]@);
    assert(transfer::message_views(same.1@)[1] == same.1@[1]@);
    assert(transfer::message_views(delta.1@)[0] == delta.1@[0]@);
    assert(transfer::message_views(plain.1@)[0] == plain.1@[0]@);
    assert(transfer::message_views(plain.1@)[1] == plain.1@[1]@);
}

/// An upload is entered in the journal as pending, under its path; a download
/// is not.
pub proof fn law_uploads_are_journaled(t: Transfer, now_ms: u64, r: Option<CommitJournalEntry>)
    requires
        call_ensures(Transfer::journal, (&t, now_ms), r),
    ensures
        r is Some <==> t.create.op == TransferOp::Upload,
        r matches Some(e) ==> e@.transfer_id == t.transfer_id@ && e@.remote_path
            == t.create.dst_path@ && e@.status == CommitStatus::Pending && e@.updated_ms == now_ms
            && e@.file_id == 1,
{
}

/// A transfer that is committed has all its bytes, verified; what it is about
/// stays. One that is cancelled keeps what it had.
pub proof fn law_end_is_recorded(
    r: TransferRecord,
    size: u64,
    now_ms: u64,
    n: TransferRecord,
    c: TransferRecord,
)
    requires
        call_ensures(transfer::committed_record, (r, size, now_ms), n),
        call_ensures(server::cancelled_record, (r, now_ms), c),
    ensures
        n@.status == TransferStatus::Committed && c@.status == TransferStatus::Cancelled,
        n@.bytes_completed == size && n@.verified_up_to == size,
        c@.bytes_completed == r@.bytes_completed && c@.verified_up_to == r@.verified_up_to,
        n@.updated_ms == now_ms && c@.updated_ms == now_ms,
        n@.transfer_id == r@.transfer_id && c@.transfer_id == r@.transfer_id,
        n@.idempotency_key == r@.idempotency_key && c@.idempotency_key == r@.idempotency_key,
        n@.remote_path == r@.remote_path && c@.remote_path == r@.remote_path,
        n@.file_hash == r@.file_hash && c@.file_hash == r@.file_hash,
        n@.file_size == r@.file_size && c@.file_size == r@.file_size,
        n@.direction == r@.direction && c@.direction == r@.direction,
        n@.role == r@.role && c@.role == r@.role,
        n@.created_ms == r@.created_ms && c@.created_ms == r@.created_ms,
        n@.staging_relpath == r@.staging_relpath && c@.staging_relpath == r@.staging_relpath,
        n@.local_path == r@.local_path && c@.local_path == r@.local_path,
{
}

/// A transfer whose bytes were moved and verified is counted with them: what was
/// moved and what was reused of an upload together are the file. One that did
/// not verify is counted as a mismatch and nothing of it is committed. Either
/// way it has ended.
pub proof fn law_moved_bytes_are_counted(t: &mut ServerTransfer, ok: bool, r: Outcome)
    requires
        call_ensures(ServerTransfer::on_moved, (t, ok), r),
    ensures
        final(t).stage == TransferStage::Over,
        final(t).transfer == old(t).transfer,
        r matches Outcome { then, .. } && then == Counted::TransferEnded,
        !ok <==> r.counted == Counted::Mismatch,
        !ok ==> r.committed is None && r.journal is None && !r.ingest,
        ok && old(t).staged is None ==> r.committed == Some(old(t).transfer.total),
        ok && old(t).staged is None && old(t).transfer.create.op == TransferOp::Download
            ==> r.counted == (Counted::Download { transferred: old(t).transfer.total }) && r.journal
            is None,
        ok && old(t).staged is None && old(t).transfer.create.op == TransferOp::Upload ==> r.counted
            == (Counted::Upload { transferred: old(t).transfer.total, reused: 0 }) && r.journal
            == Some(1u64),
        ok ==> (old(t).staged matches Some(n) ==> r.ingest && (n <= old(t).transfer.total ==> (
        r.counted matches Counted::Upload { transferred, reused } && transferred + reused
            == old(t).transfer.total && reused == n))),
        ok && old(t).staged is None ==> !r.ingest,
{
}

/// What was found of an upload is staged, told chunk by chunk, and left out of
/// what has to be moved.
pub proof fn law_found_chunks_are_told(
    t: &mut ServerTransfer,
    a: DeltaAnswer,
    rle: bytes::Bytes,
    r: (Message, Message),
)
    requires
        a.have@.len() <= u32::MAX,
        t.stage is Locate,
        call_ensures(ServerTransfer::on_located, (t, &a, rle), r),
    ensures
        final(t).transfer == old(t).transfer,
        final(t).stage == TransferStage::Staged,
        final(t).staged == Some(a.bitmap@.bytes_completed),
        r.0@ matches MessageView::ChunkResponse(c) && c.transfer_id
            == old(t).transfer.transfer_id@ && c.query_seq == old(t).stage->query_seq
            && c.total_chunks == a.have@.len() && c.have_count == chunks::count_true(a.have@)
            && c.rle_bitmap == crate::foreign::bytes_content(rle),
        r.1@ matches MessageView::TransferPlan(p) && p.transfer_id == old(t).transfer.transfer_id@
            && p.bytes_reusable == a.bitmap@.bytes_completed && p.bytes_total
            == old(t).transfer.total,
{
    crate::transfer::staging::law_true_is_counted(a.have@, Seq::empty());
}

/// A download skips the chunks that the client has, and moves the other bytes.
pub proof fn law_had_chunks_are_skipped(
    t: &mut ServerTransfer,
    have: Vec<bool>,
    r: (ChunkBitmap, Message),
    i: u64,
)
    requires
        call_ensures(ServerTransfer::on_unpacked, (t, &have), r),
    ensures
        final(t).transfer == old(t).transfer,
        final(t).stage == TransferStage::Skip,
        r.0@.set.contains(i) ==> i < have@.len() && have@[i as int],
        65536 * i < old(t).transfer.total && i < have@.len() && have@[i as int]
            ==> r.0@.set.contains(i),
        r.1@ matches MessageView::TransferPlan(p) && p.bytes_reusable == r.0@.bytes_completed
            && p.bytes_total == old(t).transfer.total && p.transfer_id
            == old(t).transfer.transfer_id@,
{
}

/// A staged upload is committed only if its digest is the declared one.
pub proof fn law_digest_decides_upload(
    t: &mut ServerTransfer,
    computed: util::Hash,
    r: (Message, Result<(), VelcruxError>),
)
    requires
        call_ensures(ServerTransfer::on_digest, (t, computed), r),
    ensures
        final(t).transfer == old(t).transfer,
        r.1 is Ok <==> computed@ == old(t).transfer.create.file_hash@,
        r.1 is Ok <==> final(t).stage == TransferStage::StagedCommit,
        r.1 is Err ==> final(t).stage == TransferStage::Over,
        r.0@ matches MessageView::VerifyResult(v) && v.transfer_id == old(t).transfer.transfer_id@
            && v.computed_hash == computed@ && (v.ok <==> computed@
            == old(t).transfer.create.file_hash@),
{
}

/// A transfer is cancelled only by someone who could have started it.
pub proof fn law_who_may_cancel<N: Authenticator, A: Authorizer>(
    c: ServerConn<N, A>,
    x: TransferRecord,
    r: bool,
    none: bool,
)
    requires
        call_ensures(ServerConn::<N, A>::cancels, (&c, &Some(x)), r),
        call_ensures(ServerConn::<N, A>::cancels, (&c, &None::<TransferRecord>), none),
    ensures
        !none,
        !c.has_state ==> !r,
        c.has_state && x.direction == Direction::Upload ==> r == c.allows(
            Op::Upload,
            x.remote_path@,
        ),
        c.has_state && x.direction == Direction::Download ==> r == c.allows(
            Op::Download,
            x.remote_path@,
        ),
{
}

/// A new connection waits for HELLO, knows nobody and allows nothing.
pub proof fn law_new_connection(
    caps: Capabilities,
    name: &str,
    peer: Option<Identity>,
    c: ServerConn<MtlsAuthenticator, FileAuthorizer>,
    op: Op,
    path: Seq<char>,
)
    requires
        call_ensures(
            ServerConn::<MtlsAuthenticator, FileAuthorizer>::new,
            (caps, name, peer),
            c,
        ),
    ensures
        c.state == ServerState::AwaitHello,
        c.identity is None,
        c.server_caps == caps,
        c.peer_identity == peer,
        !c.has_state && !c.has_chunk_store,
        forall|n: Seq<char>| #[trigger] c.authorizer.verdict(n, op, path) is Some,
{
}

/// A connection takes frames while it shakes hands or serves, and none once it
/// is closed.
pub proof fn law_when_frames_are_taken<N: Authenticator, A: Authorizer>(
    c: ServerConn<N, A>,
    r: Result<bool, VelcruxError>,
)
    requires
        call_ensures(ServerConn::<N, A>::awaits_frame, (&c,), r),
    ensures
        c.state == ServerState::AwaitHello || c.state == ServerState::AwaitAuth || c.state
            == ServerState::Serving <==> r == Ok::<bool, VelcruxError>(true),
        c.state == ServerState::Closed <==> r == Ok::<bool, VelcruxError>(false),
{
}

/// A server reads which transfer a client asks about or cancels, and where it
/// lists.
pub proof fn law_requests_are_read<N: Authenticator, A: Authorizer>(
    q: message::StatQuery,
    c: message::Cancel,
    l: message::ListQuery,
    p: &[u8],
    stat: Option<TransferId>,
    cancel: Option<TransferId>,
    list: Option<String>,
)
    requires
        l@.encoding() is Ok,
        call_ensures(ServerConn::<N, A>::stat_target, (p,), stat),
        call_ensures(ServerConn::<N, A>::cancel_target, (p,), cancel),
        call_ensures(ServerConn::<N, A>::list_target, (p,), list),
    ensures
        p@ == agreement::sent(MessageView::Stat(q@)).1 ==> (stat matches Some(id) && id@
            == q.transfer_id@),
        p@ == agreement::sent(MessageView::Cancel(c@)).1 ==> (cancel matches Some(id) && id@
            == c.transfer_id@),
        p@ == agreement::sent(MessageView::List(l@)).1 ==> (list matches Some(s) && s@
            == text::without_leading(l.url_prefix@)),
        p@.len() < 16 ==> stat is None,
        p@.len() < 20 ==> cancel is None,
{
    message::progress::law_stat_query_roundtrip(q);
    message::progress::law_cancel_roundtrip(c);
    message::progress::law_list_query_roundtrip(l);
}

/// A client greets with the version of the protocol and with what it can do.
pub proof fn law_client_greets(caps: Capabilities, plain: Message, given: Message, bye: Message)
    requires
        call_ensures(side::hello_message, (), plain),
        call_ensures(side::hello_with_capabilities, (caps,), given),
        call_ensures(side::bye_message, (), bye),
    ensures
        plain matches Message::Hello(h) && h.versions@ == seq![1u8] && h.capabilities.contains(
            Capability::Blake3,
        ) && h.capabilities.contains(Capability::FixedChunking) && !h.capabilities.contains(
            Capability::DedupChunkStore,
        ) && h.capabilities.intersection_fault() is None,
        given matches Message::Hello(h) && h.versions@ == seq![1u8] && h.capabilities == caps,
        bye@ matches MessageView::Bye(b) && b.code == 5000,
{
}

/// A transfer that is resumed begins if the client names it, on the path that is
/// recorded, if that still is one.
pub proof fn law_resumed_transfer_begins(
    b: message::TransferBegin,
    f: Frame<'_>,
    record: TransferRecord,
    r: Result<VPath, VelcruxError>,
    none: Result<VPath, VelcruxError>,
)
    requires
        f.type_byte == agreement::sent(MessageView::TransferBegin(b@)).0,
        f.payload@ == agreement::sent(MessageView::TransferBegin(b@)).1,
        call_ensures(transfer::begin_resumed, (Some(f), &record), r),
        call_ensures(transfer::begin_resumed, (None, &record), none),
    ensures
        r is Ok <==> b.transfer_id@ == record@.transfer_id && storage::is_vpath(
            record@.remote_path,
        ),
        r matches Ok(p) ==> p@ == record@.remote_path,
        none is Err,
{
    message::transfer::law_transfer_begin_roundtrip(b);
}

} // verus!
