//! Server side of transfers: what is decided about TRANSFER_CREATE and
//! RESUME.
//!
//! A transfer passes through these steps. The path is authorized before
//! anything is looked up; the transfer gets its id, new or from an earlier
//! attempt with the same key; its size is settled; it is recorded; it is
//! decided how much of it is there already; and once both sides agree that it
//! begins, the rest is moved. What is looked up, read and written in between
//! is left to the caller.

use vstd::prelude::*;

use crate::auth::{Authenticator, Authorizer, Op};
use crate::error::{Fault, ProtocolError, Result, VelcruxError};
use crate::protocol::frame::Frame;
use crate::protocol::limits::MAX_CHUNK_SIZE;
use crate::protocol::message;
use crate::protocol::message::{
    ChunkQuery, ChunkQueryView, ChunkResponse, ChunkResponseView, Committed, CommittedView,
    InventoryHint, InventoryHintView, Message, MessageView, Resume, ResumeState, ResumeStateView,
    ResumeView, TransferBegin, TransferBeginView, TransferCreate, TransferCreateView,
    TransferCreated, TransferCreatedView, TransferOp, VerifyResult, VerifyResultView,
};
use crate::foreign;
use crate::session::client;
use crate::session::server;
use crate::session::server::{Counted, ServerConn, ServerStats};
use crate::state;
use crate::state::{
    ChunkBitmap, ChunkBitmapView, CommitJournalEntry, CommitJournalEntryView, CommitStatus,
    Direction, Role, TransferRecord, TransferRecordView, TransferStatus,
};
use crate::storage;
use crate::storage::VPath;
use crate::text;
use crate::transfer;
use crate::transfer::{Bloom, DeltaAnswer};
use crate::util;
use crate::util::TransferId;

verus! {

/// The file of a transfer, in the commit journal. There is one.
pub const JOURNAL_FILE: u64 = 1;

/// The permission and the path that a request is checked for.
pub open spec fn required(c: TransferCreateView) -> (Op, Seq<char>) {
    match c.op {
        TransferOp::Delete => (Op::Delete, c.dst_path),
        TransferOp::SyncUpload => (Op::Sync, c.dst_path),
        TransferOp::SyncDownload => (Op::Sync, c.src_path),
        TransferOp::Upload => (Op::Upload, c.dst_path),
        TransferOp::Download => (Op::Download, c.dst_path),
    }
}

/// An upload or a download that is allowed.
#[derive(Debug)]
pub struct TransferRequest {
    /// What is asked for.
    pub create: TransferCreate,
    /// The path on the server.
    pub dst: VPath,
}

/// What a TRANSFER_CREATE comes to.
#[derive(Debug)]
pub enum TransferOpening {
    /// It is not allowed: count that, and send the reply.
    Refused { reply: Message, then: Counted },
    /// Remove the file, and send the reply.
    Delete { path: VPath, reply: Message },
    /// Send the reply, and then the manifest of the directory.
    Sync { path: VPath, reply: Message },
    /// An upload or a download: count its start.
    Start { request: TransferRequest, then: Counted },
}

impl<N: Authenticator, A: Authorizer> ServerConn<N, A> {
    /// Take a TRANSFER_CREATE. The path is validated and authorized here,
    /// before anything is looked up.
    pub fn open_transfer(&self, payload: &[u8]) -> (r: Result<TransferOpening>)
        ensures
            match TransferCreateView::parse(payload@) {
                Err(f) => r matches Err(e) && e.is(Fault::Plain(f)),
                Ok(c) => {
                    let path = required(c).1;
                    if !self.allows(required(c).0, path) {
                        r matches Ok(TransferOpening::Refused { reply, then }) && reply@
                            == server::not_found() && then == Counted::Denied
                    } else {
                        match c.op {
                            TransferOp::Delete => r matches Ok(
                                TransferOpening::Delete { path: p, reply: Message::Committed(k) },
                            ) && p@ == path && k.files == 1,
                            TransferOp::SyncUpload | TransferOp::SyncDownload => r matches Ok(
                                TransferOpening::Sync {
                                    path: p,
                                    reply: Message::TransferCreated(t),
                                },
                            ) && p@ == path && !t.resumed && t.max_chunk_size == MAX_CHUNK_SIZE,
                            TransferOp::Upload | TransferOp::Download => r matches Ok(
                                TransferOpening::Start { request: q, then },
                            ) && q.create@ == c && q.dst@ == path && then
                                == Counted::TransferStarted,
                        }
                    }
                },
            },
    {
        let create = match TransferCreate::decode(payload) {
            Ok(c) => c,
            Err(e) => {
                return Err(VelcruxError::Protocol(e));
            },
        };
        let op = match create.op {
            TransferOp::Delete => Op::Delete,
            TransferOp::SyncUpload => Op::Sync,
            TransferOp::SyncDownload => Op::Sync,
            TransferOp::Upload => Op::Upload,
            TransferOp::Download => Op::Download,
        };
        let raw: &str = match create.op {
            TransferOp::SyncDownload => create.src_path.as_str(),
            _ => create.dst_path.as_str(),
        };
        let checked = match &self.identity {
            None => None,
            Some(i) => match self.authorizer.check(i, op, raw) {
                Ok(p) => Some(p),
                Err(_) => None,
            },
        };
        let path = match checked {
            Some(p) => p,
            None => {
                return Ok(
                    TransferOpening::Refused {
                        reply: server::not_found_reply(),
                        then: Counted::Denied,
                    },
                );
            },
        };
        match create.op {
            TransferOp::Delete => Ok(
                TransferOpening::Delete {
                    path,
                    reply: Message::Committed(
                        Committed { transfer_id: TransferId::generate(), files: 1 },
                    ),
                },
            ),
            TransferOp::SyncUpload | TransferOp::SyncDownload => Ok(
                TransferOpening::Sync {
                    path,
                    reply: Message::TransferCreated(
                        TransferCreated {
                            transfer_id: TransferId::generate(),
                            resumed: false,
                            max_chunk_size: MAX_CHUNK_SIZE,
                        },
                    ),
                },
            ),
            TransferOp::Upload | TransferOp::Download => Ok(
                TransferOpening::Start {
                    request: TransferRequest { create, dst: path },
                    then: Counted::TransferStarted,
                },
            ),
        }
    }

    /// The transfer that a RESUME names; none if the request is malformed,
    /// which is not answered.
    pub fn resume_target(payload: &[u8]) -> (r: Option<Resume>)
        ensures
            match ResumeView::parse(payload@) {
                Ok(v) => r matches Some(x) && x@ == v,
                Err(_) => r is None,
            },
    {
        match Resume::decode(payload) {
            Ok(x) => Some(x),
            Err(_) => None,
        }
    }

    /// What a RESUME is answered, from what is recorded of the transfer and
    /// of its completed chunks; none if it is refused.
    pub open spec fn resume_answer(
        self,
        by_id: Option<TransferRecordView>,
        by_key: Option<TransferRecordView>,
        bitmap: Option<ChunkBitmapView>,
    ) -> Option<ResumeStateView> {
        match first_found(by_id, by_key) {
            Some(r) => if self.has_state && self.allows(
                match r.direction {
                    Direction::Upload => Op::Resume,
                    Direction::Download => Op::Download,
                },
                r.remote_path,
            ) {
                let done = match bitmap {
                    Some(b) => b,
                    None => ChunkBitmapView { set: Set::empty(), bytes_completed: 0 },
                };
                Some(
                    ResumeStateView {
                        transfer_id: r.transfer_id,
                        staging_relpath: r.staging_relpath,
                        file_size: r.file_size,
                        bytes_completed: done.bytes_completed,
                        verified_up_to: r.verified_up_to,
                        file_hash: r.file_hash,
                        completed_chunks: state::bitmap::ascending(done.set),
                    },
                )
            } else {
                None
            },
            None => None,
        }
    }

    /// Answer a RESUME, from the transfer with the id, the one with the
    /// idempotency key, and the completed chunks. If the transfer goes on, it
    /// is the second result.
    pub fn resume_reply(
        &self,
        by_id: Option<TransferRecord>,
        by_key: Option<TransferRecord>,
        bitmap: Option<ChunkBitmap>,
    ) -> (r: (Message, Option<TransferRecord>))
        ensures
            ({
                let i = record_view(by_id);
                let k = record_view(by_key);
                let done = match bitmap {
                    Some(b) => Some(b@),
                    None => None,
                };
                match self.resume_answer(i, k, done) {
                    Some(s) => {
                        &&& r.0@ == MessageView::ResumeState(s)
                        &&& record_view(r.1) == first_found(i, k)
                        &&& r.1 is Some
                    },
                    None => r.0@ == server::not_found() && r.1 is None,
                }
            }),
    {
        if !self.has_state {
            return (server::not_found_reply(), None);
        }
        let record = match (by_id, by_key) {
            (Some(x), _) => x,
            (None, Some(x)) => x,
            (None, None) => {
                return (server::not_found_reply(), None);
            },
        };
        let op = match record.direction {
            Direction::Upload => Op::Resume,
            Direction::Download => Op::Download,
        };
        if !self.may(op, record.remote_path.as_str()) {
            return (server::not_found_reply(), None);
        }
        let done = match bitmap {
            Some(b) => b,
            None => ChunkBitmap::new(),
        };
        let reply = ResumeState {
            transfer_id: record.transfer_id,
            staging_relpath: record.staging_relpath.clone(),
            file_size: record.file_size,
            bytes_completed: done.bytes_completed(),
            verified_up_to: record.verified_up_to,
            file_hash: record.file_hash,
            completed_chunks: done.indices(),
        };
        (Message::ResumeState(reply), Some(record))
    }
}

/// The record with the id, or else the one with the idempotency key.
pub open spec fn first_found(
    by_id: Option<TransferRecordView>,
    by_key: Option<TransferRecordView>,
) -> Option<TransferRecordView> {
    match by_id {
        Some(r) => Some(r),
        None => by_key,
    }
}

/// The contents of a record.
pub open spec fn record_view(r: Option<TransferRecord>) -> Option<TransferRecordView> {
    match r {
        Some(x) => Some(x@),
        None => None,
    }
}

/// A RESUME of a transfer that the identity may not touch is answered as one
/// of a transfer that does not exist.
pub proof fn law_resume_denied_like_missing<N: Authenticator, A: Authorizer>(
    c: ServerConn<N, A>,
    r: TransferRecordView,
    by_key: Option<TransferRecordView>,
    bitmap: Option<ChunkBitmapView>,
)
    requires
        !c.allows(
            match r.direction {
                Direction::Upload => Op::Resume,
                Direction::Download => Op::Download,
            },
            r.remote_path,
        ),
    ensures
        c.resume_answer(Some(r), by_key, bitmap) == c.resume_answer(None, None, bitmap),
        c.resume_answer(None, Some(r), bitmap) == c.resume_answer(None, None, bitmap),
{
}

/// What is wrong with the frame that should begin a transfer.
pub open spec fn begin_fault(f: Option<(u8, Seq<u8>)>, id: Seq<u8>) -> Option<ProtocolError> {
    match f {
        None => Some(ProtocolError::Empty),
        Some((t, payload)) => if t != message::TRANSFER_BEGIN {
            Some(ProtocolError::InvalidStateTransition("expected TRANSFER_BEGIN"))
        } else {
            match TransferBeginView::parse(payload) {
                Err(e) => Some(e),
                Ok(b) => if b.transfer_id != id {
                    Some(
                        ProtocolError::InvalidStateTransition(
                            "TRANSFER_BEGIN transfer_id mismatch",
                        ),
                    )
                } else {
                    None
                },
            }
        },
    }
}

/// Take the frame that should begin a transfer.
pub fn check_begin(frame: Option<Frame<'_>>, id: TransferId) -> (r: Result<()>)
    ensures
        match begin_fault(client::received(frame), id@) {
            None => r is Ok,
            Some(f) => r matches Err(e) && e.is(Fault::Plain(f)),
        },
{
    let frame = match frame {
        Some(f) => f,
        None => {
            return Err(VelcruxError::Protocol(ProtocolError::Empty));
        },
    };
    if frame.type_byte != message::TRANSFER_BEGIN {
        return Err(
            VelcruxError::Protocol(
                ProtocolError::InvalidStateTransition("expected TRANSFER_BEGIN"),
            ),
        );
    }
    let begin = match TransferBegin::decode(frame.payload) {
        Ok(b) => b,
        Err(e) => {
            return Err(VelcruxError::Protocol(e));
        },
    };
    if begin.transfer_id != id {
        return Err(
            VelcruxError::Protocol(
                ProtocolError::InvalidStateTransition("TRANSFER_BEGIN transfer_id mismatch"),
            ),
        );
    }
    Ok(())
}

/// Take the frame that should begin a resumed transfer; gives the path of the
/// transfer.
pub fn begin_resumed(frame: Option<Frame<'_>>, record: &TransferRecord) -> (r: Result<VPath>)
    ensures
        match begin_fault(client::received(frame), record@.transfer_id) {
            Some(f) => r matches Err(e) && e.is(Fault::Plain(f)),
            None => if storage::is_vpath(record@.remote_path) {
                r matches Ok(p) && p@ == record@.remote_path
            } else {
                r matches Err(e) && e.is(Fault::Plain(ProtocolError::InvalidPath))
            },
        },
{
    match check_begin(frame, record.transfer_id) {
        Ok(()) => {},
        Err(e) => {
            return Err(e);
        },
    }
    match VPath::validate(record.remote_path.as_str()) {
        Ok(p) => Ok(p),
        Err(_) => Err(VelcruxError::Protocol(ProtocolError::InvalidPath)),
    }
}

/// An upload or a download with its id.
#[derive(Debug)]
pub struct TransferStart {
    /// What is asked for.
    pub create: TransferCreate,
    /// The path on the server.
    pub dst: VPath,
    /// The id.
    pub transfer_id: TransferId,
    /// Whether it was started before.
    pub resumed: bool,
    /// The bytes that are there from before.
    pub reusable: u64,
}

impl TransferRequest {
    /// Give the transfer its id. With an earlier attempt under the same key,
    /// the id is that of the attempt and what it has completed is there
    /// already; otherwise the id is new.
    pub fn identify(self, known: Option<(TransferId, Option<u64>)>) -> (r: TransferStart)
        ensures
            r.create == self.create,
            r.dst == self.dst,
            match known {
                Some((id, bytes)) => r.transfer_id == id && r.resumed && r.reusable == (match bytes {
                    Some(n) => n,
                    None => 0,
                }),
                None => !r.resumed && r.reusable == 0,
            },
    {
        match known {
            Some((id, bytes)) => TransferStart {
                create: self.create,
                dst: self.dst,
                transfer_id: id,
                resumed: true,
                reusable: match bytes {
                    Some(n) => n,
                    None => 0,
                },
            },
            None => TransferStart {
                create: self.create,
                dst: self.dst,
                transfer_id: TransferId::generate(),
                resumed: false,
                reusable: 0,
            },
        }
    }
}

/// An upload or a download with its id and its size.
#[derive(Debug)]
pub struct Transfer {
    /// What is asked for.
    pub create: TransferCreate,
    /// The path on the server.
    pub dst: VPath,
    /// The id.
    pub transfer_id: TransferId,
    /// Whether it was started before.
    pub resumed: bool,
    /// The bytes that are there from before.
    pub reusable: u64,
    /// The size of the file.
    pub total: u64,
}

impl TransferStart {
    /// Settle the size: an upload declares it, a download takes it from the
    /// file on the server. Without that file the download ends: the reply is
    /// sent, and the end is counted.
    pub fn measure(self, on_disk: Option<u64>) -> (r: std::result::Result<
        Transfer,
        (Message, Counted),
    >)
        ensures
            match (self.create.op, on_disk) {
                (TransferOp::Download, None) => r matches Err((m, c)) && m@ == server::not_found()
                    && c == Counted::TransferEnded,
                (TransferOp::Download, Some(n)) => r == Ok::<Transfer, (Message, Counted)>(
                    self.measured(n),
                ),
                _ => r == Ok::<Transfer, (Message, Counted)>(
                    self.measured(self.create.file_size),
                ),
            },
    {
        let total: u64 = match self.create.op {
            TransferOp::Download => match on_disk {
                Some(n) => n,
                None => {
                    return Err((server::not_found_reply(), Counted::TransferEnded));
                },
            },
            _ => self.create.file_size,
        };
        Ok(
            Transfer {
                create: self.create,
                dst: self.dst,
                transfer_id: self.transfer_id,
                resumed: self.resumed,
                reusable: self.reusable,
                total,
            },
        )
    }

    /// The transfer with its size.
    pub open spec fn measured(self, total: u64) -> Transfer {
        Transfer {
            create: self.create,
            dst: self.dst,
            transfer_id: self.transfer_id,
            resumed: self.resumed,
            reusable: self.reusable,
            total,
        }
    }
}

/// How an upload makes use of what is there.
#[derive(Debug, Clone, Copy, PartialEq, Eq, Structural)]
pub enum Reuse {
    /// The same file is there: nothing is sent.
    Identical,
    /// Parts may be there: the other side is told which.
    Delta,
    /// Everything is sent.
    Plain,
}

/// The direction of a request.
pub open spec fn direction_of(op: TransferOp) -> Direction {
    if op == TransferOp::Download {
        Direction::Download
    } else {
        Direction::Upload
    }
}

impl Transfer {
    /// What is recorded of the transfer when it starts.
    pub open spec fn record_view(self, now_ms: u64) -> TransferRecordView {
        TransferRecordView {
            transfer_id: self.transfer_id@,
            idempotency_key: self.create.idempotency_key@,
            role: Role::Server,
            direction: direction_of(self.create.op),
            status: TransferStatus::Active,
            remote_path: self.create.dst_path@,
            local_path: ""@,
            file_size: self.total,
            file_hash: self.create.file_hash@,
            verified_up_to: 0,
            last_checkpoint_ms: now_ms,
            bytes_completed: self.reusable,
            staging_relpath: util::transfer_id_text(self.transfer_id@) + "/"@ + self.dst@,
            created_ms: now_ms,
            updated_ms: now_ms,
        }
    }

    /// What is recorded of the transfer when it starts.
    pub fn record(&self, now_ms: u64) -> (r: TransferRecord)
        ensures
            r@ == self.record_view(now_ms),
    {
        let mut staging: String = self.transfer_id.to_string();
        text::push_str(&mut staging, "/");
        text::push_str(&mut staging, self.dst.as_str());
        TransferRecord {
            transfer_id: self.transfer_id,
            idempotency_key: self.create.idempotency_key.clone(),
            role: Role::Server,
            direction: match self.create.op {
                TransferOp::Download => Direction::Download,
                _ => Direction::Upload,
            },
            status: TransferStatus::Active,
            remote_path: self.create.dst_path.clone(),
            local_path: "".to_owned(),
            file_size: self.total,
            file_hash: self.create.file_hash,
            verified_up_to: 0,
            last_checkpoint_ms: now_ms,
            bytes_completed: self.reusable,
            staging_relpath: staging,
            created_ms: now_ms,
            updated_ms: now_ms,
        }
    }

    /// What is written to the commit journal when the transfer starts:
    /// nothing for a download.
    pub fn journal(&self, now_ms: u64) -> (r: Option<CommitJournalEntry>)
        ensures
            if self.create.op == TransferOp::Upload {
                r matches Some(e) && e@ == (CommitJournalEntryView {
                    transfer_id: self.transfer_id@,
                    file_id: JOURNAL_FILE,
                    remote_path: self.create.dst_path@,
                    status: CommitStatus::Pending,
                    updated_ms: now_ms,
                })
            } else {
                r is None
            },
    {
        match self.create.op {
            TransferOp::Upload => Some(
                CommitJournalEntry {
                    transfer_id: self.transfer_id,
                    file_id: JOURNAL_FILE,
                    remote_path: self.create.dst_path.clone(),
                    status: CommitStatus::Pending,
                    updated_ms: now_ms,
                },
            ),
            _ => None,
        }
    }

    /// How an upload makes use of what is there: `existing` is the size and
    /// the digest of the file at the destination, `inventory` whether its
    /// chunks could be listed.
    pub fn reuse(
        &self,
        existing: Option<(u64, Option<util::Hash>)>,
        inventory: bool,
        chunk_store: bool,
    ) -> (r: Reuse)
        ensures
            r == if self.create.op != TransferOp::Upload || (existing is None && !chunk_store) {
                Reuse::Plain
            } else if existing matches Some((n, Some(h))) && n == self.create.file_size && h@
                == self.create.file_hash@ {
                Reuse::Identical
            } else if (existing is Some && inventory) || chunk_store {
                Reuse::Delta
            } else {
                Reuse::Plain
            },
    {
        match self.create.op {
            TransferOp::Upload => {},
            _ => {
                return Reuse::Plain;
            },
        }
        match existing {
            None => {
                if chunk_store {
                    Reuse::Delta
                } else {
                    Reuse::Plain
                }
            },
            Some((n, hash)) => {
                let same: bool = match hash {
                    Some(h) => n == self.create.file_size && h == self.create.file_hash,
                    None => false,
                };
                if same {
                    Reuse::Identical
                } else if inventory || chunk_store {
                    Reuse::Delta
                } else {
                    Reuse::Plain
                }
            },
        }
    }

    /// TRANSFER_CREATED for this transfer.
    pub open spec fn created(self, resumed: bool) -> MessageView {
        MessageView::TransferCreated(
            TransferCreatedView {
                transfer_id: self.transfer_id@,
                resumed,
                max_chunk_size: MAX_CHUNK_SIZE,
            },
        )
    }

    /// TRANSFER_CREATED for this transfer.
    fn created_message(&self, resumed: bool) -> (r: Message)
        ensures
            r@ == self.created(resumed),
    {
        Message::TransferCreated(
            TransferCreated {
                transfer_id: self.transfer_id,
                resumed,
                max_chunk_size: MAX_CHUNK_SIZE,
            },
        )
    }

    /// TRANSFER_PLAN for this transfer, with some of its bytes there already.
    pub open spec fn planned(self, reusable: u64) -> MessageView {
        MessageView::TransferPlan(transfer::plan(self.transfer_id@, self.total, reusable))
    }

    /// TRANSFER_PLAN for this transfer, with some of its bytes there already.
    fn plan_message(&self, reusable: u64) -> (r: Message)
        ensures
            r@ == self.planned(reusable),
    {
        Message::TransferPlan(transfer::make_plan(self.transfer_id, self.total, reusable))
    }
}

/// What is recorded of a transfer once all of it is committed.
pub fn committed_record(r: TransferRecord, size: u64, now_ms: u64) -> (n: TransferRecord)
    ensures
        n@ == (TransferRecordView {
            status: TransferStatus::Committed,
            bytes_completed: size,
            verified_up_to: size,
            updated_ms: now_ms,
            ..r@
        }),
{
    TransferRecord {
        status: TransferStatus::Committed,
        bytes_completed: size,
        verified_up_to: size,
        updated_ms: now_ms,
        ..r
    }
}

/// Where a transfer stands.
#[derive(Debug, Clone, Copy, PartialEq, Eq, Structural)]
pub enum TransferStage {
    /// The file is sent whole: TRANSFER_BEGIN comes next, or INVENTORY_HINT
    /// from the client of a download that has parts of it.
    Plain,
    /// An upload of which parts are here: CHUNK_QUERY comes next.
    Query,
    /// The chunks of CHUNK_QUERY are looked for.
    Locate { query_seq: u64 },
    /// The chunks were staged: TRANSFER_BEGIN comes next.
    Staged,
    /// The chunks of a download are digested.
    Digests,
    /// CHUNK_RESPONSE comes next.
    Response,
    /// CHUNK_RESPONSE is unpacked.
    Unpack,
    /// The chunks to skip are known: TRANSFER_BEGIN comes next.
    Skip,
    /// The file is in place already: TRANSFER_BEGIN comes next.
    Present,
    /// The file is in place already: VERIFY comes next.
    PresentVerify,
    /// The file is in place already: COMMIT comes next.
    PresentCommit,
    /// All of the file was staged: VERIFY comes next.
    StagedVerify,
    /// The staged file is digested.
    StagedDigest,
    /// The staged file is the declared one: COMMIT comes next.
    StagedCommit,
    /// The bytes are moved.
    Moving,
    /// It is over.
    Over,
}

/// What is to be done about a frame.
#[derive(Debug)]
pub enum TransferStep {
    /// Send these messages, and wait for the next frame.
    Send(Vec<Message>),
    /// Look for the chunks that are asked about.
    Locate(ChunkQuery),
    /// Digest the chunks of the file; the client says what it has.
    Digests(InventoryHint),
    /// Unpack the answer.
    Unpack(ChunkResponse),
    /// Digest the staged file.
    Digest,
    /// Move the bytes.
    Move,
    /// Put the file in place if it was staged, send the message, and count
    /// the upload, and then the end of the transfer. The file goes into the
    /// chunk store, if there is one.
    Commit { reply: Message, counted: Counted, then: Counted },
    /// Leave it, and count the end of the transfer.
    Abandon { then: Counted },
}

/// What is to be done about a frame, by its contents.
pub enum TransferStepView {
    Send(Seq<MessageView>),
    Locate(ChunkQueryView),
    Digests(InventoryHintView),
    Unpack(ChunkResponseView),
    Digest,
    Move,
    Commit { reply: MessageView, counted: Counted, then: Counted },
    Abandon { then: Counted },
}

/// The contents of messages.
pub open spec fn message_views(s: Seq<Message>) -> Seq<MessageView> {
    s.map_values(|m: Message| m@)
}

impl View for TransferStep {
    type V = TransferStepView;

    open spec fn view(&self) -> TransferStepView {
        match *self {
            TransferStep::Send(m) => TransferStepView::Send(message_views(m@)),
            TransferStep::Locate(q) => TransferStepView::Locate(q@),
            TransferStep::Digests(h) => TransferStepView::Digests(h@),
            TransferStep::Unpack(r) => TransferStepView::Unpack(r@),
            TransferStep::Digest => TransferStepView::Digest,
            TransferStep::Move => TransferStepView::Move,
            TransferStep::Commit { reply, counted, then } => TransferStepView::Commit {
                reply: reply@,
                counted,
                then,
            },
            TransferStep::Abandon { then } => TransferStepView::Abandon { then },
        }
    }
}

/// What comes of a transfer whose bytes were moved, or were not.
#[derive(Debug, Clone, Copy, PartialEq, Eq, Structural)]
pub struct Outcome {
    /// What is counted.
    pub counted: Counted,
    /// The size with which the transfer is recorded as committed.
    pub committed: Option<u64>,
    /// The file of the transfer whose journal row is marked as committed.
    pub journal: Option<u64>,
    /// Whether the file goes into the chunk store, if there is one.
    pub ingest: bool,
    /// What is counted last: the end of the transfer.
    pub then: Counted,
}

/// A transfer in progress, on the side of the server.
#[derive(Debug)]
pub struct ServerTransfer {
    /// The transfer.
    pub transfer: Transfer,
    /// Where it stands.
    pub stage: TransferStage,
    /// For an upload of which parts were staged, how much is staged.
    pub staged: Option<u64>,
}

impl ServerTransfer {
    /// The messages that start a transfer of which everything is sent that
    /// is not there from before.
    pub open spec fn plain_messages(t: Transfer) -> Seq<MessageView> {
        seq![t.created(t.resumed), t.planned(t.reusable)]
    }

    /// Start a transfer; the messages are sent. For `Reuse::Delta` the
    /// INVENTORY_HINT of what is here is sent after them.
    pub fn start(transfer: Transfer, reuse: Reuse) -> (r: (Self, Vec<Message>))
        ensures
            r.0.transfer == transfer,
            r.0.staged is None,
            r.0.stage == match reuse {
                Reuse::Identical => TransferStage::Present,
                Reuse::Delta => TransferStage::Query,
                Reuse::Plain => TransferStage::Plain,
            },
            message_views(r.1@) == match reuse {
                Reuse::Identical => seq![
                    transfer.created(false),
                    transfer.planned(transfer.total),
                ],
                Reuse::Delta => seq![transfer.created(false)],
                Reuse::Plain => ServerTransfer::plain_messages(transfer),
            },
    {
        let mut out: Vec<Message> = Vec::new();
        let stage: TransferStage = match reuse {
            Reuse::Identical => {
                out.push(transfer.created_message(false));
                out.push(transfer.plan_message(transfer.total));
                TransferStage::Present
            },
            Reuse::Delta => {
                out.push(transfer.created_message(false));
                TransferStage::Query
            },
            Reuse::Plain => {
                out.push(transfer.created_message(transfer.resumed));
                out.push(transfer.plan_message(transfer.reusable));
                TransferStage::Plain
            },
        };
        proof {
            match reuse {
                Reuse::Identical => {
                    assert(message_views(out@) =~= seq![
                        transfer.created(false),
                        transfer.planned(transfer.total),
                    ]);
                },
                Reuse::Delta => {
                    assert(message_views(out@) =~= seq![transfer.created(false)]);
                },
                Reuse::Plain => {
                    assert(message_views(out@) =~= ServerTransfer::plain_messages(transfer));
                },
            }
        }
        (ServerTransfer { transfer, stage, staged: None }, out)
    }

    /// INVENTORY_HINT for what is here.
    pub open spec fn hinted(self, bloom: Bloom) -> MessageView {
        MessageView::InventoryHint(
            InventoryHintView {
                transfer_id: self.transfer.transfer_id@,
                filter_bits: bloom.filter_bits,
                num_hashes: bloom.num_hashes,
                bitset: foreign::bytes_content(bloom.bitset),
            },
        )
    }

    /// INVENTORY_HINT for what is here.
    pub fn hint(&self, bloom: Bloom) -> (r: Message)
        ensures
            r@ == self.hinted(bloom),
    {
        Message::InventoryHint(
            InventoryHint {
                transfer_id: self.transfer.transfer_id,
                filter_bits: bloom.filter_bits,
                num_hashes: bloom.num_hashes,
                bitset: bloom.bitset,
            },
        )
    }

    /// What is counted for an upload that was staged as a whole, or that is
    /// in place already.
    pub open spec fn closing(self) -> TransferStepView {
        TransferStepView::Commit {
            reply: MessageView::Committed(
                CommittedView { transfer_id: self.transfer.transfer_id@, files: 1 },
            ),
            counted: Counted::Upload {
                transferred: 0,
                reused: match self.staged {
                    Some(n) => n,
                    None => self.transfer.total,
                },
            },
            then: Counted::TransferEnded,
        }
    }

    /// Whether the transfer waits for a frame.
    pub open spec fn waits(self) -> bool {
        match self.stage {
            TransferStage::Plain
            | TransferStage::Query
            | TransferStage::Staged
            | TransferStage::Response
            | TransferStage::Skip
            | TransferStage::Present
            | TransferStage::PresentVerify
            | TransferStage::PresentCommit
            | TransferStage::StagedVerify
            | TransferStage::StagedCommit => true,
            _ => false,
        }
    }

    /// Whether nothing is left to be sent.
    pub open spec fn staged_whole(self) -> bool {
        match self.staged {
            Some(n) => n >= self.transfer.total,
            None => false,
        }
    }

    /// What is done about a frame, and where the transfer stands then.
    pub open spec fn answer(self, f: Option<(u8, Seq<u8>)>) -> std::result::Result<
        (TransferStage, TransferStepView),
        ProtocolError,
    > {
        match f {
            None => Err(ProtocolError::Empty),
            Some((t, payload)) => match self.stage {
                TransferStage::Query => if t != message::CHUNK_QUERY {
                    Ok(
                        (
                            TransferStage::Plain,
                            TransferStepView::Send(ServerTransfer::plain_messages(self.transfer)),
                        ),
                    )
                } else {
                    match ChunkQueryView::parse(payload) {
                        Err(e) => Err(e),
                        Ok(q) => Ok(
                            (
                                TransferStage::Locate { query_seq: q.query_seq },
                                TransferStepView::Locate(q),
                            ),
                        ),
                    }
                },
                TransferStage::Staged => if t != message::TRANSFER_BEGIN {
                    Err(ProtocolError::InvalidStateTransition("expected TRANSFER_BEGIN"))
                } else if self.staged_whole() {
                    Ok((TransferStage::StagedVerify, TransferStepView::Send(seq![])))
                } else {
                    Ok((TransferStage::Moving, TransferStepView::Move))
                },
                TransferStage::Plain => if self.transfer.create.op == TransferOp::Download && t
                    == message::INVENTORY_HINT {
                    match InventoryHintView::parse(payload) {
                        Err(e) => Err(e),
                        Ok(h) => Ok((TransferStage::Digests, TransferStepView::Digests(h))),
                    }
                } else {
                    self.begun(f)
                },
                TransferStage::Skip => self.begun(f),
                TransferStage::Response => if t != message::CHUNK_RESPONSE {
                    Err(ProtocolError::InvalidStateTransition("expected CHUNK_RESPONSE"))
                } else {
                    match ChunkResponseView::parse(payload) {
                        Err(e) => Err(e),
                        Ok(r) => Ok((TransferStage::Unpack, TransferStepView::Unpack(r))),
                    }
                },
                TransferStage::Present => if t != message::TRANSFER_BEGIN {
                    Err(ProtocolError::InvalidStateTransition("expected TRANSFER_BEGIN"))
                } else {
                    Ok((TransferStage::PresentVerify, TransferStepView::Send(seq![])))
                },
                TransferStage::PresentVerify => if t != message::VERIFY {
                    Ok(
                        (
                            TransferStage::Over,
                            TransferStepView::Abandon { then: Counted::TransferEnded },
                        ),
                    )
                } else {
                    Ok(
                        (
                            TransferStage::PresentCommit,
                            TransferStepView::Send(
                                seq![self.verified(self.transfer.create.file_hash@)],
                            ),
                        ),
                    )
                },
                TransferStage::PresentCommit => if t != message::COMMIT {
                    Ok(
                        (
                            TransferStage::Over,
                            TransferStepView::Abandon { then: Counted::TransferEnded },
                        ),
                    )
                } else {
                    Ok((TransferStage::Over, self.closing()))
                },
                TransferStage::StagedVerify => if t != message::VERIFY {
                    Err(ProtocolError::InvalidStateTransition("expected VERIFY"))
                } else {
                    Ok((TransferStage::StagedDigest, TransferStepView::Digest))
                },
                TransferStage::StagedCommit => if t != message::COMMIT {
                    Err(ProtocolError::InvalidStateTransition("expected COMMIT"))
                } else {
                    Ok((TransferStage::Over, self.closing()))
                },
                _ => Err(ProtocolError::InvalidStateTransition("unexpected frame")),
            },
        }
    }

    /// VERIFY_RESULT for a digest.
    pub open spec fn verified(self, computed: Seq<u8>) -> MessageView {
        MessageView::VerifyResult(
            VerifyResultView {
                transfer_id: self.transfer.transfer_id@,
                ok: computed == self.transfer.create.file_hash@,
                computed_hash: computed,
            },
        )
    }

    /// What is done about a frame that should begin the transfer.
    pub open spec fn begun(self, f: Option<(u8, Seq<u8>)>) -> std::result::Result<
        (TransferStage, TransferStepView),
        ProtocolError,
    > {
        match begin_fault(f, self.transfer.transfer_id@) {
            Some(e) => Err(e),
            None => Ok((TransferStage::Moving, TransferStepView::Move)),
        }
    }

    /// VERIFY_RESULT for a digest.
    fn verify_result(&self, computed: util::Hash) -> (r: Message)
        ensures
            r@ == self.verified(computed@),
    {
        Message::VerifyResult(
            VerifyResult {
                transfer_id: self.transfer.transfer_id,
                ok: computed == self.transfer.create.file_hash,
                computed_hash: computed,
            },
        )
    }

    /// The last step of an upload of which nothing had to be sent.
    fn close(&self) -> (r: TransferStep)
        ensures
            r@ == self.closing(),
    {
        TransferStep::Commit {
            reply: Message::Committed(
                Committed { transfer_id: self.transfer.transfer_id, files: 1 },
            ),
            counted: Counted::Upload {
                transferred: 0,
                reused: match self.staged {
                    Some(n) => n,
                    None => self.transfer.total,
                },
            },
            then: Counted::TransferEnded,
        }
    }

    /// Take the frame that comes next, or the end of the stream.
    #[verifier::spinoff_prover]
    pub fn on_frame(&mut self, frame: Option<Frame<'_>>) -> (r: Result<TransferStep>)
        requires
            old(self).waits(),
        ensures
            final(self).transfer == old(self).transfer,
            final(self).staged == old(self).staged,
            match old(self).answer(client::received(frame)) {
                Ok((stage, step)) => {
                    &&& r matches Ok(x)
                    &&& x@ == step
                    &&& final(self).stage == stage
                },
                Err(f) => {
                    &&& r matches Err(e)
                    &&& e.is(Fault::Plain(f))
                    &&& final(self).stage == old(self).stage
                },
            },
    {
        let f = match frame {
            Some(f) => f,
            None => {
                return Err(VelcruxError::Protocol(ProtocolError::Empty));
            },
        };
        let t: u8 = f.type_byte;
        match self.stage {
            TransferStage::Query => {
                if t != message::CHUNK_QUERY {
                    let mut out: Vec<Message> = Vec::new();
                    out.push(self.transfer.created_message(self.transfer.resumed));
                    out.push(self.transfer.plan_message(self.transfer.reusable));
                    assert(message_views(out@) =~= ServerTransfer::plain_messages(self.transfer));
                    self.stage = TransferStage::Plain;
                    return Ok(TransferStep::Send(out));
                }
                match ChunkQuery::decode(f.payload) {
                    Ok(q) => {
                        self.stage = TransferStage::Locate { query_seq: q.query_seq };
                        Ok(TransferStep::Locate(q))
                    },
                    Err(e) => Err(VelcruxError::Protocol(e)),
                }
            },
            TransferStage::Staged => {
                if t != message::TRANSFER_BEGIN {
                    return Err(
                        VelcruxError::Protocol(
                            ProtocolError::InvalidStateTransition("expected TRANSFER_BEGIN"),
                        ),
                    );
                }
                let whole: bool = match self.staged {
                    Some(n) => n >= self.transfer.total,
                    None => false,
                };
                if whole {
                    self.stage = TransferStage::StagedVerify;
                    let out: Vec<Message> = Vec::new();
                    assert(message_views(out@) =~= seq![]);
                    Ok(TransferStep::Send(out))
                } else {
                    self.stage = TransferStage::Moving;
                    Ok(TransferStep::Move)
                }
            },
            TransferStage::Plain | TransferStage::Skip => {
                let hinted: bool = match (self.stage, self.transfer.create.op) {
                    (TransferStage::Plain, TransferOp::Download) => t == message::INVENTORY_HINT,
                    _ => false,
                };
                if hinted {
                    return match InventoryHint::decode(f.payload) {
                        Ok(h) => {
                            self.stage = TransferStage::Digests;
                            Ok(TransferStep::Digests(h))
                        },
                        Err(e) => Err(VelcruxError::Protocol(e)),
                    };
                }
                match check_begin(Some(f), self.transfer.transfer_id) {
                    Ok(()) => {
                        self.stage = TransferStage::Moving;
                        Ok(TransferStep::Move)
                    },
                    Err(e) => Err(e),
                }
            },
            TransferStage::Response => {
                if t != message::CHUNK_RESPONSE {
                    return Err(
                        VelcruxError::Protocol(
                            ProtocolError::InvalidStateTransition("expected CHUNK_RESPONSE"),
                        ),
                    );
                }
                match ChunkResponse::decode(f.payload) {
                    Ok(x) => {
                        self.stage = TransferStage::Unpack;
                        Ok(TransferStep::Unpack(x))
                    },
                    Err(e) => Err(VelcruxError::Protocol(e)),
                }
            },
            TransferStage::Present => {
                if t != message::TRANSFER_BEGIN {
                    return Err(
                        VelcruxError::Protocol(
                            ProtocolError::InvalidStateTransition("expected TRANSFER_BEGIN"),
                        ),
                    );
                }
                self.stage = TransferStage::PresentVerify;
                let out: Vec<Message> = Vec::new();
                assert(message_views(out@) =~= seq![]);
                Ok(TransferStep::Send(out))
            },
            TransferStage::PresentVerify => {
                if t != message::VERIFY {
                    self.stage = TransferStage::Over;
                    return Ok(TransferStep::Abandon { then: Counted::TransferEnded });
                }
                let mut out: Vec<Message> = Vec::new();
                out.push(self.verify_result(self.transfer.create.file_hash));
                assert(message_views(out@) =~= seq![
                    self.verified(self.transfer.create.file_hash@),
                ]);
                self.stage = TransferStage::PresentCommit;
                Ok(TransferStep::Send(out))
            },
            TransferStage::PresentCommit => {
                let step = if t != message::COMMIT {
                    TransferStep::Abandon { then: Counted::TransferEnded }
                } else {
                    self.close()
                };
                self.stage = TransferStage::Over;
                Ok(step)
            },
            TransferStage::StagedVerify => {
                if t != message::VERIFY {
                    return Err(
                        VelcruxError::Protocol(
                            ProtocolError::InvalidStateTransition("expected VERIFY"),
                        ),
                    );
                }
                self.stage = TransferStage::StagedDigest;
                Ok(TransferStep::Digest)
            },
            TransferStage::StagedCommit => {
                if t != message::COMMIT {
                    return Err(
                        VelcruxError::Protocol(
                            ProtocolError::InvalidStateTransition("expected COMMIT"),
                        ),
                    );
                }
                let step = self.close();
                self.stage = TransferStage::Over;
                Ok(step)
            },
            _ => Err(
                VelcruxError::Protocol(ProtocolError::InvalidStateTransition("unexpected frame")),
            ),
        }
    }

    /// The chunks that are asked about were looked for, and what was found
    /// is staged. `rle` is the packed form of `answer.have`. The messages are
    /// sent.
    pub fn on_located(&mut self, answer: &DeltaAnswer, rle: bytes::Bytes) -> (r: (Message, Message))
        requires
            old(self).stage is Locate,
            answer.have@.len() <= u32::MAX,
        ensures
            final(self).transfer == old(self).transfer,
            final(self).stage == TransferStage::Staged,
            final(self).staged == Some(answer.bitmap@.bytes_completed),
            r.0@ == MessageView::ChunkResponse(
                ChunkResponseView {
                    transfer_id: old(self).transfer.transfer_id@,
                    query_seq: old(self).stage->query_seq,
                    total_chunks: answer.have@.len() as u32,
                    have_count: transfer::count_true(answer.have@) as u32,
                    rle_bitmap: foreign::bytes_content(rle),
                },
            ),
            r.1@ == old(self).transfer.planned(answer.bitmap@.bytes_completed),
    {
        let query_seq: u64 = match self.stage {
            TransferStage::Locate { query_seq } => query_seq,
            _ => 0,
        };
        let response = transfer::chunk_response(
            self.transfer.transfer_id,
            query_seq,
            &answer.have,
            rle,
        );
        let reusable: u64 = answer.bitmap.bytes_completed();
        let plan = self.transfer.plan_message(reusable);
        self.stage = TransferStage::Staged;
        self.staged = Some(reusable);
        (response, plan)
    }

    /// The chunks of a download are digested. The message is sent.
    pub fn on_digests(&mut self, chunk_hashes: Vec<util::Hash>) -> (r: Message)
        requires
            old(self).stage == TransferStage::Digests,
        ensures
            final(self).transfer == old(self).transfer,
            final(self).staged == old(self).staged,
            final(self).stage == TransferStage::Response,
            r matches Message::ChunkQuery(q) && q.transfer_id == old(self).transfer.transfer_id
                && q.query_seq == 1 && q.chunk_hashes == chunk_hashes,
    {
        self.stage = TransferStage::Response;
        Message::ChunkQuery(
            ChunkQuery { transfer_id: self.transfer.transfer_id, query_seq: 1, chunk_hashes },
        )
    }

    /// The answer of the client is unpacked: for each chunk of the download,
    /// whether the client has it. The message is sent; the chunks of the
    /// bitmap are skipped.
    pub fn on_unpacked(&mut self, have: &Vec<bool>) -> (r: (ChunkBitmap, Message))
        requires
            old(self).stage == TransferStage::Unpack,
        ensures
            final(self).transfer == old(self).transfer,
            final(self).staged == old(self).staged,
            final(self).stage == TransferStage::Skip,
            r.0@.set == transfer::had_chunks(old(self).transfer.total, have@),
            r.0@.bytes_completed == transfer::had_bytes(
                old(self).transfer.total,
                have@,
                transfer::chunk_count(old(self).transfer.total),
            ),
            r.1@ == old(self).transfer.planned(r.0@.bytes_completed),
    {
        let bitmap = transfer::skip_bitmap(self.transfer.total, have);
        let plan = self.transfer.plan_message(bitmap.bytes_completed());
        self.stage = TransferStage::Skip;
        (bitmap, plan)
    }

    /// The staged file is digested. The message is sent; if the digest is not
    /// the declared one, the transfer then fails with the error.
    pub fn on_digest(&mut self, computed: util::Hash) -> (r: (Message, Result<()>))
        requires
            old(self).stage == TransferStage::StagedDigest,
        ensures
            final(self).transfer == old(self).transfer,
            final(self).staged == old(self).staged,
            r.0@ == old(self).verified(computed@),
            if computed@ == old(self).transfer.create.file_hash@ {
                r.1 is Ok && final(self).stage == TransferStage::StagedCommit
            } else {
                (r.1 matches Err(e) && e.is(
                    Fault::Plain(ProtocolError::Malformed("checksum mismatch")),
                )) && final(self).stage == TransferStage::Over
            },
    {
        let reply = self.verify_result(computed);
        if computed == self.transfer.create.file_hash {
            self.stage = TransferStage::StagedCommit;
            (reply, Ok(()))
        } else {
            self.stage = TransferStage::Over;
            (reply, Err(VelcruxError::Protocol(ProtocolError::Malformed("checksum mismatch"))))
        }
    }

    /// The bytes were moved, or moving them failed.
    pub fn on_moved(&mut self, ok: bool) -> (r: Outcome)
        requires
            old(self).stage == TransferStage::Moving,
        ensures
            final(self).transfer == old(self).transfer,
            final(self).staged == old(self).staged,
            final(self).stage == TransferStage::Over,
            ({
                let t = old(self).transfer;
                r == match (ok, old(self).staged) {
                    (false, _) => Outcome {
                        counted: Counted::Mismatch,
                        committed: None,
                        journal: None,
                        ingest: false,
                        then: Counted::TransferEnded,
                    },
                    (true, Some(n)) => Outcome {
                        counted: Counted::Upload {
                            transferred: transfer::plan(
                                t.transfer_id@,
                                t.total,
                                n,
                            ).bytes_to_transfer,
                            reused: n,
                        },
                        committed: None,
                        journal: None,
                        ingest: true,
                        then: Counted::TransferEnded,
                    },
                    (true, None) => Outcome {
                        counted: if t.create.op == TransferOp::Download {
                            Counted::Download { transferred: t.total }
                        } else {
                            Counted::Upload { transferred: t.total, reused: 0 }
                        },
                        committed: Some(t.total),
                        journal: if t.create.op == TransferOp::Upload {
                            Some(JOURNAL_FILE)
                        } else {
                            None
                        },
                        ingest: false,
                        then: Counted::TransferEnded,
                    },
                }
            }),
    {
        self.stage = TransferStage::Over;
        let then: Counted = Counted::TransferEnded;
        if !ok {
            return Outcome {
                counted: Counted::Mismatch,
                committed: None,
                journal: None,
                ingest: false,
                then,
            };
        }
        let total: u64 = self.transfer.total;
        match self.staged {
            Some(n) => {
                let transferred: u64 = if n < total {
                    total - n
                } else {
                    0
                };
                Outcome {
                    counted: Counted::Upload { transferred, reused: n },
                    committed: None,
                    journal: None,
                    ingest: true,
                    then,
                }
            },
            None => {
                let counted: Counted = match self.transfer.create.op {
                    TransferOp::Download => Counted::Download { transferred: total },
                    _ => Counted::Upload { transferred: total, reused: 0 },
                };
                let journal: Option<u64> = match self.transfer.create.op {
                    TransferOp::Upload => Some(JOURNAL_FILE),
                    _ => None,
                };
                Outcome { counted, committed: Some(total), journal, ingest: false, then }
            },
        }
    }

    /// The file of a download is gone when its bytes are to be moved: the
    /// reply is sent, and the end is counted.
    pub fn on_gone(&mut self) -> (r: (Message, Counted))
        requires
            old(self).stage == TransferStage::Moving,
        ensures
            final(self).transfer == old(self).transfer,
            final(self).staged == old(self).staged,
            final(self).stage == TransferStage::Over,
            r.0@ == server::not_found(),
            r.1 == Counted::TransferEnded,
    {
        self.stage = TransferStage::Over;
        (server::not_found_reply(), Counted::TransferEnded)
    }

    /// The transfer fails: a frame was an error, a digest was not the declared
    /// one, or a stream has failed. Its end is counted.
    pub fn fail(&mut self) -> (r: Counted)
        ensures
            final(self).transfer == old(self).transfer,
            final(self).staged == old(self).staged,
            final(self).stage == TransferStage::Over,
            r == Counted::TransferEnded,
    {
        self.stage = TransferStage::Over;
        Counted::TransferEnded
    }
}

/// Every transfer that has started is counted once more when it ends, however
/// that comes about: then as many are running as before.
pub proof fn law_ends_are_counted(t: ServerTransfer, f: Option<(u8, Seq<u8>)>, stats: ServerStats)
    ensures
        t.answer(f) matches Ok((stage, step)) ==> (stage == TransferStage::Over <==> step is Commit
            || step is Abandon),
        t.answer(f) matches Ok((_, TransferStepView::Commit { then, .. })) ==> then
            == Counted::TransferEnded,
        t.answer(f) matches Ok((_, TransferStepView::Abandon { then })) ==> then
            == Counted::TransferEnded,
        stats.counted(Counted::TransferStarted).counted(Counted::TransferEnded) == stats,
{
}

/// A refusal is counted, and as nothing else: no transfer has started.
pub proof fn law_refusals_are_counted(stats: ServerStats)
    ensures
        stats.counted(Counted::Denied) == (ServerStats {
            authz_denials: stats.authz_denials.wrapping_add(1),
            ..stats
        }),
        stats.counted(Counted::Denied).transfers_active == stats.transfers_active,
{
}

/// No byte is moved before TRANSFER_BEGIN.
pub proof fn law_moves_after_begin(t: ServerTransfer, f: Option<(u8, Seq<u8>)>)
    ensures
        t.answer(f) matches Ok((stage, step)) ==> (stage == TransferStage::Moving ==> f is Some
            && (f->0).0 == message::TRANSFER_BEGIN && step is Move),
{
}

/// A file that was staged as a whole is committed only on COMMIT, and only
/// after its digest was found to be the declared one: `on_digest` alone leads
/// to the stage in which COMMIT is taken.
pub proof fn law_commit_after_digest(t: ServerTransfer, f: Option<(u8, Seq<u8>)>)
    ensures
        t.answer(f) matches Ok((stage, step)) ==> {
            &&& stage != TransferStage::StagedCommit
            &&& step is Commit ==> f is Some && (f->0).0 == message::COMMIT && (t.stage
                == TransferStage::StagedCommit || t.stage == TransferStage::PresentCommit)
            &&& stage == TransferStage::PresentCommit ==> t.stage == TransferStage::PresentVerify
                && f is Some && (f->0).0 == message::VERIFY
        },
{
}

} // verus!
