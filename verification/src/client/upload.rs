//! Uploading a file.

use vstd::prelude::*;

use crate::client::{contents, expect, expected, ClientError, ClientFault};
use crate::protocol::frame::Frame;
use crate::protocol::message;
use crate::protocol::message::{
    ChunkQuery, ChunkResponse, ChunkResponseView, Commit, CommitView, InventoryHint,
    InventoryHintView, Message, MessageView, TransferBegin, TransferBeginView, TransferCreate,
    TransferCreateView, TransferCreated, TransferCreatedView, TransferOp, TransferPlan,
    TransferPlanView, Verify, VerifyResult, VerifyResultView, VerifyView,
};
use crate::session::transfer as server_side;
use crate::state::ChunkBitmap;
use crate::text;
use crate::transfer;
use crate::util;
use crate::util::TransferId;

verus! {

/// A text that can be an idempotency key: the text form of an id.
pub open spec fn is_key(s: Seq<char>) -> bool {
    exists|id: Seq<u8>| id.len() == 16 && s == #[trigger] util::transfer_id_text(id)
}

/// A fresh idempotency key.
pub fn new_key() -> (r: String)
    ensures
        is_key(r@),
{
    let id = TransferId::generate();
    let s = id.to_string();
    assert(s@ == util::transfer_id_text(id@));
    s
}

/// The request for something on a path of the server. Slashes in front of the
/// path do not matter.
pub open spec fn request(
    op: TransferOp,
    src_path: Seq<char>,
    remote_path: Seq<char>,
    key: Seq<char>,
    file_size: u64,
    file_hash: Seq<u8>,
) -> TransferCreateView {
    TransferCreateView {
        op,
        src_path,
        dst_path: text::without_leading(remote_path),
        idempotency_key: key,
        file_size,
        file_hash,
    }
}

/// Where an upload stands.
#[derive(Debug, Clone, Copy, PartialEq, Eq, Structural)]
pub enum UploadStage {
    /// TRANSFER_CREATED comes next.
    Created,
    /// TRANSFER_PLAN comes next, or INVENTORY_HINT.
    Offer,
    /// The chunks of the file are digested.
    Digests,
    /// CHUNK_RESPONSE comes next.
    Response,
    /// CHUNK_RESPONSE is unpacked.
    Unpack,
    /// TRANSFER_PLAN comes next.
    Plan,
    /// VERIFY_RESULT comes next: the server has all of the file.
    Verify,
    /// COMMITTED comes next.
    Commit,
    /// The bytes are moved.
    Moving,
    /// It is over.
    Over,
}

/// What an upload does about a frame.
#[derive(Debug)]
pub enum UploadStep {
    /// Send these messages, and wait for the next frame.
    Send(Vec<Message>),
    /// Digest the chunks of the file.
    Digests(InventoryHint),
    /// Unpack the answer.
    Unpack(ChunkResponse),
    /// Send the message, then move so many bytes.
    Move(Message, u64),
    /// The server has the file.
    Done,
}

/// What an upload does about a frame, by its contents.
pub enum UploadStepView {
    Send(Seq<MessageView>),
    Digests(InventoryHintView),
    Unpack(ChunkResponseView),
    Move(MessageView, u64),
    Done,
}

impl View for UploadStep {
    type V = UploadStepView;

    open spec fn view(&self) -> UploadStepView {
        match *self {
            UploadStep::Send(m) => UploadStepView::Send(server_side::message_views(m@)),
            UploadStep::Digests(h) => UploadStepView::Digests(h@),
            UploadStep::Unpack(r) => UploadStepView::Unpack(r@),
            UploadStep::Move(m, n) => UploadStepView::Move(m@, n),
            UploadStep::Done => UploadStepView::Done,
        }
    }
}

/// An upload in progress, on the side of the client.
#[derive(Debug)]
pub struct Upload {
    /// The idempotency key.
    pub idempotency_key: String,
    /// Size of the file.
    pub file_size: u64,
    /// Digest of the file.
    pub file_hash: util::Hash,
    /// The id, once the server has given it.
    pub transfer_id: Option<TransferId>,
    /// Where it stands.
    pub stage: UploadStage,
}

/// An upload, by its contents.
#[verifier::ext_equal]
pub struct UploadView {
    pub idempotency_key: Seq<char>,
    pub file_size: u64,
    pub file_hash: Seq<u8>,
    pub transfer_id: Option<Seq<u8>>,
    pub stage: UploadStage,
}

/// An id by its contents.
pub open spec fn id_view(t: Option<TransferId>) -> Option<Seq<u8>> {
    match t {
        Some(x) => Some(x@),
        None => None,
    }
}

impl View for Upload {
    type V = UploadView;

    open spec fn view(&self) -> UploadView {
        UploadView {
            idempotency_key: self.idempotency_key@,
            file_size: self.file_size,
            file_hash: self.file_hash@,
            transfer_id: id_view(self.transfer_id),
            stage: self.stage,
        }
    }
}

/// TRANSFER_BEGIN.
pub open spec fn begin(id: Seq<u8>) -> MessageView {
    MessageView::TransferBegin(TransferBeginView { transfer_id: id })
}

/// TRANSFER_BEGIN.
pub fn begin_message(transfer_id: TransferId) -> (r: Message)
    ensures
        r@ == begin(transfer_id@),
{
    Message::TransferBegin(TransferBegin { transfer_id })
}

impl UploadView {
    /// There is an id once the server has given it.
    pub open spec fn well_formed(self) -> bool {
        self.transfer_id is None ==> self.stage == UploadStage::Created
    }

    /// The upload waits for a frame.
    pub open spec fn waits(self) -> bool {
        match self.stage {
            UploadStage::Created
            | UploadStage::Offer
            | UploadStage::Response
            | UploadStage::Plan
            | UploadStage::Verify
            | UploadStage::Commit => true,
            _ => false,
        }
    }

    /// The upload at another stage.
    pub open spec fn at(self, stage: UploadStage) -> UploadView {
        UploadView { stage, ..self }
    }

    /// What is done about the plan: if nothing is to be sent, the file is
    /// verified and committed at once.
    pub open spec fn planned(self, payload: Seq<u8>) -> Result<
        (UploadView, UploadStepView),
        ClientFault,
    > {
        match TransferPlanView::parse(payload) {
            Err(e) => Err(ClientFault::Protocol(e)),
            Ok(p) => if p.bytes_to_transfer == 0 {
                Ok(
                    (
                        self.at(UploadStage::Verify),
                        UploadStepView::Send(
                            seq![
                                begin(self.transfer_id->0),
                                MessageView::Verify(
                                    VerifyView {
                                        transfer_id: self.transfer_id->0,
                                        expected_hash: self.file_hash,
                                    },
                                ),
                            ],
                        ),
                    ),
                )
            } else {
                Ok(
                    (
                        self.at(UploadStage::Moving),
                        UploadStepView::Move(begin(self.transfer_id->0), p.bytes_to_transfer),
                    ),
                )
            },
        }
    }

    /// What is done about a frame, and where the upload stands then.
    pub open spec fn answer(self, f: (u8, Seq<u8>)) -> Result<
        (UploadView, UploadStepView),
        ClientFault,
    > {
        match self.stage {
            UploadStage::Created => match expected(
                f,
                message::TRANSFER_CREATED,
                "TRANSFER_CREATED",
                true,
            ) {
                Err(e) => Err(e),
                Ok(p) => match TransferCreatedView::parse(p) {
                    Err(e) => Err(ClientFault::Protocol(e)),
                    Ok(c) => Ok(
                        (
                            UploadView {
                                transfer_id: Some(c.transfer_id),
                                stage: UploadStage::Offer,
                                ..self
                            },
                            UploadStepView::Send(seq![]),
                        ),
                    ),
                },
            },
            UploadStage::Offer => if f.0 == message::INVENTORY_HINT {
                match InventoryHintView::parse(f.1) {
                    Err(e) => Err(ClientFault::Protocol(e)),
                    Ok(h) => Ok((self.at(UploadStage::Digests), UploadStepView::Digests(h))),
                }
            } else {
                match expected(
                    f,
                    message::TRANSFER_PLAN,
                    "TRANSFER_PLAN or INVENTORY_HINT",
                    false,
                ) {
                    Err(e) => Err(e),
                    Ok(p) => self.planned(p),
                }
            },
            UploadStage::Response => match expected(
                f,
                message::CHUNK_RESPONSE,
                "CHUNK_RESPONSE",
                false,
            ) {
                Err(e) => Err(e),
                Ok(p) => match ChunkResponseView::parse(p) {
                    Err(e) => Err(ClientFault::Protocol(e)),
                    Ok(r) => Ok((self.at(UploadStage::Unpack), UploadStepView::Unpack(r))),
                },
            },
            UploadStage::Plan => match expected(
                f,
                message::TRANSFER_PLAN,
                "TRANSFER_PLAN",
                false,
            ) {
                Err(e) => Err(e),
                Ok(p) => self.planned(p),
            },
            UploadStage::Verify => match expected(
                f,
                message::VERIFY_RESULT,
                "VERIFY_RESULT",
                false,
            ) {
                Err(e) => Err(e),
                Ok(p) => match VerifyResultView::parse(p) {
                    Err(e) => Err(ClientFault::Protocol(e)),
                    Ok(v) => if !v.ok {
                        Err(ClientFault::VerifyMismatch)
                    } else {
                        Ok(
                            (
                                self.at(UploadStage::Commit),
                                UploadStepView::Send(
                                    seq![
                                        MessageView::Commit(
                                            CommitView { transfer_id: self.transfer_id->0 },
                                        ),
                                    ],
                                ),
                            ),
                        )
                    },
                },
            },
            UploadStage::Commit => match expected(f, message::COMMITTED, "COMMITTED", false) {
                Err(e) => Err(e),
                Ok(_) => Ok((self.at(UploadStage::Over), UploadStepView::Done)),
            },
            _ => Err(ClientFault::Expected { what: "no frame", got: f.0 }),
        }
    }
}

impl Upload {
    /// Start an upload; the message is sent. `local` is the path of the file
    /// as it is shown.
    pub fn start(local: &str, remote_path: &str, file_size: u64, file_hash: util::Hash) -> (r: (
        Self,
        Message,
    ))
        ensures
            r.0@.stage == UploadStage::Created,
            r.0@.transfer_id is None,
            r.0@.well_formed(),
            r.0@.file_size == file_size,
            r.0@.file_hash == file_hash@,
            is_key(r.0@.idempotency_key),
            r.1@ == MessageView::TransferCreate(
                request(
                    TransferOp::Upload,
                    local@,
                    remote_path@,
                    r.0@.idempotency_key,
                    file_size,
                    file_hash@,
                ),
            ),
    {
        let key: String = new_key();
        let create = TransferCreate {
            op: TransferOp::Upload,
            src_path: local.to_owned(),
            dst_path: text::trim_start(remote_path),
            idempotency_key: key.clone(),
            file_size,
            file_hash,
        };
        (
            Upload {
                idempotency_key: key,
                file_size,
                file_hash,
                transfer_id: None,
                stage: UploadStage::Created,
            },
            Message::TransferCreate(create),
        )
    }

    /// Take the plan.
    fn on_plan(&mut self, payload: &[u8], id: TransferId) -> (r: Result<UploadStep, ClientError>)
        requires
            id_view(old(self).transfer_id) == Some(id@),
        ensures
            match old(self)@.planned(payload@) {
                Ok((next, step)) => final(self)@ == next && (r matches Ok(x) && x@ == step),
                Err(f) => final(self)@ == old(self)@ && (r matches Err(e) && e@ == f),
            },
    {
        let plan = match TransferPlan::decode(payload) {
            Ok(p) => p,
            Err(e) => {
                return Err(ClientError::Protocol(e));
            },
        };
        if plan.bytes_to_transfer == 0 {
            let mut out: Vec<Message> = Vec::new();
            out.push(begin_message(id));
            out.push(
                Message::Verify(Verify { transfer_id: id, expected_hash: self.file_hash }),
            );
            assert(server_side::message_views(out@) =~= seq![
                begin(id@),
                MessageView::Verify(
                    VerifyView { transfer_id: id@, expected_hash: self.file_hash@ },
                ),
            ]);
            self.stage = UploadStage::Verify;
            Ok(UploadStep::Send(out))
        } else {
            self.stage = UploadStage::Moving;
            Ok(UploadStep::Move(begin_message(id), plan.bytes_to_transfer))
        }
    }

    /// Take the frame that comes next.
    #[verifier::spinoff_prover]
    #[verifier::rlimit(40)]
    pub fn on_frame(&mut self, frame: Frame<'_>) -> (r: Result<UploadStep, ClientError>)
        requires
            old(self)@.well_formed(),
            old(self)@.waits(),
        ensures
            final(self)@.well_formed(),
            match old(self)@.answer(contents(frame)) {
                Ok((next, step)) => final(self)@ == next && (r matches Ok(x) && x@ == step),
                Err(f) => final(self)@ == old(self)@ && (r matches Err(e) && e@ == f),
            },
    {
        if self.stage == UploadStage::Created {
            let payload = match expect(frame, message::TRANSFER_CREATED, "TRANSFER_CREATED", true) {
                Ok(p) => p,
                Err(e) => {
                    return Err(e);
                },
            };
            return match TransferCreated::decode(payload) {
                Ok(c) => {
                    self.transfer_id = Some(c.transfer_id);
                    self.stage = UploadStage::Offer;
                    let out: Vec<Message> = Vec::new();
                    assert(server_side::message_views(out@) =~= seq![]);
                    Ok(UploadStep::Send(out))
                },
                Err(e) => Err(ClientError::Protocol(e)),
            };
        }
        let id = self.transfer_id.unwrap();
        match self.stage {
            UploadStage::Offer => {
                if frame.type_byte == message::INVENTORY_HINT {
                    return match InventoryHint::decode(frame.payload) {
                        Ok(h) => {
                            self.stage = UploadStage::Digests;
                            Ok(UploadStep::Digests(h))
                        },
                        Err(e) => Err(ClientError::Protocol(e)),
                    };
                }
                match expect(
                    frame,
                    message::TRANSFER_PLAN,
                    "TRANSFER_PLAN or INVENTORY_HINT",
                    false,
                ) {
                    Ok(p) => self.on_plan(p, id),
                    Err(e) => Err(e),
                }
            },
            UploadStage::Response => {
                let payload = match expect(
                    frame,
                    message::CHUNK_RESPONSE,
                    "CHUNK_RESPONSE",
                    false,
                ) {
                    Ok(p) => p,
                    Err(e) => {
                        return Err(e);
                    },
                };
                match ChunkResponse::decode(payload) {
                    Ok(x) => {
                        self.stage = UploadStage::Unpack;
                        Ok(UploadStep::Unpack(x))
                    },
                    Err(e) => Err(ClientError::Protocol(e)),
                }
            },
            UploadStage::Plan => match expect(
                frame,
                message::TRANSFER_PLAN,
                "TRANSFER_PLAN",
                false,
            ) {
                Ok(p) => self.on_plan(p, id),
                Err(e) => Err(e),
            },
            UploadStage::Verify => {
                let payload = match expect(frame, message::VERIFY_RESULT, "VERIFY_RESULT", false) {
                    Ok(p) => p,
                    Err(e) => {
                        return Err(e);
                    },
                };
                match VerifyResult::decode(payload) {
                    Ok(v) => {
                        if !v.ok {
                            return Err(ClientError::VerifyMismatch);
                        }
                        let mut out: Vec<Message> = Vec::new();
                        out.push(Message::Commit(Commit { transfer_id: id }));
                        assert(server_side::message_views(out@) =~= seq![
                            MessageView::Commit(CommitView { transfer_id: id@ }),
                        ]);
                        self.stage = UploadStage::Commit;
                        Ok(UploadStep::Send(out))
                    },
                    Err(e) => Err(ClientError::Protocol(e)),
                }
            },
            UploadStage::Commit => match expect(frame, message::COMMITTED, "COMMITTED", false) {
                Ok(_) => {
                    self.stage = UploadStage::Over;
                    Ok(UploadStep::Done)
                },
                Err(e) => Err(e),
            },
            _ => Err(ClientError::Expected { what: "no frame", got: frame.type_byte }),
        }
    }

    /// The chunks of the file are digested. The message is sent.
    pub fn on_digests(&mut self, chunk_hashes: Vec<util::Hash>) -> (r: Message)
        requires
            old(self)@.well_formed(),
            old(self)@.stage == UploadStage::Digests,
        ensures
            final(self)@ == old(self)@.at(UploadStage::Response),
            r matches Message::ChunkQuery(q) && Some(q.transfer_id@) == old(self)@.transfer_id
                && q.query_seq == 1 && q.chunk_hashes == chunk_hashes,
    {
        let transfer_id = self.transfer_id.unwrap();
        self.stage = UploadStage::Response;
        Message::ChunkQuery(ChunkQuery { transfer_id, query_seq: 1, chunk_hashes })
    }

    /// The answer of the server is unpacked: for each chunk, whether the
    /// server has it. Those chunks are not sent.
    pub fn on_unpacked(&mut self, have: &Vec<bool>) -> (r: ChunkBitmap)
        requires
            old(self)@.stage == UploadStage::Unpack,
        ensures
            final(self)@ == old(self)@.at(UploadStage::Plan),
            r@.set == transfer::had_chunks(old(self)@.file_size, have@),
            r@.bytes_completed == transfer::had_bytes(
                old(self)@.file_size,
                have@,
                transfer::chunk_count(old(self)@.file_size),
            ),
    {
        self.stage = UploadStage::Plan;
        transfer::skip_bitmap(self.file_size, have)
    }
}

/// Nothing is sent before the plan, and COMMIT only after the server has
/// verified the file.
pub proof fn law_upload_in_order(u: UploadView, f: (u8, Seq<u8>))
    requires
        u.well_formed(),
    ensures
        u.answer(f) matches Ok((next, step)) ==> {
            &&& next.well_formed()
            &&& step is Move ==> f.0 == message::TRANSFER_PLAN
            &&& next.stage == UploadStage::Commit ==> u.stage == UploadStage::Verify && f.0
                == message::VERIFY_RESULT && (VerifyResultView::parse(f.1) matches Ok(v) && v.ok)
            &&& step is Done ==> u.stage == UploadStage::Commit && f.0 == message::COMMITTED
        },
{
}

} // verus!
