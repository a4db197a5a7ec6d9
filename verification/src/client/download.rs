//! Downloading a file.

use vstd::prelude::*;

use crate::client::upload;
use crate::client::upload::{begin_message, new_key};
use crate::client::{contents, expect, expected, ClientError, ClientFault};
use crate::foreign;
use crate::protocol::frame::Frame;
use crate::protocol::message;
use crate::protocol::message::{
    ChunkQuery, ChunkQueryView, ChunkResponseView, InventoryHint, InventoryHintView, Message,
    MessageView, TransferCreate, TransferCreated, TransferCreatedView, TransferOp, TransferPlan,
    TransferPlanView,
};
use crate::text;
use crate::transfer;
use crate::transfer::DeltaAnswer;
use crate::util;
use crate::util::TransferId;

pub use crate::transfer::Bloom;

verus! {

/// Where a download stands.
#[derive(Debug, Clone, Copy, PartialEq, Eq, Structural)]
pub enum DownloadStage {
    /// TRANSFER_CREATED comes next.
    Created,
    /// TRANSFER_PLAN comes next.
    Plan,
    /// It is looked for what is here already.
    Look,
    /// CHUNK_QUERY comes next.
    Query,
    /// The chunks of CHUNK_QUERY are looked for.
    Locate { query_seq: u64 },
    /// The new TRANSFER_PLAN comes next.
    Update,
    /// The bytes are moved.
    Moving,
}

/// What a download does about a frame.
#[derive(Debug)]
pub enum DownloadStep {
    /// Wait for the next frame.
    Wait,
    /// Send the message, and wait for the next frame.
    Send(Message),
    /// Look for what is here already.
    Look(TransferPlan),
    /// Look for the chunks that are asked about.
    Locate(ChunkQuery),
    /// Send the message, then move so many bytes. The flag tells whether
    /// chunks were staged before.
    Move(Message, u64, bool),
}

/// What a download does about a frame, by its contents.
pub enum DownloadStepView {
    Wait,
    Send(MessageView),
    Look(TransferPlanView),
    Locate(ChunkQueryView),
    Move(MessageView, u64, bool),
}

impl View for DownloadStep {
    type V = DownloadStepView;

    open spec fn view(&self) -> DownloadStepView {
        match *self {
            DownloadStep::Wait => DownloadStepView::Wait,
            DownloadStep::Send(m) => DownloadStepView::Send(m@),
            DownloadStep::Look(p) => DownloadStepView::Look(p@),
            DownloadStep::Locate(q) => DownloadStepView::Locate(q@),
            DownloadStep::Move(m, n, s) => DownloadStepView::Move(m@, n, s),
        }
    }
}

/// A download in progress, on the side of the client.
#[derive(Debug)]
pub struct Download {
    /// The id, once the server has given it.
    pub transfer_id: Option<TransferId>,
    /// The bytes to be moved, by the latest plan.
    pub bytes_to_transfer: u64,
    /// Where it stands.
    pub stage: DownloadStage,
}

/// A download, by its contents.
#[verifier::ext_equal]
pub struct DownloadView {
    pub transfer_id: Option<Seq<u8>>,
    pub bytes_to_transfer: u64,
    pub stage: DownloadStage,
}

impl View for Download {
    type V = DownloadView;

    open spec fn view(&self) -> DownloadView {
        DownloadView {
            transfer_id: upload::id_view(self.transfer_id),
            bytes_to_transfer: self.bytes_to_transfer,
            stage: self.stage,
        }
    }
}

impl DownloadView {
    /// There is an id once the server has given it.
    pub open spec fn well_formed(self) -> bool {
        self.transfer_id is None ==> self.stage == DownloadStage::Created
    }

    /// The download waits for a frame.
    pub open spec fn waits(self) -> bool {
        match self.stage {
            DownloadStage::Created
            | DownloadStage::Plan
            | DownloadStage::Query
            | DownloadStage::Update => true,
            _ => false,
        }
    }

    /// The download at another stage.
    pub open spec fn at(self, stage: DownloadStage) -> DownloadView {
        DownloadView { stage, ..self }
    }

    /// The step that moves the bytes.
    pub open spec fn moves(self, staged: bool) -> DownloadStepView {
        DownloadStepView::Move(
            upload::begin(self.transfer_id->0),
            self.bytes_to_transfer,
            staged,
        )
    }

    /// What is done about a frame, and where the download stands then.
    pub open spec fn answer(self, f: (u8, Seq<u8>)) -> Result<
        (DownloadView, DownloadStepView),
        ClientFault,
    > {
        match self.stage {
            DownloadStage::Created => match expected(
                f,
                message::TRANSFER_CREATED,
                "TRANSFER_CREATED",
                true,
            ) {
                Err(e) => Err(e),
                Ok(p) => match TransferCreatedView::parse(p) {
                    Err(e) => Err(ClientFault::Protocol(e)),
                    Ok(c) => Ok(
                        (
                            DownloadView {
                                transfer_id: Some(c.transfer_id),
                                stage: DownloadStage::Plan,
                                ..self
                            },
                            DownloadStepView::Wait,
                        ),
                    ),
                },
            },
            DownloadStage::Plan => match expected(
                f,
                message::TRANSFER_PLAN,
                "TRANSFER_PLAN",
                false,
            ) {
                Err(e) => Err(e),
                Ok(p) => match TransferPlanView::parse(p) {
                    Err(e) => Err(ClientFault::Protocol(e)),
                    Ok(plan) => Ok(
                        (
                            DownloadView {
                                bytes_to_transfer: plan.bytes_to_transfer,
                                stage: DownloadStage::Look,
                                ..self
                            },
                            DownloadStepView::Look(plan),
                        ),
                    ),
                },
            },
            DownloadStage::Query => if f.0 == message::CHUNK_QUERY {
                match ChunkQueryView::parse(f.1) {
                    Err(e) => Err(ClientFault::Protocol(e)),
                    Ok(q) => Ok(
                        (
                            self.at(DownloadStage::Locate { query_seq: q.query_seq }),
                            DownloadStepView::Locate(q),
                        ),
                    ),
                }
            } else {
                Ok((self.at(DownloadStage::Moving), self.moves(false)))
            },
            DownloadStage::Update => match expected(
                f,
                message::TRANSFER_PLAN,
                "TRANSFER_PLAN",
                false,
            ) {
                Err(e) => Err(e),
                Ok(p) => match TransferPlanView::parse(p) {
                    Err(e) => Err(ClientFault::Protocol(e)),
                    Ok(plan) => {
                        let next = DownloadView {
                            bytes_to_transfer: plan.bytes_to_transfer,
                            stage: DownloadStage::Moving,
                            ..self
                        };
                        Ok((next, next.moves(true)))
                    },
                },
            },
            _ => Err(ClientFault::Expected { what: "no frame", got: f.0 }),
        }
    }
}

impl Download {
    /// Start a download; the message is sent.
    pub fn start(remote_path: &str) -> (r: (Self, Message))
        ensures
            r.0@ == (DownloadView {
                transfer_id: None,
                bytes_to_transfer: 0,
                stage: DownloadStage::Created,
            }),
            r.0@.well_formed(),
            exists|key: Seq<char>| #[trigger]
                upload::is_key(key) && r.1@ == MessageView::TransferCreate(
                    upload::request(
                        TransferOp::Download,
                        ""@,
                        remote_path@,
                        key,
                        0,
                        util::zero_hash(),
                    ),
                ),
    {
        let key: String = new_key();
        let ghost k = key@;
        let create = TransferCreate {
            op: TransferOp::Download,
            src_path: "".to_owned(),
            dst_path: text::trim_start(remote_path),
            idempotency_key: key,
            file_size: 0,
            file_hash: util::Hash::zero(),
        };
        assert(upload::is_key(k) && create@ == upload::request(
            TransferOp::Download,
            ""@,
            remote_path@,
            k,
            0,
            util::zero_hash(),
        ));
        (
            Download { transfer_id: None, bytes_to_transfer: 0, stage: DownloadStage::Created },
            Message::TransferCreate(create),
        )
    }

    /// Take the frame that comes next.
    #[verifier::spinoff_prover]
    pub fn on_frame(&mut self, frame: Frame<'_>) -> (r: Result<DownloadStep, ClientError>)
        requires
            old(self)@.well_formed(),
            old(self)@.waits(),
        ensures
            final(self)@.well_formed(),
            match old(self)@.answer(contents(frame)) {
                Ok((next, step)) => final(self)@ == next && (r matches Ok(x) && x@ == step),
                Err(f) => final(self)@ == old(self)@ && (r matches Err(e) && e@ == f),
            },
    {
        match self.stage {
            DownloadStage::Created => {
                let payload = match expect(
                    frame,
                    message::TRANSFER_CREATED,
                    "TRANSFER_CREATED",
                    true,
                ) {
                    Ok(p) => p,
                    Err(e) => {
                        return Err(e);
                    },
                };
                match TransferCreated::decode(payload) {
                    Ok(c) => {
                        self.transfer_id = Some(c.transfer_id);
                        self.stage = DownloadStage::Plan;
                        Ok(DownloadStep::Wait)
                    },
                    Err(e) => Err(ClientError::Protocol(e)),
                }
            },
            DownloadStage::Plan => {
                let payload = match expect(frame, message::TRANSFER_PLAN, "TRANSFER_PLAN", false) {
                    Ok(p) => p,
                    Err(e) => {
                        return Err(e);
                    },
                };
                match TransferPlan::decode(payload) {
                    Ok(plan) => {
                        self.bytes_to_transfer = plan.bytes_to_transfer;
                        self.stage = DownloadStage::Look;
                        Ok(DownloadStep::Look(plan))
                    },
                    Err(e) => Err(ClientError::Protocol(e)),
                }
            },
            DownloadStage::Query => {
                if frame.type_byte == message::CHUNK_QUERY {
                    return match ChunkQuery::decode(frame.payload) {
                        Ok(q) => {
                            self.stage = DownloadStage::Locate { query_seq: q.query_seq };
                            Ok(DownloadStep::Locate(q))
                        },
                        Err(e) => Err(ClientError::Protocol(e)),
                    };
                }
                let id = self.transfer_id.unwrap();
                self.stage = DownloadStage::Moving;
                Ok(DownloadStep::Move(begin_message(id), self.bytes_to_transfer, false))
            },
            DownloadStage::Update => {
                let payload = match expect(frame, message::TRANSFER_PLAN, "TRANSFER_PLAN", false) {
                    Ok(p) => p,
                    Err(e) => {
                        return Err(e);
                    },
                };
                match TransferPlan::decode(payload) {
                    Ok(plan) => {
                        let id = self.transfer_id.unwrap();
                        self.bytes_to_transfer = plan.bytes_to_transfer;
                        self.stage = DownloadStage::Moving;
                        Ok(DownloadStep::Move(begin_message(id), plan.bytes_to_transfer, true))
                    },
                    Err(e) => Err(ClientError::Protocol(e)),
                }
            },
            _ => Err(ClientError::Expected { what: "no frame", got: frame.type_byte }),
        }
    }

    /// It was looked for what is here already. With a filter of the chunks
    /// that are, the server is told; without one, the bytes are moved.
    pub fn on_looked(&mut self, bloom: Option<Bloom>) -> (r: DownloadStep)
        requires
            old(self)@.well_formed(),
            old(self)@.stage == DownloadStage::Look,
        ensures
            match bloom {
                Some(b) => {
                    &&& final(self)@ == old(self)@.at(DownloadStage::Query)
                    &&& r@ == DownloadStepView::Send(
                        MessageView::InventoryHint(
                            InventoryHintView {
                                transfer_id: old(self)@.transfer_id->0,
                                filter_bits: b.filter_bits,
                                num_hashes: b.num_hashes,
                                bitset: foreign::bytes_content(b.bitset),
                            },
                        ),
                    )
                },
                None => {
                    &&& final(self)@ == old(self)@.at(DownloadStage::Moving)
                    &&& r@ == old(self)@.moves(false)
                },
            },
    {
        let id = self.transfer_id.unwrap();
        match bloom {
            Some(b) => {
                self.stage = DownloadStage::Query;
                let hint = InventoryHint {
                    transfer_id: id,
                    filter_bits: b.filter_bits,
                    num_hashes: b.num_hashes,
                    bitset: b.bitset,
                };
                DownloadStep::Send(Message::InventoryHint(hint))
            },
            None => {
                self.stage = DownloadStage::Moving;
                DownloadStep::Move(begin_message(id), self.bytes_to_transfer, false)
            },
        }
    }

    /// The chunks that are asked about were looked for. `rle` is the packed
    /// form of `answer.have`. The message is sent, and what was found is
    /// staged.
    pub fn on_located(&mut self, answer: &DeltaAnswer, rle: bytes::Bytes) -> (r: Message)
        requires
            old(self)@.well_formed(),
            old(self)@.stage is Locate,
            answer.have@.len() <= u32::MAX,
        ensures
            final(self)@ == old(self)@.at(DownloadStage::Update),
            r@ == MessageView::ChunkResponse(
                ChunkResponseView {
                    transfer_id: old(self)@.transfer_id->0,
                    query_seq: old(self)@.stage->query_seq,
                    total_chunks: answer.have@.len() as u32,
                    have_count: transfer::count_true(answer.have@) as u32,
                    rle_bitmap: foreign::bytes_content(rle),
                },
            ),
    {
        let id = self.transfer_id.unwrap();
        let query_seq: u64 = match self.stage {
            DownloadStage::Locate { query_seq } => query_seq,
            _ => 0,
        };
        self.stage = DownloadStage::Update;
        transfer::chunk_response(id, query_seq, &answer.have, rle)
    }
}

/// The bytes are moved only after the plan, and staged chunks are relied on
/// only after the server has planned with them.
pub proof fn law_download_in_order(d: DownloadView, f: (u8, Seq<u8>))
    requires
        d.well_formed(),
    ensures
        d.answer(f) matches Ok((next, step)) ==> {
            &&& next.well_formed()
            &&& step matches DownloadStepView::Move(_, n, staged) ==> {
                &&& n == next.bytes_to_transfer
                &&& d.stage == DownloadStage::Query || d.stage == DownloadStage::Update
                &&& staged ==> d.stage == DownloadStage::Update && f.0 == message::TRANSFER_PLAN
            }
        },
{
}

/// The name under which a download is staged: that of the file with a suffix.
pub fn partial_name(local: &str) -> (r: String)
    ensures
        r@ == local@ + ".velcrux-partial"@,
{
    let mut out: String = local.to_owned();
    text::push_str(&mut out, ".velcrux-partial");
    out
}

} // verus!
