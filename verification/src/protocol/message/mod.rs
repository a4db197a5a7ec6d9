//! Message catalog and payload codecs.

pub mod delta;
pub mod manifest;
pub mod progress;
pub mod session;
pub mod transfer;

use vstd::prelude::*;

use bytes::Bytes;

use crate::error::{Fault, ProtocolError};
use crate::foreign;

pub use self::delta::{
    ChunkQuery, ChunkQueryView, ChunkResponse, ChunkResponseView, InventoryHint, InventoryHintView,
};
pub use self::manifest::{
    ManifestBatch, ManifestBatchView, ManifestBegin, ManifestBeginView, ManifestEnd,
    ManifestEndView,
};
pub use self::progress::{
    Cancel, CancelView, Checkpoint, CheckpointView, ListQuery, ListQueryView, ListResult,
    ListResultView, Resume, ResumeState, ResumeStateView, ResumeView, StatQuery, StatQueryView,
    StatResult, StatResultView,
};
pub use self::session::{
    AUTH_MECHANISM_MTLS, AUTH_MECHANISM_SSH_PUBKEY, Auth, AuthOk, AuthOkView, AuthView, Bye,
    ErrorMsg, ErrorMsgView, Hello, HelloAck, HelloAckView, HelloView, Limits, Ping, Pong,
    SessionInit, SessionOptions,
};
pub use self::transfer::{
    Commit, CommitView, Committed, CommittedView, TransferBegin, TransferBeginView, TransferCreate,
    TransferCreateView, TransferCreated, TransferCreatedView, TransferOp, TransferPlan,
    TransferPlanView, Verify, VerifyResult, VerifyResultView, VerifyView,
};
pub use crate::protocol::limits::AGENT_STRING as AGENT;

verus! {

/// `HELLO` (client to server).
pub const HELLO: u8 = 0x01;

/// `HELLO_ACK` (server to client).
pub const HELLO_ACK: u8 = 0x02;

/// `AUTH` (client to server).
pub const AUTH: u8 = 0x03;

/// `AUTH_OK` (server to client).
pub const AUTH_OK: u8 = 0x04;

/// `SESSION_INIT` (client to server).
pub const SESSION_INIT: u8 = 0x05;

/// `PING` and `PONG`; direction and nonce tell them apart.
pub const PING: u8 = 0x06;

/// `PONG` shares the type of `PING`.
pub const PONG: u8 = 0x06;

/// `BYE`.
pub const BYE: u8 = 0x07;

/// `TRANSFER_CREATE`.
pub const TRANSFER_CREATE: u8 = 0x10;

/// `TRANSFER_CREATED`.
pub const TRANSFER_CREATED: u8 = 0x11;

/// `TRANSFER_PLAN`.
pub const TRANSFER_PLAN: u8 = 0x12;

/// `TRANSFER_BEGIN`.
pub const TRANSFER_BEGIN: u8 = 0x13;

/// `CHECKPOINT`.
pub const CHECKPOINT: u8 = 0x14;

/// `VERIFY`.
pub const VERIFY: u8 = 0x15;

/// `VERIFY_RESULT`.
pub const VERIFY_RESULT: u8 = 0x16;

/// `COMMIT`.
pub const COMMIT: u8 = 0x17;

/// `COMMITTED`.
pub const COMMITTED: u8 = 0x18;

/// `RESUME`.
pub const RESUME: u8 = 0x19;

/// `RESUME_STATE`.
pub const RESUME_STATE: u8 = 0x1A;

/// `CANCEL`.
pub const CANCEL: u8 = 0x1B;

/// `STAT`.
pub const STAT: u8 = 0x1C;

/// `STAT_RESULT`.
pub const STAT_RESULT: u8 = 0x1D;

/// `LIST`.
pub const LIST: u8 = 0x1E;

/// `LIST_RESULT`.
pub const LIST_RESULT: u8 = 0x1F;

/// `MANIFEST_BEGIN`.
pub const MANIFEST_BEGIN: u8 = 0x30;

/// `MANIFEST_BATCH`.
pub const MANIFEST_BATCH: u8 = 0x31;

/// `MANIFEST_END`.
pub const MANIFEST_END: u8 = 0x32;

/// `INVENTORY_HINT`.
pub const INVENTORY_HINT: u8 = 0x33;

/// `CHUNK_QUERY`.
pub const CHUNK_QUERY: u8 = 0x34;

/// `CHUNK_RESPONSE`.
pub const CHUNK_RESPONSE: u8 = 0x35;

/// `ERROR`.
pub const ERROR: u8 = 0x7F;

/// A decoded, typed message body.
#[derive(Debug, Clone, PartialEq, Eq)]
pub enum Message {
    /// `HELLO`.
    Hello(Hello),
    /// `HELLO_ACK`.
    HelloAck(HelloAck),
    /// `AUTH` (client to server).
    Auth(Auth),
    /// `AUTH_OK` (server to client).
    AuthOk(AuthOk),
    /// `PING` (client to server).
    Ping(Ping),
    /// `PONG` (server to client). Identical wire form to PING.
    Pong(Ping),
    /// `SESSION_INIT`.
    SessionInit(SessionOptions),
    /// `BYE`.
    Bye(Bye),
    /// `ERROR`.
    Error(ErrorMsg),
    /// `TRANSFER_CREATE` (client to server).
    TransferCreate(TransferCreate),
    /// `TRANSFER_CREATED` (server to client).
    TransferCreated(TransferCreated),
    /// `TRANSFER_PLAN` (server to client).
    TransferPlan(TransferPlan),
    /// `TRANSFER_BEGIN` (client to server).
    TransferBegin(TransferBegin),
    /// `VERIFY` (sender to receiver).
    Verify(Verify),
    /// `VERIFY_RESULT` (receiver to sender).
    VerifyResult(VerifyResult),
    /// `COMMIT` (sender to receiver).
    Commit(Commit),
    /// `COMMITTED` (receiver to sender).
    Committed(Committed),
    /// `CHECKPOINT` (sender to receiver).
    Checkpoint(Checkpoint),
    /// `RESUME` (client to server).
    Resume(Resume),
    /// `RESUME_STATE` (server to client).
    ResumeState(ResumeState),
    /// `CANCEL` (client to server).
    Cancel(Cancel),
    /// `STAT` query (client to server).
    Stat(StatQuery),
    /// `STAT_RESULT` (server to client).
    StatResult(StatResult),
    /// `LIST` query (client to server).
    List(ListQuery),
    /// `LIST_RESULT` (server to client).
    ListResult(ListResult),
    /// `MANIFEST_BEGIN` (sender to receiver).
    ManifestBegin(ManifestBegin),
    /// `MANIFEST_BATCH` (sender to receiver).
    ManifestBatch(ManifestBatch),
    /// `MANIFEST_END` (sender to receiver).
    ManifestEnd(ManifestEnd),
    /// `INVENTORY_HINT` (receiver to sender).
    InventoryHint(InventoryHint),
    /// `CHUNK_QUERY` (sender to receiver).
    ChunkQuery(ChunkQuery),
    /// `CHUNK_RESPONSE` (receiver to sender).
    ChunkResponse(ChunkResponse),
}

/// Contents of a message.
#[verifier::ext_equal]
pub enum MessageView {
    Hello(HelloView),
    HelloAck(HelloAckView),
    Auth(AuthView),
    AuthOk(AuthOkView),
    Ping(Ping),
    Pong(Ping),
    SessionInit(SessionOptions),
    Bye(Bye),
    Error(ErrorMsgView),
    TransferCreate(TransferCreateView),
    TransferCreated(TransferCreatedView),
    TransferPlan(TransferPlanView),
    TransferBegin(TransferBeginView),
    Verify(VerifyView),
    VerifyResult(VerifyResultView),
    Commit(CommitView),
    Committed(CommittedView),
    Checkpoint(CheckpointView),
    Resume(ResumeView),
    ResumeState(ResumeStateView),
    Cancel(CancelView),
    Stat(StatQueryView),
    StatResult(StatResultView),
    List(ListQueryView),
    ListResult(ListResultView),
    ManifestBegin(ManifestBeginView),
    ManifestBatch(ManifestBatchView),
    ManifestEnd(ManifestEndView),
    InventoryHint(InventoryHintView),
    ChunkQuery(ChunkQueryView),
    ChunkResponse(ChunkResponseView),
}

impl View for Message {
    type V = MessageView;

    open spec fn view(&self) -> MessageView {
        match *self {
            Message::Hello(m) => MessageView::Hello(m@),
            Message::HelloAck(m) => MessageView::HelloAck(m@),
            Message::Auth(m) => MessageView::Auth(m@),
            Message::AuthOk(m) => MessageView::AuthOk(m@),
            Message::Ping(m) => MessageView::Ping(m@),
            Message::Pong(m) => MessageView::Pong(m@),
            Message::SessionInit(m) => MessageView::SessionInit(m@),
            Message::Bye(m) => MessageView::Bye(m@),
            Message::Error(m) => MessageView::Error(m@),
            Message::TransferCreate(m) => MessageView::TransferCreate(m@),
            Message::TransferCreated(m) => MessageView::TransferCreated(m@),
            Message::TransferPlan(m) => MessageView::TransferPlan(m@),
            Message::TransferBegin(m) => MessageView::TransferBegin(m@),
            Message::Verify(m) => MessageView::Verify(m@),
            Message::VerifyResult(m) => MessageView::VerifyResult(m@),
            Message::Commit(m) => MessageView::Commit(m@),
            Message::Committed(m) => MessageView::Committed(m@),
            Message::Checkpoint(m) => MessageView::Checkpoint(m@),
            Message::Resume(m) => MessageView::Resume(m@),
            Message::ResumeState(m) => MessageView::ResumeState(m@),
            Message::Cancel(m) => MessageView::Cancel(m@),
            Message::Stat(m) => MessageView::Stat(m@),
            Message::StatResult(m) => MessageView::StatResult(m@),
            Message::List(m) => MessageView::List(m@),
            Message::ListResult(m) => MessageView::ListResult(m@),
            Message::ManifestBegin(m) => MessageView::ManifestBegin(m@),
            Message::ManifestBatch(m) => MessageView::ManifestBatch(m@),
            Message::ManifestEnd(m) => MessageView::ManifestEnd(m@),
            Message::InventoryHint(m) => MessageView::InventoryHint(m@),
            Message::ChunkQuery(m) => MessageView::ChunkQuery(m@),
            Message::ChunkResponse(m) => MessageView::ChunkResponse(m@),
        }
    }
}

impl MessageView {
    /// The type byte of the message.
    pub open spec fn type_byte(self) -> u8 {
        match self {
            MessageView::Hello(_) => HELLO,
            MessageView::HelloAck(_) => HELLO_ACK,
            MessageView::Auth(_) => AUTH,
            MessageView::AuthOk(_) => AUTH_OK,
            MessageView::Ping(_) => PING,
            MessageView::Pong(_) => PING,
            MessageView::SessionInit(_) => SESSION_INIT,
            MessageView::Bye(_) => BYE,
            MessageView::Error(_) => ERROR,
            MessageView::TransferCreate(_) => TRANSFER_CREATE,
            MessageView::TransferCreated(_) => TRANSFER_CREATED,
            MessageView::TransferPlan(_) => TRANSFER_PLAN,
            MessageView::TransferBegin(_) => TRANSFER_BEGIN,
            MessageView::Verify(_) => VERIFY,
            MessageView::VerifyResult(_) => VERIFY_RESULT,
            MessageView::Commit(_) => COMMIT,
            MessageView::Committed(_) => COMMITTED,
            MessageView::Checkpoint(_) => CHECKPOINT,
            MessageView::Resume(_) => RESUME,
            MessageView::ResumeState(_) => RESUME_STATE,
            MessageView::Cancel(_) => CANCEL,
            MessageView::Stat(_) => STAT,
            MessageView::StatResult(_) => STAT_RESULT,
            MessageView::List(_) => LIST,
            MessageView::ListResult(_) => LIST_RESULT,
            MessageView::ManifestBegin(_) => MANIFEST_BEGIN,
            MessageView::ManifestBatch(_) => MANIFEST_BATCH,
            MessageView::ManifestEnd(_) => MANIFEST_END,
            MessageView::InventoryHint(_) => INVENTORY_HINT,
            MessageView::ChunkQuery(_) => CHUNK_QUERY,
            MessageView::ChunkResponse(_) => CHUNK_RESPONSE,
        }
    }

    /// What encoding the payload gives.
    pub open spec fn encoding(self) -> Result<Seq<u8>, ProtocolError> {
        match self {
            MessageView::Hello(v) => v.encoding(),
            MessageView::HelloAck(v) => v.encoding(),
            MessageView::Auth(v) => v.encoding(),
            MessageView::AuthOk(v) => v.encoding(),
            MessageView::Ping(v) => Ok(v.wire()),
            MessageView::Pong(v) => Ok(v.wire()),
            MessageView::SessionInit(v) => Ok(v.wire()),
            MessageView::Bye(v) => Ok(v.wire()),
            MessageView::Error(v) => Ok(v.wire()),
            MessageView::TransferCreate(v) => v.encoding(),
            MessageView::TransferCreated(v) => Ok(v.wire()),
            MessageView::TransferPlan(v) => Ok(v.wire()),
            MessageView::TransferBegin(v) => Ok(v.wire()),
            MessageView::Verify(v) => Ok(v.wire()),
            MessageView::VerifyResult(v) => Ok(v.wire()),
            MessageView::Commit(v) => Ok(v.wire()),
            MessageView::Committed(v) => Ok(v.wire()),
            MessageView::Checkpoint(v) => v.encoding(),
            MessageView::Resume(v) => v.encoding(),
            MessageView::ResumeState(v) => v.encoding(),
            MessageView::Cancel(v) => Ok(v.wire()),
            MessageView::Stat(v) => Ok(v.wire()),
            MessageView::StatResult(v) => v.encoding(),
            MessageView::List(v) => v.encoding(),
            MessageView::ListResult(v) => v.encoding(),
            MessageView::ManifestBegin(v) => Ok(v.wire()),
            MessageView::ManifestBatch(v) => Ok(v.wire()),
            MessageView::ManifestEnd(v) => Ok(v.wire()),
            MessageView::InventoryHint(v) => Ok(v.wire()),
            MessageView::ChunkQuery(v) => Ok(v.wire()),
            MessageView::ChunkResponse(v) => Ok(v.wire()),
        }
    }

    /// What decoding a payload under a type byte gives. AUTH and AUTH_OK are
    /// not decoded here: they belong to the handshake, which decodes them
    /// itself.
    pub open spec fn parse(t: u8, b: Seq<u8>) -> Result<MessageView, Fault> {
        if t == HELLO {
            match HelloView::parse(b) {
                Ok(v) => Ok(MessageView::Hello(v)),
                Err(e) => Err(Fault::Plain(e)),
            }
        } else if t == HELLO_ACK {
            match HelloAckView::parse(b) {
                Ok(v) => Ok(MessageView::HelloAck(v)),
                Err(e) => Err(Fault::Plain(e)),
            }
        } else if t == PING {
            match Ping::parse(b) {
                Ok(v) => Ok(MessageView::Ping(v)),
                Err(e) => Err(Fault::Plain(e)),
            }
        } else if t == SESSION_INIT {
            match SessionOptions::parse(b) {
                Ok(v) => Ok(MessageView::SessionInit(v)),
                Err(e) => Err(Fault::Plain(e)),
            }
        } else if t == BYE {
            match Bye::parse(b) {
                Ok(v) => Ok(MessageView::Bye(v)),
                Err(e) => Err(Fault::Plain(e)),
            }
        } else if t == ERROR {
            match ErrorMsgView::parse(b) {
                Ok(v) => Ok(MessageView::Error(v)),
                Err(e) => Err(Fault::Plain(e)),
            }
        } else if t == TRANSFER_CREATE {
            match TransferCreateView::parse(b) {
                Ok(v) => Ok(MessageView::TransferCreate(v)),
                Err(e) => Err(Fault::Plain(e)),
            }
        } else if t == TRANSFER_CREATED {
            match TransferCreatedView::parse(b) {
                Ok(v) => Ok(MessageView::TransferCreated(v)),
                Err(e) => Err(Fault::Plain(e)),
            }
        } else if t == TRANSFER_PLAN {
            match TransferPlanView::parse(b) {
                Ok(v) => Ok(MessageView::TransferPlan(v)),
                Err(e) => Err(Fault::Plain(e)),
            }
        } else if t == TRANSFER_BEGIN {
            match TransferBeginView::parse(b) {
                Ok(v) => Ok(MessageView::TransferBegin(v)),
                Err(e) => Err(Fault::Plain(e)),
            }
        } else if t == VERIFY {
            match VerifyView::parse(b) {
                Ok(v) => Ok(MessageView::Verify(v)),
                Err(e) => Err(Fault::Plain(e)),
            }
        } else if t == VERIFY_RESULT {
            match VerifyResultView::parse(b) {
                Ok(v) => Ok(MessageView::VerifyResult(v)),
                Err(e) => Err(Fault::Plain(e)),
            }
        } else if t == COMMIT {
            match CommitView::parse(b) {
                Ok(v) => Ok(MessageView::Commit(v)),
                Err(e) => Err(Fault::Plain(e)),
            }
        } else if t == COMMITTED {
            match CommittedView::parse(b) {
                Ok(v) => Ok(MessageView::Committed(v)),
                Err(e) => Err(Fault::Plain(e)),
            }
        } else if t == CHECKPOINT {
            match CheckpointView::parse(b) {
                Ok(v) => Ok(MessageView::Checkpoint(v)),
                Err(e) => Err(Fault::Plain(e)),
            }
        } else if t == RESUME {
            match ResumeView::parse(b) {
                Ok(v) => Ok(MessageView::Resume(v)),
                Err(e) => Err(Fault::Plain(e)),
            }
        } else if t == RESUME_STATE {
            match ResumeStateView::parse(b) {
                Ok(v) => Ok(MessageView::ResumeState(v)),
                Err(e) => Err(Fault::Plain(e)),
            }
        } else if t == CANCEL {
            match CancelView::parse(b) {
                Ok(v) => Ok(MessageView::Cancel(v)),
                Err(e) => Err(Fault::Plain(e)),
            }
        } else if t == STAT {
            match StatQueryView::parse(b) {
                Ok(v) => Ok(MessageView::Stat(v)),
                Err(e) => Err(Fault::Plain(e)),
            }
        } else if t == STAT_RESULT {
            match StatResultView::parse(b) {
                Ok(v) => Ok(MessageView::StatResult(v)),
                Err(e) => Err(Fault::Plain(e)),
            }
        } else if t == LIST {
            match ListQueryView::parse(b) {
                Ok(v) => Ok(MessageView::List(v)),
                Err(e) => Err(Fault::Plain(e)),
            }
        } else if t == LIST_RESULT {
            match ListResultView::parse(b) {
                Ok(v) => Ok(MessageView::ListResult(v)),
                Err(e) => Err(Fault::Plain(e)),
            }
        } else if t == MANIFEST_BEGIN {
            match ManifestBeginView::parse(b) {
                Ok(v) => Ok(MessageView::ManifestBegin(v)),
                Err(e) => Err(e),
            }
        } else if t == MANIFEST_BATCH {
            match ManifestBatchView::parse(b) {
                Ok(v) => Ok(MessageView::ManifestBatch(v)),
                Err(e) => Err(e),
            }
        } else if t == MANIFEST_END {
            match ManifestEndView::parse(b) {
                Ok(v) => Ok(MessageView::ManifestEnd(v)),
                Err(e) => Err(Fault::Plain(e)),
            }
        } else if t == INVENTORY_HINT {
            match InventoryHintView::parse(b) {
                Ok(v) => Ok(MessageView::InventoryHint(v)),
                Err(e) => Err(Fault::Plain(e)),
            }
        } else if t == CHUNK_QUERY {
            match ChunkQueryView::parse(b) {
                Ok(v) => Ok(MessageView::ChunkQuery(v)),
                Err(e) => Err(Fault::Plain(e)),
            }
        } else if t == CHUNK_RESPONSE {
            match ChunkResponseView::parse(b) {
                Ok(v) => Ok(MessageView::ChunkResponse(v)),
                Err(e) => Err(Fault::Plain(e)),
            }
        } else {
            Err(Fault::Plain(ProtocolError::UnsupportedMessage(t)))
        }
    }
}

impl Message {
    /// Return the wire type byte for this message.
    pub fn type_byte(&self) -> (r: u8)
        ensures
            r == self@.type_byte(),
    {
        match self {
            Message::Hello(_) => HELLO,
            Message::HelloAck(_) => HELLO_ACK,
            Message::Auth(_) => AUTH,
            Message::AuthOk(_) => AUTH_OK,
            Message::Ping(_) => PING,
            Message::Pong(_) => PING,
            Message::SessionInit(_) => SESSION_INIT,
            Message::Bye(_) => BYE,
            Message::Error(_) => ERROR,
            Message::TransferCreate(_) => TRANSFER_CREATE,
            Message::TransferCreated(_) => TRANSFER_CREATED,
            Message::TransferPlan(_) => TRANSFER_PLAN,
            Message::TransferBegin(_) => TRANSFER_BEGIN,
            Message::Verify(_) => VERIFY,
            Message::VerifyResult(_) => VERIFY_RESULT,
            Message::Commit(_) => COMMIT,
            Message::Committed(_) => COMMITTED,
            Message::Checkpoint(_) => CHECKPOINT,
            Message::Resume(_) => RESUME,
            Message::ResumeState(_) => RESUME_STATE,
            Message::Cancel(_) => CANCEL,
            Message::Stat(_) => STAT,
            Message::StatResult(_) => STAT_RESULT,
            Message::List(_) => LIST,
            Message::ListResult(_) => LIST_RESULT,
            Message::ManifestBegin(_) => MANIFEST_BEGIN,
            Message::ManifestBatch(_) => MANIFEST_BATCH,
            Message::ManifestEnd(_) => MANIFEST_END,
            Message::InventoryHint(_) => INVENTORY_HINT,
            Message::ChunkQuery(_) => CHUNK_QUERY,
            Message::ChunkResponse(_) => CHUNK_RESPONSE,
        }
    }

    /// Encode the payload (no frame header). Returns the type byte and the
    /// payload.
    pub fn encode(&self) -> (r: Result<(u8, Bytes), ProtocolError>)
        ensures
            match self@.encoding() {
                Ok(w) => r matches Ok((t, b)) && t == self@.type_byte() && foreign::bytes_content(b)
                    == w,
                Err(e) => r matches Err(d) && d == e,
            },
    {
        let payload: Result<Bytes, ProtocolError> = match self {
            Message::Hello(m) => m.encode(),
            Message::HelloAck(m) => m.encode(),
            Message::Auth(m) => m.encode(),
            Message::AuthOk(m) => m.encode(),
            Message::Ping(m) => Ok(m.encode()),
            Message::Pong(m) => Ok(m.encode()),
            Message::SessionInit(m) => Ok(m.encode()),
            Message::Bye(m) => Ok(m.encode()),
            Message::Error(m) => m.encode(),
            Message::TransferCreate(m) => m.encode(),
            Message::TransferCreated(m) => m.encode(),
            Message::TransferPlan(m) => m.encode(),
            Message::TransferBegin(m) => m.encode(),
            Message::Verify(m) => m.encode(),
            Message::VerifyResult(m) => m.encode(),
            Message::Commit(m) => m.encode(),
            Message::Committed(m) => m.encode(),
            Message::Checkpoint(m) => m.encode(),
            Message::Resume(m) => m.encode(),
            Message::ResumeState(m) => m.encode(),
            Message::Cancel(m) => m.encode(),
            Message::Stat(m) => Ok(m.encode()),
            Message::StatResult(m) => m.encode(),
            Message::List(m) => m.encode(),
            Message::ListResult(m) => m.encode(),
            Message::ManifestBegin(m) => m.encode(),
            Message::ManifestBatch(m) => m.encode(),
            Message::ManifestEnd(m) => m.encode(),
            Message::InventoryHint(m) => m.encode(),
            Message::ChunkQuery(m) => m.encode(),
            Message::ChunkResponse(m) => m.encode(),
        };
        match payload {
            Ok(b) => Ok((self.type_byte(), b)),
            Err(e) => Err(e),
        }
    }

    /// Decode a typed message from a frame's `type_byte` and `payload`.
    pub fn decode(type_byte: u8, payload: &[u8]) -> (r: Result<Self, ProtocolError>)
        ensures
            match MessageView::parse(type_byte, payload@) {
                Ok(v) => r matches Ok(m) && m@ == v,
                Err(f) => r matches Err(e) && e.is(f),
            },
    {
        match type_byte {
            HELLO => match Hello::decode(payload) {
                Ok(m) => Ok(Message::Hello(m)),
                Err(e) => Err(e),
            },
            HELLO_ACK => match HelloAck::decode(payload) {
                Ok(m) => Ok(Message::HelloAck(m)),
                Err(e) => Err(e),
            },
            PING => match Ping::decode(payload) {
                Ok(m) => Ok(Message::Ping(m)),
                Err(e) => Err(e),
            },
            SESSION_INIT => match SessionOptions::decode(payload) {
                Ok(m) => Ok(Message::SessionInit(m)),
                Err(e) => Err(e),
            },
            BYE => match Bye::decode(payload) {
                Ok(m) => Ok(Message::Bye(m)),
                Err(e) => Err(e),
            },
            ERROR => match ErrorMsg::decode(payload) {
                Ok(m) => Ok(Message::Error(m)),
                Err(e) => Err(e),
            },
            TRANSFER_CREATE => match TransferCreate::decode(payload) {
                Ok(m) => Ok(Message::TransferCreate(m)),
                Err(e) => Err(e),
            },
            TRANSFER_CREATED => match TransferCreated::decode(payload) {
                Ok(m) => Ok(Message::TransferCreated(m)),
                Err(e) => Err(e),
            },
            TRANSFER_PLAN => match TransferPlan::decode(payload) {
                Ok(m) => Ok(Message::TransferPlan(m)),
                Err(e) => Err(e),
            },
            TRANSFER_BEGIN => match TransferBegin::decode(payload) {
                Ok(m) => Ok(Message::TransferBegin(m)),
                Err(e) => Err(e),
            },
            VERIFY => match Verify::decode(payload) {
                Ok(m) => Ok(Message::Verify(m)),
                Err(e) => Err(e),
            },
            VERIFY_RESULT => match VerifyResult::decode(payload) {
                Ok(m) => Ok(Message::VerifyResult(m)),
                Err(e) => Err(e),
            },
            COMMIT => match Commit::decode(payload) {
                Ok(m) => Ok(Message::Commit(m)),
                Err(e) => Err(e),
            },
            COMMITTED => match Committed::decode(payload) {
                Ok(m) => Ok(Message::Committed(m)),
                Err(e) => Err(e),
            },
            CHECKPOINT => match Checkpoint::decode(payload) {
                Ok(m) => Ok(Message::Checkpoint(m)),
                Err(e) => Err(e),
            },
            RESUME => match Resume::decode(payload) {
                Ok(m) => Ok(Message::Resume(m)),
                Err(e) => Err(e),
            },
            RESUME_STATE => match ResumeState::decode(payload) {
                Ok(m) => Ok(Message::ResumeState(m)),
                Err(e) => Err(e),
            },
            CANCEL => match Cancel::decode(payload) {
                Ok(m) => Ok(Message::Cancel(m)),
                Err(e) => Err(e),
            },
            STAT => match StatQuery::decode(payload) {
                Ok(m) => Ok(Message::Stat(m)),
                Err(e) => Err(e),
            },
            STAT_RESULT => match StatResult::decode(payload) {
                Ok(m) => Ok(Message::StatResult(m)),
                Err(e) => Err(e),
            },
            LIST => match ListQuery::decode(payload) {
                Ok(m) => Ok(Message::List(m)),
                Err(e) => Err(e),
            },
            LIST_RESULT => match ListResult::decode(payload) {
                Ok(m) => Ok(Message::ListResult(m)),
                Err(e) => Err(e),
            },
            MANIFEST_BEGIN => match ManifestBegin::decode(payload) {
                Ok(m) => Ok(Message::ManifestBegin(m)),
                Err(e) => Err(e),
            },
            MANIFEST_BATCH => match ManifestBatch::decode(payload) {
                Ok(m) => Ok(Message::ManifestBatch(m)),
                Err(e) => Err(e),
            },
            MANIFEST_END => match ManifestEnd::decode(payload) {
                Ok(m) => Ok(Message::ManifestEnd(m)),
                Err(e) => Err(e),
            },
            INVENTORY_HINT => match InventoryHint::decode(payload) {
                Ok(m) => Ok(Message::InventoryHint(m)),
                Err(e) => Err(e),
            },
            CHUNK_QUERY => match ChunkQuery::decode(payload) {
                Ok(m) => Ok(Message::ChunkQuery(m)),
                Err(e) => Err(e),
            },
            CHUNK_RESPONSE => match ChunkResponse::decode(payload) {
                Ok(m) => Ok(Message::ChunkResponse(m)),
                Err(e) => Err(e),
            },
            other => Err(ProtocolError::UnsupportedMessage(other)),
        }
    }
}

/// Whether a message is one that a decoder gives back: its lists increase,
/// its counts, details and parameters are within the limits, its capability sets hold
/// no reserved bit, and it is not one of those that the catalog leaves to the
/// handshake (AUTH, AUTH_OK) or reads under another name (PONG).
pub open spec fn wire_safe(m: Message) -> bool {
    match m {
        Message::Hello(h) => session::received(h.capabilities) == h.capabilities,
        Message::HelloAck(h) => session::received(h.capabilities) == h.capabilities,
        Message::Auth(_) => false,
        Message::AuthOk(_) => false,
        Message::Pong(_) => false,
        Message::Error(e) => vstd::utf8::encode_utf8(e.detail.0@).len()
            <= crate::protocol::limits::MAX_ERROR_DETAIL,
        Message::Checkpoint(c) => crate::protocol::indices::increasing(c.completed_chunks@),
        Message::ResumeState(s) => crate::protocol::indices::increasing(s.completed_chunks@),
        Message::ListResult(l) => l@.encoding() matches Ok(w) ==> w.len() <= usize::MAX,
        Message::ManifestBegin(b) => b.file_count <= crate::protocol::limits::MAX_MANIFEST_ENTRIES
            && b.total_bytes <= crate::protocol::limits::MAX_MANIFEST_BYTES
            && b.chunker_params.valid(),
        Message::ManifestBatch(b) => b.entry_count <= crate::protocol::limits::MANIFEST_BATCH_SIZE,
        Message::ChunkQuery(q) => q.chunk_hashes@.len()
            <= crate::protocol::limits::MAX_MANIFEST_ENTRIES,
        _ => true,
    }
}

/// A message that could be written is read back under its own type byte.
pub proof fn law_message_roundtrip(m: Message)
    requires
        wire_safe(m),
    ensures
        m@.encoding() matches Ok(w) ==> MessageView::parse(m@.type_byte(), w) == Ok::<
            MessageView,
            Fault,
        >(m@),
{
    match m {
        Message::Hello(x) => {
            session::law_hello_roundtrip(x);
        },
        Message::HelloAck(x) => {
            session::law_hello_ack_roundtrip(x);
        },
        Message::Auth(_) => {},
        Message::AuthOk(_) => {},
        Message::Ping(x) => {
            session::law_ping_roundtrip(x);
        },
        Message::Pong(_) => {},
        Message::SessionInit(x) => {
            session::law_session_options_roundtrip(x);
        },
        Message::Bye(x) => {
            session::law_bye_roundtrip(x);
        },
        Message::Error(x) => {
            session::law_error_msg_roundtrip(x);
        },
        Message::TransferCreate(x) => {
            transfer::law_transfer_create_roundtrip(x);
        },
        Message::TransferCreated(x) => {
            transfer::law_transfer_created_roundtrip(x);
        },
        Message::TransferPlan(x) => {
            transfer::law_transfer_plan_roundtrip(x);
        },
        Message::TransferBegin(x) => {
            transfer::law_transfer_begin_roundtrip(x);
        },
        Message::Verify(x) => {
            transfer::law_verify_roundtrip(x);
        },
        Message::VerifyResult(x) => {
            transfer::law_verify_result_roundtrip(x);
        },
        Message::Commit(x) => {
            transfer::law_commit_roundtrip(x);
        },
        Message::Committed(x) => {
            transfer::law_committed_roundtrip(x);
        },
        Message::Checkpoint(x) => {
            progress::law_checkpoint_roundtrip(x);
        },
        Message::Resume(x) => {
            progress::law_resume_roundtrip(x);
        },
        Message::ResumeState(x) => {
            progress::law_resume_state_roundtrip(x);
        },
        Message::Cancel(x) => {
            progress::law_cancel_roundtrip(x);
        },
        Message::Stat(x) => {
            progress::law_stat_query_roundtrip(x);
        },
        Message::StatResult(x) => {
            progress::law_stat_result_roundtrip(x);
        },
        Message::List(x) => {
            progress::law_list_query_roundtrip(x);
        },
        Message::ListResult(x) => {
            progress::law_list_result_roundtrip(x);
        },
        Message::ManifestBegin(x) => {
            manifest::law_manifest_begin_roundtrip(x);
        },
        Message::ManifestBatch(x) => {
            manifest::law_manifest_batch_roundtrip(x);
        },
        Message::ManifestEnd(x) => {
            manifest::law_manifest_end_roundtrip(x);
        },
        Message::InventoryHint(x) => {
            delta::law_inventory_hint_roundtrip(x);
        },
        Message::ChunkQuery(x) => {
            delta::law_chunk_query_roundtrip(x);
        },
        Message::ChunkResponse(x) => {
            delta::law_chunk_response_roundtrip(x);
        },
    }
}

} // verus!
