//! Wire protocol: encoding, decoding, message catalog.

pub mod capabilities;
pub mod error;
pub mod frame;
pub mod indices;
pub mod layout;
pub mod le;
pub mod limits;
pub mod message;
pub mod refusals;
pub mod varint;
pub mod wire;

pub use self::capabilities::{Capabilities, Capability};
pub use self::error::{ErrorCode, ErrorDetail, ERROR_CODE_NAMES};
pub use self::frame::{
    DataFrame, DataFrameFlags, DataFrameHeader, DataPreamble, Frame, FrameFlags,
    DATA_FRAME_HEADER_LEN, DATA_MAX_CHUNK_LEN, DATA_PREAMBLE_LEN, FRAME_HEADER_LEN,
};
pub use self::limits::{
    AGENT_STRING, ALPN, CHECKPOINT_BYTES_INTERVAL, CHECKPOINT_TIME_INTERVAL_MS, DEFAULT_CHUNK_MIN,
    DEFAULT_CHUNK_TARGET, IMPLEMENTATION_VERSION, MANIFEST_BATCH_SIZE, MAX_AUTH_TOKEN,
    MAX_BATCH_DECOMPRESSED_BYTES, MAX_CHUNK_SIZE, MAX_ERROR_DETAIL, MAX_IDENTITY_LEN,
    MAX_MANIFEST_BYTES, MAX_MANIFEST_ENTRIES, MAX_MESSAGE_SIZE, MAX_PATH_COMPONENT,
    MAX_PATH_TOTAL, PROTOCOL_VERSION, QUIC_IDLE_TIMEOUT_SECS, QUIC_KEEPALIVE_SECS,
};
pub use self::message::{
    Bye, Commit, Committed, Hello, HelloAck, Limits, Message, Ping, Pong, SessionInit,
    SessionOptions, TransferBegin, TransferCreate, TransferCreated, TransferOp, TransferPlan,
    Verify, VerifyResult, AGENT, BYE, COMMIT, COMMITTED, ERROR, HELLO, HELLO_ACK, PING, PONG,
    SESSION_INIT, TRANSFER_BEGIN, TRANSFER_CREATE, TRANSFER_CREATED, TRANSFER_PLAN, VERIFY,
    VERIFY_RESULT,
};
pub use self::varint::{decode_varint, encode_varint, varint_len};
