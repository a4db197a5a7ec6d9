//! What the command-line client decides: what it sends, what it takes for an
//! answer, and what it reports.
//!
//! Files, streams and the terminal are the caller's; it performs the steps
//! that are returned and hands back what came of them.

use vstd::prelude::*;

use crate::error::ProtocolError;
use crate::foreign;
use crate::protocol::error::{ErrorCode, ErrorDetail};
use crate::protocol::frame::Frame;
use crate::protocol::message;
use crate::protocol::message::{ErrorMsg, ErrorMsgView};
use crate::text;

pub mod commands;
pub mod credentials;
pub mod download;
pub mod options;
pub mod query;
pub mod report;
pub mod resume;
pub mod steps;
pub mod sync;
pub mod telling;
pub mod upload;
pub mod url;

verus! {

/// Why a command fails.
#[derive(Debug)]
pub enum ClientError {
    /// What the server sent is malformed.
    Protocol(ProtocolError),
    /// The server reported an error.
    Server { code: ErrorCode, detail: ErrorDetail },
    /// The server refused to delete a file.
    Delete { code: ErrorCode, detail: ErrorDetail },
    /// The server sent something else.
    Expected { what: &'static str, got: u8 },
    /// The server found another digest for a file of which it has all.
    VerifyMismatch,
    /// The text is no transfer id.
    InvalidTransferId(String),
    /// The server knows no such transfer.
    TransferNotFound(String),
    /// The local file has another size than the transfer.
    SizeMismatch { local: u64, remote: u64 },
    /// The local file has another digest than the transfer.
    HashMismatch,
    /// Both sides of a sync are on servers.
    CrossServer,
}

/// Why a command fails, by its contents.
pub enum ClientFault {
    Protocol(ProtocolError),
    Server { code: ErrorCode, detail: Seq<char> },
    Delete { code: ErrorCode, detail: Seq<char> },
    Expected { what: &'static str, got: u8 },
    VerifyMismatch,
    InvalidTransferId(Seq<char>),
    TransferNotFound(Seq<char>),
    SizeMismatch { local: u64, remote: u64 },
    HashMismatch,
    CrossServer,
}

impl View for ClientError {
    type V = ClientFault;

    open spec fn view(&self) -> ClientFault {
        match *self {
            ClientError::Protocol(e) => ClientFault::Protocol(e),
            ClientError::Server { code, detail } => ClientFault::Server { code, detail: detail.0@ },
            ClientError::Delete { code, detail } => ClientFault::Delete { code, detail: detail.0@ },
            ClientError::Expected { what, got } => ClientFault::Expected { what, got },
            ClientError::VerifyMismatch => ClientFault::VerifyMismatch,
            ClientError::InvalidTransferId(s) => ClientFault::InvalidTransferId(s@),
            ClientError::TransferNotFound(s) => ClientFault::TransferNotFound(s@),
            ClientError::SizeMismatch { local, remote } => ClientFault::SizeMismatch {
                local,
                remote,
            },
            ClientError::HashMismatch => ClientFault::HashMismatch,
            ClientError::CrossServer => ClientFault::CrossServer,
        }
    }
}

/// The name of an error code in messages to the user.
pub open spec fn code_name(c: ErrorCode) -> &'static str {
    match c {
        ErrorCode::AuthFailed => "AuthFailed",
        ErrorCode::PermissionDenied => "PermissionDenied",
        ErrorCode::ProtocolVersionUnsupported => "ProtocolVersionUnsupported",
        ErrorCode::ProtocolViolation => "ProtocolViolation",
        ErrorCode::UnsupportedMessage => "UnsupportedMessage",
        ErrorCode::FileNotFound => "FileNotFound",
        ErrorCode::InvalidPath => "InvalidPath",
        ErrorCode::TransferNotFound => "TransferNotFound",
        ErrorCode::InvalidManifest => "InvalidManifest",
        ErrorCode::ChunkNotFound => "ChunkNotFound",
        ErrorCode::ChecksumMismatch => "ChecksumMismatch",
        ErrorCode::PartialWrite => "PartialWrite",
        ErrorCode::ResourceLimit => "ResourceLimit",
        ErrorCode::ServerBusy => "ServerBusy",
        ErrorCode::DiskFull => "DiskFull",
        ErrorCode::QuotaExceeded => "QuotaExceeded",
        ErrorCode::TransferCancelled => "TransferCancelled",
        ErrorCode::NetworkError => "NetworkError",
        ErrorCode::InternalError => "InternalError",
    }
}

fn name_of_code(c: ErrorCode) -> (r: &'static str)
    ensures
        r == code_name(c),
{
    match c {
        ErrorCode::AuthFailed => "AuthFailed",
        ErrorCode::PermissionDenied => "PermissionDenied",
        ErrorCode::ProtocolVersionUnsupported => "ProtocolVersionUnsupported",
        ErrorCode::ProtocolViolation => "ProtocolViolation",
        ErrorCode::UnsupportedMessage => "UnsupportedMessage",
        ErrorCode::FileNotFound => "FileNotFound",
        ErrorCode::InvalidPath => "InvalidPath",
        ErrorCode::TransferNotFound => "TransferNotFound",
        ErrorCode::InvalidManifest => "InvalidManifest",
        ErrorCode::ChunkNotFound => "ChunkNotFound",
        ErrorCode::ChecksumMismatch => "ChecksumMismatch",
        ErrorCode::PartialWrite => "PartialWrite",
        ErrorCode::ResourceLimit => "ResourceLimit",
        ErrorCode::ServerBusy => "ServerBusy",
        ErrorCode::DiskFull => "DiskFull",
        ErrorCode::QuotaExceeded => "QuotaExceeded",
        ErrorCode::TransferCancelled => "TransferCancelled",
        ErrorCode::NetworkError => "NetworkError",
        ErrorCode::InternalError => "InternalError",
    }
}

/// An error that the server reported, as the user is told it.
pub open spec fn reported(intro: Seq<char>, code: ErrorCode, detail: Seq<char>) -> Seq<char> {
    intro + code_name(code)@ + " detail=ErrorDetail("@ + foreign::debug_text(detail) + ")"@
}

fn report(intro: &str, code: ErrorCode, detail: &ErrorDetail) -> (r: String)
    ensures
        r@ == reported(intro@, code, detail.0@),
{
    let mut out: String = String::new();
    text::push_str(&mut out, intro);
    text::push_str(&mut out, name_of_code(code));
    text::push_str(&mut out, " detail=ErrorDetail(");
    let quoted: String = foreign::str_debug(detail.0.as_str());
    text::push_str(&mut out, quoted.as_str());
    text::push_str(&mut out, ")");
    assert(out@ =~= reported(intro@, code, detail.0@));
    out
}

impl ClientFault {
    /// What the user is told.
    pub open spec fn text(self) -> Seq<char> {
        match self {
            ClientFault::Protocol(e) => e.text(),
            ClientFault::Server { code, detail } => reported(
                "server error: code="@,
                code,
                detail,
            ),
            ClientFault::Delete { code, detail } => reported(
                "remote delete failed: code="@,
                code,
                detail,
            ),
            ClientFault::Expected { what, got } => "expected "@ + what@ + ", got 0x"@ + text::hex(
                seq![got],
            ),
            ClientFault::VerifyMismatch => "server reported verify mismatch on skip"@,
            ClientFault::InvalidTransferId(s) => "invalid transfer id: "@ + s,
            ClientFault::TransferNotFound(s) => "transfer not found: "@ + s,
            ClientFault::SizeMismatch { local, remote } => "local file size ("@ + text::decimal(
                local as nat,
            ) + ") does not match remote transfer size ("@ + text::decimal(remote as nat) + ")"@,
            ClientFault::HashMismatch => "local file hash does not match transfer file hash"@,
            ClientFault::CrossServer
                => "cross-server sync between two remote URLs is not supported"@,
        }
    }
}

impl ClientError {
    /// What the user is told.
    pub fn to_string(&self) -> (r: String)
        ensures
            r@ == self@.text(),
    {
        match self {
            ClientError::Protocol(e) => e.to_string(),
            ClientError::Server { code, detail } => report("server error: code=", *code, detail),
            ClientError::Delete { code, detail } => report(
                "remote delete failed: code=",
                *code,
                detail,
            ),
            ClientError::Expected { what, got } => {
                let mut out: String = String::new();
                text::push_str(&mut out, "expected ");
                text::push_str(&mut out, what);
                text::push_str(&mut out, ", got 0x");
                text::push_hex_byte(&mut out, *got);
                assert(out@ =~= self@.text());
                out
            },
            ClientError::VerifyMismatch => "server reported verify mismatch on skip".to_owned(),
            ClientError::InvalidTransferId(s) => {
                let mut out: String = String::new();
                text::push_str(&mut out, "invalid transfer id: ");
                text::push_str(&mut out, s.as_str());
                assert(out@ =~= self@.text());
                out
            },
            ClientError::TransferNotFound(s) => {
                let mut out: String = String::new();
                text::push_str(&mut out, "transfer not found: ");
                text::push_str(&mut out, s.as_str());
                assert(out@ =~= self@.text());
                out
            },
            ClientError::SizeMismatch { local, remote } => {
                let mut out: String = String::new();
                text::push_str(&mut out, "local file size (");
                text::push_decimal(&mut out, *local);
                text::push_str(&mut out, ") does not match remote transfer size (");
                text::push_decimal(&mut out, *remote);
                text::push_str(&mut out, ")");
                assert(out@ =~= self@.text());
                out
            },
            ClientError::HashMismatch
                => "local file hash does not match transfer file hash".to_owned(),
            ClientError::CrossServer
                => "cross-server sync between two remote URLs is not supported".to_owned(),
        }
    }
}

/// A frame of the expected type gives its payload. An ERROR in its place is
/// reported as such where `reports` says so.
pub open spec fn expected(
    f: (u8, Seq<u8>),
    t: u8,
    what: &'static str,
    reports: bool,
) -> Result<Seq<u8>, ClientFault> {
    if f.0 == t {
        Ok(f.1)
    } else if reports && f.0 == message::ERROR {
        match ErrorMsgView::parse(f.1) {
            Ok(e) => Err(ClientFault::Server { code: e.code, detail: e.detail }),
            Err(e) => Err(ClientFault::Protocol(e)),
        }
    } else {
        Err(ClientFault::Expected { what, got: f.0 })
    }
}

/// A frame by its contents.
pub open spec fn contents(f: Frame<'_>) -> (u8, Seq<u8>) {
    (f.type_byte, f.payload@)
}

/// Take a frame of the expected type.
pub(crate) fn expect<'a>(frame: Frame<'a>, t: u8, what: &'static str, reports: bool) -> (r: Result<
    &'a [u8],
    ClientError,
>)
    ensures
        match expected(contents(frame), t, what, reports) {
            Ok(p) => r matches Ok(x) && x@ == p,
            Err(f) => r matches Err(e) && e@ == f,
        },
{
    if frame.type_byte == t {
        return Ok(frame.payload);
    }
    if reports && frame.type_byte == message::ERROR {
        return match ErrorMsg::decode(frame.payload) {
            Ok(e) => Err(ClientError::Server { code: e.code, detail: e.detail }),
            Err(e) => Err(ClientError::Protocol(e)),
        };
    }
    Err(ClientError::Expected { what, got: frame.type_byte })
}

} // verus!
