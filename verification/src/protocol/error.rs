//! Wire error codes and the detail of the `ERROR` message.

use vstd::prelude::*;
use vstd::utf8;

use crate::error::ProtocolError;
use crate::protocol::limits::MAX_ERROR_DETAIL;

verus! {

/// Wire error code.
#[derive(Debug, Clone, Copy, PartialEq, Eq, Hash, Structural)]
pub enum ErrorCode {
    /// Authentication failed.
    AuthFailed,
    /// The caller is authenticated but not authorized for this operation.
    PermissionDenied,
    /// No version overlap, or the capability intersection lacks a mandatory
    /// capability.
    ProtocolVersionUnsupported,
    /// Protocol violation. The connection is closed.
    ProtocolViolation,
    /// An unknown message type was received.
    UnsupportedMessage,
    /// The named file does not exist.
    FileNotFound,
    /// The path failed validation.
    InvalidPath,
    /// The named transfer does not exist.
    TransferNotFound,
    /// A manifest failed validation.
    InvalidManifest,
    /// A chunk was requested that the server does not have.
    ChunkNotFound,
    /// A chunk hash did not match the manifest.
    ChecksumMismatch,
    /// A write was only partial.
    PartialWrite,
    /// A resource limit was hit.
    ResourceLimit,
    /// The server is overloaded.
    ServerBusy,
    /// The destination is out of disk space.
    DiskFull,
    /// The caller exceeded its quota.
    QuotaExceeded,
    /// Transfer was cancelled by the peer.
    TransferCancelled,
    /// Generic network error.
    NetworkError,
    /// Catch-all internal error.
    InternalError,
}

/// Number of error codes.
pub const ERROR_CODE_COUNT: usize = 19;

/// The codes and their names, for diagnostics.
pub const ERROR_CODE_NAMES: [(u32, &'static str); 19] = [
    (1000, "AUTH_FAILED"),
    (1001, "PERMISSION_DENIED"),
    (1002, "PROTOCOL_VERSION_UNSUPPORTED"),
    (1003, "PROTOCOL_VIOLATION"),
    (1004, "UNSUPPORTED_MESSAGE"),
    (2000, "FILE_NOT_FOUND"),
    (2001, "INVALID_PATH"),
    (2002, "TRANSFER_NOT_FOUND"),
    (2003, "INVALID_MANIFEST"),
    (2004, "CHUNK_NOT_FOUND"),
    (3000, "CHECKSUM_MISMATCH"),
    (3001, "PARTIAL_WRITE"),
    (4000, "RESOURCE_LIMIT"),
    (4001, "SERVER_BUSY"),
    (4002, "DISK_FULL"),
    (4003, "QUOTA_EXCEEDED"),
    (5000, "TRANSFER_CANCELLED"),
    (5001, "NETWORK_ERROR"),
    (5002, "INTERNAL_ERROR"),
];

impl ErrorCode {
    /// The number of the code on the wire.
    pub open spec fn wire(self) -> u32 {
        match self {
            ErrorCode::AuthFailed => 1000,
            ErrorCode::PermissionDenied => 1001,
            ErrorCode::ProtocolVersionUnsupported => 1002,
            ErrorCode::ProtocolViolation => 1003,
            ErrorCode::UnsupportedMessage => 1004,
            ErrorCode::FileNotFound => 2000,
            ErrorCode::InvalidPath => 2001,
            ErrorCode::TransferNotFound => 2002,
            ErrorCode::InvalidManifest => 2003,
            ErrorCode::ChunkNotFound => 2004,
            ErrorCode::ChecksumMismatch => 3000,
            ErrorCode::PartialWrite => 3001,
            ErrorCode::ResourceLimit => 4000,
            ErrorCode::ServerBusy => 4001,
            ErrorCode::DiskFull => 4002,
            ErrorCode::QuotaExceeded => 4003,
            ErrorCode::TransferCancelled => 5000,
            ErrorCode::NetworkError => 5001,
            ErrorCode::InternalError => 5002,
        }
    }

    /// Whether some code has the number `n`.
    pub open spec fn known(n: u32) -> bool {
        ||| 1000 <= n <= 1004
        ||| 2000 <= n <= 2004
        ||| 3000 <= n <= 3001
        ||| 4000 <= n <= 4003
        ||| 5000 <= n <= 5002
    }

    /// The code with the number `n`; `InternalError` if there is none.
    pub open spec fn of_wire(n: u32) -> ErrorCode {
        if n == 1000 {
            ErrorCode::AuthFailed
        } else if n == 1001 {
            ErrorCode::PermissionDenied
        } else if n == 1002 {
            ErrorCode::ProtocolVersionUnsupported
        } else if n == 1003 {
            ErrorCode::ProtocolViolation
        } else if n == 1004 {
            ErrorCode::UnsupportedMessage
        } else if n == 2000 {
            ErrorCode::FileNotFound
        } else if n == 2001 {
            ErrorCode::InvalidPath
        } else if n == 2002 {
            ErrorCode::TransferNotFound
        } else if n == 2003 {
            ErrorCode::InvalidManifest
        } else if n == 2004 {
            ErrorCode::ChunkNotFound
        } else if n == 3000 {
            ErrorCode::ChecksumMismatch
        } else if n == 3001 {
            ErrorCode::PartialWrite
        } else if n == 4000 {
            ErrorCode::ResourceLimit
        } else if n == 4001 {
            ErrorCode::ServerBusy
        } else if n == 4002 {
            ErrorCode::DiskFull
        } else if n == 4003 {
            ErrorCode::QuotaExceeded
        } else if n == 5000 {
            ErrorCode::TransferCancelled
        } else if n == 5001 {
            ErrorCode::NetworkError
        } else {
            ErrorCode::InternalError
        }
    }

    /// Whether the client may retry after this error.
    pub open spec fn may_retry(self) -> bool {
        ||| self is ChunkNotFound
        ||| self is ChecksumMismatch
        ||| self is PartialWrite
        ||| self is ResourceLimit
        ||| self is ServerBusy
        ||| self is DiskFull
        ||| self is NetworkError
        ||| self is InternalError
    }

    /// True if the protocol considers this error retryable by the client.
    pub fn retryable(self) -> (r: bool)
        ensures
            r == self.may_retry(),
    {
        match self {
            ErrorCode::ChunkNotFound => true,
            ErrorCode::ChecksumMismatch => true,
            ErrorCode::PartialWrite => true,
            ErrorCode::ResourceLimit => true,
            ErrorCode::ServerBusy => true,
            ErrorCode::DiskFull => true,
            ErrorCode::NetworkError => true,
            ErrorCode::InternalError => true,
            _ => false,
        }
    }

    /// Convert to its wire form.
    pub fn to_wire(self) -> (r: u32)
        ensures
            r == self.wire(),
    {
        match self {
            ErrorCode::AuthFailed => 1000,
            ErrorCode::PermissionDenied => 1001,
            ErrorCode::ProtocolVersionUnsupported => 1002,
            ErrorCode::ProtocolViolation => 1003,
            ErrorCode::UnsupportedMessage => 1004,
            ErrorCode::FileNotFound => 2000,
            ErrorCode::InvalidPath => 2001,
            ErrorCode::TransferNotFound => 2002,
            ErrorCode::InvalidManifest => 2003,
            ErrorCode::ChunkNotFound => 2004,
            ErrorCode::ChecksumMismatch => 3000,
            ErrorCode::PartialWrite => 3001,
            ErrorCode::ResourceLimit => 4000,
            ErrorCode::ServerBusy => 4001,
            ErrorCode::DiskFull => 4002,
            ErrorCode::QuotaExceeded => 4003,
            ErrorCode::TransferCancelled => 5000,
            ErrorCode::NetworkError => 5001,
            ErrorCode::InternalError => 5002,
        }
    }

    /// Convert from a wire value. Unknown codes map to `InternalError`.
    pub fn from_wire(code: u32) -> (r: Self)
        ensures
            r == ErrorCode::of_wire(code),
    {
        match code {
            1000 => ErrorCode::AuthFailed,
            1001 => ErrorCode::PermissionDenied,
            1002 => ErrorCode::ProtocolVersionUnsupported,
            1003 => ErrorCode::ProtocolViolation,
            1004 => ErrorCode::UnsupportedMessage,
            2000 => ErrorCode::FileNotFound,
            2001 => ErrorCode::InvalidPath,
            2002 => ErrorCode::TransferNotFound,
            2003 => ErrorCode::InvalidManifest,
            2004 => ErrorCode::ChunkNotFound,
            3000 => ErrorCode::ChecksumMismatch,
            3001 => ErrorCode::PartialWrite,
            4000 => ErrorCode::ResourceLimit,
            4001 => ErrorCode::ServerBusy,
            4002 => ErrorCode::DiskFull,
            4003 => ErrorCode::QuotaExceeded,
            5000 => ErrorCode::TransferCancelled,
            5001 => ErrorCode::NetworkError,
            5002 => ErrorCode::InternalError,
            _ => ErrorCode::InternalError,
        }
    }
}

/// Codes survive the wire, and an unknown number is an internal error.
pub proof fn law_error_code_roundtrip(c: ErrorCode, n: u32)
    ensures
        ErrorCode::of_wire(c.wire()) == c,
        ErrorCode::known(c.wire()),
        ErrorCode::known(n) ==> ErrorCode::of_wire(n).wire() == n,
        !ErrorCode::known(n) ==> ErrorCode::of_wire(n) == ErrorCode::InternalError,
{
}

/// Detail string of an `ERROR` message, at most `MAX_ERROR_DETAIL` bytes
/// when built here.
#[derive(Debug, Clone, PartialEq, Eq)]
pub struct ErrorDetail(pub String);

/// The last character boundary of `b` at or before `k`.
pub open spec fn boundary_before(b: Seq<u8>, k: int) -> int
    decreases k,
{
    if k <= 0 || utf8::is_char_boundary(b, k) {
        k
    } else {
        boundary_before(b, k - 1)
    }
}

/// The text cut to at most `MAX_ERROR_DETAIL` bytes, at a character boundary.
pub open spec fn detail_text(s: Seq<char>) -> Seq<char> {
    let b = utf8::encode_utf8(s);
    if b.len() > MAX_ERROR_DETAIL {
        utf8::decode_utf8(b.take(boundary_before(b, MAX_ERROR_DETAIL as int)))
    } else {
        s
    }
}

/// The coarse category that a peer is told for a protocol error.
pub open spec fn error_category(e: ProtocolError) -> &'static str {
    match e {
        ProtocolError::Empty => "empty frame",
        ProtocolError::NonCanonicalVarint => "non-canonical varint",
        ProtocolError::VarintOverflow => "varint overflow",
        ProtocolError::FrameTooLarge { .. } => "frame too large",
        ProtocolError::VersionMismatch { .. } => "version mismatch",
        ProtocolError::UnsupportedMessage(_) => "unsupported message",
        ProtocolError::InvalidStateTransition(_) => "invalid state transition",
        ProtocolError::Malformed(_) => "malformed payload",
        ProtocolError::InvalidPath => "not found",
        ProtocolError::InvalidIdentity(_) => "invalid identity",
        ProtocolError::PermissionDenied => "not found",
        ProtocolError::InvalidManifest(_) => "invalid manifest",
        ProtocolError::ResourceLimitExceeded(_) => "resource limit exceeded",
        ProtocolError::QuotaExceeded(_) => "quota exceeded",
    }
}

pub(crate) proof fn lemma_boundary_before(b: Seq<u8>, k: int)
    requires
        utf8::valid_utf8(b),
        0 <= k <= b.len(),
    ensures
        0 <= boundary_before(b, k) <= k,
        utf8::is_char_boundary(b, boundary_before(b, k)),
    decreases k,
{
    if k > 0 && !utf8::is_char_boundary(b, k) {
        lemma_boundary_before(b, k - 1);
    } else if k == 0 {
        utf8::is_char_boundary_start_end_of_seq(b);
    }
}

impl ErrorDetail {
    /// Construct from a string, truncating to `MAX_ERROR_DETAIL` bytes. A
    /// character that would be cut in half is dropped.
    pub fn new(s: String) -> (r: Self)
        ensures
            r.0@ == detail_text(s@),
            utf8::encode_utf8(r.0@).len() <= MAX_ERROR_DETAIL,
    {
        let ghost b = utf8::encode_utf8(s@);
        let text: &str = s.as_str();
        if text.as_bytes().len() <= MAX_ERROR_DETAIL {
            return ErrorDetail(s);
        }
        proof {
            utf8::encode_utf8_valid_utf8(s@);
            lemma_boundary_before(b, MAX_ERROR_DETAIL as int);
        }
        let mut k: usize = MAX_ERROR_DETAIL;
        while k > 0 && !text.is_char_boundary(k)
            invariant
                k <= MAX_ERROR_DETAIL,
                b == utf8::encode_utf8(text@),
                boundary_before(b, k as int) == boundary_before(b, MAX_ERROR_DETAIL as int),
            decreases k,
        {
            k = k - 1;
        }
        let (head, _tail) = text.split_at(k);
        let r = ErrorDetail(head.to_owned());
        proof {
            utf8::encode_utf8_decode_utf8(r.0@);
        }
        r
    }

    /// The detail used for both `FILE_NOT_FOUND` and `PERMISSION_DENIED`.
    pub fn not_found_or_denied() -> (r: Self)
        ensures
            r.0@ == "not found"@,
    {
        ErrorDetail("not found".to_owned())
    }

    /// Borrow the detail string.
    pub fn as_str(&self) -> (r: &str)
        ensures
            r@ == self.0@,
    {
        self.0.as_str()
    }
}

impl From<ProtocolError> for ErrorDetail {
    /// The coarse category of the error; its own text is not shown to peers.
    fn from(e: ProtocolError) -> (r: Self)
        ensures
            r.0@ == error_category(e)@,
    {
        let s: &'static str = match e {
            ProtocolError::Empty => "empty frame",
            ProtocolError::NonCanonicalVarint => "non-canonical varint",
            ProtocolError::VarintOverflow => "varint overflow",
            ProtocolError::FrameTooLarge { .. } => "frame too large",
            ProtocolError::VersionMismatch { .. } => "version mismatch",
            ProtocolError::UnsupportedMessage(_) => "unsupported message",
            ProtocolError::InvalidStateTransition(_) => "invalid state transition",
            ProtocolError::Malformed(_) => "malformed payload",
            ProtocolError::InvalidPath => "not found",
            ProtocolError::InvalidIdentity(_) => "invalid identity",
            ProtocolError::PermissionDenied => "not found",
            ProtocolError::InvalidManifest(_) => "invalid manifest",
            ProtocolError::ResourceLimitExceeded(_) => "resource limit exceeded",
            ProtocolError::QuotaExceeded(_) => "quota exceeded",
        };
        ErrorDetail(s.to_owned())
    }
}

impl vstd::std_specs::convert::FromSpecImpl<ProtocolError> for ErrorDetail {
    open spec fn obeys_from_spec() -> bool {
        false
    }

    open spec fn from_spec(e: ProtocolError) -> Self {
        arbitrary()
    }
}

impl From<String> for ErrorDetail {
    fn from(s: String) -> (r: Self)
        ensures
            r.0@ == detail_text(s@),
    {
        ErrorDetail::new(s)
    }
}

impl vstd::std_specs::convert::FromSpecImpl<String> for ErrorDetail {
    open spec fn obeys_from_spec() -> bool {
        false
    }

    open spec fn from_spec(s: String) -> Self {
        arbitrary()
    }
}

impl<'a> From<&'a str> for ErrorDetail {
    fn from(s: &'a str) -> (r: Self)
        ensures
            r.0@ == detail_text(s@),
    {
        ErrorDetail::new(s.to_owned())
    }
}

impl<'a> vstd::std_specs::convert::FromSpecImpl<&'a str> for ErrorDetail {
    open spec fn obeys_from_spec() -> bool {
        false
    }

    open spec fn from_spec(s: &'a str) -> Self {
        arbitrary()
    }
}

/// A peer cannot tell a denied path from a malformed one, nor either from a
/// file that does not exist.
pub proof fn law_denied_reads_as_not_found()
    ensures
        error_category(ProtocolError::PermissionDenied)@ == "not found"@,
        error_category(ProtocolError::InvalidPath)@ == "not found"@,
{
}

} // verus!
