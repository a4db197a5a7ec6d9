//! Error types shared by every layer.

use vstd::prelude::*;

use crate::text;

verus! {

/// Crate-wide result alias.
pub type Result<T> = std::result::Result<T, VelcruxError>;

/// Errors that can surface from any layer of the library.
#[derive(Debug)]
pub enum VelcruxError {
    /// A protocol-level error.
    Protocol(ProtocolError),
    /// A transport-level error.
    Transport(TransportError),
    /// An I/O error, by its description.
    Io(String),
    /// A configuration error (bad TOML, missing path and the like).
    Config(String),
    /// An invariant violation.
    Internal(String),
}

/// Protocol-level errors, produced by the pure decoders.
#[derive(Debug)]
pub enum ProtocolError {
    /// The input was empty when at least one byte was required.
    Empty,
    /// A varint was encoded with more bytes than its value required.
    NonCanonicalVarint,
    /// A varint does not end within ten bytes, or does not fit in a `u64`.
    VarintOverflow,
    /// A `length` field exceeded the limit that applies to it.
    FrameTooLarge { declared: u64, limit: u64 },
    /// The wire version byte did not match the expected version.
    VersionMismatch { got: u8, expected: u8 },
    /// An unknown or unexpected message type was received.
    UnsupportedMessage(u8),
    /// An invalid state transition was attempted.
    InvalidStateTransition(&'static str),
    /// A required field was missing or malformed.
    Malformed(&'static str),
    /// A path failed validation.
    InvalidPath,
    /// A cryptographic identity could not be established.
    InvalidIdentity(&'static str),
    /// The caller is authenticated but not authorized.
    PermissionDenied,
    /// A manifest failed validation.
    InvalidManifest(String),
    /// A resource limit (bandwidth, connections, memory) was hit.
    ResourceLimitExceeded(String),
    /// The caller exceeded its quota.
    QuotaExceeded(String),
}

/// Transport-level errors. The text of the underlying error is kept.
#[derive(Debug)]
pub enum TransportError {
    /// The connection failed.
    Connection(String),
    /// A write failed.
    Write(String),
    /// A read failed.
    ReadError(String),
    /// TLS configuration error.
    Tls(String),
    /// The peer did not present a client certificate.
    NoClientCertificate,
    /// Endpoint configuration error.
    Endpoint(String),
    /// The connection was closed by the peer.
    ClosedByPeer { code: u32, reason: String },
}

impl From<ProtocolError> for VelcruxError {
    fn from(e: ProtocolError) -> (r: Self) {
        VelcruxError::Protocol(e)
    }
}

impl vstd::std_specs::convert::FromSpecImpl<ProtocolError> for VelcruxError {
    open spec fn obeys_from_spec() -> bool {
        true
    }

    open spec fn from_spec(e: ProtocolError) -> Self {
        VelcruxError::Protocol(e)
    }
}

/// A protocol error by its contents: one without text of its own, or a
/// manifest fault by its text.
pub enum Fault {
    Plain(ProtocolError),
    Manifest(Seq<char>),
}

impl ProtocolError {
    /// The error is the given one.
    pub open spec fn is(self, f: Fault) -> bool {
        match f {
            Fault::Plain(e) => self == e,
            Fault::Manifest(t) => self matches ProtocolError::InvalidManifest(s) && s@ == t,
        }
    }
}

impl VelcruxError {
    /// The error is the given protocol error.
    pub open spec fn is(self, f: Fault) -> bool {
        self matches VelcruxError::Protocol(e) && e.is(f)
    }
}

/// Why a session fails: a protocol error, or an answer that makes no sense,
/// by its description.
pub enum Refusal {
    Protocol(ProtocolError),
    Internal(Seq<char>),
}

impl VelcruxError {
    /// The error is the given refusal.
    pub open spec fn refuses(self, r: Refusal) -> bool {
        match r {
            Refusal::Protocol(e) => self == VelcruxError::Protocol(e),
            Refusal::Internal(t) => self matches VelcruxError::Internal(s) && s@ == t,
        }
    }
}

impl ProtocolError {
    /// The text of the error.
    pub open spec fn text(self) -> Seq<char> {
        match self {
            ProtocolError::Empty => "input is empty"@,
            ProtocolError::NonCanonicalVarint => "non-canonical varint encoding"@,
            ProtocolError::VarintOverflow => "varint overflow (>10 bytes)"@,
            ProtocolError::FrameTooLarge { declared, limit } => "frame length "@ + text::decimal(
                declared as nat,
            ) + " exceeds limit "@ + text::decimal(limit as nat),
            ProtocolError::VersionMismatch { got, expected } => "protocol version mismatch: got "@
                + text::decimal(got as nat) + ", expected "@ + text::decimal(expected as nat),
            ProtocolError::UnsupportedMessage(t) => "unsupported message type: 0x"@ + text::hex(
                seq![t],
            ),
            ProtocolError::InvalidStateTransition(s) => "invalid state transition: "@ + s@,
            ProtocolError::Malformed(s) => "malformed payload: "@ + s@,
            ProtocolError::InvalidPath => "invalid path"@,
            ProtocolError::InvalidIdentity(s) => "invalid identity: "@ + s@,
            ProtocolError::PermissionDenied => "permission denied"@,
            ProtocolError::InvalidManifest(s) => "invalid manifest: "@ + s@,
            ProtocolError::ResourceLimitExceeded(s) => "resource limit exceeded: "@ + s@,
            ProtocolError::QuotaExceeded(s) => "quota exceeded: "@ + s@,
        }
    }

    /// The text of the error.
    pub fn to_string(&self) -> (r: String)
        ensures
            r@ == self.text(),
    {
        match self {
            ProtocolError::Empty => "input is empty".to_owned(),
            ProtocolError::NonCanonicalVarint => "non-canonical varint encoding".to_owned(),
            ProtocolError::VarintOverflow => "varint overflow (>10 bytes)".to_owned(),
            ProtocolError::FrameTooLarge { declared, limit } => {
                let mut t: String = text::with_number("frame length ", *declared, " exceeds limit ");
                text::push_decimal(&mut t, *limit);
                t
            },
            ProtocolError::VersionMismatch { got, expected } => {
                let mut t: String = text::with_number(
                    "protocol version mismatch: got ",
                    *got as u64,
                    ", expected ",
                );
                text::push_decimal(&mut t, *expected as u64);
                t
            },
            ProtocolError::UnsupportedMessage(b) => {
                let mut t: String = "unsupported message type: 0x".to_owned();
                text::push_hex_byte(&mut t, *b);
                t
            },
            ProtocolError::InvalidStateTransition(s) => prefixed("invalid state transition: ", s),
            ProtocolError::Malformed(s) => prefixed("malformed payload: ", s),
            ProtocolError::InvalidPath => "invalid path".to_owned(),
            ProtocolError::InvalidIdentity(s) => prefixed("invalid identity: ", s),
            ProtocolError::PermissionDenied => "permission denied".to_owned(),
            ProtocolError::InvalidManifest(s) => prefixed("invalid manifest: ", s.as_str()),
            ProtocolError::ResourceLimitExceeded(s) => prefixed(
                "resource limit exceeded: ",
                s.as_str(),
            ),
            ProtocolError::QuotaExceeded(s) => prefixed("quota exceeded: ", s.as_str()),
        }
    }
}

fn prefixed(a: &str, b: &str) -> (r: String)
    ensures
        r@ == a@ + b@,
{
    let mut t: String = a.to_owned();
    text::push_str(&mut t, b);
    t
}

impl TransportError {
    /// The text of the error.
    pub open spec fn text(self) -> Seq<char> {
        match self {
            TransportError::Connection(s) => "QUIC connection error: "@ + s@,
            TransportError::Write(s) => "QUIC write error: "@ + s@,
            TransportError::ReadError(s) => "QUIC read error: "@ + s@,
            TransportError::Tls(s) => "TLS error: "@ + s@,
            TransportError::NoClientCertificate => "peer did not present a client certificate"@,
            TransportError::Endpoint(s) => "endpoint error: "@ + s@,
            TransportError::ClosedByPeer { code, reason } => "connection closed by peer: code="@
                + text::decimal(code as nat) + " reason="@ + reason@,
        }
    }

    /// The text of the error.
    pub fn to_string(&self) -> (r: String)
        ensures
            r@ == self.text(),
    {
        match self {
            TransportError::Connection(s) => prefixed("QUIC connection error: ", s.as_str()),
            TransportError::Write(s) => prefixed("QUIC write error: ", s.as_str()),
            TransportError::ReadError(s) => prefixed("QUIC read error: ", s.as_str()),
            TransportError::Tls(s) => prefixed("TLS error: ", s.as_str()),
            TransportError::NoClientCertificate => {
                "peer did not present a client certificate".to_owned()
            },
            TransportError::Endpoint(s) => prefixed("endpoint error: ", s.as_str()),
            TransportError::ClosedByPeer { code, reason } => {
                let mut t: String = text::with_number(
                    "connection closed by peer: code=",
                    *code as u64,
                    " reason=",
                );
                text::push_str(&mut t, reason.as_str());
                t
            },
        }
    }
}

impl VelcruxError {
    /// The text of the error.
    pub open spec fn text(self) -> Seq<char> {
        match self {
            VelcruxError::Protocol(e) => e.text(),
            VelcruxError::Transport(e) => e.text(),
            VelcruxError::Io(s) => "I/O error: "@ + s@,
            VelcruxError::Config(s) => "configuration error: "@ + s@,
            VelcruxError::Internal(s) => "internal error: "@ + s@,
        }
    }

    /// The text of the error.
    pub fn to_string(&self) -> (r: String)
        ensures
            r@ == self.text(),
    {
        match self {
            VelcruxError::Protocol(e) => e.to_string(),
            VelcruxError::Transport(e) => e.to_string(),
            VelcruxError::Io(s) => prefixed("I/O error: ", s.as_str()),
            VelcruxError::Config(s) => prefixed("configuration error: ", s.as_str()),
            VelcruxError::Internal(s) => prefixed("internal error: ", s.as_str()),
        }
    }
}

} // verus!
