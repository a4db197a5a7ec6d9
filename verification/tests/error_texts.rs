//! The texts of errors.

use velcrux::error::{ProtocolError, TransportError, VelcruxError};
use velcrux::protocol::capabilities::{Capabilities, Capability};
use velcrux::protocol::error::ErrorDetail;

#[test]
fn protocol_errors_in_words() {
    let cases = vec![
        (ProtocolError::Empty, "input is empty"),
        (ProtocolError::NonCanonicalVarint, "non-canonical varint encoding"),
        (ProtocolError::VarintOverflow, "varint overflow (>10 bytes)"),
        (
            ProtocolError::FrameTooLarge { declared: 7, limit: 5 },
            "frame length 7 exceeds limit 5",
        ),
        (
            ProtocolError::VersionMismatch { got: 2, expected: 1 },
            "protocol version mismatch: got 2, expected 1",
        ),
        (ProtocolError::UnsupportedMessage(0x4f), "unsupported message type: 0x4f"),
        (ProtocolError::InvalidStateTransition("x"), "invalid state transition: x"),
        (ProtocolError::Malformed("y"), "malformed payload: y"),
        (ProtocolError::InvalidPath, "invalid path"),
        (ProtocolError::InvalidIdentity("z"), "invalid identity: z"),
        (ProtocolError::PermissionDenied, "permission denied"),
        (ProtocolError::InvalidManifest("m".to_string()), "invalid manifest: m"),
        (
            ProtocolError::ResourceLimitExceeded("r".to_string()),
            "resource limit exceeded: r",
        ),
        (ProtocolError::QuotaExceeded("q".to_string()), "quota exceeded: q"),
    ];
    for (e, t) in cases {
        assert_eq!(e.to_string(), t);
        assert_eq!(VelcruxError::from(e).to_string(), t);
    }
}

#[test]
fn other_errors_in_words() {
    assert_eq!(VelcruxError::Io("x".to_string()).to_string(), "I/O error: x");
    assert_eq!(VelcruxError::Config("x".to_string()).to_string(), "configuration error: x");
    assert_eq!(VelcruxError::Internal("x".to_string()).to_string(), "internal error: x");
    let e = TransportError::ClosedByPeer { code: 3, reason: "bye".to_string() };
    assert_eq!(
        VelcruxError::Transport(e).to_string(),
        "connection closed by peer: code=3 reason=bye"
    );
    assert_eq!(
        TransportError::NoClientCertificate.to_string(),
        "peer did not present a client certificate"
    );
}

#[test]
fn peers_are_told_a_category() {
    assert_eq!(ErrorDetail::from(ProtocolError::PermissionDenied).as_str(), "not found");
    assert_eq!(ErrorDetail::from(ProtocolError::InvalidPath).as_str(), "not found");
    assert_eq!(ErrorDetail::from(ProtocolError::Malformed("secret")).as_str(), "malformed payload");
}

#[test]
fn details_are_cut_between_characters() {
    let s = "é".repeat(200);
    assert_eq!(ErrorDetail::new(s).as_str(), "é".repeat(128));
    let s = format!("x{}", "é".repeat(200));
    assert_eq!(ErrorDetail::new(s).as_str(), format!("x{}", "é".repeat(127)));
}

#[test]
fn capability_sets_in_words() {
    let mut c = Capabilities::empty();
    assert_eq!(c.to_string(), "{}");
    c.set(Capability::InventoryBloom);
    assert_eq!(c.to_string(), "{bloom}");
    c.set(Capability::FixedChunking);
    c.set(Capability::Blake3);
    assert_eq!(c.to_string(), "{fixed,blake3,bloom}");
    c.clear(Capability::Blake3);
    let mut d = Capabilities::empty();
    d.set(Capability::Symlinks);
    c |= d;
    assert_eq!(c.to_string(), "{fixed,symlinks,bloom}");
}
