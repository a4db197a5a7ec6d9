//! Varints.

use velcrux::error::ProtocolError;
use velcrux::protocol::varint::{decode_varint, encode_varint};

#[test]
fn zero_roundtrip() {
    let mut buf = [0u8; 16];
    let n = encode_varint(0, &mut buf);
    assert_eq!(n, 1);
    assert_eq!(buf[0], 0);
    let (v, k) = decode_varint(&buf[..n]).unwrap();
    assert_eq!((v, k), (0, 1));
}

#[test]
fn small_roundtrip() {
    for v in [1u64, 127, 128, 16_383, 16_384] {
        let mut buf = [0u8; 16];
        let n = encode_varint(v, &mut buf);
        let (out, k) = decode_varint(&buf[..n]).unwrap();
        assert_eq!((out, k), (v, n));
    }
}

#[test]
fn max_u64_roundtrip() {
    let mut buf = [0u8; 16];
    let n = encode_varint(u64::MAX, &mut buf);
    assert_eq!(n, 10);
    let (out, k) = decode_varint(&buf[..n]).unwrap();
    assert_eq!((out, k), (u64::MAX, 10));
}

#[test]
fn rejects_non_canonical() {
    // 0 encoded in 2 bytes (0x80 0x00) is non-canonical.
    assert!(matches!(
        decode_varint(&[0x80, 0x00]),
        Err(ProtocolError::NonCanonicalVarint)
    ));
    // 1 encoded in 2 bytes (0x81 0x00) is non-canonical.
    assert!(matches!(
        decode_varint(&[0x81, 0x00]),
        Err(ProtocolError::NonCanonicalVarint)
    ));
}

#[test]
fn rejects_overflow() {
    // 11 continuation bytes.
    let buf = [0x80u8; 11];
    assert!(matches!(
        decode_varint(&buf),
        Err(ProtocolError::VarintOverflow)
    ));
}

#[test]
fn rejects_truncated() {
    // 0x80 0x80 with no terminating byte — truncated.
    let buf = [0x80, 0x80];
    assert!(matches!(decode_varint(&buf), Err(ProtocolError::VarintOverflow)));
}
