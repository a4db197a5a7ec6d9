//! Frames.

use velcrux::error::ProtocolError;
use velcrux::protocol::frame::{
    decode_data_frame_header, decode_data_preamble, decode_frame, encode_data_frame,
    encode_data_preamble, encode_frame, header_size_for, DataFrameFlags, DataPreamble, FrameFlags,
    DATA_FRAME_HEADER_LEN, DATA_MAX_CHUNK_LEN, DATA_PREAMBLE_LEN,
};
use velcrux::protocol::limits::{MAX_MESSAGE_SIZE, PROTOCOL_VERSION};
use velcrux::protocol::varint;
use velcrux::util;

fn roundtrip(type_byte: u8, flags: FrameFlags, request_id: u64, payload: &[u8]) {
    let length = payload.len() as u64;
    let total = header_size_for(length) + payload.len();
    let mut buf = vec![0u8; total];
    let n = encode_frame(&mut buf, type_byte, flags, request_id, payload);
    assert_eq!(n, total);

    let f = decode_frame(&buf).unwrap();
    assert_eq!(f.version, PROTOCOL_VERSION);
    assert_eq!(f.type_byte, type_byte);
    assert_eq!(f.flags, flags);
    assert_eq!(f.length, length);
    assert_eq!(f.request_id, request_id);
    assert_eq!(f.payload, payload);
}

#[test]
fn empty_payload_roundtrip() {
    roundtrip(0x06, FrameFlags::none(), 0, &[]);
}

#[test]
fn small_payload_roundtrip() {
    roundtrip(0x06, FrameFlags::end_of_sequence_flag(), 42, b"hello");
}

#[test]
fn flags_roundtrip() {
    let f = FrameFlags::end_of_sequence_flag() | FrameFlags::compressed_flag();
    roundtrip(0x06, f, 1, b"x");
    assert!(f.end_of_sequence());
    assert!(f.compressed());
}

#[test]
fn rejects_oversized_length() {
    // Header declares a length larger than max_message_size.
    let bad = MAX_MESSAGE_SIZE + 1;
    let mut buf = vec![0u8; 4 + varint::varint_len(bad) + 8];
    buf[0] = PROTOCOL_VERSION;
    buf[1] = 0x01;
    let v = varint::varint_len(bad);
    varint::encode_varint(bad, &mut buf[4..4 + v]);
    let e = decode_frame(&buf);
    assert!(matches!(e, Err(ProtocolError::FrameTooLarge { .. })));
}

#[test]
fn rejects_version_mismatch() {
    let mut buf = vec![0u8; 4 + 1 + 8];
    buf[0] = PROTOCOL_VERSION.wrapping_add(1);
    buf[1] = 0x01;
    let e = decode_frame(&buf);
    assert!(matches!(e, Err(ProtocolError::VersionMismatch { .. })));
}

#[test]
fn rejects_truncated_buffer() {
    let e = decode_frame(&[PROTOCOL_VERSION, 0x01, 0, 0]);
    assert!(matches!(e, Err(ProtocolError::Empty)));
}

#[test]
fn data_preamble_roundtrip() {
    let tid = util::TransferId::generate();
    let p = DataPreamble { transfer_id: tid, file_id: 1, stream_seq: 1 };
    let bytes = encode_data_preamble(&p);
    assert_eq!(bytes.len(), DATA_PREAMBLE_LEN);
    // Reserved 24 bytes must be zero on send.
    for &b in &bytes[32..] {
        assert_eq!(b, 0);
    }
    let p2 = decode_data_preamble(&bytes).unwrap();
    assert_eq!(p, p2);
}

#[test]
fn data_preamble_rejects_truncated() {
    let bytes = [0u8; 30];
    assert!(matches!(
        decode_data_preamble(&bytes),
        Err(ProtocolError::Malformed(_))
    ));
}

#[test]
fn data_frame_roundtrip() {
    let h = util::Hash::of(b"hello");
    let payload = b"hello";
    let buf = encode_data_frame(1024, 5, DataFrameFlags::none(), &h, payload);
    let (hdr, payload_after) = decode_data_frame_header(&buf).unwrap();
    assert_eq!(hdr.chunk_offset, 1024);
    assert_eq!(hdr.chunk_len, 5);
    assert_eq!(hdr.chunk_hash, h);
    assert_eq!(payload_after, payload);
    // Verify the chunk hash matches the payload.
    let computed = util::Hash::of(payload_after);
    assert_eq!(computed, h);
}

#[test]
fn data_frame_rejects_oversized_chunk_len() {
    // Header claims chunk_len > MAX; decode rejects.
    let mut bad = vec![0u8; DATA_FRAME_HEADER_LEN];
    bad[..8].copy_from_slice(&0u64.to_le_bytes());
    bad[8..12].copy_from_slice(&(DATA_MAX_CHUNK_LEN + 1).to_le_bytes());
    assert!(matches!(
        decode_data_frame_header(&bad),
        Err(ProtocolError::Malformed(_))
    ));
}

#[test]
fn data_frame_rejects_reserved_bits() {
    let mut bad = vec![0u8; DATA_FRAME_HEADER_LEN];
    bad[14] = 0x01; // reserved bits
    assert!(matches!(
        decode_data_frame_header(&bad),
        Err(ProtocolError::Malformed(_))
    ));
}
