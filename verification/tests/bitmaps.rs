//! Chunk bitmaps.

use velcrux::protocol::varint;
use velcrux::state::bitmap::{ChunkBitmap, MAX_WIRE_CHUNKS};

#[test]
fn mark_complete_idempotent() {
    let mut bm = ChunkBitmap::new();
    assert!(bm.mark_complete(0, 1024));
    assert!(!bm.mark_complete(0, 1024));
    assert_eq!(bm.len(), 1);
    assert_eq!(bm.bytes_completed(), 1024);
}

#[test]
fn bytes_completed_saturates() {
    let mut bm = ChunkBitmap::new();
    bm.mark_complete(0, u64::MAX);
    bm.mark_complete(1, 16);
    assert_eq!(bm.bytes_completed(), u64::MAX);
}

#[test]
fn first_missing_from() {
    let mut bm = ChunkBitmap::new();
    assert_eq!(bm.first_missing_from(0), Some(0));
    bm.mark_complete(0, 1);
    bm.mark_complete(1, 1);
    bm.mark_complete(2, 1);
    assert_eq!(bm.first_missing_from(0), Some(3));
    assert_eq!(bm.first_missing_from(1), Some(3));
    assert_eq!(bm.first_missing_from(3), Some(3));
    assert_eq!(bm.first_missing_from(4), Some(4));
}

#[test]
fn roundtrip_empty() {
    let bm = ChunkBitmap::new();
    let mut buf = Vec::new();
    bm.encode(&mut buf, MAX_WIRE_CHUNKS).unwrap();
    let bm2 = ChunkBitmap::decode(&buf, 0).unwrap();
    assert_eq!(bm, bm2);
}

#[test]
fn roundtrip_sparse() {
    let mut bm = ChunkBitmap::new();
    for i in [0u64, 5, 9, 1023, 999_999] {
        bm.mark_complete(i, 4096);
    }
    let mut buf = Vec::new();
    bm.encode(&mut buf, MAX_WIRE_CHUNKS).unwrap();
    let bm2 = ChunkBitmap::decode(&buf, bm.bytes_completed()).unwrap();
    assert_eq!(bm, bm2);
}

fn write_varint(out: &mut Vec<u8>, v: u64) {
    let mut tmp = [0u8; 10];
    let n = varint::encode_varint(v, &mut tmp);
    out.extend_from_slice(&tmp[..n]);
}

#[test]
fn reject_non_monotonic() {
    let mut buf = Vec::new();
    write_varint(&mut buf, 2);
    write_varint(&mut buf, 5);
    write_varint(&mut buf, 3);
    assert!(ChunkBitmap::decode(&buf, 0).is_err());
}

#[test]
fn reject_duplicate_indices() {
    let mut buf = Vec::new();
    write_varint(&mut buf, 2);
    write_varint(&mut buf, 7);
    write_varint(&mut buf, 7);
    assert!(ChunkBitmap::decode(&buf, 0).is_err());
}

#[test]
fn reject_truncated() {
    let mut buf = Vec::new();
    write_varint(&mut buf, 3);
    write_varint(&mut buf, 1);
    assert!(ChunkBitmap::decode(&buf, 0).is_err());
}

#[test]
fn reject_oversized_count() {
    let mut buf = Vec::new();
    write_varint(&mut buf, MAX_WIRE_CHUNKS + 1);
    assert!(ChunkBitmap::decode(&buf, 0).is_err());
}

#[test]
fn encode_rejects_oversized_set() {
    let indices: Vec<u64> = (0..(MAX_WIRE_CHUNKS + 2)).collect();
    let bm = ChunkBitmap::from_sorted_indices(&indices, 0);
    let mut buf = Vec::new();
    assert!(bm.encode(&mut buf, MAX_WIRE_CHUNKS).is_err());
}

#[test]
fn missing_count_bounded_by_total() {
    let mut bm = ChunkBitmap::new();
    bm.mark_complete(0, 1);
    assert_eq!(bm.missing_count(10), 9);
    assert_eq!(bm.missing_count(0), 0);
}
