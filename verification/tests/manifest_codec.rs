//! Manifest entries.

use velcrux::error::ProtocolError;
use velcrux::manifest::{decode_file_entry, encode_file_entry, ChunkDesc, FileEntry, FileFlags};
use velcrux::protocol::varint::encode_varint;
use velcrux::storage::VPath;
use velcrux::util;

#[test]
fn file_entry_roundtrip() {
    let chunk1 = ChunkDesc::new(1024, util::Hash::from_bytes(&[1u8; 32]).unwrap());
    let chunk2 = ChunkDesc::new(2048, util::Hash::from_bytes(&[2u8; 32]).unwrap());
    let chunk3 = ChunkDesc::hole(512);

    let entry = FileEntry {
        flags: FileFlags::regular().with_sparse(true),
        path: VPath::validate("documents/report.pdf").unwrap(),
        size: 3584,
        mode: 0o644,
        mtime_sec: 1700000000,
        mtime_nsec: 123456,
        file_hash: util::Hash::from_bytes(&[3u8; 32]).unwrap(),
        chunks: vec![chunk1, chunk2, chunk3],
    };

    let mut out = Vec::new();
    encode_file_entry(&entry, &mut out);

    let (decoded, consumed) = decode_file_entry(&out).unwrap();
    assert_eq!(consumed, out.len());
    assert_eq!(entry, decoded);
}

#[test]
fn directory_entry_roundtrip() {
    let entry = FileEntry::directory(
        VPath::validate("documents/subdir").unwrap(),
        0o755,
        1700000000,
        0,
    );
    let mut out = Vec::new();
    encode_file_entry(&entry, &mut out);

    let (decoded, consumed) = decode_file_entry(&out).unwrap();
    assert_eq!(consumed, out.len());
    assert_eq!(entry, decoded);
}

#[test]
fn reject_traversal_path() {
    let mut out = Vec::new();
    let flags_val = FileFlags::regular().0;
    let mut vbuf = [0u8; 10];
    let n = encode_varint(flags_val, &mut vbuf);
    out.extend_from_slice(&vbuf[..n]);

    let bad_path = b"../../etc/passwd";
    let n = encode_varint(bad_path.len() as u64, &mut vbuf);
    out.extend_from_slice(&vbuf[..n]);
    out.extend_from_slice(bad_path);

    out.extend_from_slice(&0u64.to_le_bytes()); // size
    out.extend_from_slice(&0o644u32.to_le_bytes()); // mode
    out.extend_from_slice(&0i64.to_le_bytes()); // mtime_sec
    out.extend_from_slice(&0u32.to_le_bytes()); // mtime_nsec
    out.extend_from_slice(util::Hash::zero().as_bytes()); // hash
    let n = encode_varint(0u64, &mut vbuf); // chunks
    out.extend_from_slice(&vbuf[..n]);

    let err = decode_file_entry(&out).unwrap_err();
    assert!(matches!(err, ProtocolError::InvalidManifest(_)));
}
