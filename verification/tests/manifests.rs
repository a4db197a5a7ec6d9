//! Manifests.

use velcrux::chunking::ChunkParams;
use velcrux::error::{ProtocolError, VelcruxError};
use velcrux::manifest::{
    decompress_batch, ChunkDesc, FileEntry, ManifestBatchDecoder, ManifestReader, ManifestStep,
    ManifestStore, ManifestWriter,
};
use velcrux::protocol::message::ManifestBatch;
use velcrux::storage::VPath;
use velcrux::util;

/// A manifest that was spilled to memory, and where its reader stands.
struct Spill<'a> {
    bytes: &'a [u8],
    reader: ManifestReader,
}

impl<'a> Spill<'a> {
    fn open(bytes: &'a [u8], hash: util::Hash) -> Self {
        let head: [u8; 5] = bytes[..5].try_into().unwrap();
        Spill { bytes: &bytes[5..], reader: ManifestReader::open(&head, hash).unwrap() }
    }

    fn take(&mut self, n: usize) -> Option<&'a [u8]> {
        if self.bytes.len() < n {
            return None;
        }
        let (a, b) = self.bytes.split_at(n);
        self.bytes = b;
        Some(a)
    }

    fn next_entry(&mut self) -> Result<Option<FileEntry>, VelcruxError> {
        loop {
            match self.reader.next_entry()? {
                ManifestStep::Entry(e) => return Ok(Some(e)),
                ManifestStep::End => return Ok(None),
                ManifestStep::ReadHeader => {
                    let header = self.take(16).map(|h| h.try_into().unwrap());
                    self.reader.supply_header(header)?;
                }
                ManifestStep::ReadPayload(n) => {
                    let payload = self.take(n).unwrap();
                    self.reader.supply_payload(payload)?;
                }
            }
        }
    }
}

#[test]
fn writer_reader_roundtrip() {
    let mut writer = ManifestWriter::new(ChunkParams::default());

    let num_entries = 10_000;
    for i in 0..num_entries {
        let path = VPath::validate(&format!("dir_{}/file_{}.bin", i / 100, i)).unwrap();
        let chunk = ChunkDesc::new(1024, util::Hash::from_bytes(&[i as u8; 32]).unwrap());
        let entry = FileEntry::regular(
            path,
            1024,
            0o644,
            1700000000 + i as i64,
            0,
            util::Hash::from_bytes(&[(i % 256) as u8; 32]).unwrap(),
            vec![chunk],
        );
        writer.add_entry(entry).unwrap();
    }

    let (begin, end, spill) = writer.finish().unwrap();
    assert_eq!(begin.file_count, num_entries);
    assert_eq!(begin.total_bytes, num_entries * 1024);
    assert_eq!(begin.manifest_hash, end.manifest_hash);

    // Read back using ManifestReader
    let mut reader = Spill::open(&spill, begin.manifest_hash);
    let mut count = 0;
    while let Some(entry) = reader.next_entry().unwrap() {
        assert_eq!(
            entry.path.as_str(),
            format!("dir_{}/file_{}.bin", count / 100, count)
        );
        count += 1;
    }
    assert_eq!(count, num_entries);
}

#[test]
fn batch_decoder_roundtrip() {
    let mut writer = ManifestWriter::new(ChunkParams::default());
    let path = VPath::validate("single/file.txt").unwrap();
    let chunk = ChunkDesc::new(100, util::Hash::zero());
    let entry = FileEntry::regular(path, 100, 0o644, 1000, 0, util::Hash::zero(), vec![chunk]);
    writer.add_entry(entry.clone()).unwrap();

    let (begin, _, spill) = writer.finish().unwrap();

    let mut reader = Spill::open(&spill, begin.manifest_hash);
    let read_entry = reader.next_entry().unwrap().unwrap();
    assert_eq!(read_entry, entry);
    assert!(reader.next_entry().unwrap().is_none());
}

#[test]
fn tampered_manifest_hash_is_rejected() {
    let mut writer = ManifestWriter::new(ChunkParams::default());
    let path = VPath::validate("file.txt").unwrap();
    let chunk = ChunkDesc::new(10, util::Hash::zero());
    writer
        .add_entry(FileEntry::regular(
            path,
            10,
            0o644,
            0,
            0,
            util::Hash::zero(),
            vec![chunk],
        ))
        .unwrap();
    let (begin, _, spill) = writer.finish().unwrap();

    // Tamper with expected hash
    let mut bad_hash_bytes = *begin.manifest_hash.as_bytes();
    bad_hash_bytes[0] ^= 0xFF;
    let bad_hash = util::Hash::from_bytes(&bad_hash_bytes).unwrap();

    let mut reader = Spill::open(&spill, bad_hash);
    let _ = reader.next_entry().unwrap();
    // At EOF, reader verifies hash and fails
    let err = reader.next_entry().unwrap_err();
    assert!(matches!(
        err,
        velcrux::error::VelcruxError::Protocol(velcrux::error::ProtocolError::InvalidManifest(_))
    ));
}

/// The messages of a manifest, from its spill: batches behind a header each.
fn batches(spill: &[u8]) -> Vec<ManifestBatch> {
    let mut out = Vec::new();
    let mut rest = &spill[5..];
    while !rest.is_empty() {
        let number = |i: usize| u32::from_le_bytes(rest[i..i + 4].try_into().unwrap());
        let batch_index = u64::from_le_bytes(rest[..8].try_into().unwrap());
        let entry_count = number(8);
        let len = number(12) as usize;
        out.push(ManifestBatch {
            batch_index,
            entry_count,
            compressed_payload: bytes::Bytes::copy_from_slice(&rest[16..16 + len]),
        });
        rest = &rest[16 + len..];
    }
    out
}

#[test]
fn batches_decode_to_the_entries() {
    let mut writer = ManifestWriter::new(ChunkParams::default());
    let mut entries = Vec::new();
    for i in 0..5000u64 {
        let path = VPath::validate(&format!("f{i}")).unwrap();
        let chunk = ChunkDesc::new(i, util::Hash::of(&i.to_le_bytes()));
        let entry = FileEntry::regular(path, i, 0o600, 7, 9, util::Hash::zero(), vec![chunk]);
        entries.push(entry.clone());
        writer.add_entry(entry).unwrap();
    }
    assert_eq!(writer.file_count(), 5000);
    assert_eq!(writer.total_bytes(), 4999 * 2500);
    let (begin, _, spill) = writer.finish().unwrap();
    let messages = batches(&spill);
    assert_eq!(messages.len(), 2);
    assert_eq!(messages[0].entry_count, 4096);
    let mut decoder = ManifestBatchDecoder::new(begin.manifest_hash);
    let mut got = Vec::new();
    for m in &messages {
        got.extend(decoder.decode_batch(m).unwrap());
    }
    assert!(decoder.finish().is_ok());
    assert_eq!(got, entries);
}

#[test]
fn damaged_batch_is_refused() {
    let batch = ManifestBatch {
        batch_index: 0,
        entry_count: 1,
        compressed_payload: bytes::Bytes::from_static(b"this is not compressed"),
    };
    let mut decoder = ManifestBatchDecoder::new(util::Hash::zero());
    assert!(matches!(
        decoder.decode_batch(&batch),
        Err(VelcruxError::Io(_))
            | Err(VelcruxError::Protocol(ProtocolError::Malformed("invalid zstd header")))
    ));
}

#[test]
fn batch_that_unpacks_to_too_much_is_refused() {
    let raw = vec![0u8; 16 * 1024 * 1024 + 1];
    let packed = zstd::encode_all(&raw[..], 0).unwrap();
    assert!(decompress_batch(&packed).is_err());
    let packed = zstd::encode_all(&raw[1..], 0).unwrap();
    assert_eq!(decompress_batch(&packed).unwrap().len(), 16 * 1024 * 1024);
}

#[test]
fn empty_manifest_has_the_digest_of_nothing() {
    let (begin, end, spill) = ManifestWriter::new(ChunkParams::default()).finish().unwrap();
    assert_eq!(begin.file_count, 0);
    assert_eq!(begin.manifest_hash, util::Hash::of(b""));
    assert_eq!(end.manifest_hash, begin.manifest_hash);
    assert!(Spill::open(&spill, begin.manifest_hash).next_entry().unwrap().is_none());
}

#[test]
fn manifest_files_are_named_by_their_digest() {
    let store = ManifestStore::new("/var/lib/velcrux");
    let path = store.manifest_path(&util::Hash::zero());
    assert!(path.starts_with("/var/lib/velcrux/"));
    assert!(path.contains(&util::Hash::zero().to_string()));
    assert_ne!(path, store.manifest_path(&util::Hash::of(b"")));
}

#[test]
fn a_manifest_of_several_batches_reads_back() {
    let mut writer = ManifestWriter::new(ChunkParams::default());
    let mut spill: Vec<u8> = Vec::new();
    let name = |i: usize| format!("d/{i}");
    for i in 0..9000 {
        let path = VPath::validate(&name(i)).unwrap();
        writer.add_entry(FileEntry::directory(path, 0o755, 0, 0)).unwrap();
        if i % 3000 == 0 {
            spill.extend(writer.take_spill());
        }
    }
    let (begin, _, rest) = writer.finish().unwrap();
    spill.extend(rest);
    for expected in [begin.manifest_hash, util::Hash::of(b"other")] {
        let mut reader = Spill::open(&spill, expected);
        for i in 0..9000 {
            assert_eq!(reader.next_entry().unwrap().unwrap().path.as_str(), name(i));
            assert_eq!(reader.reader.entries_read(), i as u64 + 1);
        }
        match reader.next_entry() {
            Ok(end) => assert!(end.is_none() && expected == begin.manifest_hash),
            Err(e) => {
                assert!(expected != begin.manifest_hash);
                assert!(matches!(e, VelcruxError::Protocol(ProtocolError::InvalidManifest(_))));
            }
        }
    }
}
