//! Messages that carry a manifest.

use vstd::prelude::*;

use bytes::Bytes;

use crate::chunking::ChunkParams;
use crate::error::{Fault, ProtocolError};
use crate::foreign;
use crate::protocol::le;
use crate::protocol::limits::{MANIFEST_BATCH_SIZE, MAX_MANIFEST_BYTES, MAX_MANIFEST_ENTRIES};
use crate::protocol::wire;
use crate::text;
use crate::util;

verus! {

/// `MANIFEST_BEGIN` payload (sender to receiver).
///
/// ```text
/// file_count(u64) total_bytes(u64) min(u64) target(u64) max(u64)
/// manifest_hash(32)
/// ```
#[derive(Debug, Clone, Copy, PartialEq, Eq)]
pub struct ManifestBegin {
    /// Declared file count.
    pub file_count: u64,
    /// Declared total of uncompressed bytes across all files.
    pub total_bytes: u64,
    /// Chunker parameters of the files described.
    pub chunker_params: ChunkParams,
    /// BLAKE3 digest over the canonical uncompressed entries.
    pub manifest_hash: util::Hash,
}

/// Contents of MANIFEST_BEGIN.
#[verifier::ext_equal]
pub struct ManifestBeginView {
    pub file_count: u64,
    pub total_bytes: u64,
    pub chunker_params: ChunkParams,
    pub manifest_hash: Seq<u8>,
}

impl View for ManifestBegin {
    type V = ManifestBeginView;

    open spec fn view(&self) -> ManifestBeginView {
        ManifestBeginView {
            file_count: self.file_count,
            total_bytes: self.total_bytes,
            chunker_params: self.chunker_params,
            manifest_hash: self.manifest_hash@,
        }
    }
}

impl ManifestBeginView {
    /// The payload on the wire.
    pub open spec fn wire(self) -> Seq<u8> {
        le::u64_bytes(self.file_count) + le::u64_bytes(self.total_bytes) + le::u64_bytes(
            self.chunker_params.min,
        ) + le::u64_bytes(self.chunker_params.target) + le::u64_bytes(self.chunker_params.max)
            + self.manifest_hash
    }

    /// What decoding a payload gives.
    pub open spec fn parse(b: Seq<u8>) -> Result<ManifestBeginView, Fault> {
        let params = ChunkParams {
            min: le::u64_at(b, 16),
            target: le::u64_at(b, 24),
            max: le::u64_at(b, 32),
        };
        if b.len() < 72 {
            Err(Fault::Plain(ProtocolError::Malformed("MANIFEST_BEGIN: truncated")))
        } else if le::u64_at(b, 0) > MAX_MANIFEST_ENTRIES {
            Err(
                Fault::Manifest(
                    "file count "@ + text::decimal(le::u64_at(b, 0) as nat)
                        + " exceeds MAX_MANIFEST_ENTRIES 50000000"@,
                ),
            )
        } else if le::u64_at(b, 8) > MAX_MANIFEST_BYTES {
            Err(
                Fault::Manifest(
                    "total bytes "@ + text::decimal(le::u64_at(b, 8) as nat)
                        + " exceeds MAX_MANIFEST_BYTES 8589934592"@,
                ),
            )
        } else if !params.valid() {
            Err(Fault::Plain(ProtocolError::Malformed("MANIFEST_BEGIN: invalid chunk params")))
        } else {
            Ok(
                ManifestBeginView {
                    file_count: le::u64_at(b, 0),
                    total_bytes: le::u64_at(b, 8),
                    chunker_params: params,
                    manifest_hash: b.subrange(40, 72),
                },
            )
        }
    }
}

impl ManifestBegin {
    /// Encode the payload to bytes.
    pub fn encode(&self) -> (r: Result<Bytes, ProtocolError>)
        ensures
            r matches Ok(b) && foreign::bytes_content(b) == self@.wire(),
    {
        let mut out: Vec<u8> = Vec::new();
        le::push_u64(&mut out, self.file_count);
        le::push_u64(&mut out, self.total_bytes);
        le::push_u64(&mut out, self.chunker_params.min);
        le::push_u64(&mut out, self.chunker_params.target);
        le::push_u64(&mut out, self.chunker_params.max);
        wire::push_bytes(&mut out, self.manifest_hash.as_bytes().as_slice());
        assert(out@ =~= self@.wire());
        Ok(foreign::bytes_from_vec(out))
    }

    /// Decode the payload from `buf`.
    pub fn decode(buf: &[u8]) -> (r: Result<Self, ProtocolError>)
        ensures
            match ManifestBeginView::parse(buf@) {
                Ok(v) => r matches Ok(m) && m@ == v,
                Err(f) => r matches Err(e) && e.is(f),
            },
    {
        if buf.len() < 72 {
            return Err(ProtocolError::Malformed("MANIFEST_BEGIN: truncated"));
        }
        let file_count: u64 = le::read_u64(buf, 0);
        if file_count > MAX_MANIFEST_ENTRIES {
            return Err(
                ProtocolError::InvalidManifest(
                    text::with_number(
                        "file count ",
                        file_count,
                        " exceeds MAX_MANIFEST_ENTRIES 50000000",
                    ),
                ),
            );
        }
        let total_bytes: u64 = le::read_u64(buf, 8);
        if total_bytes > MAX_MANIFEST_BYTES {
            return Err(
                ProtocolError::InvalidManifest(
                    text::with_number(
                        "total bytes ",
                        total_bytes,
                        " exceeds MAX_MANIFEST_BYTES 8589934592",
                    ),
                ),
            );
        }
        match ChunkParams::new(le::read_u64(buf, 16), le::read_u64(buf, 24), le::read_u64(buf, 32)) {
            Some(chunker_params) => Ok(
                ManifestBegin {
                    file_count,
                    total_bytes,
                    chunker_params,
                    manifest_hash: wire::read_hash(buf, 40),
                },
            ),
            None => Err(ProtocolError::Malformed("MANIFEST_BEGIN: invalid chunk params")),
        }
    }
}

/// MANIFEST_BEGIN within the limits that was written is read back.
pub proof fn law_manifest_begin_roundtrip(m: ManifestBegin)
    requires
        m.file_count <= MAX_MANIFEST_ENTRIES,
        m.total_bytes <= MAX_MANIFEST_BYTES,
        m.chunker_params.valid(),
    ensures
        ManifestBeginView::parse(m@.wire()) == Ok::<ManifestBeginView, Fault>(m@),
{
    broadcast use {le::group_le_lengths, util::lemma_hash_len};

    let b = m@.wire();
    assert(b.subrange(0, 8) =~= le::u64_bytes(m.file_count));
    le::lemma_u64_roundtrip(b, 0, m.file_count);
    assert(b.subrange(8, 16) =~= le::u64_bytes(m.total_bytes));
    le::lemma_u64_roundtrip(b, 8, m.total_bytes);
    assert(b.subrange(16, 24) =~= le::u64_bytes(m.chunker_params.min));
    le::lemma_u64_roundtrip(b, 16, m.chunker_params.min);
    assert(b.subrange(24, 32) =~= le::u64_bytes(m.chunker_params.target));
    le::lemma_u64_roundtrip(b, 24, m.chunker_params.target);
    assert(b.subrange(32, 40) =~= le::u64_bytes(m.chunker_params.max));
    le::lemma_u64_roundtrip(b, 32, m.chunker_params.max);
    assert(b.subrange(40, 72) =~= m.manifest_hash@);
}

/// `MANIFEST_BATCH` payload (sender to receiver): up to 4096 entries, in
/// canonical form and zstd-compressed.
///
/// ```text
/// batch_index(u64) entry_count(u32) compressed_payload(rest)
/// ```
#[derive(Debug, Clone, PartialEq, Eq)]
pub struct ManifestBatch {
    /// Zero-based sequential batch index.
    pub batch_index: u64,
    /// Number of entries in this batch.
    pub entry_count: u32,
    /// zstd-compressed canonical entries.
    pub compressed_payload: Bytes,
}

/// Contents of MANIFEST_BATCH.
#[verifier::ext_equal]
pub struct ManifestBatchView {
    pub batch_index: u64,
    pub entry_count: u32,
    pub compressed_payload: Seq<u8>,
}

impl View for ManifestBatch {
    type V = ManifestBatchView;

    open spec fn view(&self) -> ManifestBatchView {
        ManifestBatchView {
            batch_index: self.batch_index,
            entry_count: self.entry_count,
            compressed_payload: foreign::bytes_content(self.compressed_payload),
        }
    }
}

impl ManifestBatchView {
    /// The payload on the wire.
    pub open spec fn wire(self) -> Seq<u8> {
        le::u64_bytes(self.batch_index) + le::u32_bytes(self.entry_count) + self.compressed_payload
    }

    /// What decoding a payload gives.
    pub open spec fn parse(b: Seq<u8>) -> Result<ManifestBatchView, Fault> {
        if b.len() < 12 {
            Err(Fault::Plain(ProtocolError::Malformed("MANIFEST_BATCH: truncated")))
        } else if le::u32_at(b, 8) > MANIFEST_BATCH_SIZE {
            Err(
                Fault::Manifest(
                    "batch entry count "@ + text::decimal(le::u32_at(b, 8) as nat)
                        + " exceeds MANIFEST_BATCH_SIZE 4096"@,
                ),
            )
        } else {
            Ok(
                ManifestBatchView {
                    batch_index: le::u64_at(b, 0),
                    entry_count: le::u32_at(b, 8),
                    compressed_payload: b.skip(12),
                },
            )
        }
    }
}

impl ManifestBatch {
    /// Encode the payload to bytes.
    pub fn encode(&self) -> (r: Result<Bytes, ProtocolError>)
        ensures
            r matches Ok(b) && foreign::bytes_content(b) == self@.wire(),
    {
        let mut out: Vec<u8> = Vec::new();
        le::push_u64(&mut out, self.batch_index);
        le::push_u32(&mut out, self.entry_count);
        wire::push_bytes(&mut out, foreign::bytes_as_slice(&self.compressed_payload));
        assert(out@ =~= self@.wire());
        Ok(foreign::bytes_from_vec(out))
    }

    /// Decode the payload from `buf`.
    pub fn decode(buf: &[u8]) -> (r: Result<Self, ProtocolError>)
        ensures
            match ManifestBatchView::parse(buf@) {
                Ok(v) => r matches Ok(m) && m@ == v,
                Err(f) => r matches Err(e) && e.is(f),
            },
    {
        if buf.len() < 12 {
            return Err(ProtocolError::Malformed("MANIFEST_BATCH: truncated"));
        }
        let entry_count: u32 = le::read_u32(buf, 8);
        if entry_count as usize > MANIFEST_BATCH_SIZE {
            return Err(
                ProtocolError::InvalidManifest(
                    text::with_number(
                        "batch entry count ",
                        entry_count as u64,
                        " exceeds MANIFEST_BATCH_SIZE 4096",
                    ),
                ),
            );
        }
        Ok(
            ManifestBatch {
                batch_index: le::read_u64(buf, 0),
                entry_count,
                compressed_payload: foreign::bytes_copy_from_slice(wire::slice_from(buf, 12)),
            },
        )
    }
}

/// MANIFEST_BATCH within the limit that was written is read back.
pub proof fn law_manifest_batch_roundtrip(m: ManifestBatch)
    requires
        m.entry_count <= MANIFEST_BATCH_SIZE,
    ensures
        ManifestBatchView::parse(m@.wire()) == Ok::<ManifestBatchView, Fault>(m@),
{
    broadcast use le::group_le_lengths;

    let b = m@.wire();
    assert(b.subrange(0, 8) =~= le::u64_bytes(m.batch_index));
    le::lemma_u64_roundtrip(b, 0, m.batch_index);
    assert(b.subrange(8, 12) =~= le::u32_bytes(m.entry_count));
    le::lemma_u32_roundtrip(b, 8, m.entry_count);
    assert(b.skip(12) =~= m@.compressed_payload);
}

/// `MANIFEST_END` payload (sender to receiver): the digest declared in
/// `MANIFEST_BEGIN` once more.
#[derive(Debug, Clone, Copy, PartialEq, Eq)]
pub struct ManifestEnd {
    /// BLAKE3 digest over the entire canonical manifest stream.
    pub manifest_hash: util::Hash,
}

/// Contents of MANIFEST_END.
#[verifier::ext_equal]
pub struct ManifestEndView {
    pub manifest_hash: Seq<u8>,
}

impl View for ManifestEnd {
    type V = ManifestEndView;

    open spec fn view(&self) -> ManifestEndView {
        ManifestEndView { manifest_hash: self.manifest_hash@ }
    }
}

impl ManifestEndView {
    /// The payload on the wire.
    pub open spec fn wire(self) -> Seq<u8> {
        self.manifest_hash
    }

    /// What decoding a payload gives. It is exactly 32 bytes long.
    pub open spec fn parse(b: Seq<u8>) -> Result<ManifestEndView, ProtocolError> {
        if b.len() != 32 {
            Err(ProtocolError::Malformed("MANIFEST_END: expected 32 bytes"))
        } else {
            Ok(ManifestEndView { manifest_hash: b })
        }
    }
}

impl ManifestEnd {
    /// Encode the payload to bytes.
    pub fn encode(&self) -> (r: Result<Bytes, ProtocolError>)
        ensures
            r matches Ok(b) && foreign::bytes_content(b) == self@.wire(),
    {
        Ok(foreign::bytes_copy_from_slice(self.manifest_hash.as_bytes().as_slice()))
    }

    /// Decode the payload from `buf`.
    pub fn decode(buf: &[u8]) -> (r: Result<Self, ProtocolError>)
        ensures
            wire::decoded(r, ManifestEndView::parse(buf@)),
    {
        match util::Hash::from_bytes(buf) {
            Some(manifest_hash) => Ok(ManifestEnd { manifest_hash }),
            None => Err(ProtocolError::Malformed("MANIFEST_END: expected 32 bytes")),
        }
    }
}

/// MANIFEST_END that was written is read back.
pub proof fn law_manifest_end_roundtrip(m: ManifestEnd)
    ensures
        ManifestEndView::parse(m@.wire()) == Ok::<ManifestEndView, ProtocolError>(m@),
{
    broadcast use util::lemma_hash_len;

}

} // verus!
