//! Messages by which the two sides find out which chunks are present.

use vstd::prelude::*;

use bytes::Bytes;

use crate::error::ProtocolError;
use crate::foreign;
use crate::protocol::le;
use crate::protocol::limits::MAX_MANIFEST_ENTRIES;
use crate::protocol::varint;
use crate::protocol::wire;
use crate::util;
use crate::util::TransferId;

verus! {

/// `INVENTORY_HINT` payload (receiver to sender): a Bloom filter over the chunks
/// that the receiver holds.
#[derive(Debug, Clone, PartialEq, Eq)]
pub struct InventoryHint {
    /// Associated transfer.
    pub transfer_id: TransferId,
    /// Declared number of bits in the filter.
    pub filter_bits: u32,
    /// Number of hash functions used.
    pub num_hashes: u8,
    /// Filter bits.
    pub bitset: Bytes,
}

/// Contents of INVENTORY_HINT.
#[verifier::ext_equal]
pub struct InventoryHintView {
    pub transfer_id: Seq<u8>,
    pub filter_bits: u32,
    pub num_hashes: u8,
    pub bitset: Seq<u8>,
}

impl View for InventoryHint {
    type V = InventoryHintView;

    open spec fn view(&self) -> InventoryHintView {
        InventoryHintView {
            transfer_id: self.transfer_id@,
            filter_bits: self.filter_bits,
            num_hashes: self.num_hashes,
            bitset: foreign::bytes_content(self.bitset),
        }
    }
}

impl InventoryHintView {
    /// The payload on the wire.
    pub open spec fn wire(self) -> Seq<u8> {
        self.transfer_id + le::u32_bytes(self.filter_bits) + seq![self.num_hashes] + self.bitset
    }

    /// What decoding a payload gives.
    pub open spec fn parse(b: Seq<u8>) -> Result<InventoryHintView, ProtocolError> {
        if b.len() < 21 {
            Err(ProtocolError::Malformed("INVENTORY_HINT: truncated"))
        } else {
            Ok(
                InventoryHintView {
                    transfer_id: b.subrange(0, 16),
                    filter_bits: le::u32_at(b, 16),
                    num_hashes: b[20],
                    bitset: b.skip(21),
                },
            )
        }
    }
}

impl InventoryHint {
    /// Encode the payload to bytes.
    pub fn encode(&self) -> (r: Result<Bytes, ProtocolError>)
        ensures
            r matches Ok(b) && foreign::bytes_content(b) == self@.wire(),
    {
        let mut out: Vec<u8> = Vec::new();
        wire::push_bytes(&mut out, self.transfer_id.as_bytes().as_slice());
        le::push_u32(&mut out, self.filter_bits);
        out.push(self.num_hashes);
        wire::push_bytes(&mut out, foreign::bytes_as_slice(&self.bitset));
        assert(out@ =~= self@.wire());
        Ok(foreign::bytes_from_vec(out))
    }

    /// Decode the payload from `buf`.
    pub fn decode(buf: &[u8]) -> (r: Result<Self, ProtocolError>)
        ensures
            wire::decoded(r, InventoryHintView::parse(buf@)),
    {
        if buf.len() < 21 {
            return Err(ProtocolError::Malformed("INVENTORY_HINT: truncated"));
        }
        Ok(
            InventoryHint {
                transfer_id: wire::read_transfer_id(buf, 0),
                filter_bits: le::read_u32(buf, 16),
                num_hashes: buf[20],
                bitset: foreign::bytes_copy_from_slice(wire::slice_from(buf, 21)),
            },
        )
    }
}

/// INVENTORY_HINT that was written is read back.
pub proof fn law_inventory_hint_roundtrip(m: InventoryHint)
    ensures
        InventoryHintView::parse(m@.wire()) == Ok::<InventoryHintView, ProtocolError>(m@),
{
    broadcast use {le::group_le_lengths, util::lemma_transfer_id_len, util::lemma_hash_len};

    let b = m@.wire();
    assert(b.subrange(0, 16) =~= m.transfer_id@);
    assert(b.subrange(16, 20) =~= le::u32_bytes(m.filter_bits));
    le::lemma_u32_roundtrip(b, 16, m.filter_bits);
    assert(b.skip(21) =~= m@.bitset);
}

/// `CHUNK_QUERY` payload (sender to receiver): a batch of chunk digests.
///
/// ```text
/// transfer_id(16) query_seq(u64) count(varint) hashes(32 each)
/// ```
#[derive(Debug, Clone, PartialEq, Eq)]
pub struct ChunkQuery {
    /// Associated transfer.
    pub transfer_id: TransferId,
    /// Query sequence index.
    pub query_seq: u64,
    /// Digests of the chunks queried.
    pub chunk_hashes: Vec<util::Hash>,
}

/// Contents of CHUNK_QUERY.
#[verifier::ext_equal]
pub struct ChunkQueryView {
    pub transfer_id: Seq<u8>,
    pub query_seq: u64,
    pub chunk_hashes: Seq<Seq<u8>>,
}

impl View for ChunkQuery {
    type V = ChunkQueryView;

    open spec fn view(&self) -> ChunkQueryView {
        ChunkQueryView {
            transfer_id: self.transfer_id@,
            query_seq: self.query_seq,
            chunk_hashes: self.chunk_hashes@.map_values(|h: util::Hash| h@),
        }
    }
}

/// Digests one after the other.
pub open spec fn hashes_bytes(s: Seq<Seq<u8>>) -> Seq<u8>
    decreases s.len(),
{
    if s.len() == 0 {
        Seq::empty()
    } else {
        hashes_bytes(s.drop_last()) + s.last()
    }
}

/// The `n` digests that start at `i` in `b`.
pub open spec fn hashes_at(b: Seq<u8>, i: int, n: nat) -> Seq<Seq<u8>> {
    Seq::new(n, |k: int| b.subrange(i + 32 * k, i + 32 * k + 32))
}

impl ChunkQueryView {
    /// The payload on the wire.
    pub open spec fn wire(self) -> Seq<u8> {
        self.transfer_id + le::u64_bytes(self.query_seq) + varint::leb128(self.chunk_hashes.len())
            + hashes_bytes(self.chunk_hashes)
    }

    /// What decoding a payload gives.
    pub open spec fn parse(b: Seq<u8>) -> Result<ChunkQueryView, ProtocolError> {
        if b.len() < 24 {
            Err(ProtocolError::Malformed("CHUNK_QUERY: truncated"))
        } else {
            match varint::varint_at_start(b.skip(24)) {
                Err(e) => Err(e),
                Ok((count, c)) => if count > MAX_MANIFEST_ENTRIES {
                    Err(ProtocolError::Malformed("CHUNK_QUERY: too many hashes"))
                } else if b.len() < 24 + c + 32 * count {
                    Err(ProtocolError::Malformed("CHUNK_QUERY: truncated hashes"))
                } else {
                    Ok(
                        ChunkQueryView {
                            transfer_id: b.subrange(0, 16),
                            query_seq: le::u64_at(b, 16),
                            chunk_hashes: hashes_at(b, 24 + c, count as nat),
                        },
                    )
                },
            }
        }
    }
}

impl ChunkQuery {
    /// Encode the payload to bytes.
    pub fn encode(&self) -> (r: Result<Bytes, ProtocolError>)
        ensures
            r matches Ok(b) && foreign::bytes_content(b) == self@.wire(),
    {
        let ghost s = self@.chunk_hashes;
        let mut out: Vec<u8> = Vec::new();
        wire::push_bytes(&mut out, self.transfer_id.as_bytes().as_slice());
        le::push_u64(&mut out, self.query_seq);
        varint::push_varint(&mut out, self.chunk_hashes.len() as u64);
        let ghost head = out@;
        let mut k: usize = 0;
        assert(s.take(0) =~= Seq::<Seq<u8>>::empty());
        assert(head + Seq::<u8>::empty() =~= head);
        while k < self.chunk_hashes.len()
            invariant
                k <= self.chunk_hashes.len() == s.len(),
                s == self@.chunk_hashes,
                out@ == head + hashes_bytes(s.take(k as int)),
            decreases self.chunk_hashes.len() - k,
        {
            wire::push_bytes(&mut out, self.chunk_hashes[k].as_bytes().as_slice());
            proof {
                assert(s.take(k + 1).drop_last() =~= s.take(k as int));
                assert(out@ =~= head + hashes_bytes(s.take(k + 1)));
            }
            k = k + 1;
        }
        assert(s.take(k as int) =~= s);
        assert(out@ =~= self@.wire());
        Ok(foreign::bytes_from_vec(out))
    }

    /// Decode the payload from `buf`.
    pub fn decode(buf: &[u8]) -> (r: Result<Self, ProtocolError>)
        ensures
            wire::decoded(r, ChunkQueryView::parse(buf@)),
    {
        if buf.len() < 24 {
            return Err(ProtocolError::Malformed("CHUNK_QUERY: truncated"));
        }
        let (count, c) = match varint::decode_varint(wire::slice_from(buf, 24)) {
            Ok(x) => x,
            Err(e) => {
                return Err(e);
            },
        };
        if count > MAX_MANIFEST_ENTRIES {
            return Err(ProtocolError::Malformed("CHUNK_QUERY: too many hashes"));
        }
        let n: usize = count as usize;
        let start: usize = 24 + c;
        if (buf.len() - start) / 32 < n {
            return Err(ProtocolError::Malformed("CHUNK_QUERY: truncated hashes"));
        }
        let mut chunk_hashes: Vec<util::Hash> = Vec::new();
        let mut k: usize = 0;
        while k < n
            invariant
                k <= n,
                start + 32 * n <= buf.len(),
                chunk_hashes@.len() == k,
                forall|j: int|
                    0 <= j < k ==> (#[trigger] chunk_hashes@[j])@ == buf@.subrange(
                        start + 32 * j,
                        start + 32 * j + 32,
                    ),
            decreases n - k,
        {
            chunk_hashes.push(wire::read_hash(buf, start + 32 * k));
            k = k + 1;
        }
        let m = ChunkQuery {
            transfer_id: wire::read_transfer_id(buf, 0),
            query_seq: le::read_u64(buf, 16),
            chunk_hashes,
        };
        assert(m@.chunk_hashes =~= hashes_at(buf@, start as int, n as nat));
        Ok(m)
    }
}

proof fn lemma_hashes_bytes(s: Seq<Seq<u8>>, k: int)
    requires
        forall|j: int| 0 <= j < s.len() ==> (#[trigger] s[j]).len() == 32,
    ensures
        hashes_bytes(s).len() == 32 * s.len(),
        0 <= k < s.len() ==> hashes_bytes(s).subrange(32 * k, 32 * k + 32) == s[k],
    decreases s.len(),
{
    if s.len() > 0 {
        let t = s.drop_last();
        assert forall|j: int| 0 <= j < t.len() implies (#[trigger] t[j]).len() == 32 by {
            assert(t[j] == s[j]);
        }
        lemma_hashes_bytes(t, k);
        assert(s.last().len() == 32);
        if 0 <= k < t.len() {
            assert(hashes_bytes(s).subrange(32 * k, 32 * k + 32) =~= hashes_bytes(t).subrange(
                32 * k,
                32 * k + 32,
            ));
        } else if k == t.len() {
            assert(hashes_bytes(s).subrange(32 * k, 32 * k + 32) =~= s.last());
        }
    }
}

/// CHUNK_QUERY within the limit that was written is read back.
pub proof fn law_chunk_query_roundtrip(m: ChunkQuery)
    requires
        m.chunk_hashes@.len() <= MAX_MANIFEST_ENTRIES,
    ensures
        ChunkQueryView::parse(m@.wire()) == Ok::<ChunkQueryView, ProtocolError>(m@),
{
    broadcast use {le::group_le_lengths, util::lemma_transfer_id_len, util::lemma_hash_len};

    let b = m@.wire();
    let s = m@.chunk_hashes;
    let e = varint::leb128(s.len());
    assert(b.subrange(0, 16) =~= m.transfer_id@);
    assert(b.subrange(16, 24) =~= le::u64_bytes(m.query_seq));
    le::lemma_u64_roundtrip(b, 16, m.query_seq);
    assert(b.skip(24) =~= e + hashes_bytes(s));
    varint::law_varint_roundtrip(s.len() as u64, hashes_bytes(s));
    let i = 24 + e.len() as int;
    assert forall|j: int| 0 <= j < s.len() implies (#[trigger] s[j]).len() == 32 by {}
    lemma_hashes_bytes(s, -1);
    assert forall|k: int| 0 <= k < s.len() implies #[trigger] hashes_at(b, i, s.len())[k]
        == s[k] by {
        lemma_hashes_bytes(s, k);
        assert(b.subrange(i + 32 * k, i + 32 * k + 32) =~= hashes_bytes(s).subrange(
            32 * k,
            32 * k + 32,
        ));
    }
    assert(hashes_at(b, i, s.len()) =~= s);
}

/// `CHUNK_RESPONSE` payload (receiver to sender): a run-length encoded bitmap of
/// the chunks present, in the order of the query.
#[derive(Debug, Clone, PartialEq, Eq)]
pub struct ChunkResponse {
    /// Associated transfer.
    pub transfer_id: TransferId,
    /// Sequence of the query answered.
    pub query_seq: u64,
    /// Number of chunks covered.
    pub total_chunks: u32,
    /// Number of chunks the receiver has.
    pub have_count: u32,
    /// Run-length encoded bitmap.
    pub rle_bitmap: Bytes,
}

/// Contents of CHUNK_RESPONSE.
#[verifier::ext_equal]
pub struct ChunkResponseView {
    pub transfer_id: Seq<u8>,
    pub query_seq: u64,
    pub total_chunks: u32,
    pub have_count: u32,
    pub rle_bitmap: Seq<u8>,
}

impl View for ChunkResponse {
    type V = ChunkResponseView;

    open spec fn view(&self) -> ChunkResponseView {
        ChunkResponseView {
            transfer_id: self.transfer_id@,
            query_seq: self.query_seq,
            total_chunks: self.total_chunks,
            have_count: self.have_count,
            rle_bitmap: foreign::bytes_content(self.rle_bitmap),
        }
    }
}

impl ChunkResponseView {
    /// The payload on the wire.
    pub open spec fn wire(self) -> Seq<u8> {
        self.transfer_id + le::u64_bytes(self.query_seq) + le::u32_bytes(self.total_chunks) + le::u32_bytes(self.have_count) + self.rle_bitmap
    }

    /// What decoding a payload gives.
    pub open spec fn parse(b: Seq<u8>) -> Result<ChunkResponseView, ProtocolError> {
        if b.len() < 32 {
            Err(ProtocolError::Malformed("CHUNK_RESPONSE: truncated"))
        } else {
            Ok(
                ChunkResponseView {
                    transfer_id: b.subrange(0, 16),
                    query_seq: le::u64_at(b, 16),
                    total_chunks: le::u32_at(b, 24),
                    have_count: le::u32_at(b, 28),
                    rle_bitmap: b.skip(32),
                },
            )
        }
    }
}

impl ChunkResponse {
    /// Encode the payload to bytes.
    pub fn encode(&self) -> (r: Result<Bytes, ProtocolError>)
        ensures
            r matches Ok(b) && foreign::bytes_content(b) == self@.wire(),
    {
        let mut out: Vec<u8> = Vec::new();
        wire::push_bytes(&mut out, self.transfer_id.as_bytes().as_slice());
        le::push_u64(&mut out, self.query_seq);
        le::push_u32(&mut out, self.total_chunks);
        le::push_u32(&mut out, self.have_count);
        wire::push_bytes(&mut out, foreign::bytes_as_slice(&self.rle_bitmap));
        assert(out@ =~= self@.wire());
        Ok(foreign::bytes_from_vec(out))
    }

    /// Decode the payload from `buf`.
    pub fn decode(buf: &[u8]) -> (r: Result<Self, ProtocolError>)
        ensures
            wire::decoded(r, ChunkResponseView::parse(buf@)),
    {
        if buf.len() < 32 {
            return Err(ProtocolError::Malformed("CHUNK_RESPONSE: truncated"));
        }
        Ok(
            ChunkResponse {
                transfer_id: wire::read_transfer_id(buf, 0),
                query_seq: le::read_u64(buf, 16),
                total_chunks: le::read_u32(buf, 24),
                have_count: le::read_u32(buf, 28),
                rle_bitmap: foreign::bytes_copy_from_slice(wire::slice_from(buf, 32)),
            },
        )
    }
}

/// CHUNK_RESPONSE that was written is read back.
pub proof fn law_chunk_response_roundtrip(m: ChunkResponse)
    ensures
        ChunkResponseView::parse(m@.wire()) == Ok::<ChunkResponseView, ProtocolError>(m@),
{
    broadcast use {le::group_le_lengths, util::lemma_transfer_id_len, util::lemma_hash_len};

    let b = m@.wire();
    assert(b.subrange(0, 16) =~= m.transfer_id@);
    assert(b.subrange(16, 24) =~= le::u64_bytes(m.query_seq));
    le::lemma_u64_roundtrip(b, 16, m.query_seq);
    assert(b.subrange(24, 28) =~= le::u32_bytes(m.total_chunks));
    le::lemma_u32_roundtrip(b, 24, m.total_chunks);
    assert(b.subrange(28, 32) =~= le::u32_bytes(m.have_count));
    le::lemma_u32_roundtrip(b, 28, m.have_count);
    assert(b.skip(32) =~= m@.rle_bitmap);
}

} // verus!
