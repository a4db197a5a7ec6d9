//! Control frames and data frames.
//!
//! ```text
//! control frame: ver(1) type(1) flags(2, LE) length(varint)
//!                request_id(8, LE) payload(length)
//! data frame:    offset(8, LE) len(4, LE) flags(2, LE) reserved(2)
//!                hash(32) payload(len)
//! data preamble: transfer_id(16) file_id(8, LE) stream_seq(8, LE)
//!                reserved(24)
//! ```

use vstd::prelude::*;

use crate::error::ProtocolError;
use crate::protocol::le;
use crate::protocol::limits::{MAX_MESSAGE_SIZE, PROTOCOL_VERSION};
use crate::protocol::varint;
use crate::protocol::wire;
use crate::util;
use crate::util::TransferId;

verus! {

/// Length of the fixed prefix of a frame header: version, type and flags.
pub const FRAME_HEADER_LEN: usize = 4;

/// Total length of the data-stream preamble.
pub const DATA_PREAMBLE_LEN: usize = 56;

/// Header length of a DATA frame.
pub const DATA_FRAME_HEADER_LEN: usize = 48;

/// Maximum declared `chunk_len` of a DATA frame.
pub const DATA_MAX_CHUNK_LEN: u32 = 4 * 1024 * 1024;

/// Bitflags in the 2-byte `flags` field.
#[derive(Debug, Clone, Copy, PartialEq, Eq, Structural)]
pub struct FrameFlags(pub u16);

impl Default for FrameFlags {
    fn default() -> (r: Self)
        ensures
            r.0 == 0,
    {
        FrameFlags(0)
    }
}

impl FrameFlags {
    /// No flags set.
    pub fn none() -> (r: Self)
        ensures
            r.0 == 0,
    {
        FrameFlags(0)
    }

    /// `END_OF_SEQUENCE` (bit 0): the last frame in a logical sequence.
    pub fn end_of_sequence_flag() -> (r: Self)
        ensures
            r.0 == 1,
    {
        FrameFlags(1)
    }

    /// `COMPRESSED` (bit 1): the payload is zstd-compressed.
    pub fn compressed_flag() -> (r: Self)
        ensures
            r.0 == 2,
    {
        FrameFlags(2)
    }

    /// Returns the raw 2-byte value.
    pub fn bits(self) -> (r: u16)
        ensures
            r == self.0,
    {
        self.0
    }

    /// Constructs a `FrameFlags` from raw bits.
    pub fn from_bits_truncate(bits: u16) -> (r: Self)
        ensures
            r.0 == bits,
    {
        FrameFlags(bits)
    }

    /// True if the `END_OF_SEQUENCE` bit is set.
    pub fn end_of_sequence(self) -> (r: bool)
        ensures
            r == (self.0 & 1 != 0),
    {
        (self.0 & 1) != 0
    }

    /// True if the `COMPRESSED` bit is set.
    pub fn compressed(self) -> (r: bool)
        ensures
            r == (self.0 & 2 != 0),
    {
        (self.0 & 2) != 0
    }
}

impl std::ops::BitOr for FrameFlags {
    type Output = Self;

    fn bitor(self, rhs: Self) -> (r: Self) {
        FrameFlags(self.0 | rhs.0)
    }
}

impl vstd::std_specs::ops::BitOrSpecImpl for FrameFlags {
    open spec fn obeys_bitor_spec() -> bool {
        true
    }

    open spec fn bitor_req(self, rhs: Self) -> bool {
        true
    }

    open spec fn bitor_spec(self, rhs: Self) -> Self {
        FrameFlags(self.0 | rhs.0)
    }
}

/// A decoded frame. The payload is borrowed from the input buffer.
#[derive(Debug, Clone, Copy)]
pub struct Frame<'a> {
    /// Wire version, equal to `PROTOCOL_VERSION`.
    pub version: u8,
    /// Message type byte.
    pub type_byte: u8,
    /// Decoded flags.
    pub flags: FrameFlags,
    /// Payload byte count.
    pub length: u64,
    /// Echoed request id (zero for unsolicited messages).
    pub request_id: u64,
    /// Payload bytes.
    pub payload: &'a [u8],
}

/// What a frame carries.
#[verifier::ext_equal]
pub struct FrameView {
    pub type_byte: u8,
    pub flags: u16,
    pub request_id: u64,
    pub payload: Seq<u8>,
}

impl FrameView {
    /// The frame on the wire.
    pub open spec fn wire(self) -> Seq<u8> {
        seq![PROTOCOL_VERSION, self.type_byte] + le::le_bytes(self.flags as nat, 2)
            + varint::leb128(self.payload.len()) + le::le_bytes(self.request_id as nat, 8)
            + self.payload
    }
}

impl<'a> Frame<'a> {
    /// The frame is a whole frame of this version with these contents.
    pub open spec fn is(self, v: FrameView) -> bool {
        &&& self.version == PROTOCOL_VERSION
        &&& self.type_byte == v.type_byte
        &&& self.flags.0 == v.flags
        &&& self.length == v.payload.len()
        &&& self.request_id == v.request_id
        &&& self.payload@ == v.payload
    }
}

/// Whether the varint at the start of `b` may still go on behind its end.
pub open spec fn varint_cut_off(b: Seq<u8>) -> bool {
    varint::leb128_end(b) == b.len() && b.len() < varint::MAX_VARINT_BYTES
}

/// What decoding the frame at the start of `b` gives. A buffer that ends
/// before the frame does is `Empty`.
pub open spec fn frame_at_start(b: Seq<u8>) -> Result<FrameView, ProtocolError> {
    if b.len() < FRAME_HEADER_LEN || varint_cut_off(b.skip(4)) {
        Err(ProtocolError::Empty)
    } else {
        match varint::varint_at_start(b.skip(4)) {
            Err(e) => Err(e),
            Ok((length, n)) => if b.len() < 4 + n + 8 {
                Err(ProtocolError::Empty)
            } else if length > MAX_MESSAGE_SIZE {
                Err(ProtocolError::FrameTooLarge { declared: length, limit: MAX_MESSAGE_SIZE })
            } else if b.len() < 4 + n + 8 + length {
                Err(ProtocolError::Empty)
            } else if b[0] != PROTOCOL_VERSION {
                Err(ProtocolError::VersionMismatch { got: b[0], expected: PROTOCOL_VERSION })
            } else {
                Ok(
                    FrameView {
                        type_byte: b[1],
                        flags: le::le_at(b, 2, 2) as u16,
                        request_id: le::le_at(b, 4 + n, 8) as u64,
                        payload: b.subrange(4 + n + 8, 4 + n + 8 + length),
                    },
                )
            },
        }
    }
}

/// Total number of header bytes of a frame whose payload is `length` bytes
/// long.
pub open spec fn header_size(length: nat) -> nat {
    4 + varint::leb128(length).len() + 8
}

/// Compute the total number of header bytes for a frame with the given
/// `length` field.
pub fn header_size_for(length: u64) -> (n: usize)
    ensures
        n == header_size(length as nat),
{
    4 + varint::varint_len(length) + 8
}

/// Maximum permitted `length` of a frame.
pub fn max_message_size() -> (n: u64)
    ensures
        n == MAX_MESSAGE_SIZE,
{
    MAX_MESSAGE_SIZE
}

/// Decode the frame at the start of `buf`. A buffer that ends before the
/// frame does gives `Empty`.
pub fn decode_frame(buf: &[u8]) -> (r: Result<Frame<'_>, ProtocolError>)
    ensures
        match frame_at_start(buf@) {
            Ok(v) => r matches Ok(f) && f.is(v),
            Err(e) => r matches Err(d) && d == e,
        },
{
    if buf.len() < FRAME_HEADER_LEN {
        return Err(ProtocolError::Empty);
    }
    let rest = wire::slice_from(buf, 4);
    if cut_off(rest) {
        return Err(ProtocolError::Empty);
    }
    let (length, n) = match varint::decode_varint(rest) {
        Ok(x) => x,
        Err(e) => {
            return Err(e);
        },
    };
    let header: usize = match (4 + n).checked_add(8) {
        Some(h) => h,
        None => {
            return Err(ProtocolError::Empty);
        },
    };
    if buf.len() < header {
        return Err(ProtocolError::Empty);
    }
    let max: u64 = max_message_size();
    if length > max {
        return Err(ProtocolError::FrameTooLarge { declared: length, limit: max });
    }
    let payload_len: usize = length as usize;
    if buf.len() - header < payload_len {
        return Err(ProtocolError::Empty);
    }
    let version: u8 = buf[0];
    if version != PROTOCOL_VERSION {
        return Err(ProtocolError::VersionMismatch { got: version, expected: PROTOCOL_VERSION });
    }
    proof {
        le::lemma_pow256_values();
    }
    let flags: u64 = le::read_le(buf, 2, 2);
    let request_id: u64 = le::read_le(buf, 4 + n, 8);
    Ok(
        Frame {
            version,
            type_byte: buf[1],
            flags: FrameFlags::from_bits_truncate(flags as u16),
            length,
            request_id,
            payload: vstd::slice::slice_subrange(buf, header, header + payload_len),
        },
    )
}

/// Whether the varint at the start of `b` may still go on behind its end.
fn cut_off(b: &[u8]) -> (r: bool)
    ensures
        r == varint_cut_off(b@),
{
    if b.len() >= varint::MAX_VARINT_BYTES {
        return false;
    }
    let mut i: usize = 0;
    assert(b@.skip(0) =~= b@);
    while i < b.len()
        invariant
            i <= b.len(),
            b.len() < varint::MAX_VARINT_BYTES,
            varint::leb128_end(b@) == i + varint::leb128_end(b@.skip(i as int)),
        decreases b.len() - i,
    {
        if b[i] < 0x80 {
            return false;
        }
        assert(b@.skip(i as int).skip(1) =~= b@.skip(i + 1));
        i = i + 1;
    }
    true
}

/// Encode a frame into the front of `out`. Returns the number of bytes
/// written.
pub fn encode_frame(
    out: &mut [u8],
    type_byte: u8,
    flags: FrameFlags,
    request_id: u64,
    payload: &[u8],
) -> (n: usize)
    requires
        old(out)@.len() >= header_size(payload@.len()) + payload@.len(),
    ensures
        n == header_size(payload@.len()) + payload@.len(),
        ({
            let v = FrameView { type_byte, flags: flags.0, request_id, payload: payload@ };
            final(out)@ == v.wire() + old(out)@.skip(n as int)
        }),
{
    let ghost v = FrameView { type_byte, flags: flags.0, request_id, payload: payload@ };
    let room: usize = out.len();
    let mut head: Vec<u8> = Vec::new();
    head.push(PROTOCOL_VERSION);
    head.push(type_byte);
    le::push_le(&mut head, flags.bits() as u64, 2);
    varint::push_varint(&mut head, payload.len() as u64);
    le::push_le(&mut head, request_id, 8);
    proof {
        le::lemma_le_bytes_len(flags.0 as nat, 2);
        le::lemma_le_bytes_len(request_id as nat, 8);
        assert(head@ + payload@ =~= v.wire());
    }
    let ghost before = out@;
    wire::put_bytes(out, 0, head.as_slice());
    wire::put_bytes(out, head.len(), payload);
    assert(out@ =~= v.wire() + before.skip((head@.len() + payload@.len()) as int));
    head.len() + payload.len()
}

proof fn lemma_frame_parts(v: FrameView)
    requires
        v.payload.len() <= MAX_MESSAGE_SIZE,
    ensures
        v.wire().len() == header_size(v.payload.len()) + v.payload.len(),
        v.wire()[0] == PROTOCOL_VERSION,
        v.wire()[1] == v.type_byte,
        v.wire().subrange(2, 4) == le::le_bytes(v.flags as nat, 2),
        v.wire().skip(4) == varint::leb128(v.payload.len()) + le::le_bytes(v.request_id as nat, 8)
            + v.payload,
{
    le::lemma_le_bytes_len(v.flags as nat, 2);
    le::lemma_le_bytes_len(v.request_id as nat, 8);
    assert(v.wire().subrange(2, 4) =~= le::le_bytes(v.flags as nat, 2));
    assert(v.wire().skip(4) =~= varint::leb128(v.payload.len()) + le::le_bytes(
        v.request_id as nat,
        8,
    ) + v.payload);
}

/// A frame that was written is read back, whatever follows it.
pub proof fn law_frame_roundtrip(v: FrameView, rest: Seq<u8>)
    requires
        v.payload.len() <= MAX_MESSAGE_SIZE,
    ensures
        frame_at_start(v.wire() + rest) == Ok::<FrameView, ProtocolError>(v),
{
    lemma_frame_parts(v);
    let b = v.wire() + rest;
    let p = varint::leb128(v.payload.len());
    let tail = le::le_bytes(v.request_id as nat, 8) + v.payload + rest;
    assert(b.skip(4) =~= p + tail);
    varint::law_varint_roundtrip(v.payload.len() as u64, tail);
    varint::lemma_leb128_not_cut(v.payload.len() as u64, tail);
    let n = p.len() as int;
    assert(b.subrange(2, 4) =~= le::le_bytes(v.flags as nat, 2));
    assert(b.subrange(4 + n, 4 + n + 8) =~= le::le_bytes(v.request_id as nat, 8)) by {
        assert(b.subrange(4 + n, 4 + n + 8) =~= b.skip(4).subrange(n, n + 8));
        assert((p + tail).subrange(n, n + 8) =~= le::le_bytes(v.request_id as nat, 8)) by {
            le::lemma_le_bytes_len(v.request_id as nat, 8);
        }
    }
    assert(b.subrange(12 + n, 12 + n + v.payload.len()) =~= v.payload) by {
        le::lemma_le_bytes_len(v.request_id as nat, 8);
        assert(b.subrange(12 + n, 12 + n + v.payload.len()) =~= b.skip(4).subrange(
            8 + n,
            8 + n + v.payload.len(),
        ));
        assert((p + tail).subrange(8 + n, 8 + n + v.payload.len()) =~= v.payload);
    }
    le::lemma_pow256_values();
    le::lemma_le_roundtrip(v.flags as nat, 2);
    le::lemma_le_roundtrip(v.request_id as nat, 8);
    assert(b[0] == PROTOCOL_VERSION);
    assert(b[1] == v.type_byte);
    assert(frame_at_start(b)->Ok_0 =~= v);
}

/// A frame that is cut off anywhere reads as `Empty`.
pub proof fn law_frame_prefix_is_empty(v: FrameView, k: int)
    requires
        v.payload.len() <= MAX_MESSAGE_SIZE,
        0 <= k < v.wire().len(),
    ensures
        frame_at_start(v.wire().take(k)) == Err::<FrameView, ProtocolError>(ProtocolError::Empty),
{
    lemma_frame_parts(v);
    let b = v.wire().take(k);
    let p = varint::leb128(v.payload.len());
    if k >= 4 {
        let n = p.len() as int;
        if k - 4 < n {
            assert(b.skip(4) =~= p.take(k - 4));
            varint::lemma_leb128_prefix_cut(v.payload.len() as u64, k - 4);
        } else {
            let tail = (le::le_bytes(v.request_id as nat, 8) + v.payload).take(k - 4 - n);
            assert(b.skip(4) =~= p + tail);
            varint::law_varint_roundtrip(v.payload.len() as u64, tail);
            varint::lemma_leb128_not_cut(v.payload.len() as u64, tail);
        }
    }
}

/// Data-stream preamble, sent once at the start of every data stream.
#[derive(Debug, Clone, Copy, PartialEq, Eq)]
pub struct DataPreamble {
    /// Transfer this stream belongs to.
    pub transfer_id: TransferId,
    /// Logical file id within the transfer.
    pub file_id: u64,
    /// Stream sequence number within the transfer.
    pub stream_seq: u64,
}

/// Contents of a data-stream preamble.
#[verifier::ext_equal]
pub struct DataPreambleView {
    pub transfer_id: Seq<u8>,
    pub file_id: u64,
    pub stream_seq: u64,
}

impl View for DataPreamble {
    type V = DataPreambleView;

    open spec fn view(&self) -> DataPreambleView {
        DataPreambleView {
            transfer_id: self.transfer_id@,
            file_id: self.file_id,
            stream_seq: self.stream_seq,
        }
    }
}

impl DataPreambleView {
    /// The preamble on the wire. The last 24 bytes are reserved and zero.
    pub open spec fn wire(self) -> Seq<u8> {
        self.transfer_id + le::u64_bytes(self.file_id) + le::u64_bytes(self.stream_seq)
            + wire::zeros(24)
    }

    /// What decoding a preamble gives.
    pub open spec fn parse(b: Seq<u8>) -> Result<DataPreambleView, ProtocolError> {
        if b.len() < DATA_PREAMBLE_LEN {
            Err(ProtocolError::Malformed("data preamble: truncated"))
        } else {
            Ok(
                DataPreambleView {
                    transfer_id: b.subrange(0, 16),
                    file_id: le::u64_at(b, 16),
                    stream_seq: le::u64_at(b, 24),
                },
            )
        }
    }
}

/// Encode a [`DataPreamble`] into a 56-byte buffer.
pub fn encode_data_preamble(p: &DataPreamble) -> (out: [u8; DATA_PREAMBLE_LEN])
    ensures
        out@ == p@.wire(),
{
    broadcast use {le::group_le_lengths, util::lemma_transfer_id_len};

    let mut v: Vec<u8> = Vec::new();
    wire::push_bytes(&mut v, p.transfer_id.as_bytes().as_slice());
    le::push_u64(&mut v, p.file_id);
    le::push_u64(&mut v, p.stream_seq);
    wire::push_zeros(&mut v, 24);
    assert(v@ =~= p@.wire());
    let out: [u8; DATA_PREAMBLE_LEN] = util::array_of::<DATA_PREAMBLE_LEN>(v.as_slice());
    assert(out@ =~= p@.wire());
    out
}

/// Decode a [`DataPreamble`]. The reserved bytes are not looked at.
pub fn decode_data_preamble(buf: &[u8]) -> (r: Result<DataPreamble, ProtocolError>)
    ensures
        wire::decoded(r, DataPreambleView::parse(buf@)),
{
    if buf.len() < DATA_PREAMBLE_LEN {
        return Err(ProtocolError::Malformed("data preamble: truncated"));
    }
    Ok(
        DataPreamble {
            transfer_id: wire::read_transfer_id(buf, 0),
            file_id: le::read_u64(buf, 16),
            stream_seq: le::read_u64(buf, 24),
        },
    )
}

/// A preamble that was written is read back.
pub proof fn law_data_preamble_roundtrip(p: DataPreamble)
    ensures
        DataPreambleView::parse(p@.wire()) == Ok::<DataPreambleView, ProtocolError>(p@),
{
    broadcast use {le::group_le_lengths, util::lemma_transfer_id_len};

    let b = p@.wire();
    assert(b.subrange(0, 16) =~= p.transfer_id@);
    assert(b.subrange(16, 24) =~= le::u64_bytes(p.file_id));
    assert(b.subrange(24, 32) =~= le::u64_bytes(p.stream_seq));
    le::lemma_u64_roundtrip(b, 16, p.file_id);
    le::lemma_u64_roundtrip(b, 24, p.stream_seq);
}

/// Flags of a DATA frame. None are defined.
#[derive(Debug, Clone, Copy, PartialEq, Eq, Structural)]
pub struct DataFrameFlags(pub u16);

impl Default for DataFrameFlags {
    fn default() -> (r: Self)
        ensures
            r.0 == 0,
    {
        DataFrameFlags(0)
    }
}

impl DataFrameFlags {
    /// No flags set.
    pub fn none() -> (r: Self)
        ensures
            r.0 == 0,
    {
        DataFrameFlags(0)
    }

    /// Returns the raw 2-byte value.
    pub fn bits(self) -> (r: u16)
        ensures
            r == self.0,
    {
        self.0
    }

    /// Constructs the flags from raw bits.
    pub fn from_bits_truncate(bits: u16) -> (r: Self)
        ensures
            r.0 == bits,
    {
        DataFrameFlags(bits)
    }
}

/// A DATA frame header.
#[derive(Debug, Clone, Copy, PartialEq, Eq)]
pub struct DataFrameHeader {
    /// Byte offset of the chunk in the file.
    pub chunk_offset: u64,
    /// Length of the chunk.
    pub chunk_len: u32,
    pub flags: DataFrameFlags,
    /// Digest of the chunk.
    pub chunk_hash: util::Hash,
}

/// A DATA frame: header plus a borrowed payload.
#[derive(Debug, Clone, Copy)]
pub struct DataFrame<'a> {
    pub chunk_offset: u64,
    pub chunk_len: u32,
    pub flags: DataFrameFlags,
    pub chunk_hash: util::Hash,
    pub payload: &'a [u8],
}

/// Contents of a DATA frame header.
#[verifier::ext_equal]
pub struct DataFrameHeaderView {
    pub chunk_offset: u64,
    pub chunk_len: u32,
    pub flags: u16,
    pub chunk_hash: Seq<u8>,
}

impl View for DataFrameHeader {
    type V = DataFrameHeaderView;

    open spec fn view(&self) -> DataFrameHeaderView {
        DataFrameHeaderView {
            chunk_offset: self.chunk_offset,
            chunk_len: self.chunk_len,
            flags: self.flags.0,
            chunk_hash: self.chunk_hash@,
        }
    }
}

impl DataFrameHeaderView {
    /// The header on the wire.
    pub open spec fn wire(self) -> Seq<u8> {
        le::u64_bytes(self.chunk_offset) + le::u32_bytes(self.chunk_len) + le::u16_bytes(self.flags)
            + wire::zeros(2) + self.chunk_hash
    }

    /// What decoding a header gives.
    pub open spec fn parse(b: Seq<u8>) -> Result<DataFrameHeaderView, ProtocolError> {
        if b.len() < DATA_FRAME_HEADER_LEN {
            Err(ProtocolError::Malformed("data frame: truncated header"))
        } else if le::u32_at(b, 8) > DATA_MAX_CHUNK_LEN {
            Err(ProtocolError::Malformed("data frame: chunk_len > max"))
        } else if le::u16_at(b, 14) != 0 {
            Err(ProtocolError::Malformed("data frame: reserved bits set"))
        } else {
            Ok(
                DataFrameHeaderView {
                    chunk_offset: le::u64_at(b, 0),
                    chunk_len: le::u32_at(b, 8),
                    flags: le::u16_at(b, 12),
                    chunk_hash: b.subrange(16, 48),
                },
            )
        }
    }
}

/// Encode a DATA frame header into `out`, which is exactly as long.
pub fn encode_data_frame_header(
    out: &mut [u8],
    chunk_offset: u64,
    chunk_len: u32,
    flags: DataFrameFlags,
    chunk_hash: &util::Hash,
)
    requires
        old(out)@.len() == DATA_FRAME_HEADER_LEN,
    ensures
        ({
            let v = DataFrameHeaderView {
                chunk_offset,
                chunk_len,
                flags: flags.0,
                chunk_hash: chunk_hash@,
            };
            final(out)@ == v.wire()
        }),
{
    broadcast use {le::group_le_lengths, util::lemma_hash_len};

    let ghost v = DataFrameHeaderView {
        chunk_offset,
        chunk_len,
        flags: flags.0,
        chunk_hash: chunk_hash@,
    };
    let mut head: Vec<u8> = Vec::new();
    le::push_u64(&mut head, chunk_offset);
    le::push_u32(&mut head, chunk_len);
    le::push_u16(&mut head, flags.bits());
    wire::push_zeros(&mut head, 2);
    wire::push_bytes(&mut head, chunk_hash.as_bytes().as_slice());
    assert(head@ =~= v.wire());
    wire::put_bytes(out, 0, head.as_slice());
    assert(out@ =~= v.wire());
}

/// Decode a DATA frame header. Returns the header and the bytes behind it.
pub fn decode_data_frame_header(buf: &[u8]) -> (r: Result<(DataFrameHeader, &[u8]), ProtocolError>)
    ensures
        match DataFrameHeaderView::parse(buf@) {
            Ok(v) => r matches Ok((h, rest)) && h@ == v && rest@ == buf@.skip(
                DATA_FRAME_HEADER_LEN as int,
            ),
            Err(e) => r matches Err(d) && d == e,
        },
{
    if buf.len() < DATA_FRAME_HEADER_LEN {
        return Err(ProtocolError::Malformed("data frame: truncated header"));
    }
    let chunk_len: u32 = le::read_u32(buf, 8);
    if chunk_len > DATA_MAX_CHUNK_LEN {
        return Err(ProtocolError::Malformed("data frame: chunk_len > max"));
    }
    if le::read_u16(buf, 14) != 0 {
        return Err(ProtocolError::Malformed("data frame: reserved bits set"));
    }
    let h = DataFrameHeader {
        chunk_offset: le::read_u64(buf, 0),
        chunk_len,
        flags: DataFrameFlags::from_bits_truncate(le::read_u16(buf, 12)),
        chunk_hash: wire::read_hash(buf, 16),
    };
    Ok((h, wire::slice_from(buf, DATA_FRAME_HEADER_LEN)))
}

/// Encode a full DATA frame. The payload is appended as it is.
pub fn encode_data_frame(
    chunk_offset: u64,
    chunk_len: u32,
    flags: DataFrameFlags,
    chunk_hash: &util::Hash,
    payload: &[u8],
) -> (out: Vec<u8>)
    requires
        payload@.len() == chunk_len,
    ensures
        ({
            let v = DataFrameHeaderView {
                chunk_offset,
                chunk_len,
                flags: flags.0,
                chunk_hash: chunk_hash@,
            };
            out@ == v.wire() + payload@
        }),
{
    let mut head: [u8; DATA_FRAME_HEADER_LEN] = [0u8; DATA_FRAME_HEADER_LEN];
    encode_data_frame_header(&mut head, chunk_offset, chunk_len, flags, chunk_hash);
    let mut out: Vec<u8> = Vec::new();
    wire::push_bytes(&mut out, head.as_slice());
    wire::push_bytes(&mut out, payload);
    assert(out@ =~= head@ + payload@);
    out
}

/// A header that was written is read back, whatever payload follows it.
pub proof fn law_data_frame_roundtrip(h: DataFrameHeader, payload: Seq<u8>)
    requires
        h.chunk_len <= DATA_MAX_CHUNK_LEN,
    ensures
        DataFrameHeaderView::parse(h@.wire() + payload) == Ok::<DataFrameHeaderView, ProtocolError>(
            h@,
        ),
        (h@.wire() + payload).skip(DATA_FRAME_HEADER_LEN as int) == payload,
{
    broadcast use {le::group_le_lengths, util::lemma_hash_len};

    let b = h@.wire() + payload;
    assert(b.subrange(0, 8) =~= le::u64_bytes(h.chunk_offset));
    assert(b.subrange(8, 12) =~= le::u32_bytes(h.chunk_len));
    assert(b.subrange(12, 14) =~= le::u16_bytes(h.flags.0));
    assert(b.subrange(14, 16) =~= wire::zeros(2));
    assert(wire::zeros(2) =~= le::u16_bytes(0)) by {
        reveal_with_fuel(le::le_bytes, 3);
    }
    assert(b.subrange(16, 48) =~= h.chunk_hash@);
    le::lemma_u64_roundtrip(b, 0, h.chunk_offset);
    le::lemma_u32_roundtrip(b, 8, h.chunk_len);
    le::lemma_u16_roundtrip(b, 12, h.flags.0);
    le::lemma_u16_roundtrip(b, 14, 0);
    assert(b.skip(48) =~= payload);
}

} // verus!
