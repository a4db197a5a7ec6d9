//! Where the fields of frames and messages stand on the wire.

use vstd::prelude::*;
use vstd::utf8;

use crate::foreign;
use crate::protocol::capabilities;
use crate::protocol::capabilities::{Capabilities, Capability};
use crate::protocol::error;
use crate::protocol::error::ErrorCode;
use crate::protocol::frame;
use crate::protocol::frame::{DataFrameHeaderView, DataPreamble, FrameView};
use crate::protocol::indices;
use crate::protocol::le;
use crate::protocol::message::delta;
use crate::protocol::message::{
    Auth, Bye, Cancel, ChunkQuery, ChunkResponse, Commit, Committed, ErrorMsg, Hello, HelloAck,
    InventoryHint, ManifestBatch, ManifestBegin, ManifestEnd, MessageView, Ping, Resume,
    SessionOptions, StatQuery, TransferBegin, TransferCreate, TransferCreated, TransferOp,
    TransferPlan, Verify, VerifyResult,
};
use crate::protocol::varint;
use crate::protocol::wire;
use crate::util;

verus! {

/// The number in two bytes, the lower byte first.
pub open spec fn little2(b: Seq<u8>, i: int) -> int {
    b[i] + 256 * b[i + 1]
}

/// The number in four bytes, the lowest first.
pub open spec fn little4(b: Seq<u8>, i: int) -> int {
    little2(b, i) + 65536 * little2(b, i + 2)
}

/// The number in eight bytes, the lowest first.
pub open spec fn little8(b: Seq<u8>, i: int) -> int {
    little4(b, i) + 4294967296 * little4(b, i + 4)
}

proof fn lemma_le_value(s: Seq<u8>)
    ensures
        s.len() == 2 ==> le::le_value(s) == little2(s, 0),
        s.len() == 4 ==> le::le_value(s) == little4(s, 0),
        s.len() == 8 ==> le::le_value(s) == little8(s, 0),
{
    reveal_with_fuel(le::le_value, 9);
}

/// Integers are read with the lowest byte first.
pub proof fn law_integers_are_little_endian(b: Seq<u8>, i: int)
    requires
        0 <= i,
    ensures
        i + 2 <= b.len() ==> le::u16_at(b, i) == little2(b, i),
        i + 4 <= b.len() ==> le::u32_at(b, i) == little4(b, i),
        i + 8 <= b.len() ==> le::u64_at(b, i) == little8(b, i),
{
    if i + 2 <= b.len() {
        lemma_le_value(b.subrange(i, i + 2));
    }
    if i + 4 <= b.len() {
        lemma_le_value(b.subrange(i, i + 4));
    }
    if i + 8 <= b.len() {
        lemma_le_value(b.subrange(i, i + 8));
    }
}

proof fn lemma_put2(b: Seq<u8>, i: int, v: u16)
    requires
        0 <= i,
        i + 2 <= b.len(),
        b.subrange(i, i + 2) == le::u16_bytes(v),
    ensures
        little2(b, i) == v,
{
    le::lemma_u16_roundtrip(b, i, v);
    law_integers_are_little_endian(b, i);
}

proof fn lemma_put4(b: Seq<u8>, i: int, v: u32)
    requires
        0 <= i,
        i + 4 <= b.len(),
        b.subrange(i, i + 4) == le::u32_bytes(v),
    ensures
        little4(b, i) == v,
{
    le::lemma_u32_roundtrip(b, i, v);
    law_integers_are_little_endian(b, i);
}

proof fn lemma_put8(b: Seq<u8>, i: int, v: u64)
    requires
        0 <= i,
        i + 8 <= b.len(),
        b.subrange(i, i + 8) == le::u64_bytes(v),
    ensures
        little8(b, i) == v,
{
    le::lemma_u64_roundtrip(b, i, v);
    law_integers_are_little_endian(b, i);
}

/// Integers are written with the lowest byte first.
pub proof fn law_integers_are_written_little_endian(a: u16, b: u32, c: u64)
    ensures
        le::u16_bytes(a).len() == 2,
        le::u32_bytes(b).len() == 4,
        le::u64_bytes(c).len() == 8,
        little2(le::u16_bytes(a), 0) == a,
        little4(le::u32_bytes(b), 0) == b,
        little8(le::u64_bytes(c), 0) == c,
{
    broadcast use le::group_le_lengths;

    assert(le::u16_bytes(a).subrange(0, 2) =~= le::u16_bytes(a));
    assert(le::u32_bytes(b).subrange(0, 4) =~= le::u32_bytes(b));
    assert(le::u64_bytes(c).subrange(0, 8) =~= le::u64_bytes(c));
    lemma_put2(le::u16_bytes(a), 0, a);
    lemma_put4(le::u32_bytes(b), 0, b);
    lemma_put8(le::u64_bytes(c), 0, c);
}

/// A varint has seven bits a byte, the lowest first, and a mark on every byte
/// but the last.
pub proof fn law_varint_bytes(v: nat)
    ensures
        v < 128 ==> varint::leb128(v) == seq![v as u8],
        128 <= v < 16384 ==> varint::leb128(v) == seq![(128 + v % 128) as u8, (v / 128) as u8],
        16384 <= v < 2097152 ==> varint::leb128(v) == seq![
            (128 + v % 128) as u8,
            (128 + (v / 128) % 128) as u8,
            (v / 16384) as u8,
        ],
{
    reveal_with_fuel(varint::leb128, 4);
    if 128 <= v < 16384 {
        assert(varint::leb128(v) =~= seq![(128 + v % 128) as u8, (v / 128) as u8]);
    }
    if 16384 <= v < 2097152 {
        assert(varint::leb128(v) =~= seq![
            (128 + v % 128) as u8,
            (128 + (v / 128) % 128) as u8,
            (v / 16384) as u8,
        ]);
    }
}

/// A text is its length in bytes as a varint, and its bytes.
pub proof fn law_text_bytes(s: Seq<char>)
    requires
        utf8::encode_utf8(s).len() < 128,
    ensures
        wire::text_bytes(s) == seq![utf8::encode_utf8(s).len() as u8] + utf8::encode_utf8(s),
{
    law_varint_bytes(utf8::encode_utf8(s).len());
}

/// A frame: version, type, flags in two bytes, the length of the payload as a
/// varint, the request id in eight bytes, and the payload.
pub proof fn law_frame_layout(f: FrameView)
    ensures
        ({
            let w = f.wire();
            let n = varint::leb128(f.payload.len()).len() as int;
            &&& w.len() == 12 + n + f.payload.len()
            &&& w[0] == 1
            &&& w[1] == f.type_byte
            &&& little2(w, 2) == f.flags
            &&& w.subrange(4, 4 + n) == varint::leb128(f.payload.len())
            &&& little8(w, 4 + n) == f.request_id
            &&& w.skip(12 + n) == f.payload
        }),
{
    broadcast use le::group_le_lengths;

    let w = f.wire();
    let n = varint::leb128(f.payload.len()).len() as int;
    assert(w.subrange(2, 4) =~= le::u16_bytes(f.flags));
    lemma_put2(w, 2, f.flags);
    assert(w.subrange(4, 4 + n) =~= varint::leb128(f.payload.len()));
    assert(w.subrange(4 + n, 12 + n) =~= le::u64_bytes(f.request_id));
    lemma_put8(w, 4 + n, f.request_id);
    assert(w.skip(12 + n) =~= f.payload);
}

/// The preamble of a data stream: the transfer, the file, the number of the
/// stream, and reserved bytes.
pub proof fn law_data_preamble_layout(p: DataPreamble)
    ensures
        ({
            let w = p@.wire();
            &&& w.len() == 56
            &&& w.subrange(0, 16) == p.transfer_id@
            &&& little8(w, 16) == p.file_id
            &&& little8(w, 24) == p.stream_seq
            &&& forall|k: int| 32 <= k < 56 ==> w[k] == 0
        }),
{
    broadcast use {le::group_le_lengths, util::lemma_transfer_id_len};

    let w = p@.wire();
    assert(w.subrange(0, 16) =~= p.transfer_id@);
    assert(w.subrange(16, 24) =~= le::u64_bytes(p.file_id));
    lemma_put8(w, 16, p.file_id);
    assert(w.subrange(24, 32) =~= le::u64_bytes(p.stream_seq));
    lemma_put8(w, 24, p.stream_seq);
}

/// The header of a chunk on a data stream: where the chunk goes, its length,
/// flags, reserved bytes, and its digest.
pub proof fn law_data_header_layout(h: DataFrameHeaderView)
    requires
        h.chunk_hash.len() == 32,
    ensures
        ({
            let w = h.wire();
            &&& w.len() == 48
            &&& little8(w, 0) == h.chunk_offset
            &&& little4(w, 8) == h.chunk_len
            &&& little2(w, 12) == h.flags
            &&& w[14] == 0 && w[15] == 0
            &&& w.subrange(16, 48) == h.chunk_hash
        }),
{
    broadcast use le::group_le_lengths;

    let w = h.wire();
    assert(w.subrange(0, 8) =~= le::u64_bytes(h.chunk_offset));
    lemma_put8(w, 0, h.chunk_offset);
    assert(w.subrange(8, 12) =~= le::u32_bytes(h.chunk_len));
    lemma_put4(w, 8, h.chunk_len);
    assert(w.subrange(12, 14) =~= le::u16_bytes(h.flags));
    lemma_put2(w, 12, h.flags);
    assert(w.subrange(16, 48) =~= h.chunk_hash);
}

/// The byte of an operation.
pub proof fn law_operation_bytes(op: TransferOp)
    ensures
        op.wire() == match op {
            TransferOp::Upload => 1u8,
            TransferOp::Download => 2,
            TransferOp::SyncUpload => 3,
            TransferOp::SyncDownload => 4,
            TransferOp::Delete => 5,
        },
{
}

/// TRANSFER_CREATE: the operation, reserved bytes, three texts, the size and
/// the digest.
pub proof fn law_transfer_create_layout(m: TransferCreate)
    ensures
        ({
            let w = m@.wire();
            let a = wire::text_bytes(m.src_path@);
            let b = wire::text_bytes(m.dst_path@);
            let c = wire::text_bytes(m.idempotency_key@);
            let i = 8 + a.len() as int;
            let j = i + b.len() as int;
            let k = j + c.len() as int;
            &&& w.len() == k + 40
            &&& w[0] == m.op.wire()
            &&& forall|x: int| 1 <= x < 8 ==> w[x] == 0
            &&& w.subrange(8, i) == a
            &&& w.subrange(i, j) == b
            &&& w.subrange(j, k) == c
            &&& little8(w, k) == m.file_size
            &&& w.subrange(k + 8, k + 40) == m.file_hash@
        }),
{
    broadcast use {le::group_le_lengths, util::lemma_hash_len};

    let w = m@.wire();
    let a = wire::text_bytes(m.src_path@);
    let b = wire::text_bytes(m.dst_path@);
    let c = wire::text_bytes(m.idempotency_key@);
    let i = 8 + a.len() as int;
    let j = i + b.len() as int;
    let k = j + c.len() as int;
    assert(w.subrange(8, i) =~= a);
    assert(w.subrange(i, j) =~= b);
    assert(w.subrange(j, k) =~= c);
    assert(w.subrange(k, k + 8) =~= le::u64_bytes(m.file_size));
    lemma_put8(w, k, m.file_size);
    assert(w.subrange(k + 8, k + 40) =~= m.file_hash@);
}

/// The messages about the start of a transfer.
pub proof fn law_start_messages_layout(m: TransferCreated, p: TransferPlan, b: TransferBegin)
    ensures
        ({
            let w = m@.wire();
            &&& w.len() == 32
            &&& w.subrange(0, 16) == m.transfer_id@
            &&& w[16] == if m.resumed {
                1u8
            } else {
                0
            }
            &&& forall|x: int| 17 <= x < 24 ==> w[x] == 0
            &&& little8(w, 24) == m.max_chunk_size
        }),
        ({
            let w = p@.wire();
            &&& w.len() == 40
            &&& w.subrange(0, 16) == p.transfer_id@
            &&& little8(w, 16) == p.bytes_total
            &&& little8(w, 24) == p.bytes_to_transfer
            &&& little8(w, 32) == p.bytes_reusable
        }),
        b@.wire() == b.transfer_id@,
{
    broadcast use {le::group_le_lengths, util::lemma_transfer_id_len};

    let w = m@.wire();
    assert(w.subrange(0, 16) =~= m.transfer_id@);
    assert(w.subrange(24, 32) =~= le::u64_bytes(m.max_chunk_size));
    lemma_put8(w, 24, m.max_chunk_size);
    let w = p@.wire();
    assert(w.subrange(0, 16) =~= p.transfer_id@);
    assert(w.subrange(16, 24) =~= le::u64_bytes(p.bytes_total));
    assert(w.subrange(24, 32) =~= le::u64_bytes(p.bytes_to_transfer));
    assert(w.subrange(32, 40) =~= le::u64_bytes(p.bytes_reusable));
    lemma_put8(w, 16, p.bytes_total);
    lemma_put8(w, 24, p.bytes_to_transfer);
    lemma_put8(w, 32, p.bytes_reusable);
}

/// The messages about the end of a transfer.
pub proof fn law_end_messages_layout(v: Verify, r: VerifyResult, c: Commit, d: Committed)
    ensures
        v@.wire() == v.transfer_id@ + v.expected_hash@,
        ({
            let w = r@.wire();
            &&& w.len() == 56
            &&& w.subrange(0, 16) == r.transfer_id@
            &&& w[16] == if r.ok {
                1u8
            } else {
                0
            }
            &&& forall|x: int| 17 <= x < 24 ==> w[x] == 0
            &&& w.subrange(24, 56) == r.computed_hash@
        }),
        c@.wire() == c.transfer_id@,
        d@.wire().len() == 20,
        d@.wire().subrange(0, 16) == d.transfer_id@,
        little4(d@.wire(), 16) == d.files,
{
    broadcast use {le::group_le_lengths, util::lemma_transfer_id_len, util::lemma_hash_len};

    let w = r@.wire();
    assert(w.subrange(0, 16) =~= r.transfer_id@);
    assert(w.subrange(24, 56) =~= r.computed_hash@);
    let w = d@.wire();
    assert(w.subrange(0, 16) =~= d.transfer_id@);
    assert(w.subrange(16, 20) =~= le::u32_bytes(d.files));
    lemma_put4(w, 16, d.files);
}

/// The messages about chunks that are there already.
pub proof fn law_delta_messages_layout(h: InventoryHint, r: ChunkResponse, q: ChunkQuery)
    ensures
        ({
            let w = h@.wire();
            &&& w.subrange(0, 16) == h.transfer_id@
            &&& little4(w, 16) == h.filter_bits
            &&& w[20] == h.num_hashes
            &&& w.skip(21) == foreign::bytes_content(h.bitset)
        }),
        ({
            let w = r@.wire();
            &&& w.subrange(0, 16) == r.transfer_id@
            &&& little8(w, 16) == r.query_seq
            &&& little4(w, 24) == r.total_chunks
            &&& little4(w, 28) == r.have_count
            &&& w.skip(32) == foreign::bytes_content(r.rle_bitmap)
        }),
        ({
            let w = q@.wire();
            let n = varint::leb128(q.chunk_hashes@.len());
            &&& w.subrange(0, 16) == q.transfer_id@
            &&& little8(w, 16) == q.query_seq
            &&& w.subrange(24, 24 + n.len() as int) == n
        }),
{
    broadcast use {le::group_le_lengths, util::lemma_transfer_id_len};

    let w = h@.wire();
    assert(w.subrange(0, 16) =~= h.transfer_id@);
    assert(w.subrange(16, 20) =~= le::u32_bytes(h.filter_bits));
    lemma_put4(w, 16, h.filter_bits);
    assert(w.skip(21) =~= foreign::bytes_content(h.bitset));
    let w = r@.wire();
    assert(w.subrange(0, 16) =~= r.transfer_id@);
    assert(w.subrange(16, 24) =~= le::u64_bytes(r.query_seq));
    lemma_put8(w, 16, r.query_seq);
    assert(w.subrange(24, 28) =~= le::u32_bytes(r.total_chunks));
    lemma_put4(w, 24, r.total_chunks);
    assert(w.subrange(28, 32) =~= le::u32_bytes(r.have_count));
    lemma_put4(w, 28, r.have_count);
    assert(w.skip(32) =~= foreign::bytes_content(r.rle_bitmap));
    let w = q@.wire();
    let n = varint::leb128(q.chunk_hashes@.len());
    assert(w.subrange(0, 16) =~= q.transfer_id@);
    assert(w.subrange(16, 24) =~= le::u64_bytes(q.query_seq));
    lemma_put8(w, 16, q.query_seq);
    assert(w.subrange(24, 24 + n.len() as int) =~= n);
}

/// The messages of a manifest.
pub proof fn law_manifest_messages_layout(b: ManifestBegin, m: ManifestBatch, e: ManifestEnd)
    ensures
        ({
            let w = b@.wire();
            &&& w.len() == 72
            &&& little8(w, 0) == b.file_count
            &&& little8(w, 8) == b.total_bytes
            &&& little8(w, 16) == b.chunker_params.min
            &&& little8(w, 24) == b.chunker_params.target
            &&& little8(w, 32) == b.chunker_params.max
            &&& w.subrange(40, 72) == b.manifest_hash@
        }),
        ({
            let w = m@.wire();
            &&& little8(w, 0) == m.batch_index
            &&& little4(w, 8) == m.entry_count
            &&& w.skip(12) == foreign::bytes_content(m.compressed_payload)
        }),
        e@.wire() == e.manifest_hash@,
{
    broadcast use {le::group_le_lengths, util::lemma_hash_len};

    let w = b@.wire();
    assert(w.subrange(0, 8) =~= le::u64_bytes(b.file_count));
    assert(w.subrange(8, 16) =~= le::u64_bytes(b.total_bytes));
    assert(w.subrange(16, 24) =~= le::u64_bytes(b.chunker_params.min));
    assert(w.subrange(24, 32) =~= le::u64_bytes(b.chunker_params.target));
    assert(w.subrange(32, 40) =~= le::u64_bytes(b.chunker_params.max));
    lemma_put8(w, 0, b.file_count);
    lemma_put8(w, 8, b.total_bytes);
    lemma_put8(w, 16, b.chunker_params.min);
    lemma_put8(w, 24, b.chunker_params.target);
    lemma_put8(w, 32, b.chunker_params.max);
    assert(w.subrange(40, 72) =~= b.manifest_hash@);
    let w = m@.wire();
    assert(w.subrange(0, 8) =~= le::u64_bytes(m.batch_index));
    assert(w.subrange(8, 12) =~= le::u32_bytes(m.entry_count));
    lemma_put8(w, 0, m.batch_index);
    lemma_put4(w, 8, m.entry_count);
    assert(w.skip(12) =~= foreign::bytes_content(m.compressed_payload));
}

/// The messages about the state of transfers.
pub proof fn law_progress_messages_layout(r: Resume, s: StatQuery, c: Cancel)
    ensures
        r@.wire() == r.transfer_id@ + wire::text_bytes(r.idempotency_key@),
        s@.wire() == s.transfer_id@,
        c@.wire().len() == 20,
        c@.wire().subrange(0, 16) == c.transfer_id@,
        little4(c@.wire(), 16) == c.reason_code,
{
    broadcast use {le::group_le_lengths, util::lemma_transfer_id_len};

    let w = c@.wire();
    assert(w.subrange(0, 16) =~= c.transfer_id@);
    assert(w.subrange(16, 20) =~= le::u32_bytes(c.reason_code));
    lemma_put4(w, 16, c.reason_code);
}

/// The short messages of a session.
pub proof fn law_session_messages_layout(p: Ping, b: Bye, o: SessionOptions)
    ensures
        p.wire().len() == 16,
        little8(p.wire(), 0) == p.nonce,
        little8(p.wire(), 8) == p.sender_ts_ms,
        b.wire().len() == 4,
        little4(b.wire(), 0) == b.code,
        o.wire().len() == 10,
        little8(o.wire(), 0) == o.bandwidth_bps,
        little2(o.wire(), 8) == o.priority,
{
    broadcast use le::group_le_lengths;

    let w = p.wire();
    assert(w.subrange(0, 8) =~= le::u64_bytes(p.nonce));
    assert(w.subrange(8, 16) =~= le::u64_bytes(p.sender_ts_ms));
    lemma_put8(w, 0, p.nonce);
    lemma_put8(w, 8, p.sender_ts_ms);
    let w = b.wire();
    assert(w.subrange(0, 4) =~= le::u32_bytes(b.code));
    lemma_put4(w, 0, b.code);
    let w = o.wire();
    assert(w.subrange(0, 8) =~= le::u64_bytes(o.bandwidth_bps));
    assert(w.subrange(8, 10) =~= le::u16_bytes(o.priority));
    lemma_put8(w, 0, o.bandwidth_bps);
    lemma_put2(w, 8, o.priority);
}

/// HELLO and HELLO_ACK. Of the capabilities, the twelve lowest bits are sent.
pub proof fn law_hello_layout(h: Hello, a: HelloAck)
    requires
        h.versions@.len() <= 255,
    ensures
        ({
            let w = h@.wire();
            let n = h.versions@.len() as int;
            &&& w[0] == n
            &&& w.subrange(1, 1 + n) == h.versions@
            &&& little4(w, 1 + n) == h.capabilities.0 & 0xFFF
            &&& w.skip(5 + n) == wire::text_bytes(h.agent@)
        }),
        ({
            let w = a@.wire();
            &&& w[0] == a.version
            &&& little4(w, 1) == a.capabilities.0 & 0xFFF
            &&& little8(w, 5) == a.limits.max_message_size
            &&& little8(w, 13) == a.limits.max_chunk_size
            &&& little8(w, 21) == a.limits.max_manifest_entries
            &&& little4(w, 29) == a.limits.max_concurrent_streams
            &&& w.skip(33) == wire::text_bytes(a.agent@)
        }),
{
    broadcast use le::group_le_lengths;

    let w = h@.wire();
    let n = h.versions@.len() as int;
    assert(w.subrange(1, 1 + n) =~= h.versions@);
    assert(w.subrange(1 + n, 5 + n) =~= le::u32_bytes(h.capabilities.0 & 0xFFF));
    lemma_put4(w, 1 + n, h.capabilities.0 & 0xFFF);
    assert(w.skip(5 + n) =~= wire::text_bytes(h.agent@));
    let w = a@.wire();
    assert(w.subrange(1, 5) =~= le::u32_bytes(a.capabilities.0 & 0xFFF));
    lemma_put4(w, 1, a.capabilities.0 & 0xFFF);
    assert(w.subrange(5, 13) =~= le::u64_bytes(a.limits.max_message_size));
    assert(w.subrange(13, 21) =~= le::u64_bytes(a.limits.max_chunk_size));
    assert(w.subrange(21, 29) =~= le::u64_bytes(a.limits.max_manifest_entries));
    assert(w.subrange(29, 33) =~= le::u32_bytes(a.limits.max_concurrent_streams));
    lemma_put8(w, 5, a.limits.max_message_size);
    lemma_put8(w, 13, a.limits.max_chunk_size);
    lemma_put8(w, 21, a.limits.max_manifest_entries);
    lemma_put4(w, 29, a.limits.max_concurrent_streams);
    assert(w.skip(33) =~= wire::text_bytes(a.agent@));
}

/// The type of each message.
pub proof fn law_message_types(m: MessageView)
    ensures
        m.type_byte() == match m {
            MessageView::Hello(_) => 0x01u8,
            MessageView::HelloAck(_) => 0x02,
            MessageView::Auth(_) => 0x03,
            MessageView::AuthOk(_) => 0x04,
            MessageView::SessionInit(_) => 0x05,
            MessageView::Ping(_) => 0x06,
            MessageView::Pong(_) => 0x06,
            MessageView::Bye(_) => 0x07,
            MessageView::TransferCreate(_) => 0x10,
            MessageView::TransferCreated(_) => 0x11,
            MessageView::TransferPlan(_) => 0x12,
            MessageView::TransferBegin(_) => 0x13,
            MessageView::Checkpoint(_) => 0x14,
            MessageView::Verify(_) => 0x15,
            MessageView::VerifyResult(_) => 0x16,
            MessageView::Commit(_) => 0x17,
            MessageView::Committed(_) => 0x18,
            MessageView::Resume(_) => 0x19,
            MessageView::ResumeState(_) => 0x1A,
            MessageView::Cancel(_) => 0x1B,
            MessageView::Stat(_) => 0x1C,
            MessageView::StatResult(_) => 0x1D,
            MessageView::List(_) => 0x1E,
            MessageView::ListResult(_) => 0x1F,
            MessageView::ManifestBegin(_) => 0x30,
            MessageView::ManifestBatch(_) => 0x31,
            MessageView::ManifestEnd(_) => 0x32,
            MessageView::InventoryHint(_) => 0x33,
            MessageView::ChunkQuery(_) => 0x34,
            MessageView::ChunkResponse(_) => 0x35,
            MessageView::Error(_) => 0x7F,
        },
{
}

/// ERROR and AUTH.
pub proof fn law_error_and_auth_layout(e: ErrorMsg, a: Auth)
    requires
        a.token@.len() <= 4096,
    ensures
        ({
            let w = e@.wire();
            &&& little4(w, 0) == e.code.wire()
            &&& w[4] == if e.retryable {
                1u8
            } else {
                0
            }
            &&& w.skip(5) == wire::text_bytes(e.detail.0@)
        }),
        ({
            let w = a@.wire();
            &&& w.len() == 8 + a.token@.len()
            &&& little2(w, 0) == a.mechanism
            &&& w[2] == 0 && w[3] == 0
            &&& little4(w, 4) == a.token@.len()
            &&& w.skip(8) == a.token@
        }),
{
    broadcast use le::group_le_lengths;

    let w = e@.wire();
    assert(w.subrange(0, 4) =~= le::u32_bytes(e.code.wire()));
    lemma_put4(w, 0, e.code.wire());
    assert(w.skip(5) =~= wire::text_bytes(e.detail.0@));
    let w = a@.wire();
    assert(w.subrange(0, 2) =~= le::u16_bytes(a.mechanism));
    lemma_put2(w, 0, a.mechanism);
    assert(w.subrange(4, 8) =~= le::u32_bytes(a.token@.len() as u32));
    lemma_put4(w, 4, a.token@.len() as u32);
    assert(w.skip(8) =~= a.token@);
}

/// Each capability has a bit of its own.
pub proof fn law_capability_bits(c: Capability)
    ensures
        c.mask() == match c {
            Capability::FixedChunking => 1u32,
            Capability::CdcChunking => 2,
            Capability::Blake3 => 4,
            Capability::Sha256 => 8,
            Capability::DedupChunkStore => 16,
            Capability::CompressionZstd => 32,
            Capability::SparseFiles => 64,
            Capability::Symlinks => 128,
            Capability::Hardlinks => 256,
            Capability::InventoryBloom => 512,
        },
{
    assert(1u32 << 0u32 == 1 && 1u32 << 1u32 == 2 && 1u32 << 2u32 == 4 && 1u32 << 3u32 == 8 && 1u32
        << 4u32 == 16 && 1u32 << 5u32 == 32 && 1u32 << 6u32 == 64 && 1u32 << 7u32 == 128 && 1u32
        << 8u32 == 256 && 1u32 << 9u32 == 512) by (bit_vector);
}

/// What both sides have is enough exactly if both know the digest, and a way of
/// chunking that the other knows too.
pub proof fn law_enough_in_common(a: Capabilities, b: Capabilities)
    ensures
        Capabilities(a.0 & b.0).intersection_fault() is None <==> a.contains(Capability::Blake3)
            && b.contains(Capability::Blake3) && ((a.contains(Capability::FixedChunking)
            && b.contains(Capability::FixedChunking)) || (a.contains(Capability::CdcChunking)
            && b.contains(Capability::CdcChunking))),
{
    capabilities::law_intersect_contains(a, b, Capability::Blake3);
    capabilities::law_intersect_contains(a, b, Capability::FixedChunking);
    capabilities::law_intersect_contains(a, b, Capability::CdcChunking);
}

/// The names of the capabilities, in the order of their bits.
pub proof fn law_capability_names(i: int)
    requires
        0 <= i < 10,
    ensures
        ({
            let (c, name) = capabilities::named(i);
            &&& c.index() == i
            &&& name == match c {
                Capability::FixedChunking => "fixed",
                Capability::CdcChunking => "cdc",
                Capability::Blake3 => "blake3",
                Capability::Sha256 => "sha256",
                Capability::DedupChunkStore => "dedup",
                Capability::CompressionZstd => "zstd",
                Capability::SparseFiles => "sparse",
                Capability::Symlinks => "symlinks",
                Capability::Hardlinks => "hardlinks",
                Capability::InventoryBloom => "bloom",
            }
        }),
{
}

/// The number of each error.
pub proof fn law_error_numbers(c: ErrorCode)
    ensures
        c.wire() == match c {
            ErrorCode::AuthFailed => 1000u32,
            ErrorCode::PermissionDenied => 1001,
            ErrorCode::ProtocolVersionUnsupported => 1002,
            ErrorCode::ProtocolViolation => 1003,
            ErrorCode::UnsupportedMessage => 1004,
            ErrorCode::FileNotFound => 2000,
            ErrorCode::InvalidPath => 2001,
            ErrorCode::TransferNotFound => 2002,
            ErrorCode::InvalidManifest => 2003,
            ErrorCode::ChunkNotFound => 2004,
            ErrorCode::ChecksumMismatch => 3000,
            ErrorCode::PartialWrite => 3001,
            ErrorCode::ResourceLimit => 4000,
            ErrorCode::ServerBusy => 4001,
            ErrorCode::DiskFull => 4002,
            ErrorCode::QuotaExceeded => 4003,
            ErrorCode::TransferCancelled => 5000,
            ErrorCode::NetworkError => 5001,
            ErrorCode::InternalError => 5002,
        },
{
}

/// A client tries again what may succeed later: what was lost, damaged or
/// short of resources. It does not try again what was refused, what is not
/// there, and what was cancelled.
pub proof fn law_what_may_be_retried(c: ErrorCode)
    ensures
        1000 <= c.wire() < 2004 ==> !c.may_retry(),
        2004 <= c.wire() < 4003 ==> c.may_retry(),
        c == ErrorCode::QuotaExceeded || c == ErrorCode::TransferCancelled ==> !c.may_retry(),
        c == ErrorCode::NetworkError || c == ErrorCode::InternalError ==> c.may_retry(),
{
}

/// A number that stands for no error is taken for an internal one.
pub proof fn law_unknown_error_numbers(n: u32)
    ensures
        ErrorCode::of_wire(n).wire() == n || ErrorCode::of_wire(n) == ErrorCode::InternalError,
        (exists|c: ErrorCode| #[trigger] c.wire() == n) ==> ErrorCode::of_wire(n).wire() == n,
{
}

/// Digests follow each other, 32 bytes each.
pub proof fn law_digests_follow_each_other(s: Seq<Seq<u8>>, i: int)
    requires
        forall|k: int| 0 <= k < s.len() ==> (#[trigger] s[k]).len() == 32,
        0 <= i < s.len(),
    ensures
        delta::hashes_bytes(s).len() == 32 * s.len(),
        delta::hashes_bytes(s).subrange(32 * i, 32 * i + 32) == s[i],
    decreases s.len(),
{
    let t = s.drop_last();
    assert forall|k: int| 0 <= k < t.len() implies (#[trigger] t[k]).len() == 32 by {
        assert(t[k] == s[k]);
    }
    if t.len() > 0 {
        law_digests_follow_each_other(t, 0);
    } else {
        assert(delta::hashes_bytes(t).len() == 0);
    }
    assert(s.last().len() == 32);
    if i < t.len() {
        law_digests_follow_each_other(t, i);
        assert(delta::hashes_bytes(s).subrange(32 * i, 32 * i + 32) =~= delta::hashes_bytes(
            t,
        ).subrange(32 * i, 32 * i + 32));
    } else {
        assert(s.last() == s[i]);
        assert(delta::hashes_bytes(s).subrange(32 * i, 32 * i + 32) =~= s[i]);
    }
}

/// A list of chunk indices is their number and then each of them as a varint.
pub proof fn law_lists_of_indices(s: Seq<u64>, x: u64)
    ensures
        indices::list_bytes(Seq::empty()) == seq![0u8],
        indices::list_bytes(s) == varint::leb128(s.len()) + indices::index_bytes(s),
        indices::index_bytes(seq![x] + s) == varint::leb128(x as nat) + indices::index_bytes(s),
        indices::index_bytes(Seq::empty()).len() == 0,
{
    law_varint_bytes(0);
    assert(indices::list_bytes(Seq::empty()) =~= seq![0u8]);
    assert((seq![x] + s).skip(1) =~= s);
}

/// What is read as a list of chunk indices is strictly increasing and has at
/// most a million of them.
pub proof fn law_lists_increase(b: Seq<u8>, i: int, faults: indices::ListFaults)
    requires
        indices::list_at(b, i, faults) is Ok,
    ensures
        ({
            let s = (indices::list_at(b, i, faults)->Ok_0).0;
            &&& s.len() <= 1_000_000
            &&& forall|x: int, y: int| 0 <= x < y < s.len() ==> s[x] < s[y]
        }),
{
    let (n, c) = varint::varint_at_start(b.skip(i))->Ok_0;
    lemma_indices_increase(b, i + c, n as nat, None, faults);
}

proof fn lemma_indices_increase(
    b: Seq<u8>,
    i: int,
    n: nat,
    prev: Option<u64>,
    faults: indices::ListFaults,
)
    requires
        indices::indices_at(b, i, n, prev, faults) is Ok,
    ensures
        ({
            let s = (indices::indices_at(b, i, n, prev, faults)->Ok_0).0;
            &&& s.len() == n
            &&& forall|x: int, y: int| 0 <= x < y < s.len() ==> s[x] < s[y]
            &&& prev matches Some(p) ==> forall|x: int| 0 <= x < s.len() ==> p < s[x]
        }),
    decreases n,
{
    if n > 0 {
        let (x, c) = varint::varint_at_start(b.skip(i))->Ok_0;
        lemma_indices_increase(b, i + c, (n - 1) as nat, Some(x), faults);
        let t = (indices::indices_at(b, i + c, (n - 1) as nat, Some(x), faults)->Ok_0).0;
        let s = (indices::indices_at(b, i, n, prev, faults)->Ok_0).0;
        assert(s =~= seq![x] + t);
    }
}

/// The header of a frame is twelve bytes and the length of its length.
pub proof fn law_header_size(n: nat)
    ensures
        n < 128 ==> frame::header_size(n) == 13,
        128 <= n < 16384 ==> frame::header_size(n) == 14,
        16384 <= n < 2097152 ==> frame::header_size(n) == 15,
{
    law_varint_bytes(n);
}

/// What is read as a frame has this version, is whole, and has a payload of at
/// most one mebibyte.
pub proof fn law_frames_are_whole(b: Seq<u8>)
    requires
        frame::frame_at_start(b) is Ok,
    ensures
        b[0] == 1,
        b[1] == frame::frame_at_start(b)->Ok_0.type_byte,
        frame::frame_at_start(b)->Ok_0.payload.len() <= 1048576,
        frame::frame_at_start(b)->Ok_0.payload.len() + 13 <= b.len(),
        exists|i: int|
            0 <= i <= b.len() - frame::frame_at_start(b)->Ok_0.payload.len()
                && frame::frame_at_start(b)->Ok_0.payload == #[trigger] b.subrange(
                i,
                i + frame::frame_at_start(b)->Ok_0.payload.len(),
            ),
{
    let (length, n) = varint::varint_at_start(b.skip(4))->Ok_0;
    let f = frame::frame_at_start(b)->Ok_0;
    varint::law_varint_canonical(b.skip(4));
    assert(f.payload.len() == length);
    assert(f.payload == b.subrange(4 + n + 8, (4 + n + 8) + f.payload.len()));
}

/// The detail of an error is kept as far as 256 bytes go, and never cut inside
/// a character.
pub proof fn law_details_are_short(s: Seq<char>)
    ensures
        utf8::encode_utf8(error::detail_text(s)).len() <= 256,
        utf8::encode_utf8(s).len() <= 256 ==> error::detail_text(s) == s,
        utf8::encode_utf8(error::detail_text(s)).is_prefix_of(utf8::encode_utf8(s)),
{
    let b = utf8::encode_utf8(s);
    utf8::encode_utf8_valid_utf8(s);
    if b.len() > 256 {
        let k = error::boundary_before(b, 256);
        error::lemma_boundary_before(b, 256);
        utf8::valid_utf8_split(b, k);
        utf8::decode_utf8_encode_utf8(b.take(k));
        assert(b.subrange(0, k) =~= b.take(k));
    } else {
        assert(b =~= b.subrange(0, b.len() as int));
    }
}

/// The capabilities of a set are listed in their order, with a comma between
/// two; those that are not in it are left out.
pub proof fn law_capabilities_are_listed(c: Capabilities, n: int)
    requires
        0 <= n < 10,
    ensures
        c.listed(0).len() == 0,
        !c.contains(capabilities::named(n).0) ==> c.listed(n + 1) == c.listed(n),
        c.contains(capabilities::named(n).0) && c.listed(n).len() == 0 ==> c.listed(n + 1)
            == capabilities::named(n).1@,
        c.contains(capabilities::named(n).0) && c.listed(n).len() > 0 ==> c.listed(n + 1)
            == c.listed(n) + seq![','] + capabilities::named(n).1@,
{
    reveal_strlit(",");
    assert(","@ =~= seq![',']);
}

/// What two sides have in common is what both have.
pub proof fn law_common_capabilities(
    a: Capabilities,
    b: Capabilities,
    c: Capability,
    both: Capabilities,
    r: Result<(), &'static str>,
)
    requires
        call_ensures(Capabilities::intersect, (a, b), both),
        call_ensures(Capabilities::validate_intersection, (both,), r),
    ensures
        both.contains(c) <==> a.contains(c) && b.contains(c),
        r is Ok <==> a.contains(Capability::Blake3) && b.contains(Capability::Blake3) && ((
        a.contains(Capability::FixedChunking) && b.contains(Capability::FixedChunking)) || (
        a.contains(Capability::CdcChunking) && b.contains(Capability::CdcChunking))),
{
    capabilities::law_intersect_contains(a, b, c);
    capabilities::law_intersect_contains(a, b, Capability::Blake3);
    capabilities::law_intersect_contains(a, b, Capability::FixedChunking);
    capabilities::law_intersect_contains(a, b, Capability::CdcChunking);
    assert(both == Capabilities(a.0 & b.0));
}

} // verus!
