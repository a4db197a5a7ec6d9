//! What manifests say, and what is taken for one.

use vstd::prelude::*;
use vstd::utf8;

use crate::chunking;
use crate::chunking::{ChunkMode, ChunkParams};
use crate::error::Fault;
use crate::foreign;
use crate::manifest::codec;
use crate::manifest::entry;
use crate::manifest::entry::{ChunkDescView, FileEntryView, FileType};
use crate::manifest::reader;
use crate::manifest::reader::{ManifestReaderView, ManifestStepView};
use crate::manifest::scanner;
use crate::manifest::store;
use crate::manifest::writer;
use crate::manifest::writer::ManifestWriterView;
use crate::protocol::layout;
use crate::protocol::le;
use crate::protocol::varint;
use crate::protocol::wire;
use crate::storage;
use crate::text;

verus! {

/// An entry is taken as long as the manifest has room, and is counted with its
/// size. Unless it fills a batch, nothing is written yet.
pub proof fn law_entry_is_counted(v: ManifestWriterView, e: FileEntryView)
    requires
        v.file_count < 50_000_000,
        v.pending.len() + 1 < 4096,
        v.total_bytes + e.size <= u64::MAX,
    ensures
        v.added(e).1 is None,
        ({
            let w = v.added(e).0;
            &&& w.file_count == v.file_count + 1
            &&& w.total_bytes == v.total_bytes + e.size
            &&& w.pending == v.pending.push(e)
            &&& w.spill == v.spill && w.handed == v.handed && w.batches == v.batches
            &&& w.hashed == v.hashed
            &&& w.chunker_params == v.chunker_params
        }),
{
}

/// An entry that fills a batch has the batch written, if the manifest has room
/// for it and it could be compressed.
pub proof fn law_full_batch_is_written(v: ManifestWriterView, e: FileEntryView)
    requires
        v.file_count < 50_000_000,
        v.pending.len() == 4095,
        v.total_bytes + e.size <= u64::MAX,
        v.manifest_bytes + writer::entries_bytes(v.pending.push(e)).len() <= 8_589_934_592,
        foreign::zstd_compressed(
            writer::entries_bytes(v.pending.push(e)),
            writer::BATCH_COMPRESSION_LEVEL,
        ) is Some,
    ensures
        v.added(e).1 is None,
        ({
            let w = v.added(e).0;
            &&& w.file_count == v.file_count + 1
            &&& w.total_bytes == v.total_bytes + e.size
            &&& w.pending.len() == 0
            &&& w.batches == v.batches.push(v.pending.push(e))
            &&& w.hashed == v.hashed + writer::entries_bytes(v.pending.push(e))
        }),
{
}

/// A manifest has at most fifty million entries.
pub proof fn law_manifest_has_an_end(v: ManifestWriterView, e: FileEntryView)
    requires
        v.file_count >= 50_000_000,
    ensures
        v.added(e).1 is Some,
        v.added(e).0 == v,
{
}

/// What is left in a writer is written if there is room for it and it could be
/// compressed; a writer with nothing left writes nothing.
pub proof fn law_rest_is_written(v: ManifestWriterView)
    requires
        v.manifest_bytes + writer::entries_bytes(v.pending).len() <= 8_589_934_592,
        foreign::zstd_compressed(
            writer::entries_bytes(v.pending),
            writer::BATCH_COMPRESSION_LEVEL,
        ) is Some,
    ensures
        v.flushed().1 is None,
        v.flushed().0.pending.len() == 0,
        v.flushed().0.file_count == v.file_count,
        v.flushed().0.total_bytes == v.total_bytes,
        v.pending.len() == 0 ==> v.flushed().0 == v,
{
}

/// A manifest is accepted at its end exactly if its digest is the declared one.
pub proof fn law_digest_decides(v: ManifestReaderView)
    ensures
        v.header(None).1 is None <==> foreign::blake3_digest(v.hashed) == v.expected,
        v.header(None).0.finished,
{
}

/// The lengths of chunks, added up from the first.
pub open spec fn total_length(s: Seq<ChunkDescView>) -> int
    decreases s.len(),
{
    if s.len() == 0 {
        0
    } else {
        s[0].length + total_length(s.skip(1))
    }
}

proof fn lemma_total_length(s: Seq<ChunkDescView>)
    ensures
        entry::lengths_sum(s) == total_length(s),
    decreases s.len(),
{
    if s.len() == 1 {
        assert(s.drop_last() =~= Seq::empty());
        assert(s.skip(1) =~= Seq::empty());
        reveal_with_fuel(entry::lengths_sum, 2);
        reveal_with_fuel(total_length, 2);
    } else if s.len() > 1 {
        lemma_total_length(s.drop_last());
        lemma_total_length(s.skip(1));
        lemma_total_length(s.skip(1).drop_last());
        assert(s.drop_last().skip(1) =~= s.skip(1).drop_last());
        assert(s.drop_last()[0] == s[0]);
        assert(s.skip(1).last() == s.last());
    }
}

proof fn lemma_chunks_are_fit(b: Seq<u8>, i: int, n: nat)
    requires
        codec::chunks_at(b, i, n) is Ok,
    ensures
        ({
            let (s, _) = codec::chunks_at(b, i, n)->Ok_0;
            &&& s.len() == n
            &&& forall|k: int|
                0 <= k < s.len() ==> (#[trigger] s[k]).length <= 4_194_304 && (s[k].hash is None
                    <==> s[k].flags & 1 != 0)
        }),
    decreases n,
{
    if n > 0 {
        let (c, k) = codec::chunk_at_start(b.skip(i))->Ok_0;
        lemma_chunks_are_fit(b, i + k, (n - 1) as nat);
        let (t, _) = codec::chunks_at(b, i + k, (n - 1) as nat)->Ok_0;
        let (s, _) = codec::chunks_at(b, i, n)->Ok_0;
        assert(s =~= seq![c] + t);
    }
}

/// What is read as an entry is fit for use: its path stays below the root, no
/// chunk is larger than four mebibytes or has no digest without being a hole,
/// there are at most a million, and those of a regular file add up to its size.
pub proof fn law_entries_are_fit(b: Seq<u8>)
    requires
        codec::entry_at_start(b) is Ok,
    ensures
        ({
            let e = (codec::entry_at_start(b)->Ok_0).0;
            &&& storage::is_vpath(e.path)
            &&& e.file_hash.len() == 32
            &&& e.chunks.len() <= 1_000_000
            &&& forall|k: int|
                0 <= k < e.chunks.len() ==> (#[trigger] e.chunks[k]).length <= 4_194_304 && (
                e.chunks[k].hash is None <==> e.chunks[k].flags & 1 != 0)
            &&& e.flags & 3 != 1 && e.flags & 3 != 2 ==> total_length(e.chunks) == e.size
        }),
{
    let (flags, i) = varint::varint_at_start(b)->Ok_0;
    let (path, j) = codec::path_at(b, i)->Ok_0;
    let (m, d) = varint::varint_at_start(b.skip(i))->Ok_0;
    let p = b.subrange(i + d, i + d + m);
    utf8::decode_utf8_encode_utf8(p);
    let (n, c) = varint::varint_at_start(b.skip(j + 56))->Ok_0;
    lemma_chunks_are_fit(b, j + 56 + c, n as nat);
    let (chunks, _) = codec::chunks_at(b, j + 56 + c, n as nat)->Ok_0;
    lemma_total_length(chunks);
}

/// An entry on the wire: its flags, its path, 56 bytes of size, mode, time and
/// digest, the number of its chunks, and the chunks.
pub proof fn law_entry_layout(e: FileEntryView)
    requires
        e.file_hash.len() == 32,
    ensures
        ({
            let w = codec::entry_bytes(e);
            let f = varint::leb128(e.flags as nat);
            let p = wire::text_bytes(e.path);
            let n = varint::leb128(e.chunks.len());
            let i = f.len() as int;
            let j = i + p.len() as int;
            let k = j + 56 + n.len() as int;
            &&& w.subrange(0, i) == f
            &&& w.subrange(i, j) == p
            &&& layout::little8(w, j) == e.size
            &&& layout::little4(w, j + 8) == e.mode
            &&& layout::little8(w, j + 12) == e.mtime_sec as u64
            &&& layout::little4(w, j + 20) == e.mtime_nsec
            &&& w.subrange(j + 24, j + 56) == e.file_hash
            &&& w.subrange(j + 56, k) == n
            &&& w.skip(k) == codec::chunks_bytes(e.chunks)
        }),
{
    broadcast use le::group_le_lengths;

    let w = codec::entry_bytes(e);
    let f = varint::leb128(e.flags as nat);
    let p = wire::text_bytes(e.path);
    let n = varint::leb128(e.chunks.len());
    let i = f.len() as int;
    let j = i + p.len() as int;
    let k = j + 56 + n.len() as int;
    assert(w.subrange(0, i) =~= f);
    assert(w.subrange(i, j) =~= p);
    assert(w.subrange(j, j + 8) =~= le::u64_bytes(e.size));
    assert(w.subrange(j + 8, j + 12) =~= le::u32_bytes(e.mode));
    assert(w.subrange(j + 12, j + 20) =~= le::u64_bytes(e.mtime_sec as u64));
    assert(w.subrange(j + 20, j + 24) =~= le::u32_bytes(e.mtime_nsec));
    le::lemma_u64_roundtrip(w, j, e.size);
    le::lemma_u32_roundtrip(w, j + 8, e.mode);
    le::lemma_u64_roundtrip(w, j + 12, e.mtime_sec as u64);
    le::lemma_u32_roundtrip(w, j + 20, e.mtime_nsec);
    layout::law_integers_are_little_endian(w, j);
    layout::law_integers_are_little_endian(w, j + 8);
    layout::law_integers_are_little_endian(w, j + 12);
    layout::law_integers_are_little_endian(w, j + 20);
    assert(w.subrange(j + 24, j + 56) =~= e.file_hash);
    assert(w.subrange(j + 56, k) =~= n);
    assert(w.skip(k) =~= codec::chunks_bytes(e.chunks));
}

/// A chunk on the wire: its flags, its length and its digest; a hole has none.
/// Chunks follow each other.
pub proof fn law_chunk_layout(c: ChunkDescView, s: Seq<ChunkDescView>, h: Seq<u8>)
    ensures
        c.flags & 1 != 0 ==> codec::chunk_bytes(c) == varint::leb128(c.flags as nat)
            + varint::leb128(c.length as nat),
        c.flags & 1 == 0 && c.hash == Some(h) ==> codec::chunk_bytes(c) == varint::leb128(
            c.flags as nat,
        ) + varint::leb128(c.length as nat) + h,
        codec::chunks_bytes(seq![c] + s) == codec::chunk_bytes(c) + codec::chunks_bytes(s),
        codec::chunks_bytes(Seq::empty()).len() == 0,
{
    assert((seq![c] + s).skip(1) =~= s);
    assert(varint::leb128(c.flags as nat) + varint::leb128(c.length as nat) + Seq::<u8>::empty()
        =~= varint::leb128(c.flags as nat) + varint::leb128(c.length as nat));
}

/// The two lowest bits of the flags of an entry tell what it is.
pub proof fn law_types_of_entries(f: u64)
    ensures
        entry::type_of_flags(f) == FileType::Directory <==> f & 3 == 1,
        entry::type_of_flags(f) == FileType::Symlink <==> f & 3 == 2,
        entry::type_of_flags(f) == FileType::Regular <==> f & 3 != 1 && f & 3 != 2,
        entry::marks_hole(f) <==> f & 1 != 0,
{
}

/// A scan describes every chunk of a file by its length and by the digest of
/// its bytes, in order, and the chunks together are the file.
pub proof fn law_scan_describes_file(mode: ChunkMode, params: ChunkParams, file: Seq<u8>, i: int)
    requires
        params.valid(),
        file.len() <= u64::MAX,
        0 <= i < chunking::file_chunks(mode, params, file).len(),
    ensures
        ({
            let s = chunking::file_chunks(mode, params, file);
            let d = scanner::descriptors(s, file);
            &&& d.len() == s.len()
            &&& chunking::joined(s, file) == file
            &&& d[i].length == s[i].length
            &&& d[i].flags == 0
            &&& 0 <= s[i].offset < s[i].stop() <= file.len()
            &&& d[i].hash == Some(
                foreign::blake3_digest(
                    file.subrange(s[i].offset as int, s[i].offset + s[i].length),
                ),
            )
        }),
{
    let s = chunking::file_chunks(mode, params, file);
    chunking::law_file_chunks_tile(mode, params, file);
    chunking::law_tiles_reproduce(s, file, file.len() as int);
    chunking::lemma_tiles_at(s, 0, file.len() as int, i);
    assert(file.take(file.len() as int) =~= file);
}

/// A spill starts with four bytes and a version; each batch in it has its
/// index, the number of its entries and its length in front.
pub proof fn law_spill_layout(index: u64, count: u32, payload: Seq<u8>)
    requires
        payload.len() <= u32::MAX,
    ensures
        writer::spill_header() == seq![0x56u8, 0x58, 0x4D, 0x42, 1],
        ({
            let w = writer::spill_record(index, count, payload);
            &&& layout::little8(w, 0) == index
            &&& layout::little4(w, 8) == count
            &&& layout::little4(w, 12) == payload.len()
            &&& w.skip(16) == payload
        }),
{
    broadcast use le::group_le_lengths;

    let magic = writer::SPILL_MAGIC;
    assert(writer::spill_header() =~= seq![0x56u8, 0x58, 0x4D, 0x42, 1]);
    let w = writer::spill_record(index, count, payload);
    assert(w.subrange(0, 8) =~= le::u64_bytes(index));
    assert(w.subrange(8, 12) =~= le::u32_bytes(count));
    assert(w.subrange(12, 16) =~= le::u32_bytes(payload.len() as u32));
    le::lemma_u64_roundtrip(w, 0, index);
    le::lemma_u32_roundtrip(w, 8, count);
    le::lemma_u32_roundtrip(w, 12, payload.len() as u32);
    layout::law_integers_are_little_endian(w, 0);
    layout::law_integers_are_little_endian(w, 8);
    layout::law_integers_are_little_endian(w, 12);
    assert(w.skip(16) =~= payload);
}

/// A reader that has come to the end stays there.
pub proof fn law_finished_reader_stays(v: ManifestReaderView, h: Option<Seq<u8>>)
    ensures
        v.header(None).0.next() == (
            v.header(None).0,
            Ok::<ManifestStepView, Fault>(ManifestStepView::End),
        ),
        v.finished ==> v.next() == (v, Ok::<ManifestStepView, Fault>(ManifestStepView::End)),
{
}

/// A reader asks for a header, then for as many bytes as the header says, then
/// gives as many entries as the header says.
pub proof fn law_reader_follows_headers(v: ManifestReaderView, h: Seq<u8>, raw: Seq<u8>)
    requires
        v.between_batches(),
        h.len() == 16,
        layout::little4(h, 8) <= 4096,
        v.raw_bytes + raw.len() <= 8_589_934_592,
    ensures
        ({
            let (w, f) = v.header(Some(h));
            let (x, g) = w.payload(raw);
            &&& v.next() == (v, Ok::<ManifestStepView, Fault>(ManifestStepView::ReadHeader))
            &&& f is None
            &&& w.next() matches (y, Ok(ManifestStepView::ReadPayload(n))) && y == w && n
                == layout::little4(h, 12)
            &&& g is None
            &&& x.remaining == layout::little4(h, 8)
            &&& x.data == raw
            &&& x.raw_bytes == v.raw_bytes + raw.len()
            &&& x.hashed == v.hashed && x.entries_read == v.entries_read && !x.finished
        }),
{
    layout::law_integers_are_little_endian(h, 8);
    layout::law_integers_are_little_endian(h, 12);
}

/// A reader takes an entry off the batch and off what the header promised, and
/// digests its bytes.
pub proof fn law_entry_is_taken(v: ManifestReaderView, e: FileEntryView, rest: Seq<u8>)
    requires
        !v.finished,
        v.remaining > 0,
        v.entries_read < 50_000_000,
        codec::entry_encodable(e),
        v.data == codec::entry_bytes(e) + rest,
    ensures
        v.next().1 == Ok::<ManifestStepView, Fault>(ManifestStepView::Entry(e)),
        v.next().0.data == rest,
        v.next().0.remaining == v.remaining - 1,
        v.next().0.entries_read == v.entries_read + 1,
        v.next().0.hashed == v.hashed + codec::entry_bytes(e),
{
    codec::law_file_entry_roundtrip(e, rest);
    let n = codec::entry_bytes(e).len() as int;
    assert(v.data.take(n) =~= codec::entry_bytes(e));
    assert(v.data.skip(n) =~= rest);
}

/// A reader refuses a batch of more than 4096 entries, more than eight
/// gibibytes in all, and more than fifty million entries.
pub proof fn law_reader_has_limits(v: ManifestReaderView, h: Seq<u8>, raw: Seq<u8>)
    requires
        h.len() == 16,
        raw.len() <= u64::MAX,
    ensures
        layout::little4(h, 8) > 4096 ==> v.header(Some(h)).1 is Some,
        v.raw_bytes + raw.len() > 8_589_934_592 ==> v.payload(raw).1 is Some,
        !v.finished && v.remaining > 0 && v.entries_read >= 50_000_000 ==> v.next().1 is Err,
{
    layout::law_integers_are_little_endian(h, 8);
}

/// A spill is read only if it starts with the bytes that a writer starts it
/// with.
pub proof fn law_spill_is_recognized(b: Seq<u8>)
    requires
        b.len() == 5,
    ensures
        reader::spill_header_fault(b) is None <==> b == seq![0x56u8, 0x58, 0x4D, 0x42, 1],
        reader::spill_header_fault(writer::spill_header()) is None,
{
    let magic = writer::SPILL_MAGIC;
    assert(magic@ =~= seq![0x56u8, 0x58, 0x4D, 0x42]);
    if reader::spill_header_fault(b) is None {
        assert(b.take(4)[0] == b[0] && b.take(4)[1] == b[1] && b.take(4)[2] == b[2] && b.take(4)[3]
            == b[3]);
        assert(b =~= seq![0x56u8, 0x58, 0x4D, 0x42, 1]);
    }
    if b == seq![0x56u8, 0x58, 0x4D, 0x42, 1] {
        assert(b.take(4) =~= magic@);
    }
    assert(writer::spill_header().take(4) =~= magic@);
}

/// A stored manifest is named by the digits of its digest.
pub proof fn law_name_of_manifest(hash: Seq<u8>)
    requires
        hash.len() == 32,
    ensures
        store::manifest_name(hash).take(64) == text::hex(hash),
        store::manifest_name(hash).skip(64) == ".manifest"@,
{
    text::lemma_hex_len(hash);
    assert(store::manifest_name(hash).take(64) =~= text::hex(hash));
    assert(store::manifest_name(hash).skip(64) =~= ".manifest"@);
}

} // verus!
