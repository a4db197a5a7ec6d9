//! Canonical binary codec of manifest entries.
//!
//! ```text
//! entry: flags(varint) path(text) size(u64) mode(u32) mtime_sec(i64)
//!        mtime_nsec(u32) file_hash(32) chunk_count(varint) chunks
//! chunk: flags(varint) length(varint) hash(32, unless a hole)
//! ```

use vstd::prelude::*;
use vstd::utf8;

use crate::error::{Fault, ProtocolError};
use crate::foreign;
use crate::manifest::entry;
use crate::manifest::entry::{
    ChunkDesc, ChunkDescView, ChunkFlags, FileEntry, FileEntryView, FileFlags, FileType,
};
use crate::protocol::indices::MAX_WIRE_CHUNKS;
use crate::protocol::le;
use crate::protocol::limits::{MAX_CHUNK_SIZE, MAX_PATH_TOTAL};
use crate::protocol::varint;
use crate::protocol::wire;
use crate::storage;
use crate::storage::VPath;
use crate::text;

verus! {

/// A chunk descriptor in canonical form. A chunk with bytes but no digest is
/// written with a zero digest.
pub open spec fn chunk_bytes(c: ChunkDescView) -> Seq<u8> {
    varint::leb128(c.flags as nat) + varint::leb128(c.length as nat) + if entry::marks_hole(
        c.flags,
    ) {
        Seq::empty()
    } else {
        match c.hash {
            Some(h) => h,
            None => wire::zeros(32),
        }
    }
}

/// Chunk descriptors in canonical form, one after the other.
pub open spec fn chunks_bytes(s: Seq<ChunkDescView>) -> Seq<u8>
    decreases s.len(),
{
    if s.len() == 0 {
        Seq::empty()
    } else {
        chunk_bytes(s[0]) + chunks_bytes(s.skip(1))
    }
}

/// The fields of fixed size of an entry.
pub open spec fn fixed_bytes(e: FileEntryView) -> Seq<u8> {
    le::u64_bytes(e.size) + le::u32_bytes(e.mode) + le::u64_bytes(e.mtime_sec as u64)
        + le::u32_bytes(e.mtime_nsec) + e.file_hash
}

/// An entry in canonical form.
pub open spec fn entry_bytes(e: FileEntryView) -> Seq<u8> {
    varint::leb128(e.flags as nat) + wire::text_bytes(e.path) + fixed_bytes(e) + varint::leb128(
        e.chunks.len(),
    ) + chunks_bytes(e.chunks)
}

/// The chunk descriptor at the start of `b`, and its length.
pub open spec fn chunk_at_start(b: Seq<u8>) -> Result<(ChunkDescView, int), ProtocolError> {
    match varint::varint_at_start(b) {
        Err(e) => Err(e),
        Ok((flags, i)) => if i >= b.len() {
            Err(ProtocolError::Malformed("CHUNK_DESC: truncated length"))
        } else {
            match varint::varint_at_start(b.skip(i)) {
                Err(e) => Err(e),
                Ok((length, n)) => if entry::marks_hole(flags) {
                    Ok((ChunkDescView { flags, length, hash: None }, i + n))
                } else if b.len() < i + n + 32 {
                    Err(ProtocolError::Malformed("CHUNK_DESC: truncated hash"))
                } else {
                    Ok(
                        (
                            ChunkDescView {
                                flags,
                                length,
                                hash: Some(b.subrange(i + n, i + n + 32)),
                            },
                            i + n + 32,
                        ),
                    )
                },
            }
        },
    }
}

/// The `n` chunk descriptors that start at `i` in `b`, each within the size
/// limit, and the position behind them.
pub open spec fn chunks_at(b: Seq<u8>, i: int, n: nat) -> Result<(Seq<ChunkDescView>, int), Fault>
    decreases n,
{
    if n == 0 {
        Ok((Seq::empty(), i))
    } else {
        match chunk_at_start(b.skip(i)) {
            Err(e) => Err(Fault::Plain(e)),
            Ok((c, k)) => if c.length > MAX_CHUNK_SIZE {
                Err(
                    Fault::Manifest(
                        "chunk length "@ + text::decimal(c.length as nat)
                            + " exceeds MAX_CHUNK_SIZE 4194304"@,
                    ),
                )
            } else {
                match chunks_at(b, i + k, (n - 1) as nat) {
                    Err(f) => Err(f),
                    Ok((s, j)) => Ok((seq![c] + s, j)),
                }
            },
        }
    }
}

/// The path that starts at `i` in `b`, and the position behind it.
pub open spec fn path_at(b: Seq<u8>, i: int) -> Result<(Seq<char>, int), Fault> {
    if i >= b.len() {
        Err(Fault::Plain(ProtocolError::Malformed("FILE_ENTRY: truncated path length")))
    } else {
        match varint::varint_at_start(b.skip(i)) {
            Err(e) => Err(Fault::Plain(e)),
            Ok((n, c)) => {
                let p = b.subrange(i + c, i + c + n);
                if n > MAX_PATH_TOTAL {
                    Err(
                        Fault::Manifest(
                            "path length "@ + text::decimal(n as nat)
                                + " exceeds MAX_PATH_TOTAL 4096"@,
                        ),
                    )
                } else if b.len() < i + c + n {
                    Err(Fault::Plain(ProtocolError::Malformed("FILE_ENTRY: truncated path bytes")))
                } else if !utf8::valid_utf8(p) {
                    Err(
                        Fault::Plain(
                            ProtocolError::Malformed("FILE_ENTRY: path is not valid UTF-8"),
                        ),
                    )
                } else {
                    match storage::path_fault(p) {
                        Some(e) => Err(
                            Fault::Manifest(
                                "path validation failed for '"@ + utf8::decode_utf8(p) + "': "@
                                    + e.text()@,
                            ),
                        ),
                        None => Ok((utf8::decode_utf8(p), i + c + n)),
                    }
                }
            },
        }
    }
}

/// The entry at the start of `b`, and its length.
pub open spec fn entry_at_start(b: Seq<u8>) -> Result<(FileEntryView, int), Fault> {
    match varint::varint_at_start(b) {
        Err(e) => Err(Fault::Plain(e)),
        Ok((flags, i)) => match path_at(b, i) {
            Err(f) => Err(f),
            Ok((path, j)) => if b.len() < j + 56 {
                Err(Fault::Plain(ProtocolError::Malformed("FILE_ENTRY: truncated metadata fields")))
            } else if b.len() == j + 56 {
                Err(Fault::Plain(ProtocolError::Malformed("FILE_ENTRY: truncated chunk count")))
            } else {
                match varint::varint_at_start(b.skip(j + 56)) {
                    Err(e) => Err(Fault::Plain(e)),
                    Ok((n, c)) => if n > MAX_WIRE_CHUNKS {
                        Err(
                            Fault::Manifest(
                                "chunk count "@ + text::decimal(n as nat)
                                    + " exceeds MAX_WIRE_CHUNKS"@,
                            ),
                        )
                    } else {
                        match chunks_at(b, j + 56 + c, n as nat) {
                            Err(f) => Err(f),
                            Ok((chunks, k)) => if entry::type_of_flags(flags) == FileType::Regular
                                && entry::lengths_sum(chunks) != le::u64_at(b, j) {
                                Err(
                                    Fault::Manifest(
                                        size_mismatch(
                                            le::u64_at(b, j),
                                            entry::lengths_sum(chunks),
                                            path,
                                        ),
                                    ),
                                )
                            } else {
                                Ok(
                                    (
                                        FileEntryView {
                                            flags,
                                            path,
                                            size: le::u64_at(b, j),
                                            mode: le::u32_at(b, j + 8),
                                            mtime_sec: le::u64_at(b, j + 12) as i64,
                                            mtime_nsec: le::u32_at(b, j + 20),
                                            file_hash: b.subrange(j + 24, j + 56),
                                            chunks,
                                        },
                                        k,
                                    ),
                                )
                            },
                        }
                    },
                }
            },
        },
    }
}

/// The text of a size that is not the sum of the chunk lengths.
pub open spec fn size_mismatch(size: u64, sum: nat, path: Seq<char>) -> Seq<char> {
    "declared size ("@ + text::decimal(size as nat) + ") does not match sum of chunk lengths ("@
        + text::decimal(sum) + ") for "@ + path
}

/// Append a [`ChunkDesc`] in canonical form.
pub fn encode_chunk_desc(chunk: &ChunkDesc, out: &mut Vec<u8>)
    ensures
        final(out)@ == old(out)@ + chunk_bytes(chunk@),
{
    varint::push_varint(out, chunk.flags.0);
    varint::push_varint(out, chunk.length);
    if !chunk.flags.is_hole() {
        match chunk.hash {
            Some(h) => {
                wire::push_bytes(out, h.as_bytes().as_slice());
            },
            None => {
                wire::push_zeros(out, 32);
            },
        }
    }
    assert(out@ =~= old(out)@ + chunk_bytes(chunk@));
}

/// Append a [`FileEntry`] in canonical form.
pub fn encode_file_entry(entry: &FileEntry, out: &mut Vec<u8>)
    ensures
        final(out)@ == old(out)@ + entry_bytes(entry@),
{
    let ghost s = entry@.chunks;
    varint::push_varint(out, entry.flags.0);
    wire::push_text(out, entry.path.as_str());
    le::push_u64(out, entry.size);
    le::push_u32(out, entry.mode);
    le::push_u64(out, entry.mtime_sec as u64);
    le::push_u32(out, entry.mtime_nsec);
    wire::push_bytes(out, entry.file_hash.as_bytes().as_slice());
    varint::push_varint(out, entry.chunks.len() as u64);
    let ghost head = out@;
    assert(head =~= old(out)@ + (varint::leb128(entry.flags.0 as nat) + wire::text_bytes(
        entry.path@,
    ) + fixed_bytes(entry@) + varint::leb128(s.len())));
    let mut k: usize = 0;
    assert(s.skip(0) =~= s);
    while k < entry.chunks.len()
        invariant
            k <= entry.chunks.len() == s.len(),
            s == entry@.chunks,
            out@ + chunks_bytes(s.skip(k as int)) == head + chunks_bytes(s),
        decreases entry.chunks.len() - k,
    {
        let ghost before = out@;
        encode_chunk_desc(&entry.chunks[k], out);
        proof {
            let t = s.skip(k as int);
            assert(t.skip(1) =~= s.skip(k + 1));
            assert(before + chunks_bytes(t) =~= before + chunk_bytes(t[0]) + chunks_bytes(
                t.skip(1),
            ));
        }
        k = k + 1;
    }
    assert(out@ + chunks_bytes(s.skip(k as int)) =~= out@);
    assert(out@ =~= old(out)@ + entry_bytes(entry@));
}

/// Decode the [`ChunkDesc`] at the start of `buf`. Returns it and the number
/// of bytes consumed.
pub fn decode_chunk_desc(buf: &[u8]) -> (r: Result<(ChunkDesc, usize), ProtocolError>)
    ensures
        match chunk_at_start(buf@) {
            Ok((c, n)) => r matches Ok((d, k)) && d@ == c && k == n && 0 < k <= buf.len(),
            Err(e) => r matches Err(d) && d == e,
        },
{
    let (flags, i) = match varint::decode_varint(buf) {
        Ok(x) => x,
        Err(e) => {
            return Err(e);
        },
    };
    if i >= buf.len() {
        return Err(ProtocolError::Malformed("CHUNK_DESC: truncated length"));
    }
    let (length, n) = match varint::decode_varint(wire::slice_from(buf, i)) {
        Ok(x) => x,
        Err(e) => {
            return Err(e);
        },
    };
    let flags = ChunkFlags(flags);
    if flags.is_hole() {
        return Ok((ChunkDesc { flags, length, hash: None }, i + n));
    }
    if buf.len() - (i + n) < 32 {
        return Err(ProtocolError::Malformed("CHUNK_DESC: truncated hash"));
    }
    Ok((ChunkDesc { flags, length, hash: Some(wire::read_hash(buf, i + n)) }, i + n + 32))
}

fn decode_path(buf: &[u8], i: usize) -> (r: Result<(VPath, usize), ProtocolError>)
    requires
        i <= buf.len(),
    ensures
        match path_at(buf@, i as int) {
            Ok((p, j)) => r matches Ok((q, k)) && q@ == p && k == j && i < k <= buf.len(),
            Err(f) => r matches Err(e) && e.is(f),
        },
{
    if i >= buf.len() {
        return Err(ProtocolError::Malformed("FILE_ENTRY: truncated path length"));
    }
    let (n, c) = match varint::decode_varint(wire::slice_from(buf, i)) {
        Ok(x) => x,
        Err(e) => {
            return Err(e);
        },
    };
    if n > MAX_PATH_TOTAL as u64 {
        return Err(
            ProtocolError::InvalidManifest(
                text::with_number("path length ", n, " exceeds MAX_PATH_TOTAL 4096"),
            ),
        );
    }
    let n: usize = n as usize;
    let start: usize = i + c;
    if buf.len() - start < n {
        return Err(ProtocolError::Malformed("FILE_ENTRY: truncated path bytes"));
    }
    let field = vstd::slice::slice_subrange(buf, start, start + n);
    let path_str: &str = match foreign::str_from_utf8(field) {
        Some(s) => s,
        None => {
            return Err(ProtocolError::Malformed("FILE_ENTRY: path is not valid UTF-8"));
        },
    };
    proof {
        utf8::encode_utf8_decode_utf8(path_str@);
    }
    match VPath::validate(path_str) {
        Ok(p) => Ok((p, start + n)),
        Err(e) => {
            let mut t: String = "path validation failed for '".to_owned();
            text::push_str(&mut t, path_str);
            text::push_str(&mut t, "': ");
            text::push_str(&mut t, e.message());
            Err(ProtocolError::InvalidManifest(t))
        },
    }
}

fn decode_chunks(buf: &[u8], start: usize, count: u64) -> (r: Result<
    (Vec<ChunkDesc>, usize, u64),
    ProtocolError,
>)
    requires
        start <= buf.len(),
        count <= MAX_WIRE_CHUNKS,
    ensures
        match chunks_at(buf@, start as int, count as nat) {
            Ok((s, j)) => r matches Ok((v, k, sum)) && v@.map_values(|c: ChunkDesc| c@) == s && k
                == j && start <= k <= buf.len() && sum == entry::lengths_sum(s),
            Err(f) => r matches Err(e) && e.is(f),
        },
{
    let mut pos: usize = start;
    let mut sum: u64 = 0;
    let mut chunks: Vec<ChunkDesc> = Vec::new();
    let ghost mut seen: Seq<ChunkDescView> = Seq::empty();
    let mut k: u64 = 0;
    proof {
        if let Ok((s, j)) = chunks_at(buf@, start as int, count as nat) {
            assert(seen + s =~= s);
        }
    }
    while k < count
        invariant
            k <= count <= MAX_WIRE_CHUNKS,
            start <= pos <= buf.len(),
            seen == chunks@.map_values(|c: ChunkDesc| c@),
            sum == entry::lengths_sum(seen),
            sum <= k * MAX_CHUNK_SIZE,
            chunks_at(buf@, start as int, count as nat) == (match chunks_at(
                buf@,
                pos as int,
                (count - k) as nat,
            ) {
                Err(f) => Err(f),
                Ok((s, j)) => Ok((seen + s, j)),
            }),
        decreases count - k,
    {
        let (chunk, n) = match decode_chunk_desc(wire::slice_from(buf, pos)) {
            Ok(x) => x,
            Err(e) => {
                return Err(e);
            },
        };
        if chunk.length > MAX_CHUNK_SIZE {
            return Err(
                ProtocolError::InvalidManifest(
                    text::with_number(
                        "chunk length ",
                        chunk.length,
                        " exceeds MAX_CHUNK_SIZE 4194304",
                    ),
                ),
            );
        }
        proof {
            assert(k * MAX_CHUNK_SIZE <= 1_000_000 * 4194304) by (nonlinear_arith)
                requires
                    k <= 1_000_000,
                    MAX_CHUNK_SIZE == 4194304,
            ;
            assert((k + 1) * MAX_CHUNK_SIZE == k * MAX_CHUNK_SIZE + MAX_CHUNK_SIZE)
                by (nonlinear_arith);
            let now = seen.push(chunk@);
            assert(now.drop_last() =~= seen);
            if let Ok((s, j)) = chunks_at(buf@, pos + n, (count - k - 1) as nat) {
                assert(seen + (seq![chunk@] + s) =~= now + s);
            }
            seen = now;
        }
        sum = sum + chunk.length;
        chunks.push(chunk);
        assert(seen =~= chunks@.map_values(|c: ChunkDesc| c@));
        pos = pos + n;
        k = k + 1;
    }
    assert(seen + Seq::<ChunkDescView>::empty() =~= seen);
    Ok((chunks, pos, sum))
}

/// Decode the [`FileEntry`] at the start of `buf`. Returns it and the number
/// of bytes consumed.
pub fn decode_file_entry(buf: &[u8]) -> (r: Result<(FileEntry, usize), ProtocolError>)
    ensures
        match entry_at_start(buf@) {
            Ok((e, n)) => r matches Ok((d, k)) && d@ == e && k == n && 0 < k <= buf.len(),
            Err(f) => r matches Err(e) && e.is(f),
        },
{
    let (flags, i) = match varint::decode_varint(buf) {
        Ok(x) => x,
        Err(e) => {
            return Err(e);
        },
    };
    let flags = FileFlags(flags);
    let (path, j) = match decode_path(buf, i) {
        Ok(x) => x,
        Err(e) => {
            return Err(e);
        },
    };
    let room: usize = buf.len() - j;
    if room < 56 {
        return Err(ProtocolError::Malformed("FILE_ENTRY: truncated metadata fields"));
    }
    if room == 56 {
        return Err(ProtocolError::Malformed("FILE_ENTRY: truncated chunk count"));
    }
    let size: u64 = le::read_u64(buf, j);
    let (count, c) = match varint::decode_varint(wire::slice_from(buf, j + 56)) {
        Ok(x) => x,
        Err(e) => {
            return Err(e);
        },
    };
    if count > MAX_WIRE_CHUNKS {
        return Err(
            ProtocolError::InvalidManifest(
                text::with_number("chunk count ", count, " exceeds MAX_WIRE_CHUNKS"),
            ),
        );
    }
    let (chunks, end, sum) = match decode_chunks(buf, j + 56 + c, count) {
        Ok(x) => x,
        Err(e) => {
            return Err(e);
        },
    };
    if flags.file_type() == FileType::Regular && sum != size {
        let mut t: String = text::with_number(
            "declared size (",
            size,
            ") does not match sum of chunk lengths (",
        );
        text::push_decimal(&mut t, sum);
        text::push_str(&mut t, ") for ");
        text::push_str(&mut t, path.as_str());
        return Err(ProtocolError::InvalidManifest(t));
    }
    let entry = FileEntry {
        flags,
        path,
        size,
        mode: le::read_u32(buf, j + 8),
        mtime_sec: le::read_u64(buf, j + 12) as i64,
        mtime_nsec: le::read_u32(buf, j + 20),
        file_hash: wire::read_hash(buf, j + 24),
        chunks,
    };
    Ok((entry, end))
}

/// A chunk descriptor that survives encoding: it has a digest exactly when it
/// has bytes, and is within the size limit.
pub open spec fn chunk_encodable(c: ChunkDescView) -> bool {
    &&& c.length <= MAX_CHUNK_SIZE
    &&& entry::marks_hole(c.flags) <==> c.hash is None
    &&& c.hash matches Some(h) ==> h.len() == 32
}

/// An entry that survives encoding: valid path, encodable chunks within the
/// count limit, and for a regular file a size that is the sum of its chunks.
pub open spec fn entry_encodable(e: FileEntryView) -> bool {
    &&& storage::is_vpath(e.path)
    &&& e.file_hash.len() == 32
    &&& e.chunks.len() <= MAX_WIRE_CHUNKS
    &&& forall|k: int| 0 <= k < e.chunks.len() ==> chunk_encodable(#[trigger] e.chunks[k])
    &&& entry::type_of_flags(e.flags) == FileType::Regular ==> entry::lengths_sum(e.chunks)
        == e.size
}

/// Decoding an encoded chunk descriptor gives it back, and consumes exactly
/// its bytes.
pub proof fn law_chunk_desc_roundtrip(c: ChunkDescView, rest: Seq<u8>)
    requires
        entry::marks_hole(c.flags) <==> c.hash is None,
        c.hash matches Some(h) ==> h.len() == 32,
    ensures
        chunk_at_start(chunk_bytes(c) + rest) == Ok::<(ChunkDescView, int), ProtocolError>(
            (c, chunk_bytes(c).len() as int),
        ),
{
    let b = chunk_bytes(c) + rest;
    let f = varint::leb128(c.flags as nat);
    let l = varint::leb128(c.length as nat);
    let h = match c.hash {
        Some(h) => h,
        None => Seq::empty(),
    };
    let i = f.len() as int;
    let n = l.len() as int;
    varint::law_varint_roundtrip(c.flags, l + h + rest);
    assert(b =~= f + (l + h + rest));
    varint::law_varint_roundtrip(c.length, h + rest);
    assert(b.skip(i) =~= l + (h + rest));
    varint::law_varint_canonical(b.skip(i));
    if c.hash is Some {
        assert(b.subrange(i + n, i + n + 32) =~= h);
    }
}

proof fn lemma_chunks_roundtrip(b: Seq<u8>, i: int, s: Seq<ChunkDescView>, rest: Seq<u8>)
    requires
        0 <= i <= b.len(),
        b.skip(i) == chunks_bytes(s) + rest,
        forall|k: int| 0 <= k < s.len() ==> chunk_encodable(#[trigger] s[k]),
    ensures
        chunks_at(b, i, s.len()) == Ok::<(Seq<ChunkDescView>, int), Fault>(
            (s, i + chunks_bytes(s).len()),
        ),
    decreases s.len(),
{
    if s.len() > 0 {
        let c = s[0];
        let t = s.skip(1);
        let n = chunk_bytes(c).len() as int;
        assert(chunk_encodable(c));
        assert(b.skip(i) =~= chunk_bytes(c) + (chunks_bytes(t) + rest));
        law_chunk_desc_roundtrip(c, chunks_bytes(t) + rest);
        assert(b.skip(i + n) =~= b.skip(i).skip(n));
        assert(b.skip(i + n) =~= chunks_bytes(t) + rest);
        assert forall|k: int| 0 <= k < t.len() implies chunk_encodable(#[trigger] t[k]) by {
            assert(t[k] == s[k + 1]);
        }
        lemma_chunks_roundtrip(b, i + n, t, rest);
        assert(seq![c] + t =~= s);
    } else {
        assert(s =~= Seq::empty());
    }
}

proof fn lemma_path_roundtrip(b: Seq<u8>, i: int, path: Seq<char>, rest: Seq<u8>)
    requires
        0 <= i < b.len(),
        b.skip(i) == wire::text_bytes(path) + rest,
        storage::is_vpath(path),
    ensures
        path_at(b, i) == Ok::<(Seq<char>, int), Fault>((path, i + wire::text_bytes(path).len())),
        b.skip(i + wire::text_bytes(path).len()) == rest,
{
    let p = utf8::encode_utf8(path);
    let pl = varint::leb128(p.len());
    let j = i + pl.len() + p.len();
    varint::law_varint_roundtrip(p.len() as u64, p + rest);
    assert(b.skip(i) =~= pl + (p + rest));
    assert(b.subrange(i + pl.len(), j) =~= b.skip(i).subrange(pl.len() as int, j - i));
    assert(b.subrange(i + pl.len(), j) =~= p);
    assert(b.skip(j) =~= b.skip(i).skip(j - i));
    assert(b.skip(j) =~= rest);
    utf8::encode_utf8_valid_utf8(path);
    utf8::encode_utf8_decode_utf8(path);
}

proof fn lemma_fixed_roundtrip(b: Seq<u8>, j: int, e: FileEntryView, rest: Seq<u8>)
    requires
        0 <= j <= b.len(),
        b.skip(j) == fixed_bytes(e) + rest,
        e.file_hash.len() == 32,
    ensures
        fixed_bytes(e).len() == 56,
        b.len() == j + 56 + rest.len(),
        b.skip(j + 56) == rest,
        le::u64_at(b, j) == e.size,
        le::u32_at(b, j + 8) == e.mode,
        le::u64_at(b, j + 12) as i64 == e.mtime_sec,
        le::u32_at(b, j + 20) == e.mtime_nsec,
        b.subrange(j + 24, j + 56) == e.file_hash,
{
    broadcast use le::group_le_lengths;

    let m = fixed_bytes(e);
    let t = b.skip(j);
    let secs = e.mtime_sec;
    assert(m.len() == 56);
    assert(b.skip(j + 56) =~= t.skip(56));
    assert(b.skip(j + 56) =~= rest);
    assert forall|x: int, y: int| 0 <= x <= y <= 56 implies #[trigger] b.subrange(j + x, j + y)
        == m.subrange(x, y) by {
        assert(b.subrange(j + x, j + y) =~= t.subrange(x, y));
        assert(t.subrange(x, y) =~= m.subrange(x, y));
    }
    assert(b.subrange(j + 0, j + 8) == m.subrange(0, 8));
    assert(m.subrange(0, 8) =~= le::u64_bytes(e.size));
    le::lemma_u64_roundtrip(b, j, e.size);
    assert(b.subrange(j + 8, j + 12) == m.subrange(8, 12));
    assert(m.subrange(8, 12) =~= le::u32_bytes(e.mode));
    le::lemma_u32_roundtrip(b, j + 8, e.mode);
    assert(b.subrange(j + 12, j + 20) == m.subrange(12, 20));
    assert(m.subrange(12, 20) =~= le::u64_bytes(secs as u64));
    le::lemma_u64_roundtrip(b, j + 12, secs as u64);
    assert((secs as u64) as i64 == secs) by (bit_vector);
    assert(b.subrange(j + 20, j + 24) == m.subrange(20, 24));
    assert(m.subrange(20, 24) =~= le::u32_bytes(e.mtime_nsec));
    le::lemma_u32_roundtrip(b, j + 20, e.mtime_nsec);
    assert(b.subrange(j + 24, j + 56) == m.subrange(24, 56));
    assert(m.subrange(24, 56) =~= e.file_hash);
}

/// Decoding an encoded entry gives it back, and consumes exactly its bytes.
#[verifier::spinoff_prover]
pub proof fn law_file_entry_roundtrip(e: FileEntryView, rest: Seq<u8>)
    requires
        entry_encodable(e),
    ensures
        entry_at_start(entry_bytes(e) + rest) == Ok::<(FileEntryView, int), Fault>(
            (e, entry_bytes(e).len() as int),
        ),
{
    let b = entry_bytes(e) + rest;
    let f = varint::leb128(e.flags as nat);
    let p = wire::text_bytes(e.path);
    let m = fixed_bytes(e);
    let cn = varint::leb128(e.chunks.len());
    let cs = chunks_bytes(e.chunks);
    let i = f.len() as int;
    let j = i + p.len();
    let tail = cn + (cs + rest);

    varint::law_varint_roundtrip(e.flags, p + (m + tail));
    assert(b =~= f + (p + (m + tail)));
    assert(b.skip(i) =~= p + (m + tail));
    varint::law_varint_roundtrip(utf8::encode_utf8(e.path).len() as u64, Seq::empty());
    assert(p.len() > 0);
    lemma_path_roundtrip(b, i, e.path, m + tail);
    lemma_fixed_roundtrip(b, j, e, tail);
    varint::law_varint_roundtrip(e.chunks.len() as u64, cs + rest);
    varint::law_varint_canonical(tail);
    assert(b.skip(j + 56 + cn.len()) =~= tail.skip(cn.len() as int));
    assert(b.skip(j + 56 + cn.len()) =~= cs + rest);
    lemma_chunks_roundtrip(b, j + 56 + cn.len(), e.chunks, rest);
    assert(entry_bytes(e).len() == j + 56 + cn.len() + cs.len());
}

} // verus!
