//! How files are described, told of what the functions of this module give
//! back.

use vstd::prelude::*;

use crate::chunking::{ChunkMode, ChunkParams};
use crate::error::VelcruxError;
use crate::foreign;
use crate::manifest::entry::{ChunkDesc, FileEntry, FileFlags, FileType};
use crate::manifest::reader;
use crate::manifest::reader::ManifestBatchDecoder;
use crate::manifest::scanner;
use crate::manifest::scanner::FileScan;
use crate::manifest::writer::ManifestWriter;
use crate::protocol::message::{ManifestBegin, ManifestEnd};
use crate::storage;
use crate::storage::VPath;
use crate::util;

verus! {

/// A file that is scanned piece by piece has the digest of the whole, and its
/// chunks are as long together as the file.
pub proof fn law_scan_is_of_whole_file(
    mode: ChunkMode,
    params: ChunkParams,
    s: FileScan,
    a: &[u8],
    t: FileScan,
    b: &[u8],
    u: FileScan,
    r: (util::Hash, Vec<ChunkDesc>),
)
    requires
        params.valid(),
        a@.len() + b@.len() <= u64::MAX,
        call_ensures(FileScan::new, (mode, params), s),
        call_ensures(FileScan::push, (s, a), t),
        call_ensures(FileScan::push, (t, b), u),
        call_ensures(FileScan::finish, (u,), r),
    ensures
        r.0@ == foreign::blake3_digest(a@ + b@),
        ({
            let whole = a@ + b@;
            let s = crate::chunking::file_chunks(mode, params, whole);
            &&& r.1@.len() == s.len()
            &&& forall|i: int|
                0 <= i < r.1@.len() ==> (#[trigger] r.1@[i])@.length == s[i].length && r.1@[i]@.hash
                    == Some(
                    foreign::blake3_digest(
                        whole.subrange(s[i].offset as int, s[i].offset + s[i].length),
                    ),
                )
        }),
{
    let whole = a@ + b@;
    assert(Seq::<u8>::empty() + a@ + b@ =~= whole);
    let chunks = crate::chunking::file_chunks(mode, params, whole);
    let d = r.1@.map_values(|c: ChunkDesc| c@);
    assert(d == scanner::descriptors(chunks, whole));
    assert forall|i: int| 0 <= i < r.1@.len() implies (#[trigger] r.1@[i])@.length
        == chunks[i].length && r.1@[i]@.hash == Some(
        foreign::blake3_digest(
            whole.subrange(chunks[i].offset as int, chunks[i].offset + chunks[i].length),
        ),
    ) by {
        assert(d[i] == r.1@[i]@);
        assert(d[i] == scanner::described(chunks[i], whole));
    }
}

/// Entries tell what they are; only a regular file has a size and chunks.
pub proof fn law_entries_tell_what_they_are(
    path: VPath,
    size: u64,
    mode: u32,
    sec: i64,
    nsec: u32,
    hash: util::Hash,
    chunks: Vec<ChunkDesc>,
    f: FileEntry,
    d: FileEntry,
    l: FileEntry,
    ft: FileType,
    dt: FileType,
    lt: FileType,
)
    requires
        call_ensures(FileEntry::regular, (path, size, mode, sec, nsec, hash, chunks), f),
        call_ensures(FileEntry::directory, (path, mode, sec, nsec), d),
        call_ensures(FileEntry::symlink, (path, mode, sec, nsec, hash), l),
        call_ensures(FileFlags::file_type, (&f.flags,), ft),
        call_ensures(FileFlags::file_type, (&d.flags,), dt),
        call_ensures(FileFlags::file_type, (&l.flags,), lt),
    ensures
        ft == FileType::Regular && dt == FileType::Directory && lt == FileType::Symlink,
        f@.path == path@ && d@.path == path@ && l@.path == path@,
        f@.mode == mode && d@.mode == mode && l@.mode == mode,
        f@.mtime_sec == sec && d@.mtime_sec == sec && l@.mtime_sec == sec,
        f@.mtime_nsec == nsec && d@.mtime_nsec == nsec && l@.mtime_nsec == nsec,
        f@.size == size && d@.size == 0 && l@.size == 0,
        f.chunks == chunks && d@.chunks.len() == 0 && l@.chunks.len() == 0,
        f@.file_hash == hash@ && l@.file_hash == hash@,
{
    assert(0u64 & 3 == 0 && 1u64 & 3 == 1 && 2u64 & 3 == 2) by (bit_vector);
}

/// The flags of a file are set and cleared one by one.
pub proof fn law_flags_are_kept_apart(
    f: FileFlags,
    b: bool,
    s: FileFlags,
    x: FileFlags,
    s_sparse: bool,
    s_xattrs: bool,
    x_sparse: bool,
    x_xattrs: bool,
    f_sparse: bool,
    f_xattrs: bool,
)
    requires
        call_ensures(FileFlags::with_sparse, (f, b), s),
        call_ensures(FileFlags::with_xattrs, (f, b), x),
        call_ensures(FileFlags::is_sparse, (&s,), s_sparse),
        call_ensures(FileFlags::has_xattrs, (&s,), s_xattrs),
        call_ensures(FileFlags::is_sparse, (&x,), x_sparse),
        call_ensures(FileFlags::has_xattrs, (&x,), x_xattrs),
        call_ensures(FileFlags::is_sparse, (&f,), f_sparse),
        call_ensures(FileFlags::has_xattrs, (&f,), f_xattrs),
    ensures
        s_sparse == b && x_xattrs == b,
        s_xattrs == f_xattrs && x_sparse == f_sparse,
        s.0 & 3 == f.0 & 3 && x.0 & 3 == f.0 & 3,
{
    let n = f.0;
    assert((n | 4u64) & 4 != 0 && (n & !4u64) & 4 == 0 && (n | 8u64) & 8 != 0 && (n & !8u64) & 8
        == 0 && (n | 4u64) & 8 == n & 8 && (n & !4u64) & 8 == n & 8 && (n | 8u64) & 4 == n & 4 && (n
        & !8u64) & 4 == n & 4 && (n | 4u64) & 3 == n & 3 && (n & !4u64) & 3 == n & 3 && (n | 8u64)
        & 3 == n & 3 && (n & !8u64) & 3 == n & 3) by (bit_vector);
}

/// A manifest that is finished says how many files it has and how large they
/// are, and gives the same digest in front and at the end. What is read with
/// that digest is accepted if its bytes are those.
pub proof fn law_finished_manifest(
    w: ManifestWriter,
    r: Result<(ManifestBegin, ManifestEnd, Vec<u8>), VelcruxError>,
    d: ManifestBatchDecoder,
    ok: Result<(), VelcruxError>,
)
    requires
        call_ensures(ManifestWriter::finish, (w,), r),
        call_ensures(ManifestBatchDecoder::finish, (d,), ok),
    ensures
        r matches Ok((b, e, _)) ==> b@.file_count == w@.file_count && b@.total_bytes
            == w@.total_bytes && b@.chunker_params == w@.chunker_params && b@.manifest_hash
            == e.manifest_hash@ && (w@.pending.len() == 0 ==> b@.manifest_hash
            == foreign::blake3_digest(w@.hashed)),
        r matches Ok((b, e, _)) && w@.pending.len() == 0 && d@.hashed == w@.hashed && d@.expected
            == b@.manifest_hash ==> ok is Ok,
        ok is Ok <==> foreign::blake3_digest(d@.hashed) == d@.expected,
{
}

/// A batch is unpacked if it is packed well and is not larger than sixteen
/// mebibytes.
pub proof fn law_batch_is_unpacked(raw: Seq<u8>, packed: &[u8], r: Result<Vec<u8>, VelcruxError>)
    requires
        call_ensures(reader::decompress_batch, (packed,), r),
    ensures
        foreign::zstd_decoded(packed@) is None ==> r is Err,
        foreign::zstd_decoded(packed@) == Some(raw) ==> (r is Ok <==> raw.len() <= 16_777_216),
        foreign::zstd_decoded(packed@) == Some(raw) ==> (r matches Ok(v) ==> v@ == raw),
{
}

/// A file is described under its path if that is one, and with its time.
pub proof fn law_scanned_names_and_times(
    rel: &str,
    r: Result<VPath, VelcruxError>,
    sec: u64,
    nsec: u32,
    t: (i64, u32),
    none: (i64, u32),
)
    requires
        call_ensures(scanner::scanned_path, (rel,), r),
        call_ensures(scanner::scanned_mtime, (Some((sec, nsec)),), t),
        call_ensures(scanner::scanned_mtime, (None,), none),
    ensures
        r is Ok <==> storage::is_vpath(rel@),
        r matches Ok(p) ==> p@ == rel@,
        sec <= i64::MAX ==> t.0 == sec,
        t.1 == nsec,
        none.0 == 0 && none.1 == 0,
{
}

} // verus!
