//! Manifest entries of scanned files.
//!
//! A file is read once, in buffers of bounded size: the chunker finds its
//! chunks, each chunk is digested, and the whole file is digested in the same
//! pass.

use vstd::prelude::*;
use vstd::utf8;

use crate::chunking;
use crate::chunking::{ChunkBoundary, ChunkMode, ChunkParams, StreamChunker};
use crate::error;
use crate::error::{Fault, ProtocolError, VelcruxError};
use crate::foreign;
use crate::manifest::entry;
use crate::manifest::entry::{ChunkDesc, ChunkDescView};
use crate::protocol::wire;
use crate::storage;
use crate::storage::VPath;
use crate::util;

verus! {

/// Buffer size for streaming file reads during scanning (2 MiB).
pub const SCANNER_BUFFER_SIZE: usize = 2 * 1024 * 1024;

/// Mode bits of a scanned directory.
pub const SCANNED_DIRECTORY_MODE: u32 = 0o755;

/// The descriptor of a chunk of a file.
pub open spec fn described(b: ChunkBoundary, file: Seq<u8>) -> ChunkDescView {
    ChunkDescView {
        flags: 0,
        length: b.length,
        hash: Some(foreign::blake3_digest(file.subrange(b.offset as int, b.stop()))),
    }
}

/// The descriptors of the chunks of a file.
pub open spec fn descriptors(s: Seq<ChunkBoundary>, file: Seq<u8>) -> Seq<ChunkDescView> {
    s.map_values(|b: ChunkBoundary| described(b, file))
}

/// A file that is being scanned.
pub struct FileScan {
    chunker: StreamChunker,
    hasher: util::HashHasher,
    pending: Vec<u8>,
    chunks: Vec<ChunkDesc>,
}

impl View for FileScan {
    type V = Seq<u8>;

    /// The bytes read so far.
    closed spec fn view(&self) -> Seq<u8> {
        self.hasher@
    }
}

impl FileScan {
    /// How the file is cut.
    pub closed spec fn mode(self) -> ChunkMode {
        self.chunker.mode()
    }

    /// The chunk sizes.
    pub closed spec fn params(self) -> ChunkParams {
        self.chunker.params()
    }

    #[verifier::type_invariant]
    spec fn in_step(self) -> bool {
        let scan = chunking::mode_scan(
            self.chunker.mode(),
            self.chunker.params(),
            chunking::fresh(),
            self.hasher@,
        );
        &&& !self.chunker.closed()
        &&& self.chunker.at() == scan.at
        &&& 0 <= scan.at.start <= self.hasher@.len()
        &&& chunking::tiles(scan.found, 0, scan.at.start)
        &&& self.chunker.fed() == self.hasher@.len() <= u64::MAX
        &&& self.pending@ == self.hasher@.skip(scan.at.start)
        &&& self.chunks@.map_values(|c: ChunkDesc| c@) == descriptors(scan.found, self.hasher@)
    }

    /// Start to scan a file.
    pub fn new(mode: ChunkMode, params: ChunkParams) -> (r: Self)
        ensures
            r.mode() == mode,
            r.params() == params,
            r@ == Seq::<u8>::empty(),
    {
        let chunker = StreamChunker::new(mode, params);
        let hasher = util::HashHasher::new();
        let pending: Vec<u8> = Vec::new();
        let chunks: Vec<ChunkDesc> = Vec::new();
        proof {
            assert(hasher@.skip(0) =~= pending@);
            assert(chunks@.map_values(|c: ChunkDesc| c@) =~= descriptors(Seq::empty(), hasher@));
        }
        FileScan { chunker, hasher, pending, chunks }
    }

    /// Go on with the next bytes of the file.
    pub fn push(self, data: &[u8]) -> (r: Self)
        requires
            self@.len() + data@.len() <= u64::MAX,
        ensures
            r.mode() == self.mode(),
            r.params() == self.params(),
            r@ == self@ + data@,
    {
        proof {
            use_type_invariant(&self);
        }
        let ghost before = self.hasher@;
        let ghost mode = self.chunker.mode();
        let ghost params = self.chunker.params();
        let ghost scan = chunking::mode_scan(mode, params, chunking::fresh(), before);
        let mut chunker = self.chunker;
        let mut hasher = self.hasher;
        let mut pending = self.pending;
        let mut chunks = self.chunks;
        let ghost start = scan.at.start;
        let found = chunker.push(data);
        hasher.feed(data);
        wire::push_bytes(&mut pending, data);
        let ghost file = hasher@;
        let ghost next = chunking::mode_scan(mode, params, scan.at, data@);
        proof {
            chunking::law_mode_split(mode, params, chunking::fresh(), before, data@);
            chunking::lemma_tiles_bounds(next.found, start, next.at.start);
            chunking::lemma_tiles_concat(scan.found, next.found, 0, start, next.at.start);
            assert(pending@ =~= file.skip(start));
            assert(file.take(before.len() as int) =~= before);
            lemma_descriptors_extend(scan.found, 0, start, before, file);
            assert(scan.found + found@.take(0) =~= scan.found);
            assert(found@.take(found@.len() as int) =~= found@);
        }
        let mut cut: usize = 0;
        let mut k: usize = 0;
        while k < found.len()
            invariant
                k <= found.len(),
                chunking::tiles(found@, start, next.at.start),
                0 <= start,
                start <= next.at.start <= file.len(),
                pending@ == file.skip(start),
                cut == (if k < found.len() {
                    found@[k as int].offset as int
                } else {
                    next.at.start
                }) - start,
                cut <= pending.len(),
                chunks@.map_values(|c: ChunkDesc| c@) == descriptors(
                    scan.found + found@.take(k as int),
                    file,
                ),
            decreases found.len() - k,
        {
            let b: ChunkBoundary = found[k];
            proof {
                chunking::lemma_tiles_at(found@, start, next.at.start, k as int);
            }
            let stop: usize = cut + b.length as usize;
            let part = vstd::slice::slice_subrange(pending.as_slice(), cut, stop);
            assert(part@ =~= file.subrange(b.offset as int, b.stop()));
            let ghost had = chunks@;
            chunks.push(ChunkDesc::new(b.length, util::Hash::of(part)));
            proof {
                let more = scan.found + found@.take(k + 1);
                let less = scan.found + found@.take(k as int);
                assert(more =~= less.push(b));
                assert(descriptors(more, file) =~= descriptors(less, file).push(
                    described(b, file),
                ));
                assert(chunks@.map_values(|c: ChunkDesc| c@) =~= had.map_values(
                    |c: ChunkDesc| c@,
                ).push(described(b, file)));
            }
            cut = stop;
            k = k + 1;
        }
        let rest = wire::copy_range(pending.as_slice(), cut, pending.len());
        assert(rest@ =~= file.skip(next.at.start));
        FileScan { chunker, hasher, pending: rest, chunks }
    }

    /// The end of the file: its digest and its chunks.
    pub fn finish(self) -> (r: (util::Hash, Vec<ChunkDesc>))
        ensures
            r.0@ == foreign::blake3_digest(self@),
            r.1@.map_values(|c: ChunkDesc| c@) == descriptors(
                chunking::file_chunks(self.mode(), self.params(), self@),
                self@,
            ),
    {
        proof {
            use_type_invariant(&self);
        }
        let ghost file = self.hasher@;
        let ghost bounds = chunking::file_chunks(self.chunker.mode(), self.chunker.params(), file);
        let file_hash = self.hasher.finalize();
        let mut chunks = self.chunks;
        if self.pending.len() > 0 {
            let ghost had = chunks@;
            chunks.push(
                ChunkDesc::new(
                    self.pending.len() as u64,
                    util::Hash::of(self.pending.as_slice()),
                ),
            );
            proof {
                let last = bounds.last();
                assert(bounds.drop_last() =~= chunking::mode_scan(
                    self.chunker.mode(),
                    self.chunker.params(),
                    chunking::fresh(),
                    file,
                ).found);
                assert(file.subrange(last.offset as int, last.stop()) =~= self.pending@);
                assert(descriptors(bounds, file) =~= descriptors(bounds.drop_last(), file).push(
                    described(last, file),
                ));
                assert(chunks@.map_values(|c: ChunkDesc| c@) =~= had.map_values(
                    |c: ChunkDesc| c@,
                ).push(described(last, file)));
            }
        }
        (file_hash, chunks)
    }
}

/// Chunks that lie within a file are described the same when more is known of
/// the file.
proof fn lemma_descriptors_extend(
    s: Seq<ChunkBoundary>,
    a: int,
    b: int,
    file: Seq<u8>,
    longer: Seq<u8>,
)
    requires
        chunking::tiles(s, a, b),
        0 <= a,
        b <= file.len() <= longer.len(),
        longer.take(file.len() as int) == file,
    ensures
        descriptors(s, file) == descriptors(s, longer),
{
    assert forall|k: int| 0 <= k < s.len() implies described(s[k], file) == described(
        s[k],
        longer,
    ) by {
        chunking::lemma_tiles_at(s, a, b, k);
        let c = s[k];
        assert(file.subrange(c.offset as int, c.stop()) =~= longer.subrange(
            c.offset as int,
            c.stop(),
        ));
    }
    assert(descriptors(s, file) =~= descriptors(s, longer));
}

/// The path of a scanned file, below the root of the scan.
pub fn scanned_path(rel_path: &str) -> (r: error::Result<VPath>)
    ensures
        match storage::path_fault(utf8::encode_utf8(rel_path@)) {
            None => r matches Ok(p) && p@ == rel_path@,
            Some(f) => r matches Err(e) && e.is(Fault::Manifest(f.text()@)),
        },
{
    match VPath::validate(rel_path) {
        Ok(p) => Ok(p),
        Err(e) => Err(
            VelcruxError::Protocol(ProtocolError::InvalidManifest(e.message().to_owned())),
        ),
    }
}

/// The modification time of a scanned file, from its distance to the epoch;
/// zero where there is none.
pub fn scanned_mtime(since_epoch: Option<(u64, u32)>) -> (r: (i64, u32))
    ensures
        r == match since_epoch {
            Some((secs, nanos)) => (secs as i64, nanos),
            None => (0i64, 0u32),
        },
{
    match since_epoch {
        Some((secs, nanos)) => (secs as i64, nanos),
        None => (0, 0),
    }
}

/// The chunks that a scan finds add up to the file: their lengths sum to its
/// size, as the entry of a regular file must have it.
pub proof fn law_scanned_lengths(mode: ChunkMode, params: ChunkParams, file: Seq<u8>)
    requires
        file.len() <= u64::MAX,
        params.valid(),
    ensures
        entry::lengths_sum(descriptors(chunking::file_chunks(mode, params, file), file))
            == file.len(),
{
    chunking::law_file_chunks_tile(mode, params, file);
    lemma_tiles_sum(
        chunking::file_chunks(mode, params, file),
        0,
        file.len() as int,
        file,
    );
}

proof fn lemma_tiles_sum(s: Seq<ChunkBoundary>, a: int, b: int, file: Seq<u8>)
    requires
        chunking::tiles(s, a, b),
    ensures
        entry::lengths_sum(descriptors(s, file)) == b - a,
    decreases s.len(),
{
    if s.len() > 0 {
        lemma_tiles_sum(s.drop_last(), a, s.last().offset as int, file);
        assert(descriptors(s, file).drop_last() =~= descriptors(s.drop_last(), file));
    }
}

} // verus!
