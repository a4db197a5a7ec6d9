//! Streaming manifest writer.
//!
//! Collects up to `MANIFEST_BATCH_SIZE` entries, encodes each batch in
//! canonical form, compresses it, and appends it to the spill: the bytes of
//! the manifest file. The spill is handed out piece by piece, so that memory
//! is bounded by one batch. A running digest covers the canonical bytes.
//!
//! ```text
//! spill:  "VXMB" version(1) record*
//! record: batch_index(u64) entry_count(u32) compressed_len(u32) compressed
//! ```

use vstd::prelude::*;

use crate::chunking::ChunkParams;
use crate::error;
use crate::error::{Fault, ProtocolError, VelcruxError};
use crate::foreign;
use crate::manifest::codec;
use crate::manifest::entry::{FileEntry, FileEntryView};
use crate::protocol::le;
use crate::protocol::limits::{MANIFEST_BATCH_SIZE, MAX_MANIFEST_BYTES, MAX_MANIFEST_ENTRIES};
use crate::protocol::message::{ManifestBegin, ManifestBeginView, ManifestEnd};
use crate::protocol::wire;
use crate::text;
use crate::util;

verus! {

/// First bytes of a spill file (`"VXMB"`).
pub const SPILL_MAGIC: [u8; 4] = [0x56, 0x58, 0x4D, 0x42];

/// Current spill file format version.
pub const SPILL_VERSION: u8 = 1;

/// zstd level of the batches.
pub const BATCH_COMPRESSION_LEVEL: i32 = 3;

/// Entries in canonical form, one after the other.
pub open spec fn entries_bytes(s: Seq<FileEntryView>) -> Seq<u8>
    decreases s.len(),
{
    if s.len() == 0 {
        Seq::empty()
    } else {
        codec::entry_bytes(s[0]) + entries_bytes(s.skip(1))
    }
}

/// The canonical form of two lists of entries, one behind the other, is that
/// of the first followed by that of the second: how entries are split into
/// batches does not change the digest of the manifest.
pub proof fn law_entries_concat(a: Seq<FileEntryView>, b: Seq<FileEntryView>)
    ensures
        entries_bytes(a + b) == entries_bytes(a) + entries_bytes(b),
    decreases a.len(),
{
    if a.len() == 0 {
        assert(a + b =~= b);
        assert(entries_bytes(a) + entries_bytes(b) =~= entries_bytes(b));
    } else {
        law_entries_concat(a.skip(1), b);
        assert((a + b).skip(1) =~= a.skip(1) + b);
        assert(entries_bytes(a + b) =~= entries_bytes(a) + entries_bytes(b));
    }
}

/// The first bytes of a spill.
pub open spec fn spill_header() -> Seq<u8> {
    SPILL_MAGIC@ + seq![SPILL_VERSION]
}

/// The header of a batch in a spill.
pub open spec fn record_header(index: u64, count: u32, payload_len: u32) -> Seq<u8> {
    le::u64_bytes(index) + le::u32_bytes(count) + le::u32_bytes(payload_len)
}

/// A batch in a spill.
pub open spec fn spill_record(index: u64, count: u32, payload: Seq<u8>) -> Seq<u8> {
    record_header(index, count, payload.len() as u32) + payload
}

/// Lists of entries, one after the other.
pub open spec fn joined(batches: Seq<Seq<FileEntryView>>) -> Seq<FileEntryView>
    decreases batches.len(),
{
    if batches.len() == 0 {
        Seq::empty()
    } else {
        batches[0] + joined(batches.skip(1))
    }
}

/// The compressed form of a batch.
pub open spec fn batch_payload(batch: Seq<FileEntryView>) -> Seq<u8> {
    foreign::zstd_compressed(entries_bytes(batch), BATCH_COMPRESSION_LEVEL)->0
}

/// Batches in a spill, one after the other; the first has the given index.
pub open spec fn records(batches: Seq<Seq<FileEntryView>>, index: nat) -> Seq<u8>
    decreases batches.len(),
{
    if batches.len() == 0 {
        Seq::empty()
    } else {
        spill_record(index as u64, batches[0].len() as u32, batch_payload(batches[0])) + records(
            batches.skip(1),
            index + 1,
        )
    }
}

/// A batch was compressed, and decompresses to what it was made of.
pub open spec fn restored(batch: Seq<FileEntryView>) -> bool {
    let raw = entries_bytes(batch);
    foreign::zstd_compressed(raw, BATCH_COMPRESSION_LEVEL) matches Some(c)
        && foreign::zstd_decoded(c) == Some(raw)
}

/// All of the batches are such.
pub open spec fn all_restored(batches: Seq<Seq<FileEntryView>>) -> bool {
    forall|k: int| 0 <= k < batches.len() ==> restored(#[trigger] batches[k])
}

proof fn lemma_joined_push(batches: Seq<Seq<FileEntryView>>, b: Seq<FileEntryView>)
    ensures
        joined(batches.push(b)) == joined(batches) + b,
    decreases batches.len(),
{
    if batches.len() == 0 {
        reveal_with_fuel(joined, 2);
        assert(batches.push(b).skip(1) =~= Seq::empty());
        assert(joined(batches.push(b)) =~= joined(batches) + b);
    } else {
        lemma_joined_push(batches.skip(1), b);
        assert(batches.push(b).skip(1) =~= batches.skip(1).push(b));
        assert(joined(batches.push(b)) =~= joined(batches) + b);
    }
}

proof fn lemma_records_push(batches: Seq<Seq<FileEntryView>>, index: nat, b: Seq<FileEntryView>)
    ensures
        records(batches.push(b), index) == records(batches, index) + spill_record(
            (index + batches.len()) as u64,
            b.len() as u32,
            batch_payload(b),
        ),
    decreases batches.len(),
{
    let last = spill_record((index + batches.len()) as u64, b.len() as u32, batch_payload(b));
    if batches.len() == 0 {
        reveal_with_fuel(records, 2);
        assert(batches.push(b).skip(1) =~= Seq::empty());
        assert(records(batches.push(b), index) =~= records(batches, index) + last);
    } else {
        lemma_records_push(batches.skip(1), index + 1, b);
        assert(batches.push(b).skip(1) =~= batches.skip(1).push(b));
        assert(records(batches.push(b), index) =~= records(batches, index) + last);
    }
}

/// Streaming writer for manifests.
pub struct ManifestWriter {
    chunker_params: ChunkParams,
    batch_entries: Vec<FileEntry>,
    hasher: util::HashHasher,
    file_count: u64,
    total_bytes: u64,
    manifest_bytes: u64,
    batch_index: u64,
    spill: Vec<u8>,
    batches: Ghost<Seq<Seq<FileEntryView>>>,
    handed: Ghost<Seq<u8>>,
}

/// State of a manifest writer.
#[verifier::ext_equal]
pub struct ManifestWriterView {
    /// Chunker parameters of the transfer.
    pub chunker_params: ChunkParams,
    /// Entries of the batch that is being collected.
    pub pending: Seq<FileEntryView>,
    /// Canonical bytes that went into the manifest digest.
    pub hashed: Seq<u8>,
    /// Number of entries added.
    pub file_count: u64,
    /// Sum of the sizes of the entries added.
    pub total_bytes: u64,
    /// Number of canonical bytes so far.
    pub manifest_bytes: u64,
    /// Index of the next batch.
    pub batch_index: u64,
    /// Bytes of the spill that were not handed out yet.
    pub spill: Seq<u8>,
    /// The batches that were written.
    pub batches: Seq<Seq<FileEntryView>>,
    /// Bytes of the spill that were handed out.
    pub handed: Seq<u8>,
}

impl ManifestWriterView {
    /// The writer after its pending entries became a batch, and what went
    /// wrong with that.
    pub open spec fn flushed(self) -> (ManifestWriterView, Option<Fault>) {
        let raw = entries_bytes(self.pending);
        let v = ManifestWriterView {
            hashed: self.hashed + raw,
            manifest_bytes: if self.manifest_bytes + raw.len() <= u64::MAX {
                (self.manifest_bytes + raw.len()) as u64
            } else {
                u64::MAX
            },
            ..self
        };
        if self.pending.len() == 0 {
            (self, None)
        } else if v.manifest_bytes > MAX_MANIFEST_BYTES {
            (
                v,
                Some(
                    Fault::Manifest(
                        "manifest size "@ + text::decimal(v.manifest_bytes as nat)
                            + " exceeds MAX_MANIFEST_BYTES 8589934592"@,
                    ),
                ),
            )
        } else {
            match foreign::zstd_compressed(raw, BATCH_COMPRESSION_LEVEL) {
                None => (v, Some(Fault::Plain(ProtocolError::Malformed("zstd compression failed")))),
                Some(c) => (
                    ManifestWriterView {
                        pending: Seq::empty(),
                        batch_index: (self.batch_index + 1) as u64,
                        spill: self.spill + spill_record(
                            self.batch_index,
                            self.pending.len() as u32,
                            c,
                        ),
                        batches: self.batches.push(self.pending),
                        ..v
                    },
                    None,
                ),
            }
        }
    }

    /// The writer after an entry was added, and what went wrong with that.
    pub open spec fn added(self, e: FileEntryView) -> (ManifestWriterView, Option<Fault>) {
        let v = ManifestWriterView {
            file_count: (self.file_count + 1) as u64,
            total_bytes: (self.total_bytes + e.size) as u64,
            pending: self.pending.push(e),
            ..self
        };
        if self.file_count >= MAX_MANIFEST_ENTRIES {
            (self, Some(Fault::Manifest("manifest entry count reached limit 50000000"@)))
        } else if v.pending.len() >= MANIFEST_BATCH_SIZE {
            v.flushed()
        } else {
            (v, None)
        }
    }

    /// The writer with nothing left to hand out.
    pub open spec fn drained(self) -> ManifestWriterView {
        ManifestWriterView { spill: Seq::empty(), handed: self.handed + self.spill, ..self }
    }

    /// The entries that were added, in order.
    pub open spec fn entries(self) -> Seq<FileEntryView> {
        joined(self.batches) + self.pending
    }

    /// Nothing has gone wrong: the spill, as far as it was handed out and as
    /// far as it was not, is that of the batches, and the digest and the
    /// counts are theirs.
    pub open spec fn sound(self) -> bool {
        &&& self.handed + self.spill == spill_header() + records(self.batches, 0)
        &&& self.hashed == entries_bytes(joined(self.batches))
        &&& self.manifest_bytes == self.hashed.len()
        &&& self.manifest_bytes <= MAX_MANIFEST_BYTES
        &&& self.batch_index == self.batches.len()
        &&& self.file_count == self.entries().len()
        &&& self.file_count <= MAX_MANIFEST_ENTRIES
        &&& self.pending.len() < MANIFEST_BATCH_SIZE
        &&& forall|k: int|
            0 <= k < self.batches.len() ==> 0 < (#[trigger] self.batches[k]).len()
                <= MANIFEST_BATCH_SIZE
    }
}

impl View for ManifestWriter {
    type V = ManifestWriterView;

    closed spec fn view(&self) -> ManifestWriterView {
        ManifestWriterView {
            chunker_params: self.chunker_params,
            pending: self.batch_entries@.map_values(|e: FileEntry| e@),
            hashed: self.hasher@,
            file_count: self.file_count,
            total_bytes: self.total_bytes,
            manifest_bytes: self.manifest_bytes,
            batch_index: self.batch_index,
            spill: self.spill@,
            batches: self.batches@,
            handed: self.handed@,
        }
    }
}

impl ManifestWriter {
    #[verifier::type_invariant]
    spec fn counts_batches(self) -> bool {
        &&& self.batch_index + self.batch_entries@.len() <= self.file_count
        &&& self.file_count <= MAX_MANIFEST_ENTRIES
        &&& all_restored(self.batches@)
    }

    /// Create a writer. Its spill starts with the file header.
    pub fn new(chunker_params: ChunkParams) -> (r: Self)
        ensures
            r@ == (ManifestWriterView {
                chunker_params,
                pending: Seq::empty(),
                hashed: Seq::empty(),
                file_count: 0,
                total_bytes: 0,
                manifest_bytes: 0,
                batch_index: 0,
                spill: spill_header(),
                batches: Seq::empty(),
                handed: Seq::empty(),
            }),
            r@.sound(),
            r@.entries() == Seq::<FileEntryView>::empty(),
    {
        let mut spill: Vec<u8> = Vec::new();
        wire::push_bytes(&mut spill, SPILL_MAGIC.as_slice());
        spill.push(SPILL_VERSION);
        assert(spill@ =~= spill_header());
        let batch_entries: Vec<FileEntry> = Vec::new();
        assert(batch_entries@.map_values(|e: FileEntry| e@) =~= Seq::empty());
        ManifestWriter {
            chunker_params,
            batch_entries,
            hasher: util::HashHasher::new(),
            file_count: 0,
            total_bytes: 0,
            manifest_bytes: 0,
            batch_index: 0,
            spill,
            batches: Ghost(Seq::empty()),
            handed: Ghost(Seq::empty()),
        }
    }

    /// Add an entry. If the batch is full, it is appended to the spill.
    pub fn add_entry(&mut self, entry: FileEntry) -> (r: error::Result<()>)
        requires
            old(self)@.total_bytes + entry.size <= u64::MAX,
        ensures
            final(self)@ == old(self)@.added(entry@).0,
            match old(self)@.added(entry@).1 {
                None => r is Ok,
                Some(f) => r matches Err(e) && e.is(f),
            },
    {
        proof {
            use_type_invariant(&*self);
        }
        if self.file_count >= MAX_MANIFEST_ENTRIES {
            return Err(
                VelcruxError::Protocol(
                    ProtocolError::InvalidManifest(
                        "manifest entry count reached limit 50000000".to_owned(),
                    ),
                ),
            );
        }
        let ghost e = entry@;
        let size: u64 = entry.size;
        let mut entries: Vec<FileEntry> = Vec::new();
        self.file_count = self.file_count + 1;
        self.total_bytes = self.total_bytes + size;
        std::mem::swap(&mut entries, &mut self.batch_entries);
        entries.push(entry);
        self.batch_entries = entries;
        assert(self@.pending =~= old(self)@.pending.push(e));
        if self.batch_entries.len() >= MANIFEST_BATCH_SIZE {
            return self.flush_batch();
        }
        Ok(())
    }

    /// Append the pending entries to the spill as a compressed batch.
    fn flush_batch(&mut self) -> (r: error::Result<()>)
        ensures
            final(self)@ == old(self)@.flushed().0,
            match old(self)@.flushed().1 {
                None => r is Ok,
                Some(f) => r matches Err(e) && e.is(f),
            },
    {
        proof {
            use_type_invariant(&*self);
        }
        if self.batch_entries.len() == 0 {
            return Ok(());
        }
        let buf: Vec<u8> = encode_entries(&self.batch_entries);
        let mut hasher = util::HashHasher::new();
        std::mem::swap(&mut hasher, &mut self.hasher);
        hasher.feed(buf.as_slice());
        self.hasher = hasher;
        self.manifest_bytes = self.manifest_bytes.saturating_add(buf.len() as u64);
        if self.manifest_bytes > MAX_MANIFEST_BYTES {
            return Err(
                VelcruxError::Protocol(
                    ProtocolError::InvalidManifest(
                        text::with_number(
                            "manifest size ",
                            self.manifest_bytes,
                            " exceeds MAX_MANIFEST_BYTES 8589934592",
                        ),
                    ),
                ),
            );
        }
        match foreign::zstd_encode_all(buf.as_slice(), BATCH_COMPRESSION_LEVEL) {
            None => Err(VelcruxError::Protocol(ProtocolError::Malformed("zstd compression failed"))),
            Some(compressed) => {
                let mut spill: Vec<u8> = Vec::new();
                std::mem::swap(&mut spill, &mut self.spill);
                le::push_u64(&mut spill, self.batch_index);
                le::push_u32(&mut spill, self.batch_entries.len() as u32);
                le::push_u32(&mut spill, compressed.len() as u32);
                wire::push_bytes(&mut spill, compressed.as_slice());
                assert(spill@ =~= old(self)@.spill + spill_record(
                    self.batch_index,
                    self.batch_entries@.len() as u32,
                    compressed@,
                ));
                self.batches = Ghost(self.batches@.push(old(self)@.pending));
                self.spill = spill;
                self.batch_entries = Vec::new();
                self.batch_index = self.batch_index + 1;
                assert(self@.pending =~= Seq::empty());
                Ok(())
            },
        }
    }

    /// Hand out the bytes of the spill that were not handed out yet.
    pub fn take_spill(&mut self) -> (r: Vec<u8>)
        ensures
            r@ == old(self)@.spill,
            final(self)@ == old(self)@.drained(),
    {
        proof {
            use_type_invariant(&*self);
        }
        let mut spill: Vec<u8> = Vec::new();
        std::mem::swap(&mut spill, &mut self.spill);
        self.handed = Ghost(self.handed@ + spill@);
        spill
    }

    /// Finish the manifest: append the remaining entries, and return its
    /// first and last message and the rest of the spill. Every batch of the
    /// spill decompresses to the entries it was made of.
    pub fn finish(self) -> (r: error::Result<(ManifestBegin, ManifestEnd, Vec<u8>)>)
        ensures
            match self@.flushed().1 {
                None => {
                    let v = self@.flushed().0;
                    r matches Ok((begin, end, spill)) && begin@ == (ManifestBeginView {
                        file_count: v.file_count,
                        total_bytes: v.total_bytes,
                        chunker_params: v.chunker_params,
                        manifest_hash: foreign::blake3_digest(v.hashed),
                    }) && end.manifest_hash@ == foreign::blake3_digest(v.hashed) && spill@
                        == v.spill && all_restored(v.batches)
                },
                Some(f) => r matches Err(e) && e.is(f),
            },
    {
        let mut w = self;
        match w.flush_batch() {
            Err(e) => {
                return Err(e);
            },
            Ok(()) => {},
        }
        proof {
            use_type_invariant(&w);
        }
        let manifest_hash = w.hasher.finalize();
        let begin = ManifestBegin {
            file_count: w.file_count,
            total_bytes: w.total_bytes,
            chunker_params: w.chunker_params,
            manifest_hash,
        };
        let end = ManifestEnd { manifest_hash };
        let spill = w.take_spill();
        Ok((begin, end, spill))
    }

    /// The number of entries added.
    pub fn file_count(&self) -> (r: u64)
        ensures
            r == self@.file_count,
    {
        self.file_count
    }

    /// The sum of the sizes of the entries added.
    pub fn total_bytes(&self) -> (r: u64)
        ensures
            r == self@.total_bytes,
    {
        self.total_bytes
    }
}

/// Entries in canonical form.
fn encode_entries(entries: &Vec<FileEntry>) -> (out: Vec<u8>)
    ensures
        out@ == entries_bytes(entries@.map_values(|e: FileEntry| e@)),
{
    let ghost s = entries@.map_values(|e: FileEntry| e@);
    let mut out: Vec<u8> = Vec::new();
    let mut k: usize = 0;
    assert(s.skip(0) =~= s);
    assert(out@ + entries_bytes(s) =~= entries_bytes(s));
    while k < entries.len()
        invariant
            k <= entries.len() == s.len(),
            s == entries@.map_values(|e: FileEntry| e@),
            out@ + entries_bytes(s.skip(k as int)) == entries_bytes(s),
        decreases entries.len() - k,
    {
        let ghost before = out@;
        codec::encode_file_entry(&entries[k], &mut out);
        proof {
            let t = s.skip(k as int);
            assert(t.skip(1) =~= s.skip(k + 1));
            assert(before + entries_bytes(t) =~= before + codec::entry_bytes(t[0])
                + entries_bytes(t.skip(1)));
        }
        k = k + 1;
    }
    assert(out@ + entries_bytes(s.skip(k as int)) =~= out@);
    out
}

proof fn lemma_flushed_sound(v: ManifestWriterView)
    requires
        v.flushed().1 is None,
        v.handed + v.spill == spill_header() + records(v.batches, 0),
        v.hashed == entries_bytes(joined(v.batches)),
        v.manifest_bytes == v.hashed.len(),
        v.manifest_bytes <= MAX_MANIFEST_BYTES,
        v.batch_index == v.batches.len(),
        v.file_count == v.entries().len(),
        v.file_count <= MAX_MANIFEST_ENTRIES,
        v.pending.len() <= MANIFEST_BATCH_SIZE,
        forall|k: int|
            0 <= k < v.batches.len() ==> 0 < (#[trigger] v.batches[k]).len()
                <= MANIFEST_BATCH_SIZE,
    ensures
        v.flushed().0.sound(),
        v.flushed().0.entries() == v.entries(),
        v.flushed().0.pending.len() == 0,
{
    let w = v.flushed().0;
    if v.pending.len() > 0 {
        let raw = entries_bytes(v.pending);
        lemma_joined_push(v.batches, v.pending);
        lemma_records_push(v.batches, 0, v.pending);
        law_entries_concat(joined(v.batches), v.pending);
        lemma_batches_counted(v.batches);
        assert(w.entries() =~= v.entries());
        assert(w.handed + w.spill =~= (v.handed + v.spill) + spill_record(
            v.batch_index,
            v.pending.len() as u32,
            batch_payload(v.pending),
        ));
        assert(w.handed + w.spill =~= spill_header() + records(w.batches, 0));
        assert(w.hashed =~= v.hashed + raw);
    }
}

/// There are no more batches than entries.
proof fn lemma_batches_counted(batches: Seq<Seq<FileEntryView>>)
    requires
        forall|k: int| 0 <= k < batches.len() ==> 0 < (#[trigger] batches[k]).len(),
    ensures
        batches.len() <= joined(batches).len(),
    decreases batches.len(),
{
    if batches.len() > 0 {
        assert(0 < batches[0].len());
        assert forall|k: int| 0 <= k < batches.skip(1).len() implies 0 < (#[trigger] batches.skip(
            1,
        )[k]).len() by {
            assert(batches.skip(1)[k] == batches[k + 1]);
        }
        lemma_batches_counted(batches.skip(1));
    }
}

/// A writer holds the entries that were added to it, in order: adding one
/// appends it, and neither finishing the manifest nor handing out the spill
/// changes them. As long as nothing fails, the spill, the digest and the counts
/// are those of the entries.
pub proof fn law_writer_keeps_entries(v: ManifestWriterView, e: FileEntryView)
    requires
        v.sound(),
    ensures
        v.added(e).1 is None ==> v.added(e).0.sound() && v.added(e).0.entries() == v.entries().push(
            e,
        ),
        v.flushed().1 is None ==> v.flushed().0.sound() && v.flushed().0.entries() == v.entries()
            && v.flushed().0.pending.len() == 0,
        v.drained().sound() && v.drained().entries() == v.entries(),
{
    let w = ManifestWriterView {
        file_count: (v.file_count + 1) as u64,
        total_bytes: (v.total_bytes + e.size) as u64,
        pending: v.pending.push(e),
        ..v
    };
    assert(w.entries() =~= v.entries().push(e));
    if v.file_count < MAX_MANIFEST_ENTRIES && w.flushed().1 is None {
        lemma_flushed_sound(w);
    }
    if v.flushed().1 is None {
        lemma_flushed_sound(v);
    }
    assert(v.drained().handed + v.drained().spill =~= v.handed + v.spill);
}

} // verus!
