//! Streaming manifest reader.
//!
//! Reads the batches of a spill, decompresses each under a size limit,
//! decodes its entries, and at the end holds the digest of the canonical
//! bytes against the declared manifest digest. The bytes of the spill are
//! asked for step by step, so that memory is bounded by one batch.

use vstd::prelude::*;

use crate::error;
use crate::error::{Fault, ProtocolError, VelcruxError};
use crate::foreign;
use crate::manifest::codec;
use crate::manifest::entry::{FileEntry, FileEntryView};
use crate::manifest::writer;
use crate::manifest::writer::{ManifestWriterView, SPILL_MAGIC, SPILL_VERSION};
use crate::protocol::le;
use crate::protocol::limits::{
    MANIFEST_BATCH_SIZE, MAX_BATCH_DECOMPRESSED_BYTES, MAX_MANIFEST_BYTES, MAX_MANIFEST_ENTRIES,
};
use crate::protocol::message::ManifestBatch;
use crate::protocol::varint;
use crate::protocol::wire;
use crate::text;
use crate::util;

verus! {

/// What a reader has for its caller.
#[derive(Debug)]
pub enum ManifestStep {
    /// The next entry.
    Entry(FileEntry),
    /// The sixteen bytes of a batch header are needed.
    ReadHeader,
    /// This many bytes of a batch are needed.
    ReadPayload(usize),
    /// The manifest is complete and its digest is right.
    End,
}

/// What a reader has for its caller, by its contents.
pub enum ManifestStepView {
    Entry(FileEntryView),
    ReadHeader,
    ReadPayload(u32),
    End,
}

impl ManifestStep {
    /// The step is the given one.
    pub open spec fn is(self, s: ManifestStepView) -> bool {
        match s {
            ManifestStepView::Entry(v) => self matches ManifestStep::Entry(e) && e@ == v,
            ManifestStepView::ReadHeader => self is ReadHeader,
            ManifestStepView::ReadPayload(n) => self matches ManifestStep::ReadPayload(m) && m == n,
            ManifestStepView::End => self is End,
        }
    }
}

/// A batch is too large when decompressed.
pub open spec fn batch_too_large() -> Fault {
    Fault::Manifest("decompressed batch exceeded limit 16777216 B"@)
}

/// What a batch that does not decompress comes to: the error of the decoder,
/// or that no decoder could be made, or that the limit was reached first.
pub open spec fn undecodable(e: VelcruxError) -> bool {
    ||| e is Io
    ||| e.is(batch_too_large())
    ||| e.is(Fault::Plain(ProtocolError::Malformed("invalid zstd header")))
}

/// The manifest as a whole is too large.
pub open spec fn manifest_too_large() -> Fault {
    Fault::Manifest("manifest raw bytes exceeded limit 8589934592"@)
}

/// The manifest is not the declared one.
pub open spec fn hash_mismatch(computed: Seq<u8>, expected: Seq<u8>) -> Fault {
    Fault::Manifest(
        "manifest hash mismatch: computed "@ + text::hex(computed) + ", expected "@ + text::hex(
            expected,
        ),
    )
}

/// What is wrong with the first bytes of a spill.
pub open spec fn spill_header_fault(b: Seq<u8>) -> Option<Fault> {
    if b.take(4) != SPILL_MAGIC@ {
        Some(Fault::Manifest("invalid spill file magic"@))
    } else if b[4] != SPILL_VERSION {
        Some(
            Fault::Manifest("unsupported spill file version "@ + text::decimal(b[4] as nat)),
        )
    } else {
        None
    }
}

/// State of a manifest reader.
#[verifier::ext_equal]
pub struct ManifestReaderView {
    /// Declared digest of the manifest.
    pub expected: Seq<u8>,
    /// Canonical bytes read so far.
    pub hashed: Seq<u8>,
    /// Bytes of the current batch that were not decoded yet.
    pub data: Seq<u8>,
    /// Entries of the current batch that were not decoded yet.
    pub remaining: u32,
    /// Entry count and length of a batch whose bytes are needed.
    pub awaiting: Option<(u32, u32)>,
    /// Entries read so far.
    pub entries_read: u64,
    /// Decompressed bytes so far.
    pub raw_bytes: u64,
    /// The end was reached.
    pub finished: bool,
}

impl ManifestReaderView {
    /// The next step, and the reader after it.
    pub open spec fn next(self) -> (ManifestReaderView, Result<ManifestStepView, Fault>) {
        if self.finished {
            (self, Ok(ManifestStepView::End))
        } else if self.remaining == 0 {
            match self.awaiting {
                Some((count, len)) => (self, Ok(ManifestStepView::ReadPayload(len))),
                None => (self, Ok(ManifestStepView::ReadHeader)),
            }
        } else if self.entries_read >= MAX_MANIFEST_ENTRIES {
            (self, Err(Fault::Manifest("manifest entry count exceeded 50000000"@)))
        } else {
            match codec::entry_at_start(self.data) {
                Err(f) => (self, Err(f)),
                Ok((e, n)) => (
                    ManifestReaderView {
                        hashed: self.hashed + self.data.take(n),
                        data: self.data.skip(n),
                        remaining: (self.remaining - 1) as u32,
                        entries_read: (self.entries_read + 1) as u64,
                        ..self
                    },
                    Ok(ManifestStepView::Entry(e)),
                ),
            }
        }
    }

    /// The reader after a batch header, or after the end of the spill, and
    /// what is wrong with it.
    pub open spec fn header(self, h: Option<Seq<u8>>) -> (ManifestReaderView, Option<Fault>) {
        match h {
            None => {
                let computed = foreign::blake3_digest(self.hashed);
                (
                    ManifestReaderView { finished: true, ..self },
                    if computed == self.expected {
                        None
                    } else {
                        Some(hash_mismatch(computed, self.expected))
                    },
                )
            },
            Some(b) => {
                let count = le::u32_at(b, 8);
                if count > MANIFEST_BATCH_SIZE {
                    (
                        self,
                        Some(
                            Fault::Manifest(
                                "entry count "@ + text::decimal(count as nat)
                                    + " exceeds MANIFEST_BATCH_SIZE"@,
                            ),
                        ),
                    )
                } else {
                    (
                        ManifestReaderView { awaiting: Some((count, le::u32_at(b, 12))), ..self },
                        None,
                    )
                }
            },
        }
    }

    /// The reader after a batch that decompresses to `raw`, and what is wrong
    /// with it.
    pub open spec fn payload(self, raw: Seq<u8>) -> (ManifestReaderView, Option<Fault>) {
        let v = ManifestReaderView {
            awaiting: None,
            raw_bytes: self.raw_bytes.saturating_add(raw.len() as u64),
            ..self
        };
        if v.raw_bytes > MAX_MANIFEST_BYTES {
            (v, Some(manifest_too_large()))
        } else {
            (ManifestReaderView { data: raw, remaining: (self.awaiting->0).0, ..v }, None)
        }
    }

    /// The reader is between two batches.
    pub open spec fn between_batches(self) -> bool {
        !self.finished && self.remaining == 0 && self.awaiting is None
    }

    /// The entries of the next `n` steps, and the reader after them; none if
    /// a step is something else.
    pub open spec fn read_entries(self, n: nat) -> Option<(Seq<FileEntryView>, ManifestReaderView)>
        decreases n,
    {
        if n == 0 {
            Some((Seq::empty(), self))
        } else {
            match self.next() {
                (v, Ok(ManifestStepView::Entry(e))) => match v.read_entries((n - 1) as nat) {
                    Some((s, w)) => Some((seq![e] + s, w)),
                    None => None,
                },
                _ => None,
            }
        }
    }
}

/// Streaming reader for a manifest in a spill.
pub struct ManifestReader {
    expected_hash: util::Hash,
    hasher: util::HashHasher,
    current: Vec<u8>,
    cursor: usize,
    entries_remaining_in_batch: u32,
    awaiting: Option<(u32, u32)>,
    total_entries_read: u64,
    total_manifest_bytes: u64,
    finished: bool,
}

impl View for ManifestReader {
    type V = ManifestReaderView;

    closed spec fn view(&self) -> ManifestReaderView {
        ManifestReaderView {
            expected: self.expected_hash@,
            hashed: self.hasher@,
            data: self.current@.skip(self.cursor as int),
            remaining: self.entries_remaining_in_batch,
            awaiting: self.awaiting,
            entries_read: self.total_entries_read,
            raw_bytes: self.total_manifest_bytes,
            finished: self.finished,
        }
    }
}

impl ManifestReader {
    #[verifier::type_invariant]
    spec fn cursor_in_batch(self) -> bool {
        self.cursor <= self.current.len()
    }

    /// Start to read a spill that begins with the given five bytes.
    pub fn open(head: &[u8; 5], expected_hash: util::Hash) -> (r: error::Result<Self>)
        ensures
            match spill_header_fault(head@) {
                Some(f) => r matches Err(e) && e.is(f),
                None => r matches Ok(m) && m@ == ManifestReaderView::fresh(expected_hash@),
            },
    {
        let magic = vstd::slice::slice_subrange(head.as_slice(), 0, 4);
        assert(magic@ =~= head@.take(4));
        if !util::same_bytes(magic, SPILL_MAGIC.as_slice()) {
            return Err(
                VelcruxError::Protocol(
                    ProtocolError::InvalidManifest("invalid spill file magic".to_owned()),
                ),
            );
        }
        if head[4] != SPILL_VERSION {
            let mut t: String = "unsupported spill file version ".to_owned();
            text::push_decimal(&mut t, head[4] as u64);
            return Err(VelcruxError::Protocol(ProtocolError::InvalidManifest(t)));
        }
        let current: Vec<u8> = Vec::new();
        assert(current@.skip(0) =~= Seq::empty());
        Ok(
            ManifestReader {
                expected_hash,
                hasher: util::HashHasher::new(),
                current,
                cursor: 0,
                entries_remaining_in_batch: 0,
                awaiting: None,
                total_entries_read: 0,
                total_manifest_bytes: 0,
                finished: false,
            },
        )
    }

    /// The next entry, or what is needed to get at it.
    pub fn next_entry(&mut self) -> (r: error::Result<ManifestStep>)
        ensures
            final(self)@ == old(self)@.next().0,
            match old(self)@.next().1 {
                Ok(s) => r matches Ok(t) && t.is(s),
                Err(f) => r matches Err(e) && e.is(f),
            },
    {
        proof {
            use_type_invariant(&*self);
        }
        if self.finished {
            return Ok(ManifestStep::End);
        }
        if self.entries_remaining_in_batch == 0 {
            return match self.awaiting {
                Some((_, len)) => Ok(ManifestStep::ReadPayload(len as usize)),
                None => Ok(ManifestStep::ReadHeader),
            };
        }
        if self.total_entries_read >= MAX_MANIFEST_ENTRIES {
            return Err(
                VelcruxError::Protocol(
                    ProtocolError::InvalidManifest(
                        "manifest entry count exceeded 50000000".to_owned(),
                    ),
                ),
            );
        }
        let slice = wire::slice_from(self.current.as_slice(), self.cursor);
        let (entry, consumed) = match codec::decode_file_entry(slice) {
            Ok(x) => x,
            Err(e) => {
                return Err(VelcruxError::Protocol(e));
            },
        };
        let taken = vstd::slice::slice_subrange(slice, 0, consumed);
        assert(taken@ =~= slice@.take(consumed as int));
        let mut hasher = util::HashHasher::new();
        std::mem::swap(&mut hasher, &mut self.hasher);
        hasher.feed(taken);
        self.hasher = hasher;
        self.cursor = self.cursor + consumed;
        self.entries_remaining_in_batch = self.entries_remaining_in_batch - 1;
        self.total_entries_read = self.total_entries_read + 1;
        assert(self@.data =~= old(self)@.data.skip(consumed as int));
        Ok(ManifestStep::Entry(entry))
    }

    /// Go on with a batch header, or with the end of the spill. At the end
    /// the manifest digest is checked.
    pub fn supply_header(&mut self, header: Option<[u8; 16]>) -> (r: error::Result<()>)
        requires
            old(self)@.between_batches(),
        ensures
            ({
                let h = match header {
                    Some(b) => Some(b@),
                    None => None,
                };
                &&& final(self)@ == old(self)@.header(h).0
                &&& match old(self)@.header(h).1 {
                    None => r is Ok,
                    Some(f) => r matches Err(e) && e.is(f),
                }
            }),
    {
        proof {
            use_type_invariant(&*self);
        }
        let b = match header {
            None => {
                self.finished = true;
                let computed = self.hasher.finalize();
                return check_hash(&computed, &self.expected_hash);
            },
            Some(b) => b,
        };
        let count: u32 = le::read_u32(b.as_slice(), 8);
        let len: u32 = le::read_u32(b.as_slice(), 12);
        if count > MANIFEST_BATCH_SIZE as u32 {
            return Err(
                VelcruxError::Protocol(
                    ProtocolError::InvalidManifest(
                        text::with_number(
                            "entry count ",
                            count as u64,
                            " exceeds MANIFEST_BATCH_SIZE",
                        ),
                    ),
                ),
            );
        }
        self.awaiting = Some((count, len));
        Ok(())
    }

    /// Go on with the bytes of a batch.
    pub fn supply_payload(&mut self, compressed: &[u8]) -> (r: error::Result<()>)
        requires
            old(self)@.awaiting is Some,
            old(self)@.remaining == 0,
        ensures
            match foreign::zstd_decoded(compressed@) {
                Some(raw) => if raw.len() <= MAX_BATCH_DECOMPRESSED_BYTES {
                    &&& final(self)@ == old(self)@.payload(raw).0
                    &&& match old(self)@.payload(raw).1 {
                        None => r is Ok,
                        Some(f) => r matches Err(e) && e.is(f),
                    }
                } else {
                    &&& final(self)@ == (ManifestReaderView { awaiting: None, ..old(self)@ })
                    &&& r matches Err(e) && e.is(batch_too_large())
                },
                None => {
                    &&& final(self)@ == (ManifestReaderView { awaiting: None, ..old(self)@ })
                    &&& r matches Err(e) && undecodable(e)
                },
            },
    {
        proof {
            use_type_invariant(&*self);
        }
        let count: u32 = match self.awaiting {
            Some((n, _)) => n,
            None => 0,
        };
        self.awaiting = None;
        let raw = match decompress_batch(compressed) {
            Ok(v) => v,
            Err(e) => {
                return Err(e);
            },
        };
        self.total_manifest_bytes = self.total_manifest_bytes.saturating_add(raw.len() as u64);
        if self.total_manifest_bytes > MAX_MANIFEST_BYTES {
            return Err(raw_limit_error());
        }
        assert(raw@.skip(0) =~= raw@);
        self.cursor = 0;
        self.current = raw;
        self.entries_remaining_in_batch = count;
        Ok(())
    }

    /// The number of entries read so far.
    pub fn entries_read(&self) -> (r: u64)
        ensures
            r == self@.entries_read,
    {
        self.total_entries_read
    }
}

fn raw_limit_error() -> (r: VelcruxError)
    ensures
        r.is(manifest_too_large()),
{
    VelcruxError::Protocol(
        ProtocolError::InvalidManifest("manifest raw bytes exceeded limit 8589934592".to_owned()),
    )
}

/// Hold the digest of a manifest against the declared one.
fn check_hash(computed: &util::Hash, expected: &util::Hash) -> (r: error::Result<()>)
    ensures
        if computed@ == expected@ {
            r is Ok
        } else {
            r matches Err(e) && e.is(hash_mismatch(computed@, expected@))
        },
{
    if util::same_bytes(computed.as_bytes().as_slice(), expected.as_bytes().as_slice()) {
        return Ok(());
    }
    let mut t: String = "manifest hash mismatch: computed ".to_owned();
    text::push_hex(&mut t, computed.as_bytes().as_slice());
    text::push_str(&mut t, ", expected ");
    text::push_hex(&mut t, expected.as_bytes().as_slice());
    Err(VelcruxError::Protocol(ProtocolError::InvalidManifest(t)))
}

/// The `n` entries at `i` in `raw`, the position behind them, and what is
/// wrong; on a fault, the entries in front of it.
pub open spec fn entries_at(raw: Seq<u8>, i: int, n: nat) -> (
    Seq<FileEntryView>,
    int,
    Option<Fault>,
)
    decreases n,
{
    if n == 0 {
        (Seq::empty(), i, None)
    } else if i >= raw.len() {
        (
            Seq::empty(),
            i,
            Some(
                Fault::Plain(
                    ProtocolError::Malformed("MANIFEST_BATCH: truncated decompressed entries"),
                ),
            ),
        )
    } else {
        match codec::entry_at_start(raw.skip(i)) {
            Err(f) => (Seq::empty(), i, Some(f)),
            Ok((e, k)) => {
                let (s, j, f) = entries_at(raw, i + k, (n - 1) as nat);
                (seq![e] + s, j, f)
            },
        }
    }
}

/// Decoder for the entries of batch messages.
pub struct ManifestBatchDecoder {
    expected_hash: util::Hash,
    hasher: util::HashHasher,
    total_manifest_bytes: u64,
}

/// State of a batch decoder.
#[verifier::ext_equal]
pub struct ManifestBatchDecoderView {
    /// Declared digest of the manifest.
    pub expected: Seq<u8>,
    /// Canonical bytes decoded so far.
    pub hashed: Seq<u8>,
    /// Decompressed bytes so far.
    pub raw_bytes: u64,
}

impl ManifestBatchDecoderView {
    /// The decoder after a batch of `count` entries that decompresses to
    /// `raw`, and the entries.
    pub open spec fn decoded(self, raw: Seq<u8>, count: u32) -> (
        ManifestBatchDecoderView,
        Result<Seq<FileEntryView>, Fault>,
    ) {
        let v = ManifestBatchDecoderView {
            raw_bytes: self.raw_bytes.saturating_add(raw.len() as u64),
            ..self
        };
        let (s, end, f) = entries_at(raw, 0, count as nat);
        if v.raw_bytes > MAX_MANIFEST_BYTES {
            (v, Err(manifest_too_large()))
        } else {
            (
                ManifestBatchDecoderView { hashed: self.hashed + raw.take(end), ..v },
                match f {
                    Some(f) => Err(f),
                    None => Ok(s),
                },
            )
        }
    }
}

impl View for ManifestBatchDecoder {
    type V = ManifestBatchDecoderView;

    closed spec fn view(&self) -> ManifestBatchDecoderView {
        ManifestBatchDecoderView {
            expected: self.expected_hash@,
            hashed: self.hasher@,
            raw_bytes: self.total_manifest_bytes,
        }
    }
}

impl ManifestBatchDecoder {
    /// Create a decoder for the manifest with the given digest.
    pub fn new(expected_hash: util::Hash) -> (r: Self)
        ensures
            r@ == (ManifestBatchDecoderView {
                expected: expected_hash@,
                hashed: Seq::empty(),
                raw_bytes: 0,
            }),
    {
        ManifestBatchDecoder {
            expected_hash,
            hasher: util::HashHasher::new(),
            total_manifest_bytes: 0,
        }
    }

    /// Decode the entries of a batch.
    pub fn decode_batch(&mut self, batch: &ManifestBatch) -> (r: error::Result<Vec<FileEntry>>)
        ensures
            match foreign::zstd_decoded(batch@.compressed_payload) {
                Some(raw) => if raw.len() <= MAX_BATCH_DECOMPRESSED_BYTES {
                    &&& final(self)@ == old(self)@.decoded(raw, batch.entry_count).0
                    &&& match old(self)@.decoded(raw, batch.entry_count).1 {
                        Ok(s) => r matches Ok(v) && v@.map_values(|e: FileEntry| e@) == s,
                        Err(f) => r matches Err(e) && e.is(f),
                    }
                } else {
                    &&& final(self)@ == old(self)@
                    &&& r matches Err(e) && e.is(batch_too_large())
                },
                None => {
                    &&& final(self)@ == old(self)@
                    &&& r matches Err(e) && undecodable(e)
                },
            },
    {
        let raw = match decompress_batch(foreign::bytes_as_slice(&batch.compressed_payload)) {
            Ok(v) => v,
            Err(e) => {
                return Err(e);
            },
        };
        self.total_manifest_bytes = self.total_manifest_bytes.saturating_add(raw.len() as u64);
        if self.total_manifest_bytes > MAX_MANIFEST_BYTES {
            return Err(raw_limit_error());
        }
        let (entries, end, fault) = decode_entries(&raw, batch.entry_count);
        let taken = vstd::slice::slice_subrange(raw.as_slice(), 0, end);
        assert(taken@ =~= raw@.take(end as int));
        self.hasher.feed(taken);
        match fault {
            Some(e) => Err(VelcruxError::Protocol(e)),
            None => Ok(entries),
        }
    }

    /// Check the digest of the manifest.
    pub fn finish(self) -> (r: error::Result<()>)
        ensures
            ({
                let computed = foreign::blake3_digest(self@.hashed);
                if computed == self@.expected {
                    r is Ok
                } else {
                    r matches Err(e) && e.is(hash_mismatch(computed, self@.expected))
                }
            }),
    {
        let computed = self.hasher.finalize();
        check_hash(&computed, &self.expected_hash)
    }
}

/// Decode up to `count` entries: those in front of the first fault, the
/// position behind them, and the fault.
fn decode_entries(raw: &Vec<u8>, count: u32) -> (r: (
    Vec<FileEntry>,
    usize,
    Option<ProtocolError>,
))
    ensures
        ({
            let (s, end, f) = entries_at(raw@, 0, count as nat);
            &&& r.0@.map_values(|e: FileEntry| e@) == s
            &&& r.1 == end
            &&& r.1 <= raw.len()
            &&& match f {
                Some(f) => r.2 matches Some(e) && e.is(f),
                None => r.2 is None,
            }
        }),
{
    let mut entries: Vec<FileEntry> = Vec::new();
    let ghost mut seen: Seq<FileEntryView> = Seq::empty();
    let mut cursor: usize = 0;
    let mut k: u32 = 0;
    assert(seen + entries_at(raw@, 0, count as nat).0 =~= entries_at(raw@, 0, count as nat).0);
    while k < count
        invariant
            k <= count,
            cursor <= raw.len(),
            seen == entries@.map_values(|e: FileEntry| e@),
            ({
                let a = entries_at(raw@, 0, count as nat);
                let b = entries_at(raw@, cursor as int, (count - k) as nat);
                a.0 == seen + b.0 && a.1 == b.1 && a.2 == b.2
            }),
        decreases count - k,
    {
        assert(seen + Seq::<FileEntryView>::empty() =~= seen);
        if cursor >= raw.len() {
            return (
                entries,
                cursor,
                Some(ProtocolError::Malformed("MANIFEST_BATCH: truncated decompressed entries")),
            );
        }
        let slice = wire::slice_from(raw.as_slice(), cursor);
        let (entry, consumed) = match codec::decode_file_entry(slice) {
            Ok(x) => x,
            Err(e) => {
                return (entries, cursor, Some(e));
            },
        };
        proof {
            let rest = entries_at(raw@, cursor + consumed, (count - k - 1) as nat);
            assert(seen + (seq![entry@] + rest.0) =~= seen.push(entry@) + rest.0);
            seen = seen.push(entry@);
        }
        entries.push(entry);
        assert(seen =~= entries@.map_values(|e: FileEntry| e@));
        cursor = cursor + consumed;
        k = k + 1;
    }
    assert(seen + Seq::<FileEntryView>::empty() =~= seen);
    (entries, cursor, None)
}

/// Decompress a batch, under the limit on its decompressed size.
pub fn decompress_batch(compressed: &[u8]) -> (r: error::Result<Vec<u8>>)
    ensures
        match foreign::zstd_decoded(compressed@) {
            Some(raw) => if raw.len() <= MAX_BATCH_DECOMPRESSED_BYTES {
                r matches Ok(v) && v@ == raw
            } else {
                r matches Err(e) && e.is(batch_too_large())
            },
            None => r matches Err(e) && undecodable(e),
        },
{
    let mut decoder = match foreign::zstd_decoder(compressed) {
        Some(d) => d,
        None => {
            return Err(VelcruxError::Protocol(ProtocolError::Malformed("invalid zstd header")));
        },
    };
    let mut out: Vec<u8> = Vec::new();
    let mut buffer: Vec<u8> = Vec::new();
    wire::push_zeros(&mut buffer, 65536);
    loop
        invariant
            foreign::zstd_input(decoder) == compressed@,
            foreign::zstd_output(decoder) == out@,
            foreign::zstd_decoded(compressed@) matches Some(raw) ==> out@.is_prefix_of(raw),
            buffer@.len() == 65536,
            out.len() <= MAX_BATCH_DECOMPRESSED_BYTES,
        decreases MAX_BATCH_DECOMPRESSED_BYTES - out.len(),
    {
        let (d, n) = match foreign::zstd_read(decoder, &mut buffer) {
            Ok(x) => x,
            Err(e) => {
                return Err(VelcruxError::Io(e));
            },
        };
        decoder = d;
        if n == 0 {
            return Ok(out);
        }
        if out.len() + n > MAX_BATCH_DECOMPRESSED_BYTES {
            return Err(
                VelcruxError::Protocol(
                    ProtocolError::InvalidManifest(
                        "decompressed batch exceeded limit 16777216 B".to_owned(),
                    ),
                ),
            );
        }
        let part = vstd::slice::slice_subrange(buffer.as_slice(), 0, n);
        assert(part@ =~= buffer@.take(n as int));
        wire::push_bytes(&mut out, part);
    }
}

/// Entries that survive encoding.
pub open spec fn entries_encodable(s: Seq<FileEntryView>) -> bool {
    forall|k: int| 0 <= k < s.len() ==> codec::entry_encodable(#[trigger] s[k])
}

#[verifier::spinoff_prover]
proof fn lemma_entries_roundtrip(b: Seq<u8>, i: int, s: Seq<FileEntryView>, rest: Seq<u8>)
    requires
        0 <= i <= b.len(),
        b.skip(i) == writer::entries_bytes(s) + rest,
        entries_encodable(s),
    ensures
        entries_at(b, i, s.len()) == (s, i + writer::entries_bytes(s).len(), None::<Fault>),
    decreases s.len(),
{
    if s.len() > 0 {
        let e = s[0];
        let t = s.skip(1);
        assert(codec::entry_encodable(e));
        lemma_first_entry(b, i, e, writer::entries_bytes(t), rest);
        assert forall|k: int| 0 <= k < t.len() implies codec::entry_encodable(#[trigger] t[k]) by {
            assert(t[k] == s[k + 1]);
        }
        lemma_entries_roundtrip(b, i + codec::entry_bytes(e).len(), t, rest);
        assert(seq![e] + t =~= s);
    } else {
        assert(s =~= Seq::empty());
    }
}

proof fn lemma_first_entry(b: Seq<u8>, i: int, e: FileEntryView, more: Seq<u8>, rest: Seq<u8>)
    requires
        0 <= i <= b.len(),
        b.skip(i) == (codec::entry_bytes(e) + more) + rest,
        codec::entry_encodable(e),
    ensures
        i < i + codec::entry_bytes(e).len() <= b.len(),
        codec::entry_at_start(b.skip(i)) == Ok::<(FileEntryView, int), Fault>(
            (e, codec::entry_bytes(e).len() as int),
        ),
        b.skip(i + codec::entry_bytes(e).len()) == more + rest,
{
    lemma_entry_not_empty(e);
    wire::lemma_parts(b, i, codec::entry_bytes(e), more, rest);
    codec::law_file_entry_roundtrip(e, more + rest);
}

proof fn lemma_entry_not_empty(e: FileEntryView)
    ensures
        codec::entry_bytes(e).len() > 0,
{
    varint::law_varint_roundtrip(e.flags, Seq::empty());
    varint::law_varint_canonical(varint::leb128(e.flags as nat) + Seq::<u8>::empty());
}

/// Decoding the batch of a list of entries gives the entries back, and takes
/// the same bytes into the digest as writing it did.
pub proof fn law_manifest_batch_roundtrip(d: ManifestBatchDecoderView, s: Seq<FileEntryView>)
    requires
        entries_encodable(s),
        s.len() <= u32::MAX,
        d.raw_bytes + writer::entries_bytes(s).len() <= MAX_MANIFEST_BYTES,
    ensures
        d.decoded(writer::entries_bytes(s), s.len() as u32) == (
            ManifestBatchDecoderView {
                hashed: d.hashed + writer::entries_bytes(s),
                raw_bytes: (d.raw_bytes + writer::entries_bytes(s).len()) as u64,
                ..d
            },
            Ok::<Seq<FileEntryView>, Fault>(s),
        ),
{
    let raw = writer::entries_bytes(s);
    assert(raw.skip(0) =~= raw + Seq::<u8>::empty());
    lemma_entries_roundtrip(raw, 0, s, Seq::empty());
    assert(raw.take(raw.len() as int) =~= raw);
}

#[verifier::spinoff_prover]
#[verifier::rlimit(40)]
proof fn lemma_read_entries(v: ManifestReaderView, s: Seq<FileEntryView>)
    requires
        !v.finished,
        v.remaining == s.len(),
        v.data == writer::entries_bytes(s),
        v.entries_read + s.len() <= MAX_MANIFEST_ENTRIES,
        entries_encodable(s),
    ensures
        v.read_entries(s.len()) == Some(
            (
                s,
                ManifestReaderView {
                    hashed: v.hashed + writer::entries_bytes(s),
                    data: Seq::empty(),
                    remaining: 0,
                    entries_read: (v.entries_read + s.len()) as u64,
                    ..v
                },
            ),
        ),
    decreases s.len(),
{
    if s.len() > 0 {
        let e = s[0];
        let t = s.skip(1);
        let n = codec::entry_bytes(e).len() as int;
        assert(codec::entry_encodable(e));
        codec::law_file_entry_roundtrip(e, writer::entries_bytes(t));
        let w = v.next().0;
        assert(v.data.take(n) =~= codec::entry_bytes(e));
        assert(v.data.skip(n) =~= writer::entries_bytes(t));
        assert forall|k: int| 0 <= k < t.len() implies codec::entry_encodable(#[trigger] t[k]) by {
            assert(t[k] == s[k + 1]);
        }
        lemma_read_entries(w, t);
        assert(seq![e] + t =~= s);
        assert(w.hashed + writer::entries_bytes(t) =~= v.hashed + writer::entries_bytes(s));
    } else {
        assert(s =~= Seq::empty());
        assert(v.hashed + writer::entries_bytes(s) =~= v.hashed);
    }
}

/// Reading a record of a spill back: a reader between two batches asks for a
/// header, takes the record's header, asks for as many bytes as the record
/// holds, and from a batch that decompresses to the canonical bytes of the
/// entries reads exactly these entries. It is then between two batches again,
/// with the canonical bytes in its digest.
pub proof fn law_spill_record_roundtrip(
    v: ManifestReaderView,
    index: u64,
    s: Seq<FileEntryView>,
    payload_len: u32,
)
    requires
        v.between_batches(),
        entries_encodable(s),
        s.len() <= MANIFEST_BATCH_SIZE,
        v.entries_read + s.len() <= MAX_MANIFEST_ENTRIES,
        v.raw_bytes + writer::entries_bytes(s).len() <= MAX_MANIFEST_BYTES,
    ensures
        ({
            let head = writer::record_header(index, s.len() as u32, payload_len);
            let raw = writer::entries_bytes(s);
            let (v1, f1) = v.header(Some(head));
            let (v2, f2) = v1.payload(raw);
            &&& v.next() == (v, Ok::<ManifestStepView, Fault>(ManifestStepView::ReadHeader))
            &&& head.len() == 16
            &&& f1 is None
            &&& v1.next() == (
                v1,
                Ok::<ManifestStepView, Fault>(ManifestStepView::ReadPayload(payload_len)),
            )
            &&& f2 is None
            &&& v2.read_entries(s.len()) == Some(
                (
                    s,
                    ManifestReaderView {
                        hashed: v.hashed + raw,
                        data: Seq::empty(),
                        entries_read: (v.entries_read + s.len()) as u64,
                        raw_bytes: (v.raw_bytes + raw.len()) as u64,
                        ..v
                    },
                ),
            )
        }),
{
    broadcast use le::group_le_lengths;

    let count = s.len() as u32;
    let head = writer::record_header(index, count, payload_len);
    assert(head.subrange(8, 12) =~= le::u32_bytes(count));
    le::lemma_u32_roundtrip(head, 8, count);
    assert(head.subrange(12, 16) =~= le::u32_bytes(payload_len));
    le::lemma_u32_roundtrip(head, 12, payload_len);
    let v2 = v.header(Some(head)).0.payload(writer::entries_bytes(s)).0;
    lemma_read_entries(v2, s);
}

/// How the reading of a manifest ends.
pub enum ReadEnd {
    /// At its end, with the right digest.
    Clean,
    /// With an error.
    Failed(Fault),
    /// In a batch that is cut off or does not decompress.
    Broken,
}

impl ManifestReaderView {
    /// A reader that has read nothing behind the first bytes of a spill.
    pub open spec fn fresh(expected: Seq<u8>) -> ManifestReaderView {
        ManifestReaderView {
            expected,
            hashed: Seq::empty(),
            data: Seq::empty(),
            remaining: 0,
            awaiting: None,
            entries_read: 0,
            raw_bytes: 0,
            finished: false,
        }
    }

    /// What a reader gives if it is asked for one entry after the other, and
    /// what it needs is supplied from the rest of a spill: the entries, how it
    /// ends, and the reader then.
    pub open spec fn read_all(self, rest: Seq<u8>) -> (
        Seq<FileEntryView>,
        ReadEnd,
        ManifestReaderView,
    )
        decreases
            rest.len(),
            if self.awaiting is Some {
                1int
            } else {
                0int
            },
            self.remaining,
    {
        match self.next() {
            (v, Err(f)) => (Seq::empty(), ReadEnd::Failed(f), v),
            (v, Ok(ManifestStepView::End)) => (Seq::empty(), ReadEnd::Clean, v),
            (v, Ok(ManifestStepView::Entry(e))) => {
                let (s, end, w) = v.read_all(rest);
                (seq![e] + s, end, w)
            },
            (v, Ok(ManifestStepView::ReadHeader)) => if rest.len() < 16 {
                match v.header(None) {
                    (w, Some(f)) => (Seq::empty(), ReadEnd::Failed(f), w),
                    (w, None) => (Seq::empty(), ReadEnd::Clean, w),
                }
            } else {
                match v.header(Some(rest.take(16))) {
                    (w, Some(f)) => (Seq::empty(), ReadEnd::Failed(f), w),
                    (w, None) => w.read_all(rest.skip(16)),
                }
            },
            (v, Ok(ManifestStepView::ReadPayload(n))) => if rest.len() < n {
                (Seq::empty(), ReadEnd::Broken, v)
            } else {
                match foreign::zstd_decoded(rest.take(n as int)) {
                    None => (Seq::empty(), ReadEnd::Broken, v),
                    Some(raw) => if raw.len() > MAX_BATCH_DECOMPRESSED_BYTES {
                        (Seq::empty(), ReadEnd::Failed(batch_too_large()), v)
                    } else {
                        match v.payload(raw) {
                            (w, Some(f)) => (Seq::empty(), ReadEnd::Failed(f), w),
                            (w, None) => w.read_all(rest.skip(n as int)),
                        }
                    },
                }
            },
        }
    }
}

/// A batch that a reader takes: its entries survive encoding, and its
/// decompressed and its compressed form are within the limits.
pub open spec fn batch_within_limits(batch: Seq<FileEntryView>) -> bool {
    &&& 0 < batch.len() <= MANIFEST_BATCH_SIZE
    &&& entries_encodable(batch)
    &&& writer::entries_bytes(batch).len() <= MAX_BATCH_DECOMPRESSED_BYTES
    &&& writer::batch_payload(batch).len() <= u32::MAX
}

/// Entries that a reader has are read, whatever follows.
proof fn lemma_read_all_entries(v: ManifestReaderView, n: nat, rest: Seq<u8>)
    requires
        v.read_entries(n) is Some,
    ensures
        ({
            let (s, w) = v.read_entries(n)->0;
            let (t, end, x) = w.read_all(rest);
            v.read_all(rest) == (s + t, end, x)
        }),
    decreases n,
{
    let (s, w) = v.read_entries(n)->0;
    let (t, end, x) = w.read_all(rest);
    if n > 0 {
        let v1 = v.next().0;
        lemma_read_all_entries(v1, (n - 1) as nat, rest);
        let e = v.next().1->Ok_0->Entry_0;
        let s1 = (v1.read_entries((n - 1) as nat)->0).0;
        assert(seq![e] + (s1 + t) =~= s + t);
    } else {
        assert(s + t =~= t);
    }
}

#[verifier::spinoff_prover]
proof fn lemma_read_batches(v: ManifestReaderView, batches: Seq<Seq<FileEntryView>>, index: nat)
    requires
        v.between_batches(),
        v.data.len() == 0,
        writer::all_restored(batches),
        forall|k: int| 0 <= k < batches.len() ==> batch_within_limits(#[trigger] batches[k]),
        v.entries_read + writer::joined(batches).len() <= MAX_MANIFEST_ENTRIES,
        v.raw_bytes + writer::entries_bytes(writer::joined(batches)).len() <= MAX_MANIFEST_BYTES,
    ensures
        ({
            let s = writer::joined(batches);
            let computed = foreign::blake3_digest(v.hashed + writer::entries_bytes(s));
            let (t, end, w) = v.read_all(writer::records(batches, index));
            &&& t == s
            &&& end == if computed == v.expected {
                ReadEnd::Clean
            } else {
                ReadEnd::Failed(hash_mismatch(computed, v.expected))
            }
            &&& w.entries_read == v.entries_read + s.len()
            &&& w.finished
        }),
    decreases batches.len(),
{
    broadcast use le::group_le_lengths;

    let all = writer::records(batches, index);
    if batches.len() == 0 {
        assert(v.hashed + writer::entries_bytes(writer::joined(batches)) =~= v.hashed);
    } else {
        let b = batches[0];
        let more = batches.skip(1);
        let raw = writer::entries_bytes(b);
        let c = writer::batch_payload(b);
        let rest = writer::records(more, index + 1);
        let head = writer::record_header(index as u64, b.len() as u32, c.len() as u32);
        assert(batch_within_limits(b) && writer::restored(b));
        writer::law_entries_concat(b, writer::joined(more));
        assert(writer::joined(batches) == b + writer::joined(more));
        law_spill_record_roundtrip(v, index as u64, b, c.len() as u32);
        assert(all =~= head + (c + rest));
        assert(all.take(16) =~= head);
        assert(all.skip(16) =~= c + rest);
        let v1 = v.header(Some(head)).0;
        let v2 = v1.payload(raw).0;
        assert((c + rest).take(c.len() as int) =~= c);
        assert((c + rest).skip(c.len() as int) =~= rest);
        assert(v.read_all(all) == v1.read_all(c + rest));
        assert(v1.read_all(c + rest) == v2.read_all(rest));
        lemma_read_all_entries(v2, b.len(), rest);
        let w = (v2.read_entries(b.len())->0).1;
        assert forall|k: int| 0 <= k < more.len() implies batch_within_limits(#[trigger] more[k])
            && writer::restored(more[k]) by {
            assert(more[k] == batches[k + 1]);
        }
        lemma_read_batches(w, more, index + 1);
        assert(w.hashed + writer::entries_bytes(writer::joined(more)) =~= v.hashed
            + writer::entries_bytes(writer::joined(batches)));
    }
}

/// The entries that a writer took come out of a reader of its spill, in order,
/// whatever digest the reader expects. The end is clean exactly if the reader
/// expects the digest that the writer has announced.
pub proof fn law_manifest_reads_back(w: ManifestWriterView, expected: Seq<u8>)
    requires
        w.sound(),
        w.pending.len() == 0,
        writer::all_restored(w.batches),
        forall|k: int| 0 <= k < w.batches.len() ==> batch_within_limits(#[trigger] w.batches[k]),
    ensures
        ({
            let spill = w.handed + w.spill;
            let announced = foreign::blake3_digest(w.hashed);
            let (t, end, v) = ManifestReaderView::fresh(expected).read_all(spill.skip(5));
            &&& spill.len() >= 5
            &&& spill_header_fault(spill.take(5)) is None
            &&& t == w.entries()
            &&& end is Clean <==> expected == announced
            &&& expected != announced ==> end == ReadEnd::Failed(
                hash_mismatch(announced, expected),
            )
            &&& v.entries_read == w.entries().len()
        }),
{
    let spill = w.handed + w.spill;
    let all = writer::records(w.batches, 0);
    assert(spill.skip(5) =~= all);
    assert(spill.take(5) =~= writer::spill_header());
    assert(spill.take(5).take(4) =~= writer::SPILL_MAGIC@);
    assert(w.entries() =~= writer::joined(w.batches));
    let v = ManifestReaderView::fresh(expected);
    lemma_read_batches(v, w.batches, 0);
    assert(v.hashed + writer::entries_bytes(writer::joined(w.batches)) =~= w.hashed);
}

} // verus!
