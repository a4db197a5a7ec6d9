//! Chunk arithmetic of a transfer.
//!
//! Files travel in chunks of a fixed size; the last one may be shorter. What
//! is there already is not sent again.

use vstd::prelude::*;

use crate::foreign;
use crate::protocol::message::{
    ChunkResponse, ChunkResponseView, Message, MessageView, TransferPlan, TransferPlanView,
};
use crate::state::ChunkBitmap;
use crate::util;
use crate::util::TransferId;

pub mod staging;

verus! {

/// Size of the chunks of a transfer.
pub const TRANSFER_CHUNK: u64 = 65536;

/// Number of chunks of a file.
pub open spec fn chunk_count(size: u64) -> nat {
    ((size + TRANSFER_CHUNK - 1) / TRANSFER_CHUNK as int) as nat
}

/// Length of a chunk of a file.
pub open spec fn chunk_len(size: u64, i: int) -> int {
    if size - i * TRANSFER_CHUNK < TRANSFER_CHUNK {
        size - i * TRANSFER_CHUNK
    } else {
        TRANSFER_CHUNK as int
    }
}

/// The lengths of the first `n` chunks of a file.
pub open spec fn chunks_len(size: u64, n: nat) -> int
    decreases n,
{
    if n == 0 {
        0
    } else {
        chunks_len(size, (n - 1) as nat) + chunk_len(size, n - 1)
    }
}

/// The chunks of a file add up to it, and none is empty.
pub proof fn law_chunks_cover_file(size: u64)
    ensures
        chunks_len(size, chunk_count(size)) == size,
        forall|i: int| 0 <= i < chunk_count(size) ==> 0 < #[trigger] chunk_len(size, i)
            <= TRANSFER_CHUNK,
{
    let n = chunk_count(size);
    if n > 0 {
        lemma_full_chunks(size, (n - 1) as nat);
    }
}

proof fn lemma_full_chunks(size: u64, n: nat)
    requires
        n * TRANSFER_CHUNK <= size,
    ensures
        chunks_len(size, n) == n * TRANSFER_CHUNK,
    decreases n,
{
    if n > 0 {
        lemma_full_chunks(size, (n - 1) as nat);
    }
}

/// The number of chunks of a file.
pub fn count_chunks(size: u64) -> (r: u64)
    ensures
        r == chunk_count(size),
{
    if size % TRANSFER_CHUNK == 0 {
        size / TRANSFER_CHUNK
    } else {
        size / TRANSFER_CHUNK + 1
    }
}

/// The length of a chunk of a file.
pub fn len_of_chunk(size: u64, i: u64) -> (r: u64)
    requires
        i * TRANSFER_CHUNK <= size,
    ensures
        r == chunk_len(size, i as int),
{
    let rest: u64 = size - i * TRANSFER_CHUNK;
    if rest < TRANSFER_CHUNK {
        rest
    } else {
        TRANSFER_CHUNK
    }
}

/// The plan of a transfer of which some bytes are there already.
pub open spec fn plan(id: Seq<u8>, total: u64, reusable: u64) -> TransferPlanView {
    TransferPlanView {
        transfer_id: id,
        bytes_total: total,
        bytes_to_transfer: if total > reusable {
            (total - reusable) as u64
        } else {
            0
        },
        bytes_reusable: reusable,
    }
}

/// The plan of a transfer of which some bytes are there already.
pub fn make_plan(transfer_id: TransferId, total: u64, reusable: u64) -> (r: TransferPlan)
    ensures
        r@ == plan(transfer_id@, total, reusable),
{
    TransferPlan {
        transfer_id,
        bytes_total: total,
        bytes_to_transfer: total.saturating_sub(reusable),
        bytes_reusable: reusable,
    }
}

/// A plan accounts for every byte: what is sent and what is there already
/// are the whole file, unless more is said to be there than the file has.
pub proof fn law_plan_accounts(id: Seq<u8>, total: u64, reusable: u64)
    ensures
        ({
            let p = plan(id, total, reusable);
            &&& reusable <= total ==> p.bytes_to_transfer + p.bytes_reusable == p.bytes_total
            &&& p.bytes_to_transfer == 0 <==> reusable >= total
        }),
{
}

/// The bytes of those among the first `n` chunks of a file that the other
/// side has.
pub open spec fn had_bytes(size: u64, have: Seq<bool>, n: nat) -> int
    decreases n,
{
    if n == 0 {
        0
    } else {
        had_bytes(size, have, (n - 1) as nat) + if n <= have.len() && have[n - 1] {
            chunk_len(size, n - 1)
        } else {
            0
        }
    }
}

/// The chunks of a file that the other side has.
pub open spec fn had_chunks(size: u64, have: Seq<bool>) -> Set<u64> {
    Set::new(|i: u64| i < chunk_count(size) && i < have.len() && have[i as int])
}

proof fn lemma_had_bytes(size: u64, have: Seq<bool>, n: nat)
    requires
        n <= chunk_count(size),
    ensures
        0 <= had_bytes(size, have, n) <= chunks_len(size, n) <= size,
    decreases n,
{
    law_chunks_cover_file(size);
    if n > 0 {
        lemma_had_bytes(size, have, (n - 1) as nat);
        assert(0 < chunk_len(size, n - 1));
        if n < chunk_count(size) {
            lemma_full_chunks(size, n);
        }
    }
}

/// The bitmap of the chunks of a file that the other side has.
pub fn skip_bitmap(size: u64, have: &Vec<bool>) -> (r: ChunkBitmap)
    ensures
        r@.set == had_chunks(size, have@),
        r@.bytes_completed == had_bytes(size, have@, chunk_count(size)),
        r@.bytes_completed <= size,
{
    let n: u64 = count_chunks(size);
    let mut bm = ChunkBitmap::new();
    let mut i: u64 = 0;
    assert(bm@.set =~= Set::new(|k: u64| k < i && k < have@.len() && have@[k as int]));
    while i < n
        invariant
            i <= n == chunk_count(size),
            bm@.set == Set::new(|k: u64| k < i && k < have@.len() && have@[k as int]),
            bm@.bytes_completed == had_bytes(size, have@, i as nat),
        decreases n - i,
    {
        let ghost before = bm@.set;
        proof {
            law_chunks_cover_file(size);
            assert(0 < chunk_len(size, i as int));
            lemma_had_bytes(size, have@, i as nat);
            lemma_had_bytes(size, have@, (i + 1) as nat);
        }
        if i < have.len() as u64 && have[i as usize] {
            let len: u64 = len_of_chunk(size, i);
            bm.mark_complete(i, len);
        }
        assert(bm@.set =~= Set::new(|k: u64| k < i + 1 && k < have@.len() && have@[k as int]));
        i = i + 1;
    }
    proof {
        assert(bm@.set =~= had_chunks(size, have@));
        lemma_had_bytes(size, have@, chunk_count(size));
    }
    bm
}

/// What a Bloom filter of the chunks that are here is made of.
#[derive(Debug)]
pub struct Bloom {
    /// Number of bits.
    pub filter_bits: u32,
    /// Number of hash functions.
    pub num_hashes: u8,
    /// The bits.
    pub bitset: bytes::Bytes,
}

/// Where the bytes of a chunk are found.
#[derive(Debug, Clone, Copy, PartialEq, Eq, Structural)]
pub enum ChunkSource {
    /// In the file that is there already.
    File { offset: u64, length: u64 },
    /// In the chunk store.
    Store,
    /// Nowhere.
    Missing,
}

/// A part of a file that is copied.
#[derive(Debug, Clone, Copy, PartialEq, Eq, Structural)]
pub struct FileCopy {
    /// Where it goes.
    pub dst_offset: u64,
    /// Where it comes from.
    pub src_offset: u64,
    /// How long it is.
    pub length: u64,
}

/// A chunk that is copied from the chunk store.
#[derive(Debug, Clone, Copy, PartialEq, Eq)]
pub struct StoreCopy {
    /// Where it goes.
    pub dst_offset: u64,
    /// Its digest.
    pub hash: util::Hash,
    /// How long it is.
    pub length: u64,
}

/// What is copied from the file that is there, for the first `n` chunks.
pub open spec fn file_copies(s: Seq<ChunkSource>, n: int) -> Seq<FileCopy>
    decreases n,
{
    if n <= 0 {
        Seq::empty()
    } else {
        match s[n - 1] {
            ChunkSource::File { offset, length } => file_copies(s, n - 1).push(
                FileCopy {
                    dst_offset: ((n - 1) * TRANSFER_CHUNK) as u64,
                    src_offset: offset,
                    length,
                },
            ),
            _ => file_copies(s, n - 1),
        }
    }
}

/// What is copied from the chunk store, for the first `n` chunks.
pub open spec fn store_copies(s: Seq<ChunkSource>, h: Seq<util::Hash>, size: u64, n: int) -> Seq<
    StoreCopy,
>
    decreases n,
{
    if n <= 0 {
        Seq::empty()
    } else if s[n - 1] is Store {
        store_copies(s, h, size, n - 1).push(
            StoreCopy {
                dst_offset: ((n - 1) * TRANSFER_CHUNK) as u64,
                hash: h[n - 1],
                length: chunk_len(size, n - 1) as u64,
            },
        )
    } else {
        store_copies(s, h, size, n - 1)
    }
}

/// How many bytes are found, for the first `n` chunks.
pub open spec fn found_bytes(s: Seq<ChunkSource>, size: u64, readable: bool, n: int) -> int
    decreases n,
{
    if n <= 0 {
        0
    } else {
        found_bytes(s, size, readable, n - 1) + match s[n - 1] {
            ChunkSource::File { offset, length } => if readable {
                length as int
            } else {
                0
            },
            ChunkSource::Store => chunk_len(size, n - 1),
            ChunkSource::Missing => 0,
        }
    }
}

/// Whether a chunk is there once everything that can be copied is copied.
pub open spec fn is_found(s: ChunkSource, readable: bool) -> bool {
    match s {
        ChunkSource::File { offset, length } => readable,
        ChunkSource::Store => true,
        ChunkSource::Missing => false,
    }
}

/// For each chunk, whether it is announced as being here.
pub open spec fn announced(s: Seq<ChunkSource>) -> Seq<bool> {
    Seq::new(s.len(), |i: int| !(s[i] is Missing))
}

/// The chunks that are there once everything that can be copied is copied.
pub open spec fn completed(s: Seq<ChunkSource>, readable: bool) -> Set<u64> {
    Set::new(|i: u64| i < s.len() && is_found(s[i as int], readable))
}

/// The other side skips exactly the chunks that are complete here: where the
/// file that is there can be read, what it skips after an answer is what the
/// answer has found of the file.
pub proof fn law_skipped_is_completed(size: u64, s: Seq<ChunkSource>)
    ensures
        forall|i: u64|
            had_chunks(size, announced(s)).contains(i) <==> i < chunk_count(size) && completed(
                s,
                true,
            ).contains(i),
        s.len() <= chunk_count(size) ==> had_chunks(size, announced(s)) == completed(s, true),
{
    if s.len() <= chunk_count(size) {
        assert(had_chunks(size, announced(s)) =~= completed(s, true));
    }
}

proof fn lemma_bytes_of_sources(size: u64, s: Seq<ChunkSource>, n: nat)
    requires
        forall|i: int|
            0 <= i < s.len() ==> (#[trigger] s[i] matches ChunkSource::File { offset, length }
                ==> length == chunk_len(size, i)),
    ensures
        n <= s.len() ==> had_bytes(size, announced(s), n) == found_bytes(s, size, true, n as int),
        n >= s.len() ==> had_bytes(size, announced(s), n) == found_bytes(
            s,
            size,
            true,
            s.len() as int,
        ),
    decreases n,
{
    if n > 0 {
        lemma_bytes_of_sources(size, s, (n - 1) as nat);
        if n <= s.len() {
            assert(announced(s)[n - 1] == !(s[n - 1] is Missing));
        }
    }
}

/// Both sides count the same bytes as being there, where each chunk that is
/// found in the file that is there has the length of the chunk that is asked
/// about: what the other side skips is as long as what the answer has found.
pub proof fn law_skipped_bytes_are_found(size: u64, s: Seq<ChunkSource>)
    requires
        s.len() <= chunk_count(size),
        forall|i: int|
            0 <= i < s.len() ==> (#[trigger] s[i] matches ChunkSource::File { offset, length }
                ==> length == chunk_len(size, i)),
    ensures
        had_bytes(size, announced(s), chunk_count(size)) == found_bytes(
            s,
            size,
            true,
            s.len() as int,
        ),
{
    lemma_bytes_of_sources(size, s, chunk_count(size));
}

/// Where a chunk is taken from: the file that is there if it has it, else the
/// chunk store. `extent` is where it stands in the file.
pub fn source_of(extent: Option<(u64, u64)>, stored: bool) -> (r: ChunkSource)
    ensures
        r == match (extent, stored) {
            (Some((offset, length)), _) => ChunkSource::File { offset, length },
            (None, true) => ChunkSource::Store,
            (None, false) => ChunkSource::Missing,
        },
{
    match extent {
        Some((offset, length)) => ChunkSource::File { offset, length },
        None => if stored {
            ChunkSource::Store
        } else {
            ChunkSource::Missing
        },
    }
}

/// What is done about the chunks that the other side asks about.
#[derive(Debug)]
pub struct DeltaAnswer {
    /// For each chunk, whether it is here.
    pub have: Vec<bool>,
    /// What to copy from the file that is there.
    pub file_copies: Vec<FileCopy>,
    /// What to copy from the chunk store.
    pub store_copies: Vec<StoreCopy>,
    /// The chunks that are then complete.
    pub bitmap: ChunkBitmap,
}

/// Decide about the chunks that the other side asks about, from where each
/// is found. If the file that is there cannot be read, its chunks are
/// announced but not counted as complete.
pub fn delta_answer(
    size: u64,
    hashes: &Vec<util::Hash>,
    sources: &Vec<ChunkSource>,
    readable: bool,
) -> (r: DeltaAnswer)
    requires
        hashes@.len() == sources@.len(),
        forall|i: int| 0 <= i < sources@.len() ==> #[trigger] (i * TRANSFER_CHUNK) <= size,
    ensures
        r.have@ == announced(sources@),
        r.file_copies@ == file_copies(sources@, sources@.len() as int),
        r.store_copies@ == store_copies(sources@, hashes@, size, sources@.len() as int),
        r.bitmap@.set == completed(sources@, readable),
        r.bitmap@.bytes_completed == ({
            let n = found_bytes(sources@, size, readable, sources@.len() as int);
            if n > u64::MAX {
                u64::MAX as int
            } else {
                n
            }
        }),
{
    let ghost s = sources@;
    let mut have: Vec<bool> = Vec::new();
    let mut from_file: Vec<FileCopy> = Vec::new();
    let mut from_store: Vec<StoreCopy> = Vec::new();
    let mut bitmap = ChunkBitmap::new();
    let mut i: usize = 0;
    assert(bitmap@.set =~= Set::new(|k: u64| k < i && is_found(s[k as int], readable)));
    while i < sources.len()
        invariant
            i <= sources.len() == hashes@.len(),
            s == sources@,
            forall|k: int| 0 <= k < s.len() ==> #[trigger] (k * TRANSFER_CHUNK) <= size,
            have@.len() == i,
            forall|k: int| 0 <= k < i ==> #[trigger] have@[k] == !(s[k] is Missing),
            from_file@ == file_copies(s, i as int),
            from_store@ == store_copies(s, hashes@, size, i as int),
            bitmap@.set == Set::new(|k: u64| k < i && is_found(s[k as int], readable)),
            0 <= found_bytes(s, size, readable, i as int),
            bitmap@.bytes_completed == ({
                let n = found_bytes(s, size, readable, i as int);
                if n > u64::MAX {
                    u64::MAX as int
                } else {
                    n
                }
            }),
        decreases sources.len() - i,
    {
        assert((i as int) * TRANSFER_CHUNK <= size);
        let index: u64 = i as u64;
        let dst_offset: u64 = index * TRANSFER_CHUNK;
        match sources[i] {
            ChunkSource::File { offset, length } => {
                have.push(true);
                from_file.push(FileCopy { dst_offset, src_offset: offset, length });
                if readable {
                    bitmap.mark_complete(index, length);
                }
            },
            ChunkSource::Store => {
                have.push(true);
                let length: u64 = len_of_chunk(size, index);
                from_store.push(StoreCopy { dst_offset, hash: hashes[i], length });
                bitmap.mark_complete(index, length);
            },
            ChunkSource::Missing => {
                have.push(false);
            },
        }
        assert(bitmap@.set =~= Set::new(|k: u64| k < i + 1 && is_found(s[k as int], readable)));
        i = i + 1;
    }
    assert(bitmap@.set =~= completed(sources@, readable));
    assert(have@ =~= announced(sources@));
    DeltaAnswer { have, file_copies: from_file, store_copies: from_store, bitmap }
}

/// How many are true.
pub open spec fn count_true(s: Seq<bool>) -> nat
    decreases s.len(),
{
    if s.len() == 0 {
        0
    } else {
        count_true(s.drop_last()) + if s.last() {
            1nat
        } else {
            0
        }
    }
}

/// How many are true.
pub fn count_have(have: &Vec<bool>) -> (r: usize)
    ensures
        r == count_true(have@),
{
    let mut n: usize = 0;
    let mut i: usize = 0;
    assert(have@.take(0) =~= Seq::empty());
    while i < have.len()
        invariant
            i <= have.len(),
            n <= i,
            n == count_true(have@.take(i as int)),
        decreases have.len() - i,
    {
        proof {
            assert(have@.take(i + 1).drop_last() =~= have@.take(i as int));
            assert(have@.take(i + 1).last() == have@[i as int]);
        }
        if have[i] {
            n = n + 1;
        }
        i = i + 1;
    }
    assert(have@.take(i as int) =~= have@);
    n
}

/// CHUNK_RESPONSE: which chunks are here, in the order of the query. `rle` is
/// the packed form of `have`.
pub fn chunk_response(
    transfer_id: TransferId,
    query_seq: u64,
    have: &Vec<bool>,
    rle: bytes::Bytes,
) -> (r: Message)
    requires
        have@.len() <= u32::MAX,
    ensures
        r@ == MessageView::ChunkResponse(
            ChunkResponseView {
                transfer_id: transfer_id@,
                query_seq,
                total_chunks: have@.len() as u32,
                have_count: count_true(have@) as u32,
                rle_bitmap: foreign::bytes_content(rle),
            },
        ),
{
    Message::ChunkResponse(
        ChunkResponse {
            transfer_id,
            query_seq,
            total_chunks: have.len() as u32,
            have_count: count_have(have) as u32,
            rle_bitmap: rle,
        },
    )
}

/// Whether a file of the size has a chunk, or at least an end, at each of the
/// first `n` chunk places.
pub fn fits(size: u64, n: usize) -> (r: bool)
    ensures
        r == (forall|i: int| 0 <= i < n ==> #[trigger] (i * TRANSFER_CHUNK) <= size),
{
    if n == 0 {
        return true;
    }
    let last: u64 = (n - 1) as u64;
    proof {
        if last <= size / TRANSFER_CHUNK {
            assert forall|i: int| 0 <= i < n implies #[trigger] (i * TRANSFER_CHUNK) <= size by {
                assert(i * TRANSFER_CHUNK <= (size / TRANSFER_CHUNK) * TRANSFER_CHUNK);
            }
        } else {
            assert(last * TRANSFER_CHUNK > size);
            assert((n - 1) * TRANSFER_CHUNK > size);
        }
    }
    last <= size / TRANSFER_CHUNK
}

/// The `i`-th chunk of a file.
pub open spec fn chunk_at(file: Seq<u8>, i: int) -> Seq<u8> {
    file.subrange(i * TRANSFER_CHUNK, i * TRANSFER_CHUNK + chunk_len(file.len() as u64, i))
}

/// The digests of the chunks of a file, in order.
pub open spec fn chunk_digests(file: Seq<u8>) -> Seq<Seq<u8>> {
    Seq::new(
        chunk_count(file.len() as u64),
        |i: int| foreign::blake3_digest(chunk_at(file, i)),
    )
}

/// The digests of hashes.
pub open spec fn digest_views(s: Seq<util::Hash>) -> Seq<Seq<u8>> {
    s.map_values(|h: util::Hash| h@)
}

/// Digests a file chunk by chunk. The caller reads as many bytes as are
/// wanted and hands them in, until none are wanted.
#[derive(Debug)]
pub struct ChunkDigests {
    /// The size of the file.
    pub size: u64,
    /// The digests so far.
    pub hashes: Vec<util::Hash>,
}

impl ChunkDigests {
    /// There are no more digests than chunks.
    pub open spec fn well_formed(self) -> bool {
        self.hashes@.len() <= chunk_count(self.size)
    }

    /// The digests are those of the first chunks of a file.
    pub open spec fn digests(self, file: Seq<u8>) -> bool {
        &&& file.len() == self.size
        &&& self.hashes@.len() <= chunk_count(self.size)
        &&& digest_views(self.hashes@) == chunk_digests(file).take(self.hashes@.len() as int)
    }

    /// How many bytes are wanted next.
    pub open spec fn next_len(self) -> int {
        if self.hashes@.len() < chunk_count(self.size) {
            chunk_len(self.size, self.hashes@.len() as int)
        } else {
            0
        }
    }

    /// Start with a file of the size.
    pub fn new(size: u64) -> (r: Self)
        ensures
            r.size == size,
            r.hashes@.len() == 0,
            forall|file: Seq<u8>| file.len() == size ==> #[trigger] r.digests(file),
    {
        let r = ChunkDigests { size, hashes: Vec::new() };
        assert forall|file: Seq<u8>| file.len() == size implies #[trigger] r.digests(file) by {
            assert(digest_views(r.hashes@) =~= chunk_digests(file).take(0));
        }
        r
    }

    /// How many bytes are wanted next: a chunk, or what is left; 0 at the end
    /// of the file.
    pub fn wanted(&self) -> (r: usize)
        requires
            self.well_formed(),
        ensures
            r == self.next_len(),
            r == 0 <==> self.hashes@.len() == chunk_count(self.size),
            r == 0 ==> forall|file: Seq<u8>| #[trigger]
                self.digests(file) ==> digest_views(self.hashes@) == chunk_digests(file),
    {
        let n: u64 = self.hashes.len() as u64;
        if n < count_chunks(self.size) {
            proof {
                law_chunks_cover_file(self.size);
            }
            len_of_chunk(self.size, n) as usize
        } else {
            assert forall|file: Seq<u8>| #[trigger] self.digests(file) implies digest_views(
                self.hashes@,
            ) == chunk_digests(file) by {
                assert(chunk_digests(file).take(self.hashes@.len() as int) =~= chunk_digests(file));
            }
            0
        }
    }

    /// Take the bytes that were wanted.
    pub fn push(&mut self, bytes: &[u8])
        requires
            old(self).hashes@.len() < chunk_count(old(self).size),
            bytes@.len() == old(self).next_len(),
        ensures
            final(self).well_formed(),
            final(self).size == old(self).size,
            digest_views(final(self).hashes@) == digest_views(old(self).hashes@).push(
                foreign::blake3_digest(bytes@),
            ),
            forall|file: Seq<u8>|
                old(self).digests(file) && bytes@ == chunk_at(file, old(self).hashes@.len() as int)
                    ==> #[trigger] final(self).digests(file),
    {
        let ghost before = self.hashes@;
        self.hashes.push(util::Hash::of(bytes));
        proof {
            let n = before.len() as int;
            assert(digest_views(self.hashes@) =~= digest_views(before).push(
                foreign::blake3_digest(bytes@),
            ));
            assert forall|file: Seq<u8>|
                old(self).digests(file) && bytes@ == chunk_at(file, n) implies #[trigger] self.digests(
                file,
            ) by {
                assert(chunk_digests(file).take(n + 1) =~= chunk_digests(file).take(n).push(
                    chunk_digests(file)[n],
                ));
            }
        }
    }
}

/// The chunks of a file, one after the other, are the file.
pub proof fn law_chunks_are_file(file: Seq<u8>, i: int, j: int)
    requires
        file.len() <= u64::MAX,
        0 <= i < chunk_count(file.len() as u64),
        0 <= j < chunk_len(file.len() as u64, i),
    ensures
        i * TRANSFER_CHUNK + j < file.len(),
        chunk_at(file, i)[j] == file[i * TRANSFER_CHUNK + j],
        chunk_at(file, i).len() == chunk_len(file.len() as u64, i),
{
    law_chunks_cover_file(file.len() as u64);
}

} // verus!
