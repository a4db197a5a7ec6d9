//! Chunking of byte streams: fixed-size and content-defined.
//!
//! A chunker is a state machine over a stream of read buffers; it never sees
//! the whole file at once. Chunks have hard minimum and maximum sizes, and
//! together they are the input exactly.

use vstd::prelude::*;

use crate::error::{ProtocolError, Result, VelcruxError};

pub mod content;

verus! {

/// Default minimum chunk size, in bytes.
pub const CHUNK_DEFAULT_MIN: u64 = 256 * 1024;

/// Default target chunk size, in bytes.
pub const CHUNK_DEFAULT_TARGET: u64 = 1024 * 1024;

/// Default maximum chunk size, in bytes.
pub const CHUNK_DEFAULT_MAX: u64 = 4 * 1024 * 1024;

/// Parameters of a chunker. Both sides of a transfer must use the same.
#[derive(Debug, Clone, Copy, PartialEq, Eq, Structural)]
pub struct ChunkParams {
    /// Minimum chunk size, in bytes.
    pub min: u64,
    /// Target chunk size, in bytes.
    pub target: u64,
    /// Maximum chunk size, in bytes.
    pub max: u64,
}

impl Default for ChunkParams {
    fn default() -> (r: Self)
        ensures
            r == (ChunkParams {
                min: CHUNK_DEFAULT_MIN,
                target: CHUNK_DEFAULT_TARGET,
                max: CHUNK_DEFAULT_MAX,
            }),
            r.valid(),
    {
        ChunkParams {
            min: CHUNK_DEFAULT_MIN,
            target: CHUNK_DEFAULT_TARGET,
            max: CHUNK_DEFAULT_MAX,
        }
    }
}

impl ChunkParams {
    /// Strictly `0 < min < target < max`.
    pub open spec fn valid(self) -> bool {
        0 < self.min < self.target < self.max
    }

    /// Build with the three named values, validating strict
    /// `min < target < max`.
    pub fn new(min: u64, target: u64, max: u64) -> (r: Option<Self>)
        ensures
            ({
                let p = ChunkParams { min, target, max };
                r == if p.valid() {
                    Some(p)
                } else {
                    None
                }
            }),
    {
        if min == 0 || max == 0 || min >= max || target <= min || target >= max {
            return None;
        }
        Some(ChunkParams { min, target, max })
    }
}

/// A chunk that a chunker has found.
#[derive(Debug, Clone, Copy, PartialEq, Eq, Structural)]
pub struct ChunkBoundary {
    /// Inclusive start offset of the chunk, in bytes.
    pub offset: u64,
    /// Length of the chunk, in bytes.
    pub length: u64,
}

impl ChunkBoundary {
    /// End offset (exclusive) of the chunk.
    pub open spec fn stop(self) -> int {
        self.offset + self.length
    }

    /// End offset (exclusive) of the chunk.
    pub fn end(self) -> (r: u64)
        requires
            self.stop() <= u64::MAX,
        ensures
            r == self.stop(),
    {
        self.offset + self.length
    }
}

/// The chunks lie end to end from `a` to `b`, and none is empty.
pub open spec fn tiles(s: Seq<ChunkBoundary>, a: int, b: int) -> bool
    decreases s.len(),
{
    if s.len() == 0 {
        a == b
    } else {
        s.last().stop() == b && s.last().length > 0 && tiles(
            s.drop_last(),
            a,
            s.last().offset as int,
        )
    }
}

/// Chunks that lie end to end from `a` to `b` and from `b` to `c` lie end to
/// end from `a` to `c`.
pub proof fn lemma_tiles_concat(s: Seq<ChunkBoundary>, t: Seq<ChunkBoundary>, a: int, b: int, c: int)
    requires
        tiles(s, a, b),
        tiles(t, b, c),
    ensures
        tiles(s + t, a, c),
    decreases t.len(),
{
    if t.len() == 0 {
        assert(s + t =~= s);
    } else {
        lemma_tiles_concat(s, t.drop_last(), a, b, t.last().offset as int);
        assert((s + t).drop_last() =~= s + t.drop_last());
        assert((s + t).last() == t.last());
    }
}

/// The bytes of the chunks of a file, one after the other.
pub open spec fn joined(s: Seq<ChunkBoundary>, file: Seq<u8>) -> Seq<u8>
    decreases s.len(),
{
    if s.len() == 0 {
        Seq::empty()
    } else {
        joined(s.drop_last(), file) + file.subrange(s.last().offset as int, s.last().stop())
    }
}

/// Chunks that lie end to end over a file reproduce it.
pub proof fn law_tiles_reproduce(s: Seq<ChunkBoundary>, file: Seq<u8>, b: int)
    requires
        tiles(s, 0, b),
        b <= file.len(),
    ensures
        0 <= b,
        joined(s, file) == file.take(b),
    decreases s.len(),
{
    if s.len() == 0 {
        assert(file.take(0) =~= Seq::<u8>::empty());
    } else {
        law_tiles_reproduce(s.drop_last(), file, s.last().offset as int);
        assert(joined(s, file) =~= file.take(b));
    }
}

/// A chunker over a stream of byte buffers.
pub trait Chunker {
    /// Where the current, unfinished chunk starts.
    spec fn chunk_start(&self) -> int;

    /// How many bytes were fed.
    spec fn fed(&self) -> int;

    /// Whether the end of the input was announced.
    spec fn closed(&self) -> bool;

    /// Feed a read buffer; returns the chunks that end in it.
    fn push(&mut self, buf: &[u8]) -> (r: Result<Vec<ChunkBoundary>>)
        requires
            old(self).fed() + buf@.len() <= u64::MAX,
        ensures
            r is Ok <==> !old(self).closed(),
            final(self).closed() == old(self).closed(),
            r matches Ok(v) ==> {
                &&& final(self).fed() == old(self).fed() + buf@.len()
                &&& tiles(v@, old(self).chunk_start(), final(self).chunk_start())
            },
            r is Err ==> final(self).fed() == old(self).fed() && final(self).chunk_start() == old(
                self,
            ).chunk_start(),
    ;

    /// End of input: the chunk that is left over, if any.
    fn finish(&mut self) -> (r: Result<Option<ChunkBoundary>>)
        ensures
            r is Ok <==> !old(self).closed(),
            final(self).closed(),
            final(self).fed() == old(self).fed(),
            r matches Ok(last) ==> {
                &&& final(self).chunk_start() == old(self).fed()
                &&& last is Some <==> old(self).chunk_start() < old(self).fed()
                &&& last matches Some(b) ==> b.offset == old(self).chunk_start() && b.stop()
                    == old(self).fed()
            },
            r is Err ==> final(self).fed() == old(self).fed() && final(self).chunk_start() == old(
                self,
            ).chunk_start(),
    ;

    /// True once `finish` has been called.
    fn is_finished(&self) -> (r: bool)
        ensures
            r == self.closed(),
    ;

    /// Current stream offset (bytes fed so far).
    fn offset(&self) -> (r: u64)
        ensures
            r == self.fed(),
    ;
}

/// Progress of a chunker within the stream: the rolling sum of the current
/// chunk, its length so far, and where it starts.
pub struct ChunkProgress {
    pub sum: u32,
    pub in_chunk: int,
    pub start: int,
}

/// Chunks found so far and the progress after them.
pub struct ChunkScan {
    pub found: Seq<ChunkBoundary>,
    pub at: ChunkProgress,
}

/// The scan ends the current chunk.
pub open spec fn cut(s: ChunkScan) -> ChunkScan {
    ChunkScan {
        found: s.found.push(
            ChunkBoundary { offset: s.at.start as u64, length: s.at.in_chunk as u64 },
        ),
        at: ChunkProgress { sum: 0, in_chunk: 0, start: s.at.start + s.at.in_chunk },
    }
}

/// One byte of fixed-size chunking: the chunk ends when it is as long as the
/// target.
pub open spec fn fixed_step(p: ChunkParams, s: ChunkScan) -> ChunkScan {
    let t = ChunkScan {
        found: s.found,
        at: ChunkProgress { sum: 0, in_chunk: s.at.in_chunk + 1, start: s.at.start },
    };
    if t.at.in_chunk >= p.target {
        cut(t)
    } else {
        t
    }
}

/// Fixed-size chunking of `n` more bytes.
pub open spec fn fixed_scan(p: ChunkParams, from: ChunkProgress, n: nat) -> ChunkScan
    decreases n,
{
    if n == 0 {
        ChunkScan { found: Seq::empty(), at: from }
    } else {
        fixed_step(p, fixed_scan(p, from, (n - 1) as nat))
    }
}

/// Fixed-size chunker: a chunk every `params.target` bytes; the last one may
/// be shorter.
#[derive(Debug)]
pub struct FixedChunker {
    params: ChunkParams,
    in_chunk: u64,
    next_offset: u64,
    finished: bool,
}

impl Clone for FixedChunker {
    fn clone(&self) -> (r: Self)
        ensures
            r == *self,
    {
        proof {
            use_type_invariant(self);
        }
        FixedChunker {
            params: self.params,
            in_chunk: self.in_chunk,
            next_offset: self.next_offset,
            finished: self.finished,
        }
    }
}

impl FixedChunker {
    /// The stream offset fits in a `u64`.
    #[verifier::type_invariant]
    spec fn bounded(self) -> bool {
        self.next_offset + self.in_chunk <= u64::MAX
    }

    /// The parameters.
    pub closed spec fn params(self) -> ChunkParams {
        self.params
    }

    /// Where the chunker stands.
    pub closed spec fn at(self) -> ChunkProgress {
        ChunkProgress { sum: 0, in_chunk: self.in_chunk as int, start: self.next_offset as int }
    }

    /// A chunker that was fed nothing.
    pub fn new(params: ChunkParams) -> (r: Self)
        ensures
            r.params() == params,
            r.at() == (ChunkProgress { sum: 0, in_chunk: 0, start: 0 }),
            r.fed() == 0,
            r.chunk_start() == 0,
            !r.closed(),
    {
        FixedChunker { params, in_chunk: 0, next_offset: 0, finished: false }
    }
}

impl Chunker for FixedChunker {
    closed spec fn chunk_start(&self) -> int {
        self.next_offset as int
    }

    closed spec fn fed(&self) -> int {
        self.next_offset + self.in_chunk
    }

    closed spec fn closed(&self) -> bool {
        self.finished
    }

    fn push(&mut self, buf: &[u8]) -> (r: Result<Vec<ChunkBoundary>>)
        ensures
            final(self).params() == old(self).params(),
            match r {
                Ok(v) => {
                    let s = fixed_scan(old(self).params(), old(self).at(), buf@.len());
                    v@ == s.found && final(self).at() == s.at
                },
                Err(e) => *final(self) == *old(self) && e == VelcruxError::Protocol(
                    ProtocolError::Malformed("FixedChunker: pushed after finish"),
                ),
            },
    {
        proof {
            use_type_invariant(&*self);
        }
        if self.finished {
            return Err(
                VelcruxError::Protocol(
                    ProtocolError::Malformed("FixedChunker: pushed after finish"),
                ),
            );
        }
        let cut_at: u64 = self.params.target;
        let mut out: Vec<ChunkBoundary> = Vec::new();
        let mut i: usize = 0;
        while i < buf.len()
            invariant
                i <= buf.len(),
                cut_at == old(self).params.target,
                self.params == old(self).params,
                !self.finished,
                old(self).fed() + buf@.len() <= u64::MAX,
                self.next_offset + self.in_chunk == old(self).fed() + i,
                tiles(out@, old(self).next_offset as int, self.next_offset as int),
                fixed_scan(old(self).params, old(self).at(), i as nat) == (ChunkScan {
                    found: out@,
                    at: self.at(),
                }),
            decreases buf.len() - i,
        {
            let ghost before = out@;
            self.in_chunk = self.in_chunk + 1;
            if self.in_chunk >= cut_at {
                out.push(ChunkBoundary { offset: self.next_offset, length: self.in_chunk });
                let length: u64 = self.in_chunk;
                self.in_chunk = 0;
                self.next_offset = self.next_offset + length;
                assert(out@.drop_last() =~= before);
            }
            i = i + 1;
        }
        Ok(out)
    }

    fn finish(&mut self) -> (r: Result<Option<ChunkBoundary>>)
        ensures
            final(self).params() == old(self).params(),
            r matches Err(e) ==> e == VelcruxError::Protocol(
                ProtocolError::Malformed("FixedChunker: finish called twice"),
            ),
    {
        proof {
            use_type_invariant(&*self);
        }
        if self.finished {
            return Err(
                VelcruxError::Protocol(
                    ProtocolError::Malformed("FixedChunker: finish called twice"),
                ),
            );
        }
        self.finished = true;
        if self.in_chunk == 0 {
            return Ok(None);
        }
        let b = ChunkBoundary { offset: self.next_offset, length: self.in_chunk };
        self.in_chunk = 0;
        self.next_offset = self.next_offset + b.length;
        Ok(Some(b))
    }

    fn is_finished(&self) -> (r: bool) {
        self.finished
    }

    fn offset(&self) -> (r: u64) {
        proof {
            use_type_invariant(self);
        }
        self.next_offset + self.in_chunk
    }
}

/// The mixing table of the rolling hash: a fixed permutation of the bytes.
/// It is not on the wire; both sides have the same.
pub const GEAR: [u8; 256] = [
    0xc4, 0x08, 0xae, 0x34, 0x74, 0x88, 0xc6, 0xf5, 0xb8, 0x36, 0x71, 0x97, 0x49, 0x4b, 0xff, 0x64,
    0x6e, 0x60, 0x4e, 0x6a, 0x87, 0x29, 0x55, 0x17, 0xb0, 0x1c, 0x46, 0xde, 0xef, 0x2a, 0xd7, 0x93,
    0x5c, 0xda, 0x37, 0x48, 0x83, 0x01, 0x65, 0xf9, 0xdd, 0xa1, 0xe3, 0x53, 0xc9, 0x2b, 0xd3, 0x20,
    0x51, 0x9f, 0x3b, 0xc5, 0xdb, 0xd2, 0x59, 0xd8, 0x96, 0x68, 0x3c, 0x00, 0x84, 0x8d, 0x52, 0xdc,
    0x58, 0xa4, 0xc8, 0x38, 0x67, 0x54, 0x30, 0x2e, 0xa7, 0x42, 0x06, 0x61, 0x81, 0xca, 0x76, 0xe7,
    0x07, 0x92, 0x14, 0x9e, 0x0b, 0x0f, 0xcb, 0xb7, 0xf1, 0x1b, 0x8f, 0x7c, 0xd5, 0xed, 0x40, 0xa0,
    0x5d, 0xc1, 0xa9, 0x5f, 0x91, 0x85, 0x90, 0xaa, 0x2f, 0x1d, 0xa5, 0xe1, 0xb6, 0xd6, 0x0c, 0x8c,
    0xf6, 0x3e, 0xe8, 0xec, 0xf0, 0x6d, 0x02, 0x78, 0x12, 0x9d, 0xba, 0xab, 0x16, 0x0e, 0x9b, 0x3f,
    0xfa, 0xea, 0x13, 0x56, 0x9c, 0xc3, 0xf8, 0x09, 0xdf, 0x89, 0xcd, 0x69, 0xe0, 0x50, 0xc0, 0xb2,
    0x6b, 0x21, 0x44, 0xc2, 0x8a, 0x31, 0x1a, 0xbe, 0x2c, 0x35, 0x1f, 0x63, 0xa8, 0x23, 0x4c, 0x5b,
    0xe6, 0xd1, 0x15, 0xe4, 0x82, 0x10, 0xbd, 0x7e, 0x41, 0xfe, 0xb5, 0x9a, 0x77, 0x47, 0xaf, 0xfd,
    0xb9, 0x98, 0x73, 0x4f, 0xbf, 0x24, 0x99, 0xfb, 0x72, 0xb3, 0xb4, 0x79, 0x6c, 0x22, 0xcf, 0x33,
    0x70, 0x27, 0xbc, 0xe5, 0x8e, 0xf7, 0x18, 0xf4, 0xee, 0x5e, 0xe2, 0xf2, 0xd0, 0x95, 0xe9, 0x39,
    0x7a, 0xeb, 0x80, 0xbb, 0xcc, 0x25, 0x5a, 0xce, 0x8b, 0x43, 0x1e, 0x32, 0x3d, 0x7d, 0x57, 0x3a,
    0x86, 0x0d, 0xac, 0x05, 0x66, 0x03, 0xd9, 0x4d, 0x7f, 0xa6, 0xa2, 0xb1, 0x62, 0x2d, 0x04, 0x28,
    0xfc, 0x6f, 0x0a, 0x11, 0x26, 0xc7, 0x94, 0xa3, 0x7b, 0x75, 0x19, 0xd4, 0xf3, 0x4a, 0x45, 0xad,
];

/// The integer part of the binary logarithm.
pub open spec fn floor_log2(x: nat) -> nat
    decreases x,
{
    if x <= 1 {
        0
    } else {
        1 + floor_log2(x / 2)
    }
}

/// Number of low bits of the sum that must be zero for a cut.
pub open spec fn mask_bits_for(target: u64) -> nat {
    if floor_log2(target as nat) < 1 {
        1
    } else {
        floor_log2(target as nat)
    }
}

/// `2` to the power `n`.
pub open spec fn two_to(n: nat) -> nat
    decreases n,
{
    if n == 0 {
        1
    } else {
        2 * two_to((n - 1) as nat)
    }
}

/// The low bits of the sum that are looked at; all 32 at most.
pub open spec fn mask_for(target: u64) -> u64 {
    if mask_bits_for(target) >= 32 {
        0xFFFF_FFFF
    } else {
        (two_to(mask_bits_for(target)) - 1) as u64
    }
}

/// The rolling sum with one more byte: `16 * sum + GEAR[b]`, modulo `2^32`.
pub open spec fn roll(sum: u32, b: u8) -> u32 {
    ((16 * sum + GEAR@[b as int]) % 0x1_0000_0000) as u32
}

/// One byte of content-defined chunking. The chunk ends where the masked sum
/// is zero and the chunk is at least `min` long, or where it is `max` long.
pub open spec fn rolling_step(p: ChunkParams, s: ChunkScan, b: u8) -> ChunkScan {
    let t = ChunkScan {
        found: s.found,
        at: ChunkProgress {
            sum: roll(s.at.sum, b),
            in_chunk: s.at.in_chunk + 1,
            start: s.at.start,
        },
    };
    if (t.at.sum as u64 & mask_for(p.target) == 0 && t.at.in_chunk >= p.min) || t.at.in_chunk
        >= p.max {
        cut(t)
    } else {
        t
    }
}

/// Content-defined chunking of the bytes `s`.
pub open spec fn rolling_scan(p: ChunkParams, from: ChunkProgress, s: Seq<u8>) -> ChunkScan
    decreases s.len(),
{
    if s.len() == 0 {
        ChunkScan { found: Seq::empty(), at: from }
    } else {
        rolling_step(p, rolling_scan(p, from, s.drop_last()), s.last())
    }
}

/// Content-defined chunker over a rolling hash.
#[derive(Debug)]
pub struct RollingChunker {
    params: ChunkParams,
    mask: u64,
    mask_bits: u32,
    sum: u32,
    in_chunk: u64,
    next_offset: u64,
    finished: bool,
}

proof fn lemma_floor_log2_bound(x: nat, n: nat)
    requires
        x < two_to(n),
        n >= 1,
    ensures
        floor_log2(x) < n,
    decreases n,
{
    if x > 1 {
        if n == 1 {
            assert(two_to(1) == 2 * two_to(0));
        } else {
            lemma_floor_log2_bound(x / 2, (n - 1) as nat);
        }
    }
}

proof fn lemma_two_to_32()
    ensures
        two_to(32) == 0x1_0000_0000,
        two_to(64) == 0x1_0000_0000_0000_0000,
{
    reveal_with_fuel(two_to, 65);
}

proof fn lemma_two_to_monotone(a: nat, b: nat)
    requires
        a <= b,
    ensures
        two_to(a) <= two_to(b),
    decreases b,
{
    if a < b {
        lemma_two_to_monotone(a, (b - 1) as nat);
    }
}

/// `2` to the power `n`.
fn power_of_two(n: u32) -> (r: u64)
    requires
        n < 32,
    ensures
        r == two_to(n as nat),
        r >= 1,
{
    let mut r: u64 = 1;
    let mut k: u32 = 0;
    while k < n
        invariant
            k <= n < 32,
            r == two_to(k as nat),
            r >= 1,
        decreases n - k,
    {
        proof {
            lemma_two_to_32();
            lemma_two_to_monotone((k + 1) as nat, 32);
        }
        r = 2 * r;
        k = k + 1;
    }
    r
}

impl Clone for RollingChunker {
    fn clone(&self) -> (r: Self)
        ensures
            r == *self,
    {
        proof {
            use_type_invariant(self);
        }
        RollingChunker {
            params: self.params,
            mask: self.mask,
            mask_bits: self.mask_bits,
            sum: self.sum,
            in_chunk: self.in_chunk,
            next_offset: self.next_offset,
            finished: self.finished,
        }
    }
}

impl RollingChunker {
    /// The mask belongs to the parameters, and the stream offset fits in a
    /// `u64`.
    #[verifier::type_invariant]
    spec fn masked(self) -> bool {
        self.next_offset + self.in_chunk <= u64::MAX && self.mask == mask_for(self.params.target) && self.mask_bits == mask_bits_for(
            self.params.target,
        )
    }

    /// The parameters.
    pub closed spec fn params(self) -> ChunkParams {
        self.params
    }

    /// Where the chunker stands.
    pub closed spec fn at(self) -> ChunkProgress {
        ChunkProgress {
            sum: self.sum,
            in_chunk: self.in_chunk as int,
            start: self.next_offset as int,
        }
    }

    /// A chunker that was fed nothing.
    pub fn new(params: ChunkParams) -> (r: Self)
        ensures
            r.params() == params,
            r.at() == (ChunkProgress { sum: 0, in_chunk: 0, start: 0 }),
            r.fed() == 0,
            r.chunk_start() == 0,
            !r.closed(),
    {
        let mut bits: u32 = 0;
        let mut t: u64 = params.target;
        proof {
            lemma_two_to_32();
            lemma_floor_log2_bound(params.target as nat, 64);
        }
        while t > 1
            invariant
                bits + floor_log2(t as nat) == floor_log2(params.target as nat),
                floor_log2(params.target as nat) < 64,
            decreases t,
        {
            t = t / 2;
            bits = bits + 1;
        }
        let mask_bits: u32 = if bits < 1 {
            1
        } else {
            bits
        };
        let mask: u64 = if mask_bits >= 32 {
            0xFFFF_FFFF
        } else {
            power_of_two(mask_bits) - 1
        };
        RollingChunker {
            params,
            mask,
            mask_bits,
            sum: 0,
            in_chunk: 0,
            next_offset: 0,
            finished: false,
        }
    }

    /// Number of low bits that must be zero to cut.
    pub fn mask_bits(&self) -> (r: u32)
        ensures
            r == mask_bits_for(self.params().target),
    {
        proof {
            use_type_invariant(self);
        }
        self.mask_bits
    }
}

impl Chunker for RollingChunker {
    closed spec fn chunk_start(&self) -> int {
        self.next_offset as int
    }

    closed spec fn fed(&self) -> int {
        self.next_offset + self.in_chunk
    }

    closed spec fn closed(&self) -> bool {
        self.finished
    }

    fn push(&mut self, buf: &[u8]) -> (r: Result<Vec<ChunkBoundary>>)
        ensures
            final(self).params() == old(self).params(),
            match r {
                Ok(v) => {
                    let s = rolling_scan(old(self).params(), old(self).at(), buf@);
                    v@ == s.found && final(self).at() == s.at
                },
                Err(e) => *final(self) == *old(self) && e == VelcruxError::Protocol(
                    ProtocolError::Malformed("RollingChunker: pushed after finish"),
                ),
            },
    {
        proof {
            use_type_invariant(&*self);
        }
        if self.finished {
            return Err(
                VelcruxError::Protocol(
                    ProtocolError::Malformed("RollingChunker: pushed after finish"),
                ),
            );
        }
        let max: u64 = self.params.max;
        let min: u64 = self.params.min;
        let mask: u64 = self.mask;
        let mut out: Vec<ChunkBoundary> = Vec::new();
        let mut i: usize = 0;
        assert(buf@.take(0) =~= Seq::<u8>::empty());
        while i < buf.len()
            invariant
                i <= buf.len(),
                max == old(self).params.max,
                min == old(self).params.min,
                mask == mask_for(old(self).params.target),
                self.params == old(self).params,
                self.masked(),
                !self.finished,
                old(self).fed() + buf@.len() <= u64::MAX,
                self.next_offset + self.in_chunk == old(self).fed() + i,
                tiles(out@, old(self).next_offset as int, self.next_offset as int),
                rolling_scan(old(self).params, old(self).at(), buf@.take(i as int)) == (ChunkScan {
                    found: out@,
                    at: self.at(),
                }),
            decreases buf.len() - i,
        {
            let ghost before = out@;
            let b: u8 = buf[i];
            proof {
                assert(buf@.take(i + 1).drop_last() =~= buf@.take(i as int));
            }
            let rolled: u64 = (16 * (self.sum as u64) + GEAR[b as usize] as u64) % 0x1_0000_0000;
            self.sum = rolled as u32;
            self.in_chunk = self.in_chunk + 1;
            let hit_natural: bool = (self.sum as u64 & mask) == 0 && self.in_chunk >= min;
            let hit_max: bool = self.in_chunk >= max;
            if hit_natural || hit_max {
                out.push(ChunkBoundary { offset: self.next_offset, length: self.in_chunk });
                let length: u64 = self.in_chunk;
                self.in_chunk = 0;
                self.next_offset = self.next_offset + length;
                self.sum = 0;
                assert(out@.drop_last() =~= before);
            }
            i = i + 1;
        }
        assert(buf@.take(i as int) =~= buf@);
        Ok(out)
    }

    fn finish(&mut self) -> (r: Result<Option<ChunkBoundary>>)
        ensures
            final(self).params() == old(self).params(),
            r matches Err(e) ==> e == VelcruxError::Protocol(
                ProtocolError::Malformed("RollingChunker: finish called twice"),
            ),
    {
        proof {
            use_type_invariant(&*self);
        }
        if self.finished {
            return Err(
                VelcruxError::Protocol(
                    ProtocolError::Malformed("RollingChunker: finish called twice"),
                ),
            );
        }
        self.finished = true;
        if self.in_chunk == 0 {
            return Ok(None);
        }
        let b = ChunkBoundary { offset: self.next_offset, length: self.in_chunk };
        self.in_chunk = 0;
        self.next_offset = self.next_offset + b.length;
        Ok(Some(b))
    }

    fn is_finished(&self) -> (r: bool) {
        self.finished
    }

    fn offset(&self) -> (r: u64) {
        proof {
            use_type_invariant(self);
        }
        self.next_offset + self.in_chunk
    }
}

/// A chunker that was fed nothing stands here.
pub open spec fn fresh() -> ChunkProgress {
    ChunkProgress { sum: 0, in_chunk: 0, start: 0 }
}

/// It makes no difference how a stream is split into read buffers.
pub proof fn law_rolling_split(p: ChunkParams, from: ChunkProgress, s: Seq<u8>, t: Seq<u8>)
    ensures
        ({
            let a = rolling_scan(p, from, s);
            let b = rolling_scan(p, a.at, t);
            rolling_scan(p, from, s + t) == (ChunkScan { found: a.found + b.found, at: b.at })
        }),
    decreases t.len(),
{
    let a = rolling_scan(p, from, s);
    if t.len() == 0 {
        assert(s + t =~= s);
        assert(a.found + Seq::<ChunkBoundary>::empty() =~= a.found);
    } else {
        law_rolling_split(p, from, s, t.drop_last());
        assert((s + t).drop_last() =~= s + t.drop_last());
        let b = rolling_scan(p, a.at, t.drop_last());
        let c = rolling_scan(p, a.at, t);
        let whole = rolling_scan(p, from, s + t);
        assert(whole.found =~= a.found + c.found);
    }
}

/// It makes no difference how a stream is split into read buffers.
pub proof fn law_fixed_split(p: ChunkParams, from: ChunkProgress, m: nat, n: nat)
    ensures
        ({
            let a = fixed_scan(p, from, m);
            let b = fixed_scan(p, a.at, n);
            fixed_scan(p, from, m + n) == (ChunkScan { found: a.found + b.found, at: b.at })
        }),
    decreases n,
{
    let a = fixed_scan(p, from, m);
    if n == 0 {
        assert(a.found + Seq::<ChunkBoundary>::empty() =~= a.found);
    } else {
        law_fixed_split(p, from, m, (n - 1) as nat);
        let b = fixed_scan(p, a.at, (n - 1) as nat);
        let c = fixed_scan(p, a.at, n);
        let whole = fixed_scan(p, from, m + n);
        assert(whole.found =~= a.found + c.found);
    }
}

/// The chunks found lie end to end, none of them shorter than the minimum or
/// longer than the maximum, and what is left over is shorter than the
/// maximum.
pub proof fn law_rolling_bounds(p: ChunkParams, from: ChunkProgress, s: Seq<u8>)
    requires
        1 <= p.min <= p.max,
        0 <= from.in_chunk < p.max,
        0 <= from.start,
        from.start + from.in_chunk + s.len() <= u64::MAX,
    ensures
        ({
            let r = rolling_scan(p, from, s);
            &&& tiles(r.found, from.start, r.at.start)
            &&& 0 <= r.at.in_chunk < p.max
            &&& r.at.start + r.at.in_chunk == from.start + from.in_chunk + s.len()
            &&& forall|i: int|
                0 <= i < r.found.len() ==> p.min <= (#[trigger] r.found[i]).length <= p.max
        }),
    decreases s.len(),
{
    if s.len() > 0 {
        law_rolling_bounds(p, from, s.drop_last());
        let a = rolling_scan(p, from, s.drop_last());
        let r = rolling_scan(p, from, s);
        if r.found.len() > a.found.len() {
            assert(r.found.drop_last() =~= a.found);
        }
    }
}

/// The chunks found lie end to end, each of them as long as the target, and
/// what is left over is shorter.
pub proof fn law_fixed_bounds(p: ChunkParams, from: ChunkProgress, n: nat)
    requires
        p.target >= 1,
        0 <= from.in_chunk < p.target,
        0 <= from.start,
        from.start + from.in_chunk + n <= u64::MAX,
    ensures
        ({
            let r = fixed_scan(p, from, n);
            &&& tiles(r.found, from.start, r.at.start)
            &&& 0 <= r.at.in_chunk < p.target
            &&& r.at.start + r.at.in_chunk == from.start + from.in_chunk + n
            &&& forall|i: int|
                0 <= i < r.found.len() ==> (#[trigger] r.found[i]).length == p.target
        }),
    decreases n,
{
    if n > 0 {
        law_fixed_bounds(p, from, (n - 1) as nat);
        let a = fixed_scan(p, from, (n - 1) as nat);
        let r = fixed_scan(p, from, n);
        if r.found.len() > a.found.len() {
            assert(r.found.drop_last() =~= a.found);
        }
    }
}

/// The chunks of a whole file, with what is left over at its end, are the
/// file.
pub proof fn law_rolling_reproduces(p: ChunkParams, file: Seq<u8>)
    requires
        1 <= p.min <= p.max,
        file.len() <= u64::MAX,
    ensures
        ({
            let r = rolling_scan(p, fresh(), file);
            joined(r.found, file) + file.skip(r.at.start) == file
        }),
{
    law_rolling_bounds(p, fresh(), file);
    let r = rolling_scan(p, fresh(), file);
    law_tiles_reproduce(r.found, file, r.at.start);
    assert(file.take(r.at.start) + file.skip(r.at.start) =~= file);
}

/// The chunks of a whole file, with what is left over at its end, are the
/// file.
pub proof fn law_fixed_reproduces(p: ChunkParams, file: Seq<u8>)
    requires
        p.target >= 1,
        file.len() <= u64::MAX,
    ensures
        ({
            let r = fixed_scan(p, fresh(), file.len());
            joined(r.found, file) + file.skip(r.at.start) == file
        }),
{
    law_fixed_bounds(p, fresh(), file.len());
    let r = fixed_scan(p, fresh(), file.len());
    law_tiles_reproduce(r.found, file, r.at.start);
    assert(file.take(r.at.start) + file.skip(r.at.start) =~= file);
}

/// Chunking is local: after a boundary, the same bytes are cut in the same
/// places, wherever in the stream they stand.
pub proof fn law_rolling_resynchronizes(p: ChunkParams, a: int, b: int, s: Seq<u8>)
    requires
        0 <= a,
        0 <= b,
        a + s.len() <= u64::MAX,
        b + s.len() <= u64::MAX,
    ensures
        ({
            let x = rolling_scan(p, ChunkProgress { sum: 0, in_chunk: 0, start: a }, s);
            let y = rolling_scan(p, ChunkProgress { sum: 0, in_chunk: 0, start: b }, s);
            &&& x.found.len() == y.found.len()
            &&& forall|i: int|
                0 <= i < x.found.len() ==> (#[trigger] x.found[i]).length == y.found[i].length
                    && x.found[i].offset - a == y.found[i].offset - b
            &&& x.at.sum == y.at.sum
            &&& x.at.in_chunk == y.at.in_chunk
            &&& x.at.start - a == y.at.start - b
            &&& a <= x.at.start
            &&& 0 <= x.at.in_chunk
            &&& x.at.start + x.at.in_chunk == a + s.len()
        }),
    decreases s.len(),
{
    if s.len() > 0 {
        law_rolling_resynchronizes(p, a, b, s.drop_last());
    }
}

/// How a file is cut into chunks.
#[derive(Debug, Clone, Copy, PartialEq, Eq, Structural)]
pub enum ChunkMode {
    /// Every `target` bytes.
    Fixed,
    /// Where the content says so.
    Cdc,
}

/// Chunking of the bytes `s` in a mode.
pub open spec fn mode_scan(
    mode: ChunkMode,
    p: ChunkParams,
    from: ChunkProgress,
    s: Seq<u8>,
) -> ChunkScan {
    match mode {
        ChunkMode::Fixed => fixed_scan(p, from, s.len()),
        ChunkMode::Cdc => rolling_scan(p, from, s),
    }
}

/// The chunks of a whole file, with what is left over at its end.
pub open spec fn file_chunks(mode: ChunkMode, p: ChunkParams, file: Seq<u8>) -> Seq<ChunkBoundary> {
    let scan = mode_scan(mode, p, fresh(), file);
    if scan.at.start < file.len() {
        scan.found.push(
            ChunkBoundary {
                offset: scan.at.start as u64,
                length: (file.len() - scan.at.start) as u64,
            },
        )
    } else {
        scan.found
    }
}

/// A chunker in either mode.
pub enum StreamChunker {
    Fixed(FixedChunker),
    Cdc(RollingChunker),
}

impl StreamChunker {
    /// The mode.
    pub open spec fn mode(self) -> ChunkMode {
        match self {
            StreamChunker::Fixed(_) => ChunkMode::Fixed,
            StreamChunker::Cdc(_) => ChunkMode::Cdc,
        }
    }

    /// The parameters.
    pub open spec fn params(self) -> ChunkParams {
        match self {
            StreamChunker::Fixed(c) => c.params(),
            StreamChunker::Cdc(c) => c.params(),
        }
    }

    /// Where the chunker stands.
    pub open spec fn at(self) -> ChunkProgress {
        match self {
            StreamChunker::Fixed(c) => c.at(),
            StreamChunker::Cdc(c) => c.at(),
        }
    }

    /// How many bytes were fed.
    pub open spec fn fed(self) -> int {
        match self {
            StreamChunker::Fixed(c) => c.fed(),
            StreamChunker::Cdc(c) => c.fed(),
        }
    }

    /// Whether the end of the input was announced.
    pub open spec fn closed(self) -> bool {
        match self {
            StreamChunker::Fixed(c) => c.closed(),
            StreamChunker::Cdc(c) => c.closed(),
        }
    }

    /// A chunker that was fed nothing.
    pub fn new(mode: ChunkMode, params: ChunkParams) -> (r: Self)
        ensures
            r.mode() == mode,
            r.params() == params,
            r.at() == fresh(),
            r.fed() == 0,
            !r.closed(),
    {
        match mode {
            ChunkMode::Fixed => StreamChunker::Fixed(FixedChunker::new(params)),
            ChunkMode::Cdc => StreamChunker::Cdc(RollingChunker::new(params)),
        }
    }

    /// Feed a read buffer; returns the chunks that end in it.
    pub fn push(&mut self, buf: &[u8]) -> (r: Vec<ChunkBoundary>)
        requires
            !old(self).closed(),
            old(self).fed() + buf@.len() <= u64::MAX,
        ensures
            final(self).mode() == old(self).mode(),
            final(self).params() == old(self).params(),
            !final(self).closed(),
            final(self).fed() == old(self).fed() + buf@.len(),
            ({
                let s = mode_scan(old(self).mode(), old(self).params(), old(self).at(), buf@);
                &&& r@ == s.found
                &&& final(self).at() == s.at
                &&& tiles(r@, old(self).at().start, s.at.start)
                &&& 0 <= old(self).at().start
                &&& s.at.start <= final(self).fed()
            }),
    {
        match self {
            StreamChunker::Fixed(c) => match c.push(buf) {
                Ok(v) => v,
                Err(_) => Vec::new(),
            },
            StreamChunker::Cdc(c) => match c.push(buf) {
                Ok(v) => v,
                Err(_) => Vec::new(),
            },
        }
    }
}

/// Chunking a stream in two parts finds the same chunks as in one.
pub proof fn law_mode_split(
    mode: ChunkMode,
    p: ChunkParams,
    from: ChunkProgress,
    s: Seq<u8>,
    t: Seq<u8>,
)
    ensures
        ({
            let a = mode_scan(mode, p, from, s);
            let b = mode_scan(mode, p, a.at, t);
            let c = mode_scan(mode, p, from, s + t);
            c.found == a.found + b.found && c.at == b.at
        }),
{
    match mode {
        ChunkMode::Fixed => {
            law_fixed_split(p, from, s.len(), t.len());
        },
        ChunkMode::Cdc => {
            law_rolling_split(p, from, s, t);
        },
    }
}

/// The chunks of a whole file lie end to end over it.
pub proof fn law_file_chunks_tile(mode: ChunkMode, p: ChunkParams, file: Seq<u8>)
    requires
        p.valid(),
        file.len() <= u64::MAX,
    ensures
        tiles(file_chunks(mode, p, file), 0, file.len() as int),
{
    let scan = mode_scan(mode, p, fresh(), file);
    match mode {
        ChunkMode::Fixed => {
            law_fixed_bounds(p, fresh(), file.len());
        },
        ChunkMode::Cdc => {
            law_rolling_bounds(p, fresh(), file);
        },
    }
    if scan.at.start < file.len() {
        assert(file_chunks(mode, p, file).drop_last() =~= scan.found);
    }
}

/// Chunks that lie end to end go forward.
pub proof fn lemma_tiles_bounds(s: Seq<ChunkBoundary>, a: int, b: int)
    requires
        tiles(s, a, b),
    ensures
        a <= b,
        s.len() > 0 ==> s[0].offset == a && a < b,
    decreases s.len(),
{
    if s.len() > 0 {
        lemma_tiles_bounds(s.drop_last(), a, s.last().offset as int);
    }
}

/// A chunk among chunks that lie end to end: it is within the range, and the
/// next one starts where it stops.
pub proof fn lemma_tiles_at(s: Seq<ChunkBoundary>, a: int, b: int, k: int)
    requires
        tiles(s, a, b),
        0 <= k < s.len(),
    ensures
        a <= s[k].offset < s[k].stop() <= b,
        s[k].stop() == if k + 1 < s.len() {
            s[k + 1].offset as int
        } else {
            b
        },
    decreases s.len(),
{
    lemma_tiles_bounds(s.drop_last(), a, s.last().offset as int);
    if k + 1 < s.len() {
        lemma_tiles_at(s.drop_last(), a, s.last().offset as int, k);
    }
}

} // verus!
