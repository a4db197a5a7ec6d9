//! Where the content of a file says that it is cut.

use vstd::arithmetic::div_mod;
use vstd::arithmetic::power2;
use vstd::arithmetic::power2::pow2;
use vstd::bits;
use vstd::prelude::*;

use crate::chunking;
use crate::chunking::{ChunkBoundary, ChunkMode, ChunkParams, Chunker, RollingChunker, GEAR};
use crate::error::VelcruxError;

verus! {

/// The bytes read as digits of a number to the base 16, each with the value
/// that the mixing table gives it.
pub open spec fn content_sum(s: Seq<u8>) -> int
    decreases s.len(),
{
    if s.len() == 0 {
        0
    } else {
        16 * content_sum(s.drop_last()) + GEAR@[s.last() as int]
    }
}

/// The greatest power of two that is at most the target is `2^n`; `2^32`
/// stands for all greater ones.
pub open spec fn is_window(target: u64, n: nat) -> bool {
    &&& 1 <= n <= 32
    &&& pow2(n) <= target
    &&& target < pow2(n + 1) || n == 32
}

/// The content of a file between two places says that it may be cut at the
/// second.
pub open spec fn natural(file: Seq<u8>, a: int, e: int, n: nat) -> bool {
    content_sum(file.subrange(a, e)) % (pow2(n) as int) == 0
}

proof fn lemma_two_to_is_pow2(n: nat)
    ensures
        chunking::two_to(n) == pow2(n),
    decreases n,
{
    if n == 0 {
        power2::lemma2_to64();
    } else {
        lemma_two_to_is_pow2((n - 1) as nat);
        power2::lemma_pow2_unfold(n);
    }
}

proof fn lemma_log2(x: nat, n: nat)
    requires
        pow2(n) <= x,
    ensures
        chunking::floor_log2(x) >= n,
        x < pow2(n + 1) ==> chunking::floor_log2(x) == n,
    decreases n,
{
    power2::lemma_pow2_unfold(n + 1);
    power2::lemma2_to64();
    if n == 0 {
        if x < pow2(1) {
            assert(x == 1);
        }
    } else {
        power2::lemma_pow2_unfold(n);
        power2::lemma_pow2_pos((n - 1) as nat);
        assert(x >= 2);
        lemma_log2(x / 2, (n - 1) as nat);
    }
}

proof fn lemma_masked_sum(target: u64, n: nat, sum: u32, c: int)
    requires
        is_window(target, n),
        sum == c % 0x1_0000_0000,
    ensures
        (sum as u64 & chunking::mask_for(target) == 0) <==> c % (pow2(n) as int) == 0,
{
    lemma_log2(target as nat, n);
    lemma_two_to_is_pow2(n);
    power2::lemma2_to64();
    power2::lemma_pow2_pos(n);
    if n < 32 {
        assert(chunking::mask_bits_for(target) == n);
        power2::lemma_pow2_strictly_increases(n, 32);
    }
    assert(chunking::mask_for(target) == bits::low_bits_mask(n));
    bits::lemma_u64_low_bits_mask_is_mod(sum as u64, n);
    power2::lemma_pow2_adds(n, (32 - n) as nat);
    power2::lemma_pow2_pos((32 - n) as nat);
    div_mod::lemma_mod_mod(c, pow2(n) as int, pow2((32 - n) as nat) as int);
}

proof fn lemma_roll(sum: u32, c: int, b: u8)
    requires
        sum == c % 0x1_0000_0000,
    ensures
        chunking::roll(sum, b) == (16 * c + GEAR@[b as int]) % 0x1_0000_0000,
{
    let g: int = GEAR@[b as int] as int;
    let q: int = c / 0x1_0000_0000;
    assert(16 * c + g == (16 * q) * 0x1_0000_0000 + (16 * sum + g));
    div_mod::lemma_mod_multiples_vanish(16 * q, 16 * sum + g, 0x1_0000_0000);
}

/// The sum that a chunker holds is that of the current chunk.
proof fn lemma_sum_is_of_chunk(p: ChunkParams, file: Seq<u8>)
    requires
        p.valid(),
        file.len() <= u64::MAX,
    ensures
        ({
            let at = chunking::rolling_scan(p, chunking::fresh(), file).at;
            &&& 0 <= at.start
            &&& 0 <= at.in_chunk
            &&& at.start + at.in_chunk == file.len()
            &&& at.sum == content_sum(file.subrange(at.start, file.len() as int)) % 0x1_0000_0000
        }),
    decreases file.len(),
{
    let whole = file.len() as int;
    chunking::law_rolling_bounds(p, chunking::fresh(), file);
    if whole > 0 {
        lemma_sum_is_of_chunk(p, file.drop_last());
        let a = chunking::rolling_scan(p, chunking::fresh(), file.drop_last()).at;
        let at = chunking::rolling_scan(p, chunking::fresh(), file).at;
        let c = content_sum(file.drop_last().subrange(a.start, whole - 1));
        if at.start == a.start {
            let s = file.subrange(a.start, whole);
            assert(s.drop_last() =~= file.drop_last().subrange(a.start, whole - 1));
            lemma_roll(a.sum, c, file.last());
        } else {
            assert(file.subrange(at.start, whole) =~= Seq::<u8>::empty());
        }
    }
}

/// Content-defined chunking cuts a file where its content says so, and
/// nowhere else. From where a chunk starts, the first place at which it is at
/// least `min` long and the content is natural for a cut is where it ends; if
/// there is none before it is `max` long, it ends there. What is left over at
/// the end of the file has no such place. With the chunks lying end to end,
/// this says of every file where its chunks are.
pub proof fn law_cut_where_content_says(p: ChunkParams, file: Seq<u8>, n: nat)
    requires
        p.valid(),
        is_window(p.target, n),
        file.len() <= u64::MAX,
    ensures
        ({
            let r = chunking::rolling_scan(p, chunking::fresh(), file);
            &&& chunking::tiles(r.found, 0, r.at.start)
            &&& 0 <= r.at.start <= file.len() < r.at.start + p.max
            &&& forall|i: int, k: int|
                #![trigger natural(file, r.found[i].offset as int, k, n)]
                0 <= i < r.found.len() && r.found[i].offset + p.min <= k < r.found[i].stop()
                    ==> !natural(file, r.found[i].offset as int, k, n)
            &&& forall|i: int|
                0 <= i < r.found.len() ==> {
                    let c = #[trigger] r.found[i];
                    &&& p.min <= c.length <= p.max
                    &&& c.stop() <= file.len()
                    &&& c.length == p.max || natural(file, c.offset as int, c.stop(), n)
                }
            &&& forall|k: int|
                r.at.start + p.min <= k <= file.len() ==> !natural(file, r.at.start, k, n)
        }),
    decreases file.len(),
{
    let r = chunking::rolling_scan(p, chunking::fresh(), file);
    let whole = file.len() as int;
    chunking::law_rolling_bounds(p, chunking::fresh(), file);
    if whole > 0 {
        let before = file.drop_last();
        let a = chunking::rolling_scan(p, chunking::fresh(), before);
        law_cut_where_content_says(p, before, n);
        lemma_sum_is_of_chunk(p, before);
        let s = file.subrange(a.at.start, whole);
        let c = content_sum(before.subrange(a.at.start, whole - 1));
        let sum = chunking::roll(a.at.sum, file.last());
        assert(s.drop_last() =~= before.subrange(a.at.start, whole - 1));
        lemma_roll(a.at.sum, c, file.last());
        assert(sum == content_sum(s) % 0x1_0000_0000);
        lemma_masked_sum(p.target, n, sum, content_sum(s));
        assert(natural(file, a.at.start, whole, n) <==> content_sum(s) % (pow2(n) as int) == 0);
        assert forall|x: int, k: int|
            0 <= x <= k < whole implies #[trigger] natural(file, x, k, n) == natural(
            before,
            x,
            k,
            n,
        ) by {
            assert(file.subrange(x, k) =~= before.subrange(x, k));
        }
        assert forall|i: int| 0 <= i < a.found.len() implies 0 <= (#[trigger] a.found[i]).offset
            && a.found[i].stop() <= whole - 1 && r.found[i] == a.found[i] by {}
        assert forall|i: int| 0 <= i < r.found.len() implies {
            let c = #[trigger] r.found[i];
            &&& p.min <= c.length <= p.max
            &&& c.stop() <= file.len()
            &&& c.length == p.max || natural(file, c.offset as int, c.stop(), n)
        } by {
            if i < a.found.len() {
                assert(a.found[i] == r.found[i]);
            }
        }
        assert forall|i: int, k: int|
            #![trigger natural(file, r.found[i].offset as int, k, n)]
            0 <= i < r.found.len() && r.found[i].offset + p.min <= k
                < r.found[i].stop() implies !natural(file, r.found[i].offset as int, k, n) by {
            if i < a.found.len() {
                assert(a.found[i] == r.found[i]);
                assert(!natural(before, a.found[i].offset as int, k, n));
            } else {
                assert(!natural(before, a.at.start, k, n));
            }
        }
        assert forall|k: int|
            r.at.start + p.min <= k <= file.len() implies !natural(file, r.at.start, k, n) by {
            if r.at.start == a.at.start {
                if k < whole {
                    assert(!natural(before, a.at.start, k, n));
                }
            }
        }
    } else {
        assert forall|k: int|
            r.at.start + p.min <= k <= file.len() implies !natural(file, r.at.start, k, n) by {}
    }
}

/// How a whole file is cut in each mode: without content-defined chunking all
/// chunks but the last are as long as the target; with it, all but the last
/// end where the content says so or where they are as long as they may be.
pub proof fn law_modes_cut_differently(p: ChunkParams, file: Seq<u8>, n: nat, i: int)
    requires
        p.valid(),
        is_window(p.target, n),
        file.len() <= u64::MAX,
    ensures
        ({
            let s = chunking::file_chunks(ChunkMode::Fixed, p, file);
            &&& 0 <= i < s.len() - 1 ==> s[i].length == p.target
            &&& 0 <= i < s.len() ==> 0 < s[i].length <= p.target
        }),
        ({
            let s = chunking::file_chunks(ChunkMode::Cdc, p, file);
            &&& 0 <= i < s.len() - 1 ==> p.min <= s[i].length <= p.max && (s[i].length == p.max
                || natural(file, s[i].offset as int, s[i].stop(), n))
            &&& 0 <= i < s.len() ==> 0 < s[i].length <= p.max
            &&& forall|k: int|
                0 <= i < s.len() && s[i].offset + p.min <= k < s[i].stop() ==> !natural(
                    file,
                    s[i].offset as int,
                    k,
                    n,
                )
        }),
{
    chunking::law_fixed_bounds(p, chunking::fresh(), file.len());
    law_cut_where_content_says(p, file, n);
    let r = chunking::rolling_scan(p, chunking::fresh(), file);
    let s = chunking::file_chunks(ChunkMode::Cdc, p, file);
    assert forall|k: int|
        0 <= i < s.len() && s[i].offset + p.min <= k < s[i].stop() implies !natural(
        file,
        s[i].offset as int,
        k,
        n,
    ) by {
        if i < r.found.len() {
            assert(s[i] == r.found[i]);
            assert(!natural(file, r.found[i].offset as int, k, n));
        } else {
            assert(!natural(file, r.at.start, k, n));
        }
    }
    if 0 <= i < r.found.len() {
        assert(s[i] == r.found[i]);
    }
    let f = chunking::fixed_scan(p, chunking::fresh(), file.len());
    let t = chunking::file_chunks(ChunkMode::Fixed, p, file);
    if 0 <= i < f.found.len() {
        assert(t[i] == f.found[i]);
    }
}

/// The number of bits that have to be zero for a cut is the integer part of the
/// binary logarithm of the target.
pub proof fn law_number_of_bits(target: u64, n: nat)
    requires
        n >= 1,
        pow2(n) <= target < pow2(n + 1),
    ensures
        chunking::mask_bits_for(target) == n,
{
    lemma_log2(target as nat, n);
}

/// What a new chunker cuts off a file that it is given ends where the content
/// says so, or is as long as allowed.
pub proof fn law_chunker_cuts_where_content_says(
    p: ChunkParams,
    c: RollingChunker,
    m: &mut RollingChunker,
    buf: &[u8],
    r: Result<Vec<ChunkBoundary>, VelcruxError>,
    n: nat,
)
    requires
        p.valid(),
        is_window(p.target, n),
        buf@.len() <= u64::MAX,
        call_ensures(RollingChunker::new, (p,), c),
        *m == c,
        call_ensures(<RollingChunker as Chunker>::push, (m, buf), r),
    ensures
        r matches Ok(v) && {
            &&& forall|i: int|
                0 <= i < v@.len() ==> {
                    let b = #[trigger] v@[i];
                    &&& p.min <= b.length <= p.max
                    &&& b.stop() <= buf@.len()
                    &&& b.length == p.max || natural(buf@, b.offset as int, b.stop(), n)
                }
            &&& forall|i: int, k: int|
                #![trigger natural(buf@, v@[i].offset as int, k, n)]
                0 <= i < v@.len() && v@[i].offset + p.min <= k < v@[i].stop() ==> !natural(
                    buf@,
                    v@[i].offset as int,
                    k,
                    n,
                )
            &&& chunking::tiles(v@, 0, final(m).chunk_start())
            &&& buf@.len() < final(m).chunk_start() + p.max
        },
{
    law_cut_where_content_says(p, buf@, n);
}

} // verus!
