//! Little-endian integers on the wire.

use vstd::prelude::*;

verus! {

/// The number that a little-endian byte string denotes.
pub open spec fn le_value(s: Seq<u8>) -> nat
    decreases s.len(),
{
    if s.len() == 0 {
        0
    } else {
        s[0] as nat + 256 * le_value(s.skip(1))
    }
}

/// The `n` low bytes of `v`, least significant first.
pub open spec fn le_bytes(v: nat, n: nat) -> Seq<u8>
    decreases n,
{
    if n == 0 {
        Seq::empty()
    } else {
        seq![(v % 256) as u8] + le_bytes(v / 256, (n - 1) as nat)
    }
}

/// `256` to the power `n`.
pub open spec fn pow256(n: nat) -> nat
    decreases n,
{
    if n == 0 {
        1
    } else {
        256 * pow256((n - 1) as nat)
    }
}

/// The powers of 256 that bound the integer types.
pub proof fn lemma_pow256_values()
    ensures
        pow256(1) == 0x100,
        pow256(2) == 0x1_0000,
        pow256(4) == 0x1_0000_0000,
        pow256(8) == 0x1_0000_0000_0000_0000,
{
    reveal_with_fuel(pow256, 9);
}

/// `n` bytes denote a number below `256^n`.
pub proof fn lemma_le_value_bound(s: Seq<u8>)
    ensures
        le_value(s) < pow256(s.len()),
    decreases s.len(),
{
    if s.len() > 0 {
        lemma_le_value_bound(s.skip(1));
    }
}

/// `le_bytes` makes `n` bytes.
pub proof fn lemma_le_bytes_len(v: nat, n: nat)
    ensures
        le_bytes(v, n).len() == n,
    decreases n,
{
    if n > 0 {
        lemma_le_bytes_len(v / 256, (n - 1) as nat);
    }
}

/// Reading back `n` bytes that were written gives the number, if it fits.
pub proof fn lemma_le_roundtrip(v: nat, n: nat)
    requires
        v < pow256(n),
    ensures
        le_value(le_bytes(v, n)) == v,
    decreases n,
{
    if n > 0 {
        lemma_le_roundtrip(v / 256, (n - 1) as nat);
        assert(le_bytes(v, n).skip(1) =~= le_bytes(v / 256, (n - 1) as nat));
    }
}

/// Writing back a number that was read gives the same bytes.
pub proof fn lemma_le_canonical(s: Seq<u8>)
    ensures
        le_bytes(le_value(s), s.len()) == s,
    decreases s.len(),
{
    if s.len() > 0 {
        let t = s.skip(1);
        lemma_le_canonical(t);
        let v = le_value(s);
        assert(v % 256 == s[0]);
        assert(v / 256 == le_value(t));
        assert(le_bytes(v, s.len()) =~= s);
    } else {
        assert(le_bytes(0, 0) =~= s);
    }
}

/// The number held by `b[i..i + n]`.
pub open spec fn le_at(b: Seq<u8>, i: int, n: int) -> nat {
    le_value(b.subrange(i, i + n))
}

/// Read the little-endian integer in `buf[i..i + n]`, `n` at most 8.
pub fn read_le(buf: &[u8], i: usize, n: usize) -> (v: u64)
    requires
        n <= 8,
        i + n <= buf.len(),
    ensures
        v == le_at(buf@, i as int, n as int),
        v < pow256(n as nat),
{
    let ghost s = buf@.subrange(i as int, i + n);
    let mut v: u64 = 0;
    let mut k: usize = n;
    proof {
        assert(s.skip(n as int) =~= Seq::<u8>::empty());
        lemma_pow256_values();
    }
    while k > 0
        invariant
            n <= 8,
            k <= n,
            i + n <= buf.len(),
            s == buf@.subrange(i as int, i + n),
            v == le_value(s.skip(k as int)),
        decreases k,
    {
        k = k - 1;
        proof {
            lemma_le_value_bound(s.skip(k + 1));
            lemma_pow256_monotone((n - k - 1) as nat, 7);
            reveal_with_fuel(pow256, 8);
            assert(s.skip(k as int).skip(1) =~= s.skip(k + 1));
        }
        v = buf[i + k] as u64 + 256 * v;
    }
    proof {
        assert(s.skip(0) =~= s);
        lemma_le_value_bound(s);
    }
    v
}

/// Powers of 256 grow with the exponent.
pub proof fn lemma_pow256_monotone(a: nat, b: nat)
    requires
        a <= b,
    ensures
        pow256(a) <= pow256(b),
    decreases b,
{
    if a < b {
        lemma_pow256_monotone(a, (b - 1) as nat);
    }
}

/// Append the `n` low bytes of `v`.
pub fn push_le(out: &mut Vec<u8>, v: u64, n: usize)
    ensures
        final(out)@ == old(out)@ + le_bytes(v as nat, n as nat),
{
    let mut v: u64 = v;
    let ghost v0 = v as nat;
    let mut k: usize = 0;
    while k < n
        invariant
            k <= n,
            out@ + le_bytes(v as nat, (n - k) as nat) == old(out)@ + le_bytes(v0, n as nat),
        decreases n - k,
    {
        let ghost before = out@;
        let ghost w = v as nat;
        out.push((v % 256) as u8);
        v = v / 256;
        k = k + 1;
        assert(before + le_bytes(w, (n - k + 1) as nat) =~= before.push((w % 256) as u8) + le_bytes(
            w / 256,
            (n - k) as nat,
        ));
    }
    assert(out@ + le_bytes(v as nat, 0) =~= out@);
}

/// The `u16` at `i`.
pub open spec fn u16_at(b: Seq<u8>, i: int) -> u16 {
    le_at(b, i, 2) as u16
}

/// A `u16` on the wire: 2 bytes, least significant first.
pub open spec fn u16_bytes(v: u16) -> Seq<u8> {
    le_bytes(v as nat, 2)
}

/// Read the `u16` at `i`.
pub fn read_u16(buf: &[u8], i: usize) -> (v: u16)
    requires
        i + 2 <= buf.len(),
    ensures
        v == u16_at(buf@, i as int),
{
    proof {
        lemma_pow256_values();
    }
    read_le(buf, i, 2) as u16
}

/// Append a `u16`.
pub fn push_u16(out: &mut Vec<u8>, v: u16)
    ensures
        final(out)@ == old(out)@ + u16_bytes(v),
{
    push_le(out, v as u64, 2);
}

/// Length of a `u16` on the wire.
pub broadcast proof fn lemma_u16_bytes_len(v: u16)
    ensures
        #[trigger] u16_bytes(v).len() == 2,
{
    lemma_le_bytes_len(v as nat, 2);
}

/// A `u16` that was written at `i` is read back.
pub proof fn lemma_u16_roundtrip(b: Seq<u8>, i: int, v: u16)
    requires
        b.subrange(i, i + 2) == u16_bytes(v),
    ensures
        u16_at(b, i) == v,
{
    lemma_pow256_values();
    lemma_le_roundtrip(v as nat, 2);
}

/// The `u32` at `i`.
pub open spec fn u32_at(b: Seq<u8>, i: int) -> u32 {
    le_at(b, i, 4) as u32
}

/// A `u32` on the wire: 4 bytes, least significant first.
pub open spec fn u32_bytes(v: u32) -> Seq<u8> {
    le_bytes(v as nat, 4)
}

/// Read the `u32` at `i`.
pub fn read_u32(buf: &[u8], i: usize) -> (v: u32)
    requires
        i + 4 <= buf.len(),
    ensures
        v == u32_at(buf@, i as int),
{
    proof {
        lemma_pow256_values();
    }
    read_le(buf, i, 4) as u32
}

/// Append a `u32`.
pub fn push_u32(out: &mut Vec<u8>, v: u32)
    ensures
        final(out)@ == old(out)@ + u32_bytes(v),
{
    push_le(out, v as u64, 4);
}

/// Length of a `u32` on the wire.
pub broadcast proof fn lemma_u32_bytes_len(v: u32)
    ensures
        #[trigger] u32_bytes(v).len() == 4,
{
    lemma_le_bytes_len(v as nat, 4);
}

/// A `u32` that was written at `i` is read back.
pub proof fn lemma_u32_roundtrip(b: Seq<u8>, i: int, v: u32)
    requires
        b.subrange(i, i + 4) == u32_bytes(v),
    ensures
        u32_at(b, i) == v,
{
    lemma_pow256_values();
    lemma_le_roundtrip(v as nat, 4);
}

/// The `u64` at `i`.
pub open spec fn u64_at(b: Seq<u8>, i: int) -> u64 {
    le_at(b, i, 8) as u64
}

/// A `u64` on the wire: 8 bytes, least significant first.
pub open spec fn u64_bytes(v: u64) -> Seq<u8> {
    le_bytes(v as nat, 8)
}

/// Read the `u64` at `i`.
pub fn read_u64(buf: &[u8], i: usize) -> (v: u64)
    requires
        i + 8 <= buf.len(),
    ensures
        v == u64_at(buf@, i as int),
{
    proof {
        lemma_pow256_values();
    }
    read_le(buf, i, 8) as u64
}

/// Append a `u64`.
pub fn push_u64(out: &mut Vec<u8>, v: u64)
    ensures
        final(out)@ == old(out)@ + u64_bytes(v),
{
    push_le(out, v as u64, 8);
}

/// Length of a `u64` on the wire.
pub broadcast proof fn lemma_u64_bytes_len(v: u64)
    ensures
        #[trigger] u64_bytes(v).len() == 8,
{
    lemma_le_bytes_len(v as nat, 8);
}

/// A `u64` that was written at `i` is read back.
pub proof fn lemma_u64_roundtrip(b: Seq<u8>, i: int, v: u64)
    requires
        b.subrange(i, i + 8) == u64_bytes(v),
    ensures
        u64_at(b, i) == v,
{
    lemma_pow256_values();
    lemma_le_roundtrip(v as nat, 8);
}

/// Lengths of integers on the wire.
pub broadcast group group_le_lengths {
    lemma_u16_bytes_len,
    lemma_u32_bytes_len,
    lemma_u64_bytes_len,
}

} // verus!
