//! LEB128 varint codec.
//!
//! Varints are unsigned, little-endian, one to ten bytes long. Decoders
//! reject over-long encodings, so that every value has one wire form.

use vstd::prelude::*;

use crate::error::ProtocolError;

verus! {

/// Maximum number of bytes of a `u64` varint.
pub const MAX_VARINT_BYTES: usize = 10;

/// `128` to the power `n`.
pub open spec fn pow128(n: nat) -> nat
    decreases n,
{
    if n == 0 {
        1
    } else {
        128 * pow128((n - 1) as nat)
    }
}

/// The LEB128 encoding of `v`: seven bits a byte, least significant group
/// first, the high bit set on every byte but the last.
pub open spec fn leb128(v: nat) -> Seq<u8>
    decreases v,
{
    if v < 128 {
        seq![v as u8]
    } else {
        seq![(128 + v % 128) as u8] + leb128(v / 128)
    }
}

/// The number that the low seven bits of each byte of `s` make up.
pub open spec fn leb128_value(s: Seq<u8>) -> nat
    decreases s.len(),
{
    if s.len() == 0 {
        0
    } else {
        (s[0] % 128) as nat + 128 * leb128_value(s.skip(1))
    }
}

/// The position of the first byte below `0x80`, or the length of `b`.
pub open spec fn leb128_end(b: Seq<u8>) -> nat
    decreases b.len(),
{
    if b.len() == 0 || b[0] < 128 {
        0
    } else {
        1 + leb128_end(b.skip(1))
    }
}

/// What decoding a varint at the start of `b` gives: its value and its
/// length, or the error.
pub open spec fn varint_at_start(b: Seq<u8>) -> Result<(u64, int), ProtocolError> {
    let n = leb128_end(b) + 1;
    let value = leb128_value(b.take(n as int));
    if b.len() == 0 {
        Err(ProtocolError::Empty)
    } else if n > b.len() || n > MAX_VARINT_BYTES || value > u64::MAX {
        Err(ProtocolError::VarintOverflow)
    } else if leb128(value).len() != n {
        Err(ProtocolError::NonCanonicalVarint)
    } else {
        Ok((value as u64, n as int))
    }
}

proof fn lemma_pow128_values()
    ensures
        pow128(1) == 0x80,
        pow128(2) == 0x4000,
        pow128(3) == 0x20_0000,
        pow128(4) == 0x1000_0000,
        pow128(5) == 0x8_0000_0000,
        pow128(6) == 0x400_0000_0000,
        pow128(7) == 0x2_0000_0000_0000,
        pow128(8) == 0x100_0000_0000_0000,
        pow128(9) == 0x8000_0000_0000_0000,
{
    reveal_with_fuel(pow128, 10);
}

/// `leb128` takes as many bytes as it takes groups of seven bits to hold
/// the value.
proof fn lemma_leb128_len(v: nat, n: nat)
    ensures
        leb128(v).len() >= 1,
        n >= 1 ==> (leb128(v).len() <= n <==> v < pow128(n)),
    decreases v,
{
    lemma_pow128_values();
    if v >= 128 {
        if n >= 1 {
            lemma_leb128_len(v / 128, (n - 1) as nat);
        } else {
            lemma_leb128_len(v / 128, 0);
        }
    } else if n >= 1 {
        lemma_pow128_at_least(n);
    }
}

proof fn lemma_pow128_at_least(n: nat)
    requires
        n >= 1,
    ensures
        pow128(n) >= 128,
    decreases n,
{
    if n > 1 {
        lemma_pow128_at_least((n - 1) as nat);
    } else {
        lemma_pow128_values();
    }
}

/// Number of bytes required to encode the given value.
pub fn varint_len(value: u64) -> (n: usize)
    ensures
        n == leb128(value as nat).len(),
        1 <= n <= MAX_VARINT_BYTES,
{
    proof {
        lemma_pow128_values();
        let v = value as nat;
        lemma_leb128_len(v, 1);
        lemma_leb128_len(v, 2);
        lemma_leb128_len(v, 3);
        lemma_leb128_len(v, 4);
        lemma_leb128_len(v, 5);
        lemma_leb128_len(v, 6);
        lemma_leb128_len(v, 7);
        lemma_leb128_len(v, 8);
        lemma_leb128_len(v, 9);
        lemma_leb128_len(v, 10);
        reveal_with_fuel(pow128, 11);
    }
    if value <= 0x7F {
        1
    } else if value <= 0x3FFF {
        2
    } else if value <= 0x1F_FFFF {
        3
    } else if value <= 0xFFF_FFFF {
        4
    } else if value <= 0x7_FFFF_FFFF {
        5
    } else if value <= 0x3FF_FFFF_FFFF {
        6
    } else if value <= 0x1_FFFF_FFFF_FFFF {
        7
    } else if value <= 0xFF_FFFF_FFFF_FFFF {
        8
    } else if value <= 0x7FFF_FFFF_FFFF_FFFF {
        9
    } else {
        10
    }
}

/// Encode a `u64` as a LEB128 varint into the front of `buf`. Returns the
/// number of bytes written.
pub fn encode_varint(value: u64, buf: &mut [u8]) -> (n: usize)
    requires
        old(buf)@.len() >= leb128(value as nat).len(),
    ensures
        n == leb128(value as nat).len(),
        final(buf)@ == leb128(value as nat) + old(buf)@.skip(n as int),
{
    let ghost v0 = value as nat;
    let ghost b0 = buf@;
    let mut value: u64 = value;
    let mut i: usize = 0;
    proof {
        lemma_leb128_len(v0, 10);
        reveal_with_fuel(pow128, 11);
        assert(b0.take(0) + leb128(v0) =~= leb128(v0));
    }
    while value >= 0x80
        invariant
            b0.len() == buf@.len(),
            leb128(v0).len() <= 10,
            leb128(v0).len() <= b0.len(),
            i + leb128(value as nat).len() == leb128(v0).len(),
            buf@.take(i as int) + leb128(value as nat) == leb128(v0),
            forall|k: int| i <= k < b0.len() ==> buf@[k] == b0[k],
        decreases value,
    {
        let ghost w = value as nat;
        let ghost before = buf@;
        proof {
            lemma_leb128_len(w / 128, 1);
        }
        buf[i] = (128 + value % 128) as u8;
        value = value / 128;
        i = i + 1;
        assert(before.take(i - 1) + leb128(w) =~= buf@.take(i as int) + leb128(w / 128));
    }
    let ghost before = buf@;
    buf[i] = value as u8;
    assert(leb128(value as nat) =~= seq![value as u8]);
    assert(before.take(i as int) + leb128(value as nat) =~= buf@.take(i + 1));
    assert(buf@ =~= leb128(v0) + b0.skip(i + 1));
    i + 1
}

/// Append `value` as a LEB128 varint.
pub fn push_varint(out: &mut Vec<u8>, value: u64)
    ensures
        final(out)@ == old(out)@ + leb128(value as nat),
{
    let ghost v0 = value as nat;
    let mut value: u64 = value;
    while value >= 0x80
        invariant
            out@ + leb128(value as nat) == old(out)@ + leb128(v0),
        decreases value,
    {
        let ghost w = value as nat;
        let ghost before = out@;
        out.push((128 + value % 128) as u8);
        value = value / 128;
        assert(before + leb128(w) =~= out@ + leb128(w / 128));
    }
    let ghost before = out@;
    out.push(value as u8);
    assert(before + leb128(value as nat) =~= out@);
}

/// Decode a LEB128 varint from the front of `buf`. Returns the value and the
/// number of bytes consumed.
///
/// Fails with `Empty` on an empty buffer, with `VarintOverflow` where the
/// encoding does not end within ten bytes or does not fit in a `u64`, and
/// with `NonCanonicalVarint` where it is longer than its value needs.
pub fn decode_varint(buf: &[u8]) -> (r: Result<(u64, usize), ProtocolError>)
    ensures
        match varint_at_start(buf@) {
            Ok((value, n)) => r == Ok::<(u64, usize), ProtocolError>((value, n as usize)),
            Err(e) => r == Err::<(u64, usize), ProtocolError>(e),
        },
        r matches Ok((_, n)) ==> 1 <= n <= MAX_VARINT_BYTES && n <= buf.len(),
{
    if buf.len() == 0 {
        return Err(ProtocolError::Empty);
    }
    let ghost b = buf@;
    let mut end: usize = 0;
    assert(b.skip(0) =~= b);
    while end < buf.len() && end < MAX_VARINT_BYTES && buf[end] >= 0x80
        invariant
            b == buf@,
            end <= buf.len(),
            end <= MAX_VARINT_BYTES,
            leb128_end(b) == end + leb128_end(b.skip(end as int)),
        decreases buf.len() - end,
    {
        assert(b.skip(end as int).skip(1) =~= b.skip(end + 1));
        end = end + 1;
    }
    if end >= buf.len() || end >= MAX_VARINT_BYTES {
        return Err(ProtocolError::VarintOverflow);
    }
    let n: usize = end + 1;
    let ghost s = b.take(n as int);
    let mut value: u64 = 0;
    let mut k: usize = n;
    assert(s.skip(n as int) =~= Seq::<u8>::empty());
    while k > 0
        invariant
            b == buf@,
            n <= 10,
            n == leb128_end(b) + 1,
            k <= n <= buf.len(),
            s == b.take(n as int),
            value == leb128_value(s.skip(k as int)),
            leb128_value(s) >= value,
        decreases k,
    {
        k = k - 1;
        let low: u64 = (buf[k] % 128) as u64;
        proof {
            assert(s.skip(k as int).skip(1) =~= s.skip(k + 1));
            lemma_leb128_value_suffix(s, k as int);
        }
        if value > (u64::MAX - low) / 128 {
            return Err(ProtocolError::VarintOverflow);
        }
        value = low + 128 * value;
    }
    assert(s.skip(0) =~= s);
    if varint_len(value) != n {
        return Err(ProtocolError::NonCanonicalVarint);
    }
    Ok((value, n))
}

/// A suffix denotes no more than the whole.
proof fn lemma_leb128_value_suffix(s: Seq<u8>, k: int)
    requires
        0 <= k <= s.len(),
    ensures
        leb128_value(s.skip(k)) <= leb128_value(s),
    decreases k,
{
    if k > 0 {
        lemma_leb128_value_suffix(s.skip(1), k - 1);
        assert(s.skip(1).skip(k - 1) =~= s.skip(k));
    } else {
        assert(s.skip(0) =~= s);
    }
}

/// Every value is decoded from the front of its encoding, whatever follows.
pub proof fn law_varint_roundtrip(value: u64, rest: Seq<u8>)
    ensures
        varint_at_start(leb128(value as nat) + rest) == Ok::<(u64, int), ProtocolError>(
            (value, leb128(value as nat).len() as int),
        ),
{
    let e = leb128(value as nat);
    lemma_leb128_len(value as nat, 10);
    reveal_with_fuel(pow128, 11);
    lemma_leb128_parts(value as nat, rest);
    assert((e + rest).take(e.len() as int) =~= e);
}

proof fn lemma_leb128_parts(v: nat, rest: Seq<u8>)
    ensures
        leb128_end(leb128(v) + rest) + 1 == leb128(v).len(),
        leb128_value(leb128(v)) == v,
    decreases v,
{
    let e = leb128(v);
    if v < 128 {
        assert(e.skip(1) =~= Seq::<u8>::empty());
        assert(leb128_value(e.skip(1)) == 0);
    } else {
        lemma_leb128_parts(v / 128, rest);
        assert((e + rest).skip(1) =~= leb128(v / 128) + rest);
        assert(e.skip(1) =~= leb128(v / 128));
    }
}

/// A value has one wire form: bytes that decode to it are its encoding.
pub proof fn law_varint_canonical(b: Seq<u8>)
    ensures
        varint_at_start(b) matches Ok((value, n)) ==> 0 < n <= b.len() && b.take(n) == leb128(
            value as nat,
        ),
{
    if let Ok((value, n)) = varint_at_start(b) {
        lemma_leb128_unique(b);
    }
}

proof fn lemma_leb128_unique(b: Seq<u8>)
    requires
        leb128_end(b) < b.len(),
    ensures
        ({
            let n = leb128_end(b) + 1;
            let s = b.take(n as int);
            let v = leb128_value(s);
            leb128(v).len() <= n && (leb128(v).len() == n ==> leb128(v) == s)
        }),
    decreases b.len(),
{
    let n = leb128_end(b) + 1;
    let s = b.take(n as int);
    let v = leb128_value(s);
    if b[0] < 128 {
        assert(s.skip(1) =~= Seq::<u8>::empty());
        assert(leb128_value(s.skip(1)) == 0);
        assert(v == b[0]);
        assert(leb128(v) =~= s);
    } else {
        let t = b.skip(1);
        lemma_leb128_unique(t);
        assert(s.skip(1) =~= t.take(n - 1));
        let w = leb128_value(t.take(n - 1));
        assert(v / 128 == w && v % 128 == b[0] % 128);
        if v >= 128 {
            assert(leb128(v).len() == 1 + leb128(w).len());
            if leb128(v).len() == n {
                assert(leb128(v) =~= s);
            }
        } else {
            assert(leb128(v).len() == 1);
        }
    }
}

/// Cutting a varint short never yields another value.
pub proof fn law_varint_prefix(value: u64, k: int)
    requires
        0 < k < leb128(value as nat).len(),
    ensures
        varint_at_start(leb128(value as nat).take(k)) == Err::<(u64, int), ProtocolError>(
            ProtocolError::VarintOverflow,
        ),
{
    lemma_leb128_prefix_end(value as nat, k);
}

proof fn lemma_leb128_prefix_end(v: nat, k: int)
    requires
        0 <= k < leb128(v).len(),
    ensures
        leb128_end(leb128(v).take(k)) == k,
    decreases v,
{
    let e = leb128(v);
    if v >= 128 && k > 0 {
        lemma_leb128_prefix_end(v / 128, k - 1);
        assert(e.take(k).skip(1) =~= leb128(v / 128).take(k - 1));
    }
}

/// A whole varint ends before the buffer does.
pub proof fn lemma_leb128_not_cut(value: u64, rest: Seq<u8>)
    ensures
        leb128_end(leb128(value as nat) + rest) < (leb128(value as nat) + rest).len(),
{
    lemma_leb128_parts(value as nat, rest);
}

/// A varint that is cut off does not end, and is shorter than ten bytes.
pub proof fn lemma_leb128_prefix_cut(value: u64, k: int)
    requires
        0 <= k < leb128(value as nat).len(),
    ensures
        leb128_end(leb128(value as nat).take(k)) == k,
        k < MAX_VARINT_BYTES,
{
    lemma_leb128_prefix_end(value as nat, k);
    lemma_leb128_len(value as nat, 10);
    reveal_with_fuel(pow128, 11);
}

/// An encoded value ends within the limit, whatever follows it.
pub proof fn lemma_leb128_short(value: u64, rest: Seq<u8>)
    ensures
        leb128_end(leb128(value as nat) + rest) < MAX_VARINT_BYTES,
{
    lemma_leb128_parts(value as nat, rest);
    lemma_pow128_values();
    lemma_leb128_len(value as nat, 10);
    assert(pow128(10) == 128 * pow128(9));
}

} // verus!
