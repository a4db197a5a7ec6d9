//! Strictly increasing lists of chunk indices on the wire: a varint for each
//! index, in order.

use vstd::prelude::*;

use crate::error::ProtocolError;
use crate::protocol::varint;
use crate::protocol::wire;

verus! {

/// Maximum number of chunk indices in a single wire field.
pub const MAX_WIRE_CHUNKS: u64 = 1_000_000;

/// The varints of a list of indices.
pub open spec fn index_bytes(s: Seq<u64>) -> Seq<u8>
    decreases s.len(),
{
    if s.len() == 0 {
        Seq::empty()
    } else {
        varint::leb128(s[0] as nat) + index_bytes(s.skip(1))
    }
}

/// A list of indices with its length in front.
pub open spec fn list_bytes(s: Seq<u64>) -> Seq<u8> {
    varint::leb128(s.len()) + index_bytes(s)
}

/// Each index is greater than the one before it.
pub open spec fn increasing(s: Seq<u64>) -> bool {
    forall|i: int, j: int| 0 <= i < j < s.len() ==> s[i] < s[j]
}

/// The errors of a list: it is cut off, it does not increase.
pub struct ListFaults {
    pub truncated: &'static str,
    pub non_monotonic: &'static str,
}

/// The `n` indices that start at `i` in `b`, each greater than the one
/// before it and than `prev`, and the position behind them.
pub open spec fn indices_at(
    b: Seq<u8>,
    i: int,
    n: nat,
    prev: Option<u64>,
    faults: ListFaults,
) -> Result<(Seq<u64>, int), ProtocolError>
    decreases n,
{
    if n == 0 {
        Ok((Seq::empty(), i))
    } else if i >= b.len() {
        Err(ProtocolError::Malformed(faults.truncated))
    } else {
        match varint::varint_at_start(b.skip(i)) {
            Err(e) => Err(e),
            Ok((x, c)) => if prev is Some && x <= prev->0 {
                Err(ProtocolError::Malformed(faults.non_monotonic))
            } else {
                match indices_at(b, i + c, (n - 1) as nat, Some(x), faults) {
                    Err(e) => Err(e),
                    Ok((s, j)) => Ok((seq![x] + s, j)),
                }
            },
        }
    }
}

/// The list that starts at `i` in `b`, with its length in front.
pub open spec fn list_at(b: Seq<u8>, i: int, faults: ListFaults) -> Result<
    (Seq<u64>, int),
    ProtocolError,
> {
    match varint::varint_at_start(b.skip(i)) {
        Err(e) => Err(e),
        Ok((n, c)) => if n > MAX_WIRE_CHUNKS {
            Err(ProtocolError::Malformed("too many completed chunks"))
        } else {
            indices_at(b, i + c, n as nat, None, faults)
        },
    }
}

/// Append the varints of a list of indices.
pub fn push_indices(out: &mut Vec<u8>, s: &[u64])
    ensures
        final(out)@ == old(out)@ + index_bytes(s@),
{
    let mut k: usize = 0;
    assert(s@.skip(0) =~= s@);
    while k < s.len()
        invariant
            k <= s.len(),
            out@ + index_bytes(s@.skip(k as int)) == old(out)@ + index_bytes(s@),
        decreases s.len() - k,
    {
        let ghost before = out@;
        varint::push_varint(out, s[k]);
        proof {
            let t = s@.skip(k as int);
            assert(t.skip(1) =~= s@.skip(k + 1));
            assert(before + index_bytes(t) =~= before + varint::leb128(s@[k as int] as nat)
                + index_bytes(t.skip(1)));
        }
        k = k + 1;
    }
    assert(out@ + index_bytes(s@.skip(k as int)) =~= out@);
}

/// Append a list of indices with its length in front.
pub fn push_list(out: &mut Vec<u8>, s: &[u64])
    ensures
        final(out)@ == old(out)@ + list_bytes(s@),
{
    varint::push_varint(out, s.len() as u64);
    push_indices(out, s);
    assert(out@ =~= old(out)@ + list_bytes(s@));
}

/// Read the list at `i`, with its length in front.
pub fn read_list(buf: &[u8], i: usize, faults: ListFaults) -> (r: Result<
    (Vec<u64>, usize),
    ProtocolError,
>)
    requires
        i <= buf.len(),
    ensures
        match list_at(buf@, i as int, faults) {
            Ok((s, j)) => r matches Ok((v, k)) && v@ == s && k == j && i < k <= buf.len()
                && increasing(s),
            Err(e) => r matches Err(d) && d == e,
        },
{
    let (count, c) = match varint::decode_varint(wire::slice_from(buf, i)) {
        Ok(x) => x,
        Err(e) => {
            return Err(e);
        },
    };
    if count > MAX_WIRE_CHUNKS {
        return Err(ProtocolError::Malformed("too many completed chunks"));
    }
    let start: usize = i + c;
    let mut pos: usize = start;
    let mut done: Vec<u64> = Vec::new();
    let mut prev: Option<u64> = None;
    let mut k: u64 = 0;
    while k < count
        invariant
            k <= count,
            i < start <= pos <= buf.len(),
            done@.len() == k,
            k == 0 ==> prev is None,
            k > 0 ==> prev == Some(done@[k - 1]),
            increasing(done@),
            list_at(buf@, i as int, faults) == indices_at(
                buf@,
                start as int,
                count as nat,
                None,
                faults,
            ),
            indices_at(buf@, start as int, count as nat, None, faults) == (match indices_at(
                buf@,
                pos as int,
                (count - k) as nat,
                prev,
                faults,
            ) {
                Err(e) => Err(e),
                Ok((s, j)) => Ok((done@ + s, j)),
            }),
        decreases count - k,
    {
        if pos >= buf.len() {
            return Err(ProtocolError::Malformed(faults.truncated));
        }
        let (x, n) = match varint::decode_varint(wire::slice_from(buf, pos)) {
            Ok(x) => x,
            Err(e) => {
                return Err(e);
            },
        };
        if let Some(p) = prev {
            if x <= p {
                return Err(ProtocolError::Malformed(faults.non_monotonic));
            }
        }
        let ghost before = done@;
        done.push(x);
        proof {
            if let Ok((s, j)) = indices_at(
                buf@,
                pos + n,
                (count - k - 1) as nat,
                Some(x),
                faults,
            ) {
                assert(before + (seq![x] + s) =~= done@ + s);
            }
        }
        pos = pos + n;
        prev = Some(x);
        k = k + 1;
    }
    assert(done@ + Seq::<u64>::empty() =~= done@);
    Ok((done, pos))
}

/// An increasing list that was written is read back.
pub proof fn lemma_indices_roundtrip(
    b: Seq<u8>,
    i: int,
    s: Seq<u64>,
    prev: Option<u64>,
    faults: ListFaults,
    rest: Seq<u8>,
)
    requires
        0 <= i <= b.len(),
        b.skip(i) == index_bytes(s) + rest,
        increasing(s),
        s.len() > 0 && prev is Some ==> prev->0 < s[0],
    ensures
        indices_at(b, i, s.len(), prev, faults) == Ok::<(Seq<u64>, int), ProtocolError>(
            (s, i + index_bytes(s).len()),
        ),
        b.skip(i + index_bytes(s).len()) == rest,
    decreases s.len(),
{
    if s.len() > 0 {
        let e = varint::leb128(s[0] as nat);
        let t = s.skip(1);
        let more = index_bytes(t) + rest;
        assert(b.skip(i) =~= e + more);
        varint::law_varint_roundtrip(s[0], more);
        assert(b.skip(i + e.len()) =~= b.skip(i).skip(e.len() as int));
        assert((e + more).skip(e.len() as int) =~= more);
        lemma_indices_roundtrip(b, i + e.len(), t, Some(s[0]), faults, rest);
        assert(seq![s[0]] + t =~= s);
        varint::lemma_leb128_not_cut(s[0], more);
    } else {
        assert(b.skip(i) =~= rest);
        assert(Seq::<u64>::empty() =~= s);
    }
}

/// An increasing list that was written with its length is read back.
pub proof fn lemma_list_roundtrip(
    b: Seq<u8>,
    i: int,
    s: Seq<u64>,
    faults: ListFaults,
    rest: Seq<u8>,
)
    requires
        0 <= i <= b.len(),
        b.skip(i) == list_bytes(s) + rest,
        increasing(s),
        s.len() <= MAX_WIRE_CHUNKS,
    ensures
        list_at(b, i, faults) == Ok::<(Seq<u64>, int), ProtocolError>((s, i + list_bytes(s).len())),
        b.skip(i + list_bytes(s).len()) == rest,
{
    let e = varint::leb128(s.len());
    let more = index_bytes(s) + rest;
    assert(b.skip(i) =~= e + more);
    varint::law_varint_roundtrip(s.len() as u64, more);
    assert(b.skip(i + e.len()) =~= b.skip(i).skip(e.len() as int));
    assert((e + more).skip(e.len() as int) =~= more);
    lemma_indices_roundtrip(b, i + e.len(), s, None, faults, rest);
}

} // verus!
