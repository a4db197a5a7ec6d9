//! Fields of wire messages: byte strings, identifiers, digests and texts.

use vstd::prelude::*;
use vstd::utf8;

use crate::error::ProtocolError;
use crate::foreign;
use crate::protocol::varint;
use crate::util;
use crate::util::TransferId;

verus! {

/// The result `r` of a decoder is what `s` says: the same value, by its
/// view, or the same error.
pub open spec fn decoded<T: View>(
    r: Result<T, ProtocolError>,
    s: Result<T::V, ProtocolError>,
) -> bool {
    match s {
        Ok(v) => r matches Ok(x) && x@ == v,
        Err(e) => r matches Err(d) && d == e,
    }
}

/// The result `r` of an encoder is what `s` says: the same bytes or the same
/// error.
pub open spec fn encoded(
    r: Result<bytes::Bytes, ProtocolError>,
    s: Result<Seq<u8>, ProtocolError>,
) -> bool {
    match s {
        Ok(w) => r matches Ok(b) && foreign::bytes_content(b) == w,
        Err(e) => r matches Err(d) && d == e,
    }
}

/// A text on the wire: its length in bytes as a varint, then UTF-8.
pub open spec fn text_bytes(s: Seq<char>) -> Seq<u8> {
    varint::leb128(utf8::encode_utf8(s).len()) + utf8::encode_utf8(s)
}

/// The errors of a length-prefixed text: its length does not fit in memory,
/// it is cut off, it is not UTF-8.
pub struct TextFaults {
    pub too_large: &'static str,
    pub truncated: &'static str,
    pub not_utf8: &'static str,
}

/// The text that starts at `i` in `b`, and the position behind it. At least
/// `tail` more bytes have to follow it.
pub open spec fn text_at(b: Seq<u8>, i: int, tail: int, faults: TextFaults) -> Result<
    (Seq<char>, int),
    ProtocolError,
> {
    match varint::varint_at_start(b.skip(i)) {
        Err(e) => Err(e),
        Ok((n, c)) => if n > usize::MAX {
            Err(ProtocolError::Malformed(faults.too_large))
        } else if b.len() < i + c + n + tail {
            Err(ProtocolError::Malformed(faults.truncated))
        } else if !utf8::valid_utf8(b.subrange(i + c, i + c + n)) {
            Err(ProtocolError::Malformed(faults.not_utf8))
        } else {
            Ok((utf8::decode_utf8(b.subrange(i + c, i + c + n)), i + c + n))
        },
    }
}

/// Append a slice.
pub fn push_bytes(out: &mut Vec<u8>, data: &[u8])
    ensures
        final(out)@ == old(out)@ + data@,
{
    let mut i: usize = 0;
    assert(old(out)@ + data@.take(0) =~= old(out)@);
    while i < data.len()
        invariant
            i <= data.len(),
            out@ == old(out)@ + data@.take(i as int),
        decreases data.len() - i,
    {
        out.push(data[i]);
        assert(data@.take(i as int).push(data@[i as int]) =~= data@.take(i + 1));
        assert(out@ =~= old(out)@ + data@.take(i + 1));
        i = i + 1;
    }
    assert(data@.take(i as int) =~= data@);
}

/// Append `n` zero bytes.
pub fn push_zeros(out: &mut Vec<u8>, n: usize)
    ensures
        final(out)@ == old(out)@ + zeros(n as nat),
{
    let mut i: usize = 0;
    assert(old(out)@ + zeros(0) =~= old(out)@);
    while i < n
        invariant
            i <= n,
            out@ == old(out)@ + zeros(i as nat),
        decreases n - i,
    {
        out.push(0u8);
        assert(out@ =~= old(out)@ + zeros((i + 1) as nat));
        i = i + 1;
    }
}

/// `n` zero bytes.
pub open spec fn zeros(n: nat) -> Seq<u8> {
    Seq::new(n, |i: int| 0u8)
}

/// Whether a text is at most 65535 bytes long in UTF-8.
pub open spec fn fits_u16(s: Seq<char>) -> bool {
    utf8::encode_utf8(s).len() <= 0xFFFF
}

/// A flag on the wire: one byte, 0 or 1.
pub open spec fn flag_byte(f: bool) -> u8 {
    if f {
        1
    } else {
        0
    }
}

/// Append a flag.
pub fn push_flag(out: &mut Vec<u8>, f: bool)
    ensures
        final(out)@ == old(out)@ + seq![flag_byte(f)],
{
    if f {
        out.push(1u8);
    } else {
        out.push(0u8);
    }
    assert(out@ =~= old(out)@ + seq![flag_byte(f)]);
}

/// Append a length-prefixed text.
pub fn push_text(out: &mut Vec<u8>, s: &str)
    ensures
        final(out)@ == old(out)@ + text_bytes(s@),
{
    let b = s.as_bytes();
    varint::push_varint(out, b.len() as u64);
    push_bytes(out, b);
    assert(out@ =~= old(out)@ + text_bytes(s@));
}

/// Number of bytes of a text in UTF-8.
pub fn utf8_len(s: &str) -> (n: usize)
    ensures
        n == utf8::encode_utf8(s@).len(),
{
    s.as_bytes().len()
}

/// Read the length-prefixed text at `i`.
pub fn read_text(buf: &[u8], i: usize, tail: usize, faults: TextFaults) -> (r: Result<
    (String, usize),
    ProtocolError,
>)
    requires
        i <= buf.len(),
        tail <= 1024,
    ensures
        match text_at(buf@, i as int, tail as int, faults) {
            Ok((s, j)) => r matches Ok((t, k)) && t@ == s && k == j && i < k && k + tail
                <= buf.len(),
            Err(e) => r matches Err(d) && d == e,
        },
{
    let rest = slice_from(buf, i);
    let (n, c) = match varint::decode_varint(rest) {
        Ok(x) => x,
        Err(e) => {
            return Err(e);
        },
    };
    if n > usize::MAX as u64 {
        return Err(ProtocolError::Malformed(faults.too_large));
    }
    let n: usize = n as usize;
    let start: usize = i + c;
    let room: usize = buf.len() - start;
    if room < tail || room - tail < n {
        return Err(ProtocolError::Malformed(faults.truncated));
    }
    let field = vstd::slice::slice_subrange(buf, start, start + n);
    match foreign::str_from_utf8(field) {
        Some(s) => {
            proof {
                utf8::encode_utf8_decode_utf8(s@);
            }
            Ok((s.to_owned(), start + n))
        },
        None => Err(ProtocolError::Malformed(faults.not_utf8)),
    }
}

/// The slice from `i` on.
pub fn slice_from(buf: &[u8], i: usize) -> (r: &[u8])
    requires
        i <= buf.len(),
    ensures
        r@ == buf@.skip(i as int),
{
    let r = vstd::slice::slice_subrange(buf, i, buf.len());
    assert(r@ =~= buf@.skip(i as int));
    r
}

/// Copy of the slice from `i` to `j`.
pub fn copy_range(buf: &[u8], i: usize, j: usize) -> (r: Vec<u8>)
    requires
        i <= j <= buf.len(),
    ensures
        r@ == buf@.subrange(i as int, j as int),
{
    let mut r: Vec<u8> = Vec::new();
    push_bytes(&mut r, vstd::slice::slice_subrange(buf, i, j));
    assert(r@ =~= buf@.subrange(i as int, j as int));
    r
}

/// Read the transfer identifier at `i`.
pub fn read_transfer_id(buf: &[u8], i: usize) -> (r: TransferId)
    requires
        i + 16 <= buf.len(),
    ensures
        r@ == buf@.subrange(i as int, i + 16),
{
    TransferId::from_bytes(vstd::slice::slice_subrange(buf, i, i + 16)).unwrap()
}

/// Read the digest at `i`.
pub fn read_hash(buf: &[u8], i: usize) -> (r: util::Hash)
    requires
        i + 32 <= buf.len(),
    ensures
        r@ == buf@.subrange(i as int, i + 32),
{
    util::Hash::from_bytes(vstd::slice::slice_subrange(buf, i, i + 32)).unwrap()
}

/// Overwrite `out[at..at + src.len()]` with `src`.
pub fn put_bytes(out: &mut [u8], at: usize, src: &[u8])
    requires
        at + src@.len() <= old(out)@.len(),
    ensures
        final(out)@ == old(out)@.take(at as int) + src@ + old(out)@.skip(at + src@.len()),
{
    let ghost before = out@;
    let total: usize = out.len();
    let mut i: usize = 0;
    while i < src.len()
        invariant
            i <= src.len(),
            out@.len() == before.len() == total,
            at + src.len() <= total,
            forall|k: int|
                0 <= k < before.len() ==> out@[k] == if at <= k < at + i {
                    src@[k - at]
                } else {
                    before[k]
                },
        decreases src.len() - i,
    {
        out[at + i] = src[i];
        i = i + 1;
    }
    assert(out@ =~= before.take(at as int) + src@ + before.skip(at + src@.len()));
}

/// A text that was written is read back.
pub proof fn lemma_text_roundtrip(
    b: Seq<u8>,
    i: int,
    tail: int,
    faults: TextFaults,
    s: Seq<char>,
    rest: Seq<u8>,
)
    requires
        0 <= i <= b.len(),
        b.skip(i) == text_bytes(s) + rest,
        tail <= rest.len(),
        utf8::encode_utf8(s).len() <= usize::MAX,
    ensures
        text_at(b, i, tail, faults) == Ok::<(Seq<char>, int), ProtocolError>(
            (s, i + text_bytes(s).len()),
        ),
        b.skip(i + text_bytes(s).len()) == rest,
{
    let e = utf8::encode_utf8(s);
    let p = varint::leb128(e.len());
    assert(text_bytes(s) + rest =~= p + (e + rest));
    varint::law_varint_roundtrip(e.len() as u64, e + rest);
    assert(b.subrange(i + p.len(), i + p.len() + e.len()) =~= e) by {
        assert forall|k: int| 0 <= k < e.len() implies b[i + p.len() + k] == e[k] by {
            assert(b.skip(i)[p.len() + k] == e[k]);
        }
    }
    utf8::encode_utf8_valid_utf8(s);
    utf8::encode_utf8_decode_utf8(s);
    assert(b.skip(i + text_bytes(s).len()) =~= b.skip(i).skip(text_bytes(s).len() as int));
    assert(b.skip(i).skip(text_bytes(s).len() as int) =~= rest);
}

/// A copy of the bytes.
pub fn to_vec(buf: &[u8]) -> (r: Vec<u8>)
    ensures
        r@ == buf@,
{
    let mut out: Vec<u8> = Vec::new();
    push_bytes(&mut out, buf);
    assert(out@ =~= buf@);
    out
}

/// What stands behind the first of three parts.
pub proof fn lemma_parts(b: Seq<u8>, i: int, x: Seq<u8>, y: Seq<u8>, z: Seq<u8>)
    requires
        0 <= i <= b.len(),
        b.skip(i) == (x + y) + z,
    ensures
        b.skip(i) == x + (y + z),
        i + x.len() <= b.len(),
        b.skip(i + x.len()) == y + z,
{
    assert(b.skip(i) =~= x + (y + z));
    assert(b.skip(i + x.len()) =~= b.skip(i).skip(x.len() as int));
    assert(b.skip(i + x.len()) =~= y + z);
}

} // verus!
