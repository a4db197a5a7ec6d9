//! Session layer: frames of messages, the handshake, and the decisions of
//! both sides of a connection.
//!
//! Reading and writing the streams is left to the caller; everything that is
//! decided from what was read stands here.

use vstd::prelude::*;

use crate::error::{Fault, ProtocolError, Result, VelcruxError};
use crate::foreign;
use crate::protocol::frame;
use crate::protocol::frame::{Frame, FrameView};
use crate::protocol::le;
use crate::protocol::limits::{MAX_MESSAGE_SIZE, PROTOCOL_VERSION};
use crate::protocol::message;
use crate::protocol::message::{Message, MessageView};
use crate::protocol::varint;
use crate::protocol::wire;

pub mod agreement;
pub mod client;
pub mod server;
pub mod service;
pub mod starting;
pub mod transfer;

pub use self::client::{ClientSession, Negotiated};
pub use self::server::{ServerConn, ServerState, ServerStats};

verus! {

/// A message as a frame; none where its payload cannot be encoded.
pub open spec fn message_frame(
    m: MessageView,
    request_id: u64,
) -> std::result::Result<FrameView, ProtocolError> {
    match m.encoding() {
        Ok(w) => Ok(FrameView { type_byte: m.type_byte(), flags: 0, request_id, payload: w }),
        Err(e) => Err(e),
    }
}

/// Encode a message as a single frame. The request id is zero for
/// unsolicited messages.
pub fn encode_message(msg: &Message, request_id: u64) -> (r: Result<Vec<u8>>)
    ensures
        match message_frame(msg@, request_id) {
            Ok(f) => r matches Ok(v) && v@ == f.wire(),
            Err(e) => r matches Err(d) && d.is(Fault::Plain(e)),
        },
{
    let (type_byte, payload) = match msg.encode() {
        Ok(x) => x,
        Err(e) => {
            return Err(VelcruxError::Protocol(e));
        },
    };
    let body = foreign::bytes_as_slice(&payload);
    let mut out: Vec<u8> = Vec::new();
    out.push(PROTOCOL_VERSION);
    out.push(type_byte);
    le::push_le(&mut out, 0, 2);
    varint::push_varint(&mut out, body.len() as u64);
    le::push_le(&mut out, request_id, 8);
    wire::push_bytes(&mut out, body);
    assert(out@ =~= message_frame(msg@, request_id)->Ok_0.wire());
    Ok(out)
}

/// Encode the reply to a request as a single frame. It echoes the id of the
/// request.
pub fn encode_reply(reply: &Message, request: &Frame<'_>) -> (r: Result<Vec<u8>>)
    ensures
        match message_frame(reply@, request.request_id) {
            Ok(f) => r matches Ok(v) && v@ == f.wire(),
            Err(e) => r matches Err(d) && d.is(Fault::Plain(e)),
        },
{
    encode_message(reply, request.request_id)
}

/// A message that was written as a frame is read back from the front of a
/// stream, whatever follows it.
pub proof fn law_message_frame_roundtrip(m: Message, request_id: u64, rest: Seq<u8>)
    requires
        message::wire_safe(m),
        message_frame(m@, request_id) matches Ok(f) && f.payload.len() <= MAX_MESSAGE_SIZE,
    ensures
        ({
            let f = message_frame(m@, request_id)->Ok_0;
            &&& frame::frame_at_start(f.wire() + rest) == Ok::<FrameView, ProtocolError>(f)
            &&& MessageView::parse(f.type_byte, f.payload) == Ok::<MessageView, Fault>(m@)
        }),
{
    let f = message_frame(m@, request_id)->Ok_0;
    frame::law_frame_roundtrip(f, rest);
    message::law_message_roundtrip(m);
}

/// How far a frame has been read.
#[derive(Debug, Clone, Copy, PartialEq, Eq, Structural)]
pub enum FrameProgress {
    /// This many more bytes are needed before anything can be decided.
    Need(usize),
    /// The frame is complete.
    Complete,
}

/// How far a frame has been read, by its bytes so far. The length is held
/// against the limit before any of the payload is read; if `early`, before
/// the request id is read.
pub open spec fn progress(b: Seq<u8>, early: bool) -> std::result::Result<
    FrameProgress,
    ProtocolError,
> {
    let v = b.skip(4);
    if b.len() < 5 {
        Ok(FrameProgress::Need((5 - b.len()) as usize))
    } else if varint::leb128_end(v) >= 10 && v.len() > 10 {
        Err(ProtocolError::VarintOverflow)
    } else if varint::leb128_end(v) == v.len() {
        Ok(FrameProgress::Need(1))
    } else {
        match varint::varint_at_start(v) {
            Err(e) => Err(e),
            Ok((length, n)) => if length > MAX_MESSAGE_SIZE && (early || b.len() >= 12 + n) {
                Err(ProtocolError::FrameTooLarge { declared: length, limit: MAX_MESSAGE_SIZE })
            } else if b.len() < 12 + n {
                Ok(FrameProgress::Need((12 + n - b.len()) as usize))
            } else if b.len() < 12 + n + length {
                Ok(FrameProgress::Need((12 + n + length - b.len()) as usize))
            } else {
                Ok(FrameProgress::Complete)
            },
        }
    }
}

/// How far a frame has been read.
pub fn frame_progress(buf: &[u8], early: bool) -> (r: std::result::Result<
    FrameProgress,
    ProtocolError,
>)
    ensures
        match progress(buf@, early) {
            Ok(p) => r == Ok::<FrameProgress, ProtocolError>(p),
            Err(e) => r matches Err(d) && d == e,
        },
{
    if buf.len() < 5 {
        return Ok(FrameProgress::Need(5 - buf.len()));
    }
    let v = wire::slice_from(buf, 4);
    let mut end: usize = 0;
    assert(v@.skip(0) =~= v@);
    while end < v.len() && v[end] >= 128
        invariant
            end <= v.len(),
            varint::leb128_end(v@) == end + varint::leb128_end(v@.skip(end as int)),
        decreases v.len() - end,
    {
        assert(v@.skip(end as int).skip(1) =~= v@.skip(end + 1));
        end = end + 1;
    }
    assert(varint::leb128_end(v@) == end);
    if end >= 10 && v.len() > 10 {
        return Err(ProtocolError::VarintOverflow);
    }
    if end == v.len() {
        return Ok(FrameProgress::Need(1));
    }
    let (length, n) = match varint::decode_varint(v) {
        Ok(x) => x,
        Err(e) => {
            return Err(e);
        },
    };
    let rest: usize = v.len() - n;
    if length > MAX_MESSAGE_SIZE && (early || rest >= 8) {
        return Err(
            ProtocolError::FrameTooLarge { declared: length, limit: MAX_MESSAGE_SIZE },
        );
    }
    if rest < 8 {
        return Ok(FrameProgress::Need(8 - rest));
    }
    let have: usize = rest - 8;
    if (have as u64) < length {
        return Ok(FrameProgress::Need(length as usize - have));
    }
    Ok(FrameProgress::Complete)
}

/// How many bytes of a stream are read for the frame at its front, if `n`
/// were read so far and as many are read each time as are needed; none if
/// the stream ends or the frame is refused.
pub open spec fn frame_taken(stream: Seq<u8>, n: int, early: bool) -> Option<int>
    decreases stream.len() - n,
{
    match progress(stream.take(n), early) {
        Err(_) => None,
        Ok(FrameProgress::Complete) => Some(n),
        Ok(FrameProgress::Need(k)) => if k == 0 || n + k > stream.len() {
            None
        } else {
            frame_taken(stream, n + k, early)
        },
    }
}

proof fn lemma_progress_within(f: FrameView, rest: Seq<u8>, n: int, early: bool)
    requires
        f.payload.len() <= MAX_MESSAGE_SIZE,
        0 <= n <= f.wire().len(),
    ensures
        f.wire().len() >= 13,
        n < f.wire().len() ==> (progress((f.wire() + rest).take(n), early) matches Ok(
            FrameProgress::Need(k),
        ) && 0 < k && n + k <= f.wire().len()),
        n == f.wire().len() ==> progress((f.wire() + rest).take(n), early) == Ok::<
            FrameProgress,
            ProtocolError,
        >(FrameProgress::Complete),
{
    let b = (f.wire() + rest).take(n);
    let p = varint::leb128(f.payload.len());
    let rid = le::le_bytes(f.request_id as nat, 8);
    let flags = le::le_bytes(f.flags as nat, 2);
    le::lemma_le_bytes_len(f.request_id as nat, 8);
    le::lemma_le_bytes_len(f.flags as nat, 2);
    varint::law_varint_roundtrip(f.payload.len() as u64, Seq::empty());
    varint::law_varint_canonical(p + Seq::<u8>::empty());
    assert(p.len() >= 1);
    assert(f.wire().len() == 12 + p.len() + f.payload.len());
    if n >= 5 {
        let v = b.skip(4);
        if n - 4 < p.len() {
            assert(v =~= p.take(n - 4));
            varint::lemma_leb128_prefix_cut(f.payload.len() as u64, n - 4);
        } else {
            let tail = (rid + f.payload).take(n - 4 - p.len());
            assert(v =~= p + tail);
            varint::law_varint_roundtrip(f.payload.len() as u64, tail);
            varint::lemma_leb128_not_cut(f.payload.len() as u64, tail);
            varint::lemma_leb128_short(f.payload.len() as u64, tail);
        }
    }
}

proof fn lemma_frame_taken(f: FrameView, rest: Seq<u8>, n: int, early: bool)
    requires
        f.payload.len() <= MAX_MESSAGE_SIZE,
        0 <= n <= f.wire().len(),
    ensures
        frame_taken(f.wire() + rest, n, early) == Some(f.wire().len() as int),
    decreases f.wire().len() - n,
{
    lemma_progress_within(f, rest, n, early);
    if n < f.wire().len() {
        let k = progress((f.wire() + rest).take(n), early)->Ok_0->Need_0;
        lemma_frame_taken(f, rest, n + k, early);
    }
}

/// A frame that was written is read with exactly its own bytes: what follows
/// it in the stream is left for the next.
pub proof fn law_frame_read_exactly(f: FrameView, rest: Seq<u8>, early: bool)
    requires
        f.payload.len() <= MAX_MESSAGE_SIZE,
    ensures
        frame_taken(f.wire() + rest, 0, early) == Some(f.wire().len() as int),
{
    lemma_frame_taken(f, rest, 0, early);
}

} // verus!
