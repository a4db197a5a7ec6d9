//! Client side of a session: the handshake, PING and BYE.

use vstd::prelude::*;

use crate::error::{Refusal, Result, VelcruxError};
use crate::foreign;
use crate::protocol::capabilities;
use crate::protocol::capabilities::{Capabilities, Capability};
use crate::protocol::error::ErrorCode;
use crate::protocol::frame::Frame;
use crate::protocol::limits::{AGENT_STRING, PROTOCOL_VERSION};
use crate::protocol::message;
use crate::protocol::message::{
    Auth, AuthOk, AuthOkView, AuthView, Bye, Hello, HelloAck, HelloAckView, Limits, Message,
    MessageView, Ping,
};
use crate::text;
use crate::util;

verus! {

/// What the handshake has settled.
#[derive(Debug)]
pub struct Negotiated {
    /// Version that the server chose.
    pub version: u8,
    /// Capabilities that both sides have.
    pub capabilities: Capabilities,
    /// Limits of the server.
    pub limits: Limits,
    /// Agent string of the server.
    pub server_agent: String,
}

/// What the handshake has settled, by its contents.
#[verifier::ext_equal]
pub struct NegotiatedView {
    pub version: u8,
    pub capabilities: Capabilities,
    pub limits: Limits,
    pub server_agent: Seq<char>,
}

impl View for Negotiated {
    type V = NegotiatedView;

    open spec fn view(&self) -> NegotiatedView {
        NegotiatedView {
            version: self.version,
            capabilities: self.capabilities,
            limits: self.limits,
            server_agent: self.server_agent@,
        }
    }
}

impl Clone for Negotiated {
    fn clone(&self) -> (r: Self)
        ensures
            r@ == self@,
    {
        Negotiated {
            version: self.version,
            capabilities: self.capabilities,
            limits: self.limits,
            server_agent: self.server_agent.clone(),
        }
    }
}

/// A client session. Owns both halves of the control stream.
pub struct ClientSession<S, R> {
    /// What the handshake has settled.
    pub negotiated: Negotiated,
    /// Send half of the control stream.
    pub send: S,
    /// Receive half of the control stream.
    pub recv: R,
}

impl<S, R> ClientSession<S, R> {
    /// A session over a control stream on which the handshake is done.
    pub fn from_handshake_parts(negotiated: Negotiated, send: S, recv: R) -> (r: Self)
        ensures
            r.negotiated == negotiated,
            r.send == send,
            r.recv == recv,
    {
        ClientSession { negotiated, send, recv }
    }

    /// What the handshake has settled.
    pub fn negotiated(&self) -> (r: &Negotiated)
        ensures
            *r == self.negotiated,
    {
        &self.negotiated
    }

    /// Mutable borrow of the send half.
    pub fn send_mut(&mut self) -> (r: &mut S)
        ensures
            *r == old(self).send,
            final(self).send == *final(r),
            final(self).recv == old(self).recv,
            final(self).negotiated == old(self).negotiated,
    {
        &mut self.send
    }

    /// Mutable borrow of the receive half.
    pub fn recv_mut(&mut self) -> (r: &mut R)
        ensures
            *r == old(self).recv,
            final(self).recv == *final(r),
            final(self).send == old(self).send,
            final(self).negotiated == old(self).negotiated,
    {
        &mut self.recv
    }

    /// Mutable borrow of both halves at once.
    pub fn stream_halves_mut(&mut self) -> (r: (&mut S, &mut R))
        ensures
            *r.0 == old(self).send,
            *r.1 == old(self).recv,
            final(self).send == *final(r.0),
            final(self).recv == *final(r.1),
            final(self).negotiated == old(self).negotiated,
    {
        (&mut self.send, &mut self.recv)
    }

    /// Move the send half out of the session, and put another in its place.
    pub fn send_mut_owned(&mut self, placeholder: S) -> (r: S)
        ensures
            r == old(self).send,
            final(self).send == placeholder,
            final(self).recv == old(self).recv,
            final(self).negotiated == old(self).negotiated,
    {
        let mut half = placeholder;
        std::mem::swap(&mut half, &mut self.send);
        half
    }

    /// Move the receive half out of the session, and put another in its
    /// place.
    pub fn recv_mut_owned(&mut self, placeholder: R) -> (r: R)
        ensures
            r == old(self).recv,
            final(self).recv == placeholder,
            final(self).send == old(self).send,
            final(self).negotiated == old(self).negotiated,
    {
        let mut half = placeholder;
        std::mem::swap(&mut half, &mut self.recv);
        half
    }
}

/// A frame that was received, by its type and payload; none at the end of
/// the stream.
pub open spec fn received(f: Option<Frame<'_>>) -> Option<(u8, Seq<u8>)> {
    match f {
        Some(f) => Some((f.type_byte, f.payload@)),
        None => None,
    }
}

/// The text of a frame of another type than the expected one.
pub open spec fn unexpected(expected: Seq<char>, got: u8) -> Seq<char> {
    expected + text::hex(seq![got])
}

fn unexpected_error(expected: &str, got: u8) -> (r: VelcruxError)
    ensures
        r.refuses(Refusal::Internal(unexpected(expected@, got))),
{
    let mut t: String = expected.to_owned();
    text::push_hex_byte(&mut t, got);
    VelcruxError::Internal(t)
}

/// The first message of a client.
pub fn hello_message() -> (r: Message)
    ensures
        r matches Message::Hello(h) && h.versions@ == seq![PROTOCOL_VERSION] && h.agent@
            == AGENT_STRING@ && forall|c: Capability| #[trigger]
            h.capabilities.contains(c) <==> c is FixedChunking || c is CdcChunking || c is Blake3
                || c is CompressionZstd || c is SparseFiles || c is Symlinks || c is Hardlinks,
        r matches Message::Hello(h) && h.capabilities.0 & capabilities::DEFINED_MASK
            == h.capabilities.0,
{
    Message::Hello(Hello::default_client())
}

/// The HELLO of a client that announces other capabilities than the default
/// ones.
pub fn hello_with_capabilities(capabilities: Capabilities) -> (r: Message)
    ensures
        r matches Message::Hello(h) && h.versions@ == seq![PROTOCOL_VERSION] && h.agent@
            == AGENT_STRING@ && h.capabilities == capabilities,
{
    let mut hello = Hello::default_client();
    hello.capabilities = capabilities;
    Message::Hello(hello)
}

/// What the answer to HELLO comes to.
pub open spec fn hello_answer(f: Option<(u8, Seq<u8>)>) -> std::result::Result<
    HelloAckView,
    Refusal,
> {
    match f {
        None => Err(Refusal::Internal("EOF awaiting HELLO_ACK"@)),
        Some((t, payload)) => if t != message::HELLO_ACK {
            Err(Refusal::Internal(unexpected("expected HELLO_ACK, got type 0x"@, t)))
        } else {
            match HelloAckView::parse(payload) {
                Err(e) => Err(Refusal::Protocol(e)),
                Ok(v) => match v.capabilities.intersection_fault() {
                    Some(s) => Err(
                        Refusal::Internal("invalid capability intersection: "@ + s@),
                    ),
                    None => Ok(v),
                },
            }
        },
    }
}

/// Take the answer to HELLO. Returns what is settled, and the AUTH message
/// to send next.
pub fn on_hello_ack(frame: Option<Frame<'_>>) -> (r: Result<(Negotiated, Message)>)
    ensures
        match hello_answer(received(frame)) {
            Ok(v) => r matches Ok((n, m)) && n@ == (NegotiatedView {
                version: v.version,
                capabilities: v.capabilities,
                limits: v.limits,
                server_agent: v.agent,
            }) && m@ == MessageView::Auth(
                AuthView { mechanism: message::AUTH_MECHANISM_MTLS, token: Seq::empty() },
            ),
            Err(f) => r matches Err(e) && e.refuses(f),
        },
{
    let frame = match frame {
        Some(f) => f,
        None => {
            return Err(VelcruxError::Internal("EOF awaiting HELLO_ACK".to_owned()));
        },
    };
    if frame.type_byte != message::HELLO_ACK {
        return Err(unexpected_error("expected HELLO_ACK, got type 0x", frame.type_byte));
    }
    let ack = match HelloAck::decode(frame.payload) {
        Ok(a) => a,
        Err(e) => {
            return Err(VelcruxError::Protocol(e));
        },
    };
    match Capabilities::validate_intersection(ack.capabilities) {
        Err(s) => {
            let mut t: String = "invalid capability intersection: ".to_owned();
            text::push_str(&mut t, s);
            Err(VelcruxError::Internal(t))
        },
        Ok(()) => {
            let auth = Auth::mtls();
            assert(auth@.token =~= Seq::empty());
            Ok(
                (
                    Negotiated {
                        version: ack.version,
                        capabilities: ack.capabilities,
                        limits: ack.limits,
                        server_agent: ack.agent,
                    },
                    Message::Auth(auth),
                ),
            )
        },
    }
}

/// What the answer to AUTH comes to.
pub open spec fn auth_answer(f: Option<(u8, Seq<u8>)>) -> std::result::Result<AuthOkView, Refusal> {
    match f {
        None => Err(Refusal::Internal("EOF awaiting AUTH_OK"@)),
        Some((t, payload)) => if t != message::AUTH_OK {
            Err(Refusal::Internal(unexpected("expected AUTH_OK, got type 0x"@, t)))
        } else {
            match AuthOkView::parse(payload) {
                Err(e) => Err(Refusal::Protocol(e)),
                Ok(v) => Ok(v),
            }
        },
    }
}

/// Take the answer to AUTH.
pub fn on_auth_ok(frame: Option<Frame<'_>>) -> (r: Result<AuthOk>)
    ensures
        match auth_answer(received(frame)) {
            Ok(v) => r matches Ok(a) && a@ == v,
            Err(f) => r matches Err(e) && e.refuses(f),
        },
{
    let frame = match frame {
        Some(f) => f,
        None => {
            return Err(VelcruxError::Internal("EOF awaiting AUTH_OK".to_owned()));
        },
    };
    if frame.type_byte != message::AUTH_OK {
        return Err(unexpected_error("expected AUTH_OK, got type 0x", frame.type_byte));
    }
    match AuthOk::decode(frame.payload) {
        Ok(a) => Ok(a),
        Err(e) => Err(VelcruxError::Protocol(e)),
    }
}

/// A PING with a random nonce.
pub fn new_ping() -> (r: Ping)
    ensures
        r.sender_ts_ms == 0,
{
    Ping { nonce: foreign::random_u64(), sender_ts_ms: 0 }
}

/// What the answer to a PING comes to; none if it is the matching PONG.
pub open spec fn pong_fault(nonce: u64, f: Option<(u8, Seq<u8>)>) -> Option<Refusal> {
    match f {
        None => Some(Refusal::Internal("EOF awaiting PONG"@)),
        Some((t, payload)) => if t != message::PING {
            Some(Refusal::Internal(unexpected("expected PONG (type 0x06), got 0x"@, t)))
        } else {
            match Ping::parse(payload) {
                Err(e) => Some(Refusal::Protocol(e)),
                Ok(p) => if p.nonce != nonce {
                    Some(
                        Refusal::Internal(
                            "PONG nonce mismatch: sent 0x"@ + text::hex(
                                util::be_bytes(nonce as nat, 8),
                            ) + ", got 0x"@ + text::hex(util::be_bytes(p.nonce as nat, 8)),
                        ),
                    )
                } else {
                    None
                },
            }
        },
    }
}

/// Take the answer to a PING.
pub fn on_pong(nonce: u64, frame: Option<Frame<'_>>) -> (r: Result<()>)
    ensures
        match pong_fault(nonce, received(frame)) {
            None => r is Ok,
            Some(f) => r matches Err(e) && e.refuses(f),
        },
{
    let frame = match frame {
        Some(f) => f,
        None => {
            return Err(VelcruxError::Internal("EOF awaiting PONG".to_owned()));
        },
    };
    if frame.type_byte != message::PING {
        return Err(unexpected_error("expected PONG (type 0x06), got 0x", frame.type_byte));
    }
    let pong = match Ping::decode(frame.payload) {
        Ok(p) => p,
        Err(e) => {
            return Err(VelcruxError::Protocol(e));
        },
    };
    if pong.nonce != nonce {
        let mut t: String = "PONG nonce mismatch: sent 0x".to_owned();
        text::push_hex_number(&mut t, nonce, 8);
        text::push_str(&mut t, ", got 0x");
        text::push_hex_number(&mut t, pong.nonce, 8);
        return Err(VelcruxError::Internal(t));
    }
    Ok(())
}

/// The last message of a client.
pub fn bye_message() -> (r: Message)
    ensures
        r@ == MessageView::Bye(Bye { code: ErrorCode::TransferCancelled.wire() }),
{
    Message::Bye(Bye { code: ErrorCode::TransferCancelled.to_wire() })
}

} // verus!
