//! Messages of a session: negotiation, authentication, liveness, errors.

use vstd::prelude::*;
use vstd::utf8;

use bytes::Bytes;

use crate::error::ProtocolError;
use crate::foreign;
use crate::protocol::capabilities;
use crate::protocol::capabilities::{Capabilities, Capability};
use crate::protocol::error;
use crate::protocol::error::{ErrorCode, ErrorDetail};
use crate::protocol::le;
use crate::protocol::limits::{
    AGENT_STRING, MAX_AUTH_TOKEN, MAX_CHUNK_SIZE, MAX_ERROR_DETAIL, MAX_IDENTITY_LEN,
    MAX_MANIFEST_ENTRIES, MAX_MESSAGE_SIZE, PROTOCOL_VERSION,
};
use crate::protocol::varint;
use crate::protocol::wire;
use crate::util;

verus! {

/// Server-side limits advertised in `HELLO_ACK`.
#[derive(Debug, Clone, Copy, PartialEq, Eq, Structural)]
pub struct Limits {
    /// Maximum control/metadata payload size, bytes.
    pub max_message_size: u64,
    /// Maximum chunk size, bytes.
    pub max_chunk_size: u64,
    /// Maximum entries per manifest.
    pub max_manifest_entries: u64,
    /// Maximum concurrent data streams per connection.
    pub max_concurrent_streams: u32,
}

impl Default for Limits {
    fn default() -> (r: Self)
        ensures
            r == (Limits {
                max_message_size: MAX_MESSAGE_SIZE,
                max_chunk_size: MAX_CHUNK_SIZE,
                max_manifest_entries: MAX_MANIFEST_ENTRIES,
                max_concurrent_streams: 32,
            }),
    {
        Limits {
            max_message_size: MAX_MESSAGE_SIZE,
            max_chunk_size: MAX_CHUNK_SIZE,
            max_manifest_entries: MAX_MANIFEST_ENTRIES,
            max_concurrent_streams: 32,
        }
    }
}

/// `HELLO` payload.
///
/// ```text
/// count(1) versions(count) capabilities(u32) agent(text)
/// ```
#[derive(Debug, Clone, PartialEq, Eq)]
pub struct Hello {
    /// Protocol versions the client supports, in preference order.
    pub versions: Vec<u8>,
    /// Client capabilities.
    pub capabilities: Capabilities,
    /// Free-form client agent string for logs.
    pub agent: String,
}

/// Contents of HELLO.
#[verifier::ext_equal]
pub struct HelloView {
    pub versions: Seq<u8>,
    pub capabilities: Capabilities,
    pub agent: Seq<char>,
}

impl View for Hello {
    type V = HelloView;

    open spec fn view(&self) -> HelloView {
        HelloView {
            versions: self.versions@,
            capabilities: self.capabilities,
            agent: self.agent@,
        }
    }
}

/// A capability set as it is sent.
pub open spec fn on_wire(c: Capabilities) -> Capabilities {
    Capabilities(c.0 & capabilities::WIRE_MASK)
}

/// A capability set as it is taken on receipt: without its reserved bits.
pub open spec fn received(c: Capabilities) -> Capabilities {
    Capabilities(c.0 & capabilities::DEFINED_MASK)
}

proof fn lemma_mask_twice(x: u32)
    ensures
        (x & capabilities::WIRE_MASK) & capabilities::DEFINED_MASK == x
            & capabilities::DEFINED_MASK,
{
    assert((x & 0xFFFu32) & 0x3FFu32 == x & 0x3FFu32) by (bit_vector);
}

impl HelloView {
    /// The payload on the wire.
    pub open spec fn wire(self) -> Seq<u8> {
        seq![self.versions.len() as u8] + self.versions + le::u32_bytes(
            on_wire(self.capabilities).0,
        ) + wire::text_bytes(self.agent)
    }

    /// What encoding gives.
    pub open spec fn encoding(self) -> Result<Seq<u8>, ProtocolError> {
        if !wire::fits_u16(self.agent) {
            Err(ProtocolError::Malformed("agent too long"))
        } else if self.versions.len() > u8::MAX {
            Err(ProtocolError::Malformed("too many versions"))
        } else {
            Ok(self.wire())
        }
    }

    pub open spec fn agent_faults() -> wire::TextFaults {
        wire::TextFaults {
            too_large: "HELLO: agent_len too large",
            truncated: "HELLO: truncated agent",
            not_utf8: "HELLO: agent not UTF-8",
        }
    }

    /// What decoding a payload gives.
    pub open spec fn parse(b: Seq<u8>) -> Result<HelloView, ProtocolError> {
        if b.len() == 0 {
            Err(ProtocolError::Malformed("HELLO: empty"))
        } else if b.len() < 1 + b[0] {
            Err(ProtocolError::Malformed("HELLO: truncated versions"))
        } else if b.len() < 1 + b[0] + 4 {
            Err(ProtocolError::Malformed("HELLO: truncated capabilities"))
        } else {
            match wire::text_at(b, 1 + b[0] + 4, 0, Self::agent_faults()) {
                Err(e) => Err(e),
                Ok((agent, _)) => Ok(
                    HelloView {
                        versions: b.subrange(1, 1 + b[0]),
                        capabilities: received(Capabilities(le::u32_at(b, 1 + b[0]))),
                        agent,
                    },
                ),
            }
        }
    }
}

impl Hello {
    /// Build the default HELLO of a client.
    pub fn default_client() -> (r: Self)
        ensures
            r.versions@ == seq![PROTOCOL_VERSION],
            r.agent@ == AGENT_STRING@,
            forall|c: Capability| #[trigger]
                r.capabilities.contains(c) <==> c is FixedChunking || c is CdcChunking
                    || c is Blake3 || c is CompressionZstd || c is SparseFiles || c is Symlinks
                    || c is Hardlinks,
            r.capabilities.0 & capabilities::DEFINED_MASK == r.capabilities.0,
    {
        let mut caps = Capabilities::empty();
        let ghost c0 = caps;
        caps.set(Capability::FixedChunking);
        let ghost c1 = caps;
        caps.set(Capability::CdcChunking);
        let ghost c2 = caps;
        caps.set(Capability::Blake3);
        let ghost c3 = caps;
        caps.set(Capability::CompressionZstd);
        let ghost c4 = caps;
        caps.set(Capability::SparseFiles);
        let ghost c5 = caps;
        caps.set(Capability::Symlinks);
        let ghost c6 = caps;
        caps.set(Capability::Hardlinks);
        proof {
            assert forall|c: Capability| #[trigger]
                caps.contains(c) <==> c is FixedChunking || c is CdcChunking || c is Blake3
                    || c is CompressionZstd || c is SparseFiles || c is Symlinks || c is Hardlinks by {
                let m = c.mask();
                assert(0u32 & m == 0) by (bit_vector);
                capabilities::law_set_contains(c0, Capability::FixedChunking, c);
                capabilities::law_set_contains(c1, Capability::CdcChunking, c);
                capabilities::law_set_contains(c2, Capability::Blake3, c);
                capabilities::law_set_contains(c3, Capability::CompressionZstd, c);
                capabilities::law_set_contains(c4, Capability::SparseFiles, c);
                capabilities::law_set_contains(c5, Capability::Symlinks, c);
                capabilities::law_set_contains(c6, Capability::Hardlinks, c);
            }
            assert(0u32 & 0x3FFu32 == 0u32) by (bit_vector);
            capabilities::lemma_set_within_mask(c0, Capability::FixedChunking);
            capabilities::lemma_set_within_mask(c1, Capability::CdcChunking);
            capabilities::lemma_set_within_mask(c2, Capability::Blake3);
            capabilities::lemma_set_within_mask(c3, Capability::CompressionZstd);
            capabilities::lemma_set_within_mask(c4, Capability::SparseFiles);
            capabilities::lemma_set_within_mask(c5, Capability::Symlinks);
            capabilities::lemma_set_within_mask(c6, Capability::Hardlinks);
        }
        let mut versions: Vec<u8> = Vec::new();
        versions.push(PROTOCOL_VERSION);
        assert(versions@ =~= seq![PROTOCOL_VERSION]);
        Hello { versions, capabilities: caps, agent: AGENT_STRING.to_owned() }
    }

    /// Encode the payload to bytes.
    pub fn encode(&self) -> (r: Result<Bytes, ProtocolError>)
        ensures
            wire::encoded(r, self@.encoding()),
    {
        if wire::utf8_len(self.agent.as_str()) > 0xFFFF {
            return Err(ProtocolError::Malformed("agent too long"));
        }
        if self.versions.len() > 255 {
            return Err(ProtocolError::Malformed("too many versions"));
        }
        let mut out: Vec<u8> = Vec::new();
        out.push(self.versions.len() as u8);
        wire::push_bytes(&mut out, self.versions.as_slice());
        le::push_u32(&mut out, self.capabilities.to_wire());
        wire::push_text(&mut out, self.agent.as_str());
        assert(out@ =~= self@.wire());
        Ok(foreign::bytes_from_vec(out))
    }

    /// Decode the payload from `buf`.
    pub fn decode(buf: &[u8]) -> (r: Result<Self, ProtocolError>)
        ensures
            wire::decoded(r, HelloView::parse(buf@)),
    {
        if buf.len() == 0 {
            return Err(ProtocolError::Malformed("HELLO: empty"));
        }
        let count: usize = buf[0] as usize;
        if buf.len() < 1 + count {
            return Err(ProtocolError::Malformed("HELLO: truncated versions"));
        }
        if buf.len() < 1 + count + 4 {
            return Err(ProtocolError::Malformed("HELLO: truncated capabilities"));
        }
        match wire::read_text(
            buf,
            1 + count + 4,
            0,
            wire::TextFaults {
                too_large: "HELLO: agent_len too large",
                truncated: "HELLO: truncated agent",
                not_utf8: "HELLO: agent not UTF-8",
            },
        ) {
            Ok((agent, _)) => Ok(
                Hello {
                    versions: wire::copy_range(buf, 1, 1 + count),
                    capabilities: Capabilities::from_wire(le::read_u32(buf, 1 + count)),
                    agent,
                },
            ),
            Err(e) => Err(e),
        }
    }
}

/// HELLO that could be written is read back; only reserved capability bits
/// are lost.
pub proof fn law_hello_roundtrip(m: Hello)
    ensures
        m@.encoding() matches Ok(w) ==> HelloView::parse(w) == Ok::<HelloView, ProtocolError>(
            HelloView { capabilities: received(m.capabilities), ..m@ },
        ),
{
    broadcast use le::group_le_lengths;

    let b = m@.wire();
    if m@.encoding() is Ok {
        let n = m.versions@.len() as int;
        assert(b[0] == n);
        assert(b.subrange(1, 1 + n) =~= m.versions@);
        assert(b.subrange(1 + n, 5 + n) =~= le::u32_bytes(on_wire(m.capabilities).0));
        le::lemma_u32_roundtrip(b, 1 + n, on_wire(m.capabilities).0);
        lemma_mask_twice(m.capabilities.0);
        assert(b.skip(5 + n) =~= wire::text_bytes(m.agent@) + Seq::<u8>::empty());
        wire::lemma_text_roundtrip(
            b,
            5 + n,
            0,
            HelloView::agent_faults(),
            m.agent@,
            Seq::empty(),
        );
    }
}

/// `HELLO_ACK` payload.
///
/// ```text
/// version(1) capabilities(u32) max_message_size(u64) max_chunk_size(u64)
/// max_manifest_entries(u64) max_concurrent_streams(u32) agent(text)
/// ```
#[derive(Debug, Clone, PartialEq, Eq)]
pub struct HelloAck {
    /// Chosen protocol version.
    pub version: u8,
    /// Negotiated capability intersection.
    pub capabilities: Capabilities,
    /// Server-side limits the client must respect.
    pub limits: Limits,
    /// Server agent string.
    pub agent: String,
}

/// Contents of HELLO_ACK.
#[verifier::ext_equal]
pub struct HelloAckView {
    pub version: u8,
    pub capabilities: Capabilities,
    pub limits: Limits,
    pub agent: Seq<char>,
}

impl View for HelloAck {
    type V = HelloAckView;

    open spec fn view(&self) -> HelloAckView {
        HelloAckView {
            version: self.version,
            capabilities: self.capabilities,
            limits: self.limits,
            agent: self.agent@,
        }
    }
}

impl HelloAckView {
    /// The payload on the wire.
    pub open spec fn wire(self) -> Seq<u8> {
        seq![self.version] + le::u32_bytes(on_wire(self.capabilities).0) + le::u64_bytes(
            self.limits.max_message_size,
        ) + le::u64_bytes(self.limits.max_chunk_size) + le::u64_bytes(
            self.limits.max_manifest_entries,
        ) + le::u32_bytes(self.limits.max_concurrent_streams) + wire::text_bytes(self.agent)
    }

    /// What encoding gives.
    pub open spec fn encoding(self) -> Result<Seq<u8>, ProtocolError> {
        if !wire::fits_u16(self.agent) {
            Err(ProtocolError::Malformed("agent too long"))
        } else {
            Ok(self.wire())
        }
    }

    pub open spec fn agent_faults() -> wire::TextFaults {
        wire::TextFaults {
            too_large: "HELLO_ACK: agent_len too large",
            truncated: "HELLO_ACK: truncated agent",
            not_utf8: "HELLO_ACK: agent not UTF-8",
        }
    }

    /// What decoding a payload gives.
    pub open spec fn parse(b: Seq<u8>) -> Result<HelloAckView, ProtocolError> {
        if b.len() < 33 {
            Err(ProtocolError::Malformed("HELLO_ACK: truncated"))
        } else {
            match wire::text_at(b, 33, 0, Self::agent_faults()) {
                Err(e) => Err(e),
                Ok((agent, _)) => Ok(
                    HelloAckView {
                        version: b[0],
                        capabilities: received(Capabilities(le::u32_at(b, 1))),
                        limits: Limits {
                            max_message_size: le::u64_at(b, 5),
                            max_chunk_size: le::u64_at(b, 13),
                            max_manifest_entries: le::u64_at(b, 21),
                            max_concurrent_streams: le::u32_at(b, 29),
                        },
                        agent,
                    },
                ),
            }
        }
    }
}

impl HelloAck {
    /// Encode the payload to bytes.
    pub fn encode(&self) -> (r: Result<Bytes, ProtocolError>)
        ensures
            wire::encoded(r, self@.encoding()),
    {
        if wire::utf8_len(self.agent.as_str()) > 0xFFFF {
            return Err(ProtocolError::Malformed("agent too long"));
        }
        let mut out: Vec<u8> = Vec::new();
        out.push(self.version);
        le::push_u32(&mut out, self.capabilities.to_wire());
        le::push_u64(&mut out, self.limits.max_message_size);
        le::push_u64(&mut out, self.limits.max_chunk_size);
        le::push_u64(&mut out, self.limits.max_manifest_entries);
        le::push_u32(&mut out, self.limits.max_concurrent_streams);
        wire::push_text(&mut out, self.agent.as_str());
        assert(out@ =~= self@.wire());
        Ok(foreign::bytes_from_vec(out))
    }

    /// Decode the payload from `buf`.
    pub fn decode(buf: &[u8]) -> (r: Result<Self, ProtocolError>)
        ensures
            wire::decoded(r, HelloAckView::parse(buf@)),
    {
        if buf.len() < 33 {
            return Err(ProtocolError::Malformed("HELLO_ACK: truncated"));
        }
        match wire::read_text(
            buf,
            33,
            0,
            wire::TextFaults {
                too_large: "HELLO_ACK: agent_len too large",
                truncated: "HELLO_ACK: truncated agent",
                not_utf8: "HELLO_ACK: agent not UTF-8",
            },
        ) {
            Ok((agent, _)) => Ok(
                HelloAck {
                    version: buf[0],
                    capabilities: Capabilities::from_wire(le::read_u32(buf, 1)),
                    limits: Limits {
                        max_message_size: le::read_u64(buf, 5),
                        max_chunk_size: le::read_u64(buf, 13),
                        max_manifest_entries: le::read_u64(buf, 21),
                        max_concurrent_streams: le::read_u32(buf, 29),
                    },
                    agent,
                },
            ),
            Err(e) => Err(e),
        }
    }
}

/// HELLO_ACK that could be written is read back; only reserved capability
/// bits are lost.
pub proof fn law_hello_ack_roundtrip(m: HelloAck)
    ensures
        m@.encoding() matches Ok(w) ==> HelloAckView::parse(w) == Ok::<HelloAckView, ProtocolError>(
            HelloAckView { capabilities: received(m.capabilities), ..m@ },
        ),
{
    broadcast use le::group_le_lengths;

    let b = m@.wire();
    if m@.encoding() is Ok {
        assert(b.subrange(1, 5) =~= le::u32_bytes(on_wire(m.capabilities).0));
        le::lemma_u32_roundtrip(b, 1, on_wire(m.capabilities).0);
        lemma_mask_twice(m.capabilities.0);
        assert(b.subrange(5, 13) =~= le::u64_bytes(m.limits.max_message_size));
        le::lemma_u64_roundtrip(b, 5, m.limits.max_message_size);
        assert(b.subrange(13, 21) =~= le::u64_bytes(m.limits.max_chunk_size));
        le::lemma_u64_roundtrip(b, 13, m.limits.max_chunk_size);
        assert(b.subrange(21, 29) =~= le::u64_bytes(m.limits.max_manifest_entries));
        le::lemma_u64_roundtrip(b, 21, m.limits.max_manifest_entries);
        assert(b.subrange(29, 33) =~= le::u32_bytes(m.limits.max_concurrent_streams));
        le::lemma_u32_roundtrip(b, 29, m.limits.max_concurrent_streams);
        assert(b.skip(33) =~= wire::text_bytes(m.agent@) + Seq::<u8>::empty());
        wire::lemma_text_roundtrip(b, 33, 0, HelloAckView::agent_faults(), m.agent@, Seq::empty());
    }
}

/// `AUTH` mechanism of mutual TLS: the identity is established by the TLS
/// handshake and the token is empty.
pub const AUTH_MECHANISM_MTLS: u16 = 0;

/// `AUTH` mechanism of a channel-bound Ed25519 signature.
pub const AUTH_MECHANISM_SSH_PUBKEY: u16 = 1;

/// `AUTH` payload (client to server).
///
/// ```text
/// mechanism(u16) reserved(2) token_len(u32) token(token_len)
/// ```
#[derive(Debug, Clone, PartialEq, Eq)]
pub struct Auth {
    /// Authentication mechanism. Unknown mechanisms are rejected.
    pub mechanism: u16,
    /// Opaque, mechanism-specific token.
    pub token: Vec<u8>,
}

/// Contents of AUTH.
#[verifier::ext_equal]
pub struct AuthView {
    pub mechanism: u16,
    pub token: Seq<u8>,
}

impl View for Auth {
    type V = AuthView;

    open spec fn view(&self) -> AuthView {
        AuthView { mechanism: self.mechanism, token: self.token@ }
    }
}

impl AuthView {
    /// The payload on the wire.
    pub open spec fn wire(self) -> Seq<u8> {
        le::u16_bytes(self.mechanism) + wire::zeros(2) + le::u32_bytes(self.token.len() as u32)
            + self.token
    }

    /// What encoding gives.
    pub open spec fn encoding(self) -> Result<Seq<u8>, ProtocolError> {
        if self.token.len() > MAX_AUTH_TOKEN {
            Err(ProtocolError::Malformed("AUTH: token too long"))
        } else {
            Ok(self.wire())
        }
    }

    /// What decoding a payload gives. The reserved bytes are not looked at.
    pub open spec fn parse(b: Seq<u8>) -> Result<AuthView, ProtocolError> {
        let n = le::u32_at(b, 4);
        let mechanism = le::u16_at(b, 0);
        if b.len() < 8 {
            Err(ProtocolError::Malformed("AUTH: truncated"))
        } else if n > MAX_AUTH_TOKEN {
            Err(ProtocolError::Malformed("AUTH: token too long"))
        } else if b.len() < 8 + n {
            Err(ProtocolError::Malformed("AUTH: truncated token"))
        } else if mechanism != AUTH_MECHANISM_MTLS && mechanism != AUTH_MECHANISM_SSH_PUBKEY {
            Err(ProtocolError::Malformed("AUTH: unknown mechanism"))
        } else {
            Ok(AuthView { mechanism, token: b.subrange(8, 8 + n) })
        }
    }
}

impl Auth {
    /// Build the mutual TLS `AUTH` message (empty token).
    pub fn mtls() -> (r: Self)
        ensures
            r@ == (AuthView { mechanism: AUTH_MECHANISM_MTLS, token: Seq::empty() }),
    {
        Auth { mechanism: AUTH_MECHANISM_MTLS, token: Vec::new() }
    }

    /// Encode the payload to bytes.
    pub fn encode(&self) -> (r: Result<Bytes, ProtocolError>)
        ensures
            wire::encoded(r, self@.encoding()),
    {
        if self.token.len() > MAX_AUTH_TOKEN {
            return Err(ProtocolError::Malformed("AUTH: token too long"));
        }
        let mut out: Vec<u8> = Vec::new();
        le::push_u16(&mut out, self.mechanism);
        wire::push_zeros(&mut out, 2);
        le::push_u32(&mut out, self.token.len() as u32);
        wire::push_bytes(&mut out, self.token.as_slice());
        assert(out@ =~= self@.wire());
        Ok(foreign::bytes_from_vec(out))
    }

    /// Decode the payload from `buf`.
    pub fn decode(buf: &[u8]) -> (r: Result<Self, ProtocolError>)
        ensures
            wire::decoded(r, AuthView::parse(buf@)),
    {
        if buf.len() < 8 {
            return Err(ProtocolError::Malformed("AUTH: truncated"));
        }
        let mechanism: u16 = le::read_u16(buf, 0);
        let token_len: u32 = le::read_u32(buf, 4);
        if token_len as usize > MAX_AUTH_TOKEN {
            return Err(ProtocolError::Malformed("AUTH: token too long"));
        }
        let n: usize = token_len as usize;
        if buf.len() < 8 + n {
            return Err(ProtocolError::Malformed("AUTH: truncated token"));
        }
        if mechanism != AUTH_MECHANISM_MTLS && mechanism != AUTH_MECHANISM_SSH_PUBKEY {
            return Err(ProtocolError::Malformed("AUTH: unknown mechanism"));
        }
        Ok(Auth { mechanism, token: wire::copy_range(buf, 8, 8 + n) })
    }
}

/// AUTH of a known mechanism that could be written is read back.
pub proof fn law_auth_roundtrip(m: Auth)
    requires
        m.mechanism == AUTH_MECHANISM_MTLS || m.mechanism == AUTH_MECHANISM_SSH_PUBKEY,
    ensures
        m@.encoding() matches Ok(w) ==> AuthView::parse(w) == Ok::<AuthView, ProtocolError>(m@),
{
    broadcast use le::group_le_lengths;

    let b = m@.wire();
    if m@.encoding() is Ok {
        assert(b.subrange(0, 2) =~= le::u16_bytes(m.mechanism));
        le::lemma_u16_roundtrip(b, 0, m.mechanism);
        assert(b.subrange(4, 8) =~= le::u32_bytes(m.token@.len() as u32));
        le::lemma_u32_roundtrip(b, 4, m.token@.len() as u32);
        assert(b.subrange(8, 8 + m.token@.len() as int) =~= m.token@);
    }
}

/// `AUTH_OK` payload (server to client).
///
/// ```text
/// identity(text) permissions(u64)
/// ```
#[derive(Debug, Clone, PartialEq, Eq)]
pub struct AuthOk {
    /// Server-verified identity name.
    pub identity: String,
    /// Granted permission bitset.
    pub permissions: u64,
}

/// Contents of AUTH_OK.
#[verifier::ext_equal]
pub struct AuthOkView {
    pub identity: Seq<char>,
    pub permissions: u64,
}

impl View for AuthOk {
    type V = AuthOkView;

    open spec fn view(&self) -> AuthOkView {
        AuthOkView { identity: self.identity@, permissions: self.permissions }
    }
}

impl AuthOkView {
    /// The payload on the wire.
    pub open spec fn wire(self) -> Seq<u8> {
        wire::text_bytes(self.identity) + le::u64_bytes(self.permissions)
    }

    /// What encoding gives.
    pub open spec fn encoding(self) -> Result<Seq<u8>, ProtocolError> {
        if utf8::encode_utf8(self.identity).len() > MAX_IDENTITY_LEN {
            Err(ProtocolError::Malformed("AUTH_OK: identity too long"))
        } else {
            Ok(self.wire())
        }
    }

    pub open spec fn identity_faults() -> wire::TextFaults {
        wire::TextFaults {
            too_large: "AUTH_OK: identity_len too large",
            truncated: "AUTH_OK: truncated",
            not_utf8: "AUTH_OK: identity not UTF-8",
        }
    }

    /// What decoding a payload gives.
    pub open spec fn parse(b: Seq<u8>) -> Result<AuthOkView, ProtocolError> {
        if b.len() == 0 {
            Err(ProtocolError::Malformed("AUTH_OK: empty"))
        } else {
            match varint::varint_at_start(b) {
                Err(e) => Err(e),
                Ok((n, _)) => if MAX_IDENTITY_LEN < n <= usize::MAX {
                    Err(ProtocolError::Malformed("AUTH_OK: identity too long"))
                } else {
                    match wire::text_at(b, 0, 8, Self::identity_faults()) {
                        Err(e) => Err(e),
                        Ok((identity, i)) => Ok(
                            AuthOkView { identity, permissions: le::u64_at(b, i) },
                        ),
                    }
                },
            }
        }
    }
}

impl AuthOk {
    /// Encode the payload to bytes.
    pub fn encode(&self) -> (r: Result<Bytes, ProtocolError>)
        ensures
            wire::encoded(r, self@.encoding()),
    {
        if wire::utf8_len(self.identity.as_str()) > MAX_IDENTITY_LEN {
            return Err(ProtocolError::Malformed("AUTH_OK: identity too long"));
        }
        let mut out: Vec<u8> = Vec::new();
        wire::push_text(&mut out, self.identity.as_str());
        le::push_u64(&mut out, self.permissions);
        assert(out@ =~= self@.wire());
        Ok(foreign::bytes_from_vec(out))
    }

    /// Decode the payload from `buf`.
    pub fn decode(buf: &[u8]) -> (r: Result<Self, ProtocolError>)
        ensures
            wire::decoded(r, AuthOkView::parse(buf@)),
    {
        if buf.len() == 0 {
            return Err(ProtocolError::Malformed("AUTH_OK: empty"));
        }
        let n: u64 = match varint::decode_varint(buf) {
            Ok((n, _)) => n,
            Err(e) => {
                return Err(e);
            },
        };
        if n > MAX_IDENTITY_LEN as u64 && n <= usize::MAX as u64 {
            return Err(ProtocolError::Malformed("AUTH_OK: identity too long"));
        }
        match wire::read_text(
            buf,
            0,
            8,
            wire::TextFaults {
                too_large: "AUTH_OK: identity_len too large",
                truncated: "AUTH_OK: truncated",
                not_utf8: "AUTH_OK: identity not UTF-8",
            },
        ) {
            Ok((identity, i)) => Ok(AuthOk { identity, permissions: le::read_u64(buf, i) }),
            Err(e) => Err(e),
        }
    }
}

/// AUTH_OK that could be written is read back.
pub proof fn law_auth_ok_roundtrip(m: AuthOk)
    ensures
        m@.encoding() matches Ok(w) ==> AuthOkView::parse(w) == Ok::<AuthOkView, ProtocolError>(m@),
{
    broadcast use le::group_le_lengths;

    let b = m@.wire();
    if m@.encoding() is Ok {
        let e = utf8::encode_utf8(m.identity@);
        let t = wire::text_bytes(m.identity@);
        let p = le::u64_bytes(m.permissions);
        assert(b =~= varint::leb128(e.len()) + (e + p));
        varint::law_varint_roundtrip(e.len() as u64, e + p);
        assert(b.skip(0) =~= t + p);
        wire::lemma_text_roundtrip(b, 0, 8, AuthOkView::identity_faults(), m.identity@, p);
        assert(b.subrange(t.len() as int, t.len() as int + 8) =~= p);
        le::lemma_u64_roundtrip(b, t.len() as int, m.permissions);
    }
}

/// `ERROR` payload.
///
/// ```text
/// code(u32) retryable(1) detail(text)
/// ```
#[derive(Debug, Clone, PartialEq, Eq)]
pub struct ErrorMsg {
    /// Error code.
    pub code: ErrorCode,
    /// Whether the caller should retry.
    pub retryable: bool,
    /// Non-sensitive detail, of at most `MAX_ERROR_DETAIL` bytes.
    pub detail: ErrorDetail,
}

/// Contents of ERROR.
#[verifier::ext_equal]
pub struct ErrorMsgView {
    pub code: ErrorCode,
    pub retryable: bool,
    pub detail: Seq<char>,
}

impl View for ErrorMsg {
    type V = ErrorMsgView;

    open spec fn view(&self) -> ErrorMsgView {
        ErrorMsgView { code: self.code, retryable: self.retryable, detail: self.detail.0@ }
    }
}

impl ErrorMsgView {
    /// The error with a code and a detail; the code says whether to retry.
    pub open spec fn of(code: ErrorCode, detail: Seq<char>) -> ErrorMsgView {
        ErrorMsgView { code, retryable: code.may_retry(), detail: error::detail_text(detail) }
    }

    /// The payload on the wire.
    pub open spec fn wire(self) -> Seq<u8> {
        le::u32_bytes(self.code.wire()) + seq![wire::flag_byte(self.retryable)] + wire::text_bytes(
            self.detail,
        )
    }

    pub open spec fn detail_faults() -> wire::TextFaults {
        wire::TextFaults {
            too_large: "ERROR: detail_len too large",
            truncated: "ERROR: truncated detail",
            not_utf8: "ERROR: detail not UTF-8",
        }
    }

    /// What decoding a payload gives. A detail that is too long is cut.
    pub open spec fn parse(b: Seq<u8>) -> Result<ErrorMsgView, ProtocolError> {
        if b.len() < 5 {
            Err(ProtocolError::Malformed("ERROR: truncated header"))
        } else if b[4] > 1 {
            Err(ProtocolError::Malformed("ERROR: retryable not 0/1"))
        } else {
            match wire::text_at(b, 5, 0, Self::detail_faults()) {
                Err(e) => Err(e),
                Ok((detail, _)) => Ok(
                    ErrorMsgView {
                        code: ErrorCode::of_wire(le::u32_at(b, 0)),
                        retryable: b[4] == 1,
                        detail: error::detail_text(detail),
                    },
                ),
            }
        }
    }
}

impl ErrorMsg {
    /// Construct from a code and a detail. Whether to retry is a matter of
    /// the code.
    pub fn new(code: ErrorCode, detail: ErrorDetail) -> (r: Self)
        ensures
            r@ == (ErrorMsgView { code, retryable: code.may_retry(), detail: detail.0@ }),
    {
        ErrorMsg { code, retryable: code.retryable(), detail }
    }

    /// Encode the payload.
    pub fn encode(&self) -> (r: Result<Bytes, ProtocolError>)
        ensures
            r matches Ok(b) && foreign::bytes_content(b) == self@.wire(),
    {
        let mut out: Vec<u8> = Vec::new();
        le::push_u32(&mut out, self.code.to_wire());
        wire::push_flag(&mut out, self.retryable);
        wire::push_text(&mut out, self.detail.as_str());
        assert(out@ =~= self@.wire());
        Ok(foreign::bytes_from_vec(out))
    }

    /// Decode the payload.
    pub fn decode(buf: &[u8]) -> (r: Result<Self, ProtocolError>)
        ensures
            wire::decoded(r, ErrorMsgView::parse(buf@)),
            r matches Ok(m) ==> utf8::encode_utf8(m.detail.0@).len() <= MAX_ERROR_DETAIL,
    {
        if buf.len() < 5 {
            return Err(ProtocolError::Malformed("ERROR: truncated header"));
        }
        if buf[4] > 1 {
            return Err(ProtocolError::Malformed("ERROR: retryable not 0/1"));
        }
        match wire::read_text(
            buf,
            5,
            0,
            wire::TextFaults {
                too_large: "ERROR: detail_len too large",
                truncated: "ERROR: truncated detail",
                not_utf8: "ERROR: detail not UTF-8",
            },
        ) {
            Ok((detail, _)) => Ok(
                ErrorMsg {
                    code: ErrorCode::from_wire(le::read_u32(buf, 0)),
                    retryable: buf[4] == 1,
                    detail: ErrorDetail::new(detail),
                },
            ),
            Err(e) => Err(e),
        }
    }
}

/// The detail "not found" is short enough for the wire, and is not cut.
pub proof fn lemma_short_detail(d: ErrorDetail)
    requires
        d.0@ == "not found"@,
    ensures
        utf8::encode_utf8(d.0@).len() <= MAX_ERROR_DETAIL,
        error::detail_text("not found"@) == "not found"@,
{
    reveal_strlit("not found");
    utf8::is_ascii_chars_encode_utf8("not found"@);
}

/// ERROR with a detail within the limit is read back.
pub proof fn law_error_msg_roundtrip(m: ErrorMsg)
    requires
        utf8::encode_utf8(m.detail.0@).len() <= MAX_ERROR_DETAIL,
    ensures
        ErrorMsgView::parse(m@.wire()) == Ok::<ErrorMsgView, ProtocolError>(m@),
{
    broadcast use le::group_le_lengths;

    let b = m@.wire();
    assert(b.subrange(0, 4) =~= le::u32_bytes(m.code.wire()));
    le::lemma_u32_roundtrip(b, 0, m.code.wire());
    error::law_error_code_roundtrip(m.code, 0);
    assert(b.skip(5) =~= wire::text_bytes(m.detail.0@) + Seq::<u8>::empty());
    wire::lemma_text_roundtrip(b, 5, 0, ErrorMsgView::detail_faults(), m.detail.0@, Seq::empty());
}

/// `PING` / `PONG` payload. The PONG echoes the nonce.
#[derive(Debug, Clone, Copy, PartialEq, Eq)]
pub struct Ping {
    /// Echoed verbatim by the responder.
    pub nonce: u64,
    /// Sender timestamp in milliseconds.
    pub sender_ts_ms: u64,
}

impl View for Ping {
    type V = Ping;

    open spec fn view(&self) -> Ping {
        *self
    }
}

impl Ping {
    /// The payload on the wire.
    pub open spec fn wire(self) -> Seq<u8> {
        le::u64_bytes(self.nonce) + le::u64_bytes(self.sender_ts_ms)
    }

    /// What decoding a payload gives.
    pub open spec fn parse(b: Seq<u8>) -> Result<Ping, ProtocolError> {
        if b.len() < 16 {
            Err(ProtocolError::Malformed("PING: truncated"))
        } else {
            Ok(
                Ping {
                    nonce: le::u64_at(b, 0),
                    sender_ts_ms: le::u64_at(b, 8),
                },
            )
        }
    }
}

impl Ping {
    /// Encode the payload to bytes.
    pub fn encode(&self) -> (r: Bytes)
        ensures
            foreign::bytes_content(r) == self@.wire(),
    {
        let mut out: Vec<u8> = Vec::new();
        le::push_u64(&mut out, self.nonce);
        le::push_u64(&mut out, self.sender_ts_ms);
        assert(out@ =~= self@.wire());
        foreign::bytes_from_vec(out)
    }

    /// Decode the payload from `buf`.
    pub fn decode(buf: &[u8]) -> (r: Result<Self, ProtocolError>)
        ensures
            wire::decoded(r, Ping::parse(buf@)),
    {
        if buf.len() < 16 {
            return Err(ProtocolError::Malformed("PING: truncated"));
        }
        Ok(
            Ping {
                nonce: le::read_u64(buf, 0),
                sender_ts_ms: le::read_u64(buf, 8),
            },
        )
    }
}

/// PING that was written is read back.
pub proof fn law_ping_roundtrip(m: Ping)
    ensures
        Ping::parse(m@.wire()) == Ok::<Ping, ProtocolError>(m@),
{
    broadcast use {le::group_le_lengths, util::lemma_transfer_id_len, util::lemma_hash_len};

    let b = m@.wire();
    assert(b.subrange(0, 8) =~= le::u64_bytes(m.nonce));
    le::lemma_u64_roundtrip(b, 0, m.nonce);
    assert(b.subrange(8, 16) =~= le::u64_bytes(m.sender_ts_ms));
    le::lemma_u64_roundtrip(b, 8, m.sender_ts_ms);
}

/// `BYE` payload: an informational reason code.
#[derive(Debug, Clone, Copy, PartialEq, Eq)]
pub struct Bye {
    /// Reason code.
    pub code: u32,
}

impl View for Bye {
    type V = Bye;

    open spec fn view(&self) -> Bye {
        *self
    }
}

impl Bye {
    /// The payload on the wire.
    pub open spec fn wire(self) -> Seq<u8> {
        le::u32_bytes(self.code)
    }

    /// What decoding a payload gives.
    pub open spec fn parse(b: Seq<u8>) -> Result<Bye, ProtocolError> {
        if b.len() < 4 {
            Err(ProtocolError::Malformed("BYE: truncated"))
        } else {
            Ok(
                Bye {
                    code: le::u32_at(b, 0),
                },
            )
        }
    }
}

impl Bye {
    /// Encode the payload to bytes.
    pub fn encode(&self) -> (r: Bytes)
        ensures
            foreign::bytes_content(r) == self@.wire(),
    {
        let mut out: Vec<u8> = Vec::new();
        le::push_u32(&mut out, self.code);
        assert(out@ =~= self@.wire());
        foreign::bytes_from_vec(out)
    }

    /// Decode the payload from `buf`.
    pub fn decode(buf: &[u8]) -> (r: Result<Self, ProtocolError>)
        ensures
            wire::decoded(r, Bye::parse(buf@)),
    {
        if buf.len() < 4 {
            return Err(ProtocolError::Malformed("BYE: truncated"));
        }
        Ok(
            Bye {
                code: le::read_u32(buf, 0),
            },
        )
    }
}

/// BYE that was written is read back.
pub proof fn law_bye_roundtrip(m: Bye)
    ensures
        Bye::parse(m@.wire()) == Ok::<Bye, ProtocolError>(m@),
{
    broadcast use {le::group_le_lengths, util::lemma_transfer_id_len, util::lemma_hash_len};

    let b = m@.wire();
    assert(b.subrange(0, 4) =~= le::u32_bytes(m.code));
    le::lemma_u32_roundtrip(b, 0, m.code);
}

/// `SESSION_INIT` payload: per-session options that the client requests.
#[derive(Debug, Clone, Copy, PartialEq, Eq)]
pub struct SessionOptions {
    /// Requested bandwidth cap in bytes/sec. `0` is no cap.
    pub bandwidth_bps: u64,
    /// Priority hint. Higher is more important.
    pub priority: u16,
}

impl View for SessionOptions {
    type V = SessionOptions;

    open spec fn view(&self) -> SessionOptions {
        *self
    }
}

impl SessionOptions {
    /// The payload on the wire.
    pub open spec fn wire(self) -> Seq<u8> {
        le::u64_bytes(self.bandwidth_bps) + le::u16_bytes(self.priority)
    }

    /// What decoding a payload gives.
    pub open spec fn parse(b: Seq<u8>) -> Result<SessionOptions, ProtocolError> {
        if b.len() < 10 {
            Err(ProtocolError::Malformed("SESSION_INIT: truncated"))
        } else {
            Ok(
                SessionOptions {
                    bandwidth_bps: le::u64_at(b, 0),
                    priority: le::u16_at(b, 8),
                },
            )
        }
    }
}

impl SessionOptions {
    /// Encode the payload to bytes.
    pub fn encode(&self) -> (r: Bytes)
        ensures
            foreign::bytes_content(r) == self@.wire(),
    {
        let mut out: Vec<u8> = Vec::new();
        le::push_u64(&mut out, self.bandwidth_bps);
        le::push_u16(&mut out, self.priority);
        assert(out@ =~= self@.wire());
        foreign::bytes_from_vec(out)
    }

    /// Decode the payload from `buf`.
    pub fn decode(buf: &[u8]) -> (r: Result<Self, ProtocolError>)
        ensures
            wire::decoded(r, SessionOptions::parse(buf@)),
    {
        if buf.len() < 10 {
            return Err(ProtocolError::Malformed("SESSION_INIT: truncated"));
        }
        Ok(
            SessionOptions {
                bandwidth_bps: le::read_u64(buf, 0),
                priority: le::read_u16(buf, 8),
            },
        )
    }
}

/// SESSION_INIT that was written is read back.
pub proof fn law_session_options_roundtrip(m: SessionOptions)
    ensures
        SessionOptions::parse(m@.wire()) == Ok::<SessionOptions, ProtocolError>(m@),
{
    broadcast use {le::group_le_lengths, util::lemma_transfer_id_len, util::lemma_hash_len};

    let b = m@.wire();
    assert(b.subrange(0, 8) =~= le::u64_bytes(m.bandwidth_bps));
    le::lemma_u64_roundtrip(b, 0, m.bandwidth_bps);
    assert(b.subrange(8, 10) =~= le::u16_bytes(m.priority));
    le::lemma_u16_roundtrip(b, 8, m.priority);
}

impl Default for SessionOptions {
    fn default() -> (r: Self)
        ensures
            r == (SessionOptions { bandwidth_bps: 0, priority: 0 }),
    {
        SessionOptions { bandwidth_bps: 0, priority: 0 }
    }
}

/// `Pong` has the wire form of `Ping`.
pub type Pong = Ping;

/// The payload of SESSION_INIT under its message's name.
pub type SessionInit = SessionOptions;

} // verus!
