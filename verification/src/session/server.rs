//! Server side of a connection.
//!
//! ```text
//! AWAIT_HELLO -> AWAIT_AUTH -> SERVING (0..N transfers) -> CLOSED
//! ```
//!
//! A connection takes one frame at a time and says what to do about it.
//! Every operation in SERVING is authorized against the identity that was
//! verified in AWAIT_AUTH, and whoever may not touch a path is answered as if
//! there were nothing there.

use vstd::prelude::*;

use crate::auth::{Authenticator, Authorizer, FileAuthorizer, MtlsAuthenticator, Op};
use crate::error::{Fault, ProtocolError, Result, VelcruxError};
use crate::protocol::capabilities::Capabilities;
use crate::protocol::error::{ErrorCode, ErrorDetail};
use crate::protocol::frame::Frame;
use crate::protocol::limits::{IMPLEMENTATION_VERSION, PROTOCOL_VERSION};
use crate::protocol::message;
use crate::protocol::message::{
    Auth, AuthOk, AuthOkView, AuthView, Cancel, CancelView, ErrorMsg, ErrorMsgView, Hello,
    HelloAck, HelloAckView, HelloView, Limits, ListQuery, ListQueryView, ListResult,
    ListResultView, Message, MessageView, Ping, StatQuery, StatQueryView, StatResult,
    StatResultView,
};
use crate::state;
use crate::state::{Direction, TransferRecord, TransferRecordView, TransferStatus};
use crate::text;
use crate::transport::identity::{Identity, IdentityView};
use crate::util::TransferId;

verus! {

/// State of a connection.
#[derive(Debug, Clone, Copy, PartialEq, Eq, Structural)]
pub enum ServerState {
    /// Accepted, before the TLS handshake.
    Accepted,
    /// TLS handshake in progress.
    TlsHandshake,
    /// Awaiting HELLO.
    AwaitHello,
    /// Awaiting AUTH.
    AwaitAuth,
    /// Authenticated; serving.
    Serving,
    /// Draining in response to a graceful shutdown.
    Draining,
    /// The connection is closed.
    Closed,
}

impl ServerState {
    /// Name for logs and error messages.
    pub open spec fn text(self) -> &'static str {
        match self {
            ServerState::Accepted => "ACCEPTED",
            ServerState::TlsHandshake => "TLS_HANDSHAKE",
            ServerState::AwaitHello => "AWAIT_HELLO",
            ServerState::AwaitAuth => "AWAIT_AUTH",
            ServerState::Serving => "SERVING",
            ServerState::Draining => "DRAINING",
            ServerState::Closed => "CLOSED",
        }
    }

    /// Name for logs and error messages.
    pub fn name(self) -> (r: &'static str)
        ensures
            r == self.text(),
    {
        match self {
            ServerState::Accepted => "ACCEPTED",
            ServerState::TlsHandshake => "TLS_HANDSHAKE",
            ServerState::AwaitHello => "AWAIT_HELLO",
            ServerState::AwaitAuth => "AWAIT_AUTH",
            ServerState::Serving => "SERVING",
            ServerState::Draining => "DRAINING",
            ServerState::Closed => "CLOSED",
        }
    }
}

/// Something that is counted.
#[derive(Debug, Clone, Copy, PartialEq, Eq, Structural)]
pub enum Counted {
    /// A connection was accepted.
    Connection,
    /// HELLO was answered.
    Handshake,
    /// A PING was answered.
    Ping,
    /// A transfer has started.
    TransferStarted,
    /// A transfer that had started has ended.
    TransferEnded,
    /// An upload is complete.
    Upload { transferred: u64, reused: u64 },
    /// A download is complete.
    Download { transferred: u64 },
    /// An operation was refused.
    Denied,
    /// A transfer has failed.
    Mismatch,
}

/// Server-wide counters. They wrap around.
#[derive(Debug, Clone, Copy, PartialEq, Eq, Structural)]
pub struct ServerStats {
    /// Connections accepted.
    pub connections: u64,
    /// Connections that completed HELLO and HELLO_ACK.
    pub handshakes: u64,
    /// PINGs handled.
    pub pings: u64,
    /// Transfers that are running.
    pub transfers_active: u64,
    /// Completed uploads.
    pub transfers_total_upload: u64,
    /// Completed downloads.
    pub transfers_total_download: u64,
    /// Bytes on the wire for uploads.
    pub bytes_transferred_upload: u64,
    /// Bytes on the wire for downloads.
    pub bytes_transferred_download: u64,
    /// Bytes that were there already.
    pub bytes_reused: u64,
    /// Operations refused.
    pub authz_denials: u64,
    /// Transfers that failed.
    pub checksum_mismatches: u64,
}

impl Default for ServerStats {
    fn default() -> (r: Self)
        ensures
            r == (ServerStats {
                connections: 0,
                handshakes: 0,
                pings: 0,
                transfers_active: 0,
                transfers_total_upload: 0,
                transfers_total_download: 0,
                bytes_transferred_upload: 0,
                bytes_transferred_download: 0,
                bytes_reused: 0,
                authz_denials: 0,
                checksum_mismatches: 0,
            }),
    {
        ServerStats {
            connections: 0,
            handshakes: 0,
            pings: 0,
            transfers_active: 0,
            transfers_total_upload: 0,
            transfers_total_download: 0,
            bytes_transferred_upload: 0,
            bytes_transferred_download: 0,
            bytes_reused: 0,
            authz_denials: 0,
            checksum_mismatches: 0,
        }
    }
}

impl ServerStats {
    /// The counters after something was counted.
    pub open spec fn counted(self, c: Counted) -> ServerStats {
        match c {
            Counted::Connection => ServerStats {
                connections: self.connections.wrapping_add(1),
                ..self
            },
            Counted::Handshake => ServerStats {
                handshakes: self.handshakes.wrapping_add(1),
                ..self
            },
            Counted::Ping => ServerStats { pings: self.pings.wrapping_add(1), ..self },
            Counted::TransferStarted => ServerStats {
                transfers_active: self.transfers_active.wrapping_add(1),
                ..self
            },
            Counted::TransferEnded => ServerStats {
                transfers_active: self.transfers_active.wrapping_sub(1),
                ..self
            },
            Counted::Upload { transferred, reused } => ServerStats {
                transfers_total_upload: self.transfers_total_upload.wrapping_add(1),
                bytes_transferred_upload: self.bytes_transferred_upload.wrapping_add(transferred),
                bytes_reused: self.bytes_reused.wrapping_add(reused),
                ..self
            },
            Counted::Download { transferred } => ServerStats {
                transfers_total_download: self.transfers_total_download.wrapping_add(1),
                bytes_transferred_download: self.bytes_transferred_download.wrapping_add(
                    transferred,
                ),
                ..self
            },
            Counted::Denied => ServerStats {
                authz_denials: self.authz_denials.wrapping_add(1),
                ..self
            },
            Counted::Mismatch => ServerStats {
                checksum_mismatches: self.checksum_mismatches.wrapping_add(1),
                ..self
            },
        }
    }

    /// Count something.
    pub fn count(&mut self, c: Counted)
        ensures
            *final(self) == old(self).counted(c),
    {
        match c {
            Counted::Connection => {
                self.connections = self.connections.wrapping_add(1);
            },
            Counted::Handshake => {
                self.handshakes = self.handshakes.wrapping_add(1);
            },
            Counted::Ping => {
                self.pings = self.pings.wrapping_add(1);
            },
            Counted::TransferStarted => {
                self.transfers_active = self.transfers_active.wrapping_add(1);
            },
            Counted::TransferEnded => {
                self.transfers_active = self.transfers_active.wrapping_sub(1);
            },
            Counted::Upload { transferred, reused } => {
                self.transfers_total_upload = self.transfers_total_upload.wrapping_add(1);
                self.bytes_transferred_upload = self.bytes_transferred_upload.wrapping_add(
                    transferred,
                );
                self.bytes_reused = self.bytes_reused.wrapping_add(reused);
            },
            Counted::Download { transferred } => {
                self.transfers_total_download = self.transfers_total_download.wrapping_add(1);
                self.bytes_transferred_download = self.bytes_transferred_download.wrapping_add(
                    transferred,
                );
            },
            Counted::Denied => {
                self.authz_denials = self.authz_denials.wrapping_add(1);
            },
            Counted::Mismatch => {
                self.checksum_mismatches = self.checksum_mismatches.wrapping_add(1);
            },
        }
    }
}

/// What to do about a frame.
#[derive(Debug)]
pub enum ServerAction {
    /// Send a message; once it is sent, count.
    Send { reply: Message, then: Option<Counted> },
    /// Send a message, and go on even if that fails.
    TrySend(Message),
    /// Send a message if possible, and close the connection.
    Refuse { reply: Message, code: u32, reason: &'static str },
    /// Finish the control stream, and close.
    Finish,
    /// Handle a TRANSFER_CREATE.
    Transfer,
    /// Handle a RESUME.
    Resume,
    /// Handle a STAT.
    Stat,
    /// Handle a LIST.
    List,
    /// Handle a CANCEL.
    Cancel,
}

/// What to do about a frame, by its contents.
pub enum ServerActionView {
    Send { reply: MessageView, then: Option<Counted> },
    TrySend(MessageView),
    Refuse { reply: MessageView, code: u32, reason: &'static str },
    Finish,
    Transfer,
    Resume,
    Stat,
    List,
    Cancel,
}

impl View for ServerAction {
    type V = ServerActionView;

    open spec fn view(&self) -> ServerActionView {
        match *self {
            ServerAction::Send { reply, then } => ServerActionView::Send { reply: reply@, then },
            ServerAction::TrySend(m) => ServerActionView::TrySend(m@),
            ServerAction::Refuse { reply, code, reason } => ServerActionView::Refuse {
                reply: reply@,
                code,
                reason,
            },
            ServerAction::Finish => ServerActionView::Finish,
            ServerAction::Transfer => ServerActionView::Transfer,
            ServerAction::Resume => ServerActionView::Resume,
            ServerAction::Stat => ServerActionView::Stat,
            ServerAction::List => ServerActionView::List,
            ServerAction::Cancel => ServerActionView::Cancel,
        }
    }
}

impl ServerActionView {
    /// The action serves an operation on files or transfers.
    pub open spec fn serves(self) -> bool {
        self is Transfer || self is Resume || self is Stat || self is List || self is Cancel
    }
}

/// An error message.
pub open spec fn error_reply(code: ErrorCode, detail: Seq<char>) -> MessageView {
    MessageView::Error(ErrorMsgView::of(code, detail))
}

/// An ERROR with a code and a detail.
fn error_message(code: ErrorCode, detail: &str) -> (r: Message)
    ensures
        r@ == error_reply(code, detail@),
{
    Message::Error(ErrorMsg::new(code, ErrorDetail::new(detail.to_owned())))
}

/// The one answer for what is not there, what is not valid and what is not
/// allowed.
pub open spec fn not_found() -> MessageView {
    error_reply(ErrorCode::FileNotFound, "not found"@)
}

/// The one answer for what is not there, what is not valid and what is not
/// allowed.
pub fn not_found_reply() -> (r: Message)
    ensures
        r@ == not_found(),
{
    error_message(ErrorCode::FileNotFound, "not found")
}

/// The server side of a connection.
pub struct ServerConn<N: Authenticator, A: Authorizer> {
    /// Capabilities of the server.
    pub server_caps: Capabilities,
    /// Name of the server.
    pub server_name: String,
    /// Verifies identities.
    pub authenticator: N,
    /// Decides about operations.
    pub authorizer: A,
    /// Whether transfer state is recorded.
    pub has_state: bool,
    /// Whether there is a chunk store.
    pub has_chunk_store: bool,
    /// State of the connection.
    pub state: ServerState,
    /// What the TLS connection says about the peer.
    pub peer_identity: Option<Identity>,
    /// The identity that was verified.
    pub identity: Option<Identity>,
}

/// An identity, if there is one.
pub open spec fn identity_view(i: Option<Identity>) -> Option<IdentityView> {
    match i {
        Some(i) => Some(i@),
        None => None,
    }
}

/// What a connection does on a frame: the state after it, the identity after
/// it, and the action.
pub struct Answer {
    pub state: ServerState,
    pub identity: Option<IdentityView>,
    pub action: ServerActionView,
}

impl ServerConn<MtlsAuthenticator, FileAuthorizer> {
    /// A connection without recorded state and without grants.
    pub fn new(server_caps: Capabilities, server_name: &str, peer_identity: Option<Identity>) -> (r:
        Self)
        ensures
            r.server_caps == server_caps,
            r.server_name@ == server_name@,
            r.state == ServerState::AwaitHello,
            r.identity is None,
            r.peer_identity == peer_identity,
            !r.has_state,
            !r.has_chunk_store,
            r.authorizer@ == Seq::<crate::auth::GrantView>::empty(),
    {
        ServerConn::with_state(
            server_caps,
            server_name,
            peer_identity,
            false,
            MtlsAuthenticator::new(),
            FileAuthorizer::new(),
        )
    }
}

impl<N: Authenticator, A: Authorizer> ServerConn<N, A> {
    /// A connection with its authenticator and authorizer.
    pub fn with_state(
        server_caps: Capabilities,
        server_name: &str,
        peer_identity: Option<Identity>,
        has_state: bool,
        authenticator: N,
        authorizer: A,
    ) -> (r: Self)
        ensures
            r.server_caps == server_caps,
            r.server_name@ == server_name@,
            r.state == ServerState::AwaitHello,
            r.identity is None,
            r.peer_identity == peer_identity,
            r.has_state == has_state,
            !r.has_chunk_store,
            r.authenticator == authenticator,
            r.authorizer == authorizer,
    {
        ServerConn {
            server_caps,
            server_name: server_name.to_owned(),
            authenticator,
            authorizer,
            has_state,
            has_chunk_store: false,
            state: ServerState::AwaitHello,
            peer_identity,
            identity: None,
        }
    }

    /// The connection with or without a chunk store.
    pub fn with_chunk_store(self, has_chunk_store: bool) -> (r: Self)
        ensures
            r == (ServerConn { has_chunk_store, ..self }),
    {
        ServerConn { has_chunk_store, ..self }
    }

    /// Serving is only ever reached with a verified identity.
    pub open spec fn well_formed(self) -> bool {
        self.state == ServerState::Serving ==> self.identity is Some
    }

    /// Whether the connection goes on to read a frame; an error in a state
    /// in which there is nothing to read.
    pub fn awaits_frame(&self) -> (r: Result<bool>)
        ensures
            match self.state {
                ServerState::AwaitHello | ServerState::AwaitAuth | ServerState::Serving => r
                    == Ok::<bool, VelcruxError>(true),
                ServerState::Closed => r == Ok::<bool, VelcruxError>(false),
                _ => r matches Err(e) && e.is(
                    Fault::Plain(ProtocolError::InvalidStateTransition(self.state.text())),
                ),
            },
    {
        match self.state {
            ServerState::AwaitHello | ServerState::AwaitAuth | ServerState::Serving => Ok(true),
            ServerState::Closed => Ok(false),
            _ => Err(
                VelcruxError::Protocol(ProtocolError::InvalidStateTransition(self.state.name())),
            ),
        }
    }

    /// What a HELLO comes to.
    pub open spec fn answer_hello(self, t: u8, payload: Seq<u8>) -> std::result::Result<
        Answer,
        ProtocolError,
    > {
        if t != message::HELLO {
            Err(ProtocolError::InvalidStateTransition("expected HELLO"))
        } else {
            match HelloView::parse(payload) {
                Err(e) => Err(e),
                Ok(h) => {
                    let common = Capabilities(h.capabilities.0 & self.server_caps.0);
                    match common.intersection_fault() {
                        Some(s) => Ok(
                            Answer {
                                state: ServerState::Closed,
                                identity: identity_view(self.identity),
                                action: ServerActionView::Refuse {
                                    reply: error_reply(
                                        ErrorCode::ProtocolVersionUnsupported,
                                        s@,
                                    ),
                                    code: ErrorCode::ProtocolVersionUnsupported.wire(),
                                    reason: "no capability intersection",
                                },
                            },
                        ),
                        None => Ok(
                            Answer {
                                state: ServerState::AwaitAuth,
                                identity: identity_view(self.identity),
                                action: ServerActionView::Send {
                                    reply: MessageView::HelloAck(
                                        HelloAckView {
                                            version: PROTOCOL_VERSION,
                                            capabilities: common,
                                            limits: default_limits(),
                                            agent: self.server_name@ + "/"@
                                                + IMPLEMENTATION_VERSION@,
                                        },
                                    ),
                                    then: Some(Counted::Handshake),
                                },
                            },
                        ),
                    }
                },
            }
        }
    }

    /// What an AUTH comes to.
    pub open spec fn answer_auth(self, t: u8, payload: Seq<u8>) -> std::result::Result<
        Answer,
        ProtocolError,
    > {
        if t != message::AUTH {
            Err(ProtocolError::InvalidStateTransition("expected AUTH"))
        } else {
            match AuthView::parse(payload) {
                Err(e) => Err(e),
                Ok(a) => match self.peer_identity {
                    None => Err(ProtocolError::InvalidIdentity("no peer identity")),
                    Some(peer) => match self.authenticator.accepts(peer@) {
                        Err(e) => Err(e),
                        Ok(v) => if a.mechanism != message::AUTH_MECHANISM_MTLS {
                            Ok(
                                Answer {
                                    state: ServerState::Closed,
                                    identity: identity_view(self.identity),
                                    action: ServerActionView::Refuse {
                                        reply: error_reply(
                                            ErrorCode::AuthFailed,
                                            "unsupported auth mechanism"@,
                                        ),
                                        code: ErrorCode::AuthFailed.wire(),
                                        reason: "unsupported auth mechanism",
                                    },
                                },
                            )
                        } else {
                            Ok(
                                Answer {
                                    state: ServerState::Serving,
                                    identity: Some(v),
                                    action: ServerActionView::Send {
                                        reply: MessageView::AuthOk(
                                            AuthOkView {
                                                identity: v.name,
                                                permissions: self.authorizer.permissions(v.name),
                                            },
                                        ),
                                        then: None,
                                    },
                                },
                            )
                        },
                    },
                },
            }
        }
    }

    /// What a frame comes to in SERVING.
    pub open spec fn answer_serving(
        self,
        t: u8,
        payload: Seq<u8>,
        now_ms: u64,
    ) -> std::result::Result<Answer, ProtocolError> {
        let identity = identity_view(self.identity);
        let stay = ServerState::Serving;
        if t == message::PING {
            match Ping::parse(payload) {
                Err(e) => Err(e),
                Ok(p) => Ok(
                    Answer {
                        state: stay,
                        identity,
                        action: ServerActionView::Send {
                            reply: MessageView::Pong(
                                Ping { nonce: p.nonce, sender_ts_ms: now_ms },
                            ),
                            then: Some(Counted::Ping),
                        },
                    },
                ),
            }
        } else if t == message::BYE {
            Ok(
                Answer {
                    state: ServerState::Closed,
                    identity,
                    action: ServerActionView::Finish,
                },
            )
        } else if t == message::TRANSFER_CREATE {
            Ok(Answer { state: stay, identity, action: ServerActionView::Transfer })
        } else if t == message::RESUME {
            Ok(Answer { state: stay, identity, action: ServerActionView::Resume })
        } else if t == message::STAT {
            Ok(Answer { state: stay, identity, action: ServerActionView::Stat })
        } else if t == message::LIST {
            Ok(Answer { state: stay, identity, action: ServerActionView::List })
        } else if t == message::CANCEL {
            Ok(Answer { state: stay, identity, action: ServerActionView::Cancel })
        } else {
            Ok(
                Answer {
                    state: stay,
                    identity,
                    action: ServerActionView::TrySend(
                        error_reply(ErrorCode::UnsupportedMessage, "unsupported"@),
                    ),
                },
            )
        }
    }

    /// What a frame comes to.
    pub open spec fn answer(self, t: u8, payload: Seq<u8>, now_ms: u64) -> std::result::Result<
        Answer,
        ProtocolError,
    > {
        match self.state {
            ServerState::AwaitHello => self.answer_hello(t, payload),
            ServerState::AwaitAuth => self.answer_auth(t, payload),
            ServerState::Serving => self.answer_serving(t, payload, now_ms),
            _ => Err(ProtocolError::InvalidStateTransition(self.state.text())),
        }
    }

    /// Everything but the state and the identity is the same.
    pub open spec fn same_setup(self, other: Self) -> bool {
        &&& self.server_caps == other.server_caps
        &&& self.server_name == other.server_name
        &&& self.authenticator == other.authenticator
        &&& self.authorizer == other.authorizer
        &&& self.has_state == other.has_state
        &&& self.has_chunk_store == other.has_chunk_store
        &&& self.peer_identity == other.peer_identity
    }

    /// Take a frame. On an error the connection is given up.
    pub fn on_frame(&mut self, frame: Frame<'_>, now_ms: u64) -> (r: Result<ServerAction>)
        requires
            old(self).well_formed(),
        ensures
            final(self).well_formed(),
            final(self).same_setup(*old(self)),
            match old(self).answer(frame.type_byte, frame.payload@, now_ms) {
                Ok(a) => {
                    &&& r matches Ok(x) && x@ == a.action
                    &&& final(self).state == a.state
                    &&& identity_view(final(self).identity) == a.identity
                },
                Err(f) => {
                    &&& r matches Err(e) && e.is(Fault::Plain(f))
                    &&& *final(self) == *old(self)
                },
            },
    {
        match self.state {
            ServerState::AwaitHello => self.on_hello(frame),
            ServerState::AwaitAuth => self.on_auth(frame),
            ServerState::Serving => self.on_request(frame, now_ms),
            _ => Err(
                VelcruxError::Protocol(ProtocolError::InvalidStateTransition(self.state.name())),
            ),
        }
    }

    fn on_hello(&mut self, frame: Frame<'_>) -> (r: Result<ServerAction>)
        requires
            old(self).state == ServerState::AwaitHello,
        ensures
            final(self).well_formed(),
            final(self).same_setup(*old(self)),
            match old(self).answer_hello(frame.type_byte, frame.payload@) {
                Ok(a) => {
                    &&& r matches Ok(x) && x@ == a.action
                    &&& final(self).state == a.state
                    &&& identity_view(final(self).identity) == a.identity
                },
                Err(f) => {
                    &&& r matches Err(e) && e.is(Fault::Plain(f))
                    &&& *final(self) == *old(self)
                },
            },
    {
        if frame.type_byte != message::HELLO {
            return Err(
                VelcruxError::Protocol(ProtocolError::InvalidStateTransition("expected HELLO")),
            );
        }
        let hello = match Hello::decode(frame.payload) {
            Ok(h) => h,
            Err(e) => {
                return Err(VelcruxError::Protocol(e));
            },
        };
        let common = hello.capabilities.intersect(self.server_caps);
        match Capabilities::validate_intersection(common) {
            Err(s) => {
                self.state = ServerState::Closed;
                Ok(
                    ServerAction::Refuse {
                        reply: error_message(ErrorCode::ProtocolVersionUnsupported, s),
                        code: ErrorCode::ProtocolVersionUnsupported.to_wire(),
                        reason: "no capability intersection",
                    },
                )
            },
            Ok(()) => {
                let mut agent: String = self.server_name.clone();
                text::push_str(&mut agent, "/");
                text::push_str(&mut agent, IMPLEMENTATION_VERSION);
                self.state = ServerState::AwaitAuth;
                let ack = HelloAck {
                    version: PROTOCOL_VERSION,
                    capabilities: common,
                    limits: Limits::default(),
                    agent,
                };
                Ok(
                    ServerAction::Send {
                        reply: Message::HelloAck(ack),
                        then: Some(Counted::Handshake),
                    },
                )
            },
        }
    }

    fn on_auth(&mut self, frame: Frame<'_>) -> (r: Result<ServerAction>)
        requires
            old(self).state == ServerState::AwaitAuth,
        ensures
            final(self).well_formed(),
            final(self).same_setup(*old(self)),
            match old(self).answer_auth(frame.type_byte, frame.payload@) {
                Ok(a) => {
                    &&& r matches Ok(x) && x@ == a.action
                    &&& final(self).state == a.state
                    &&& identity_view(final(self).identity) == a.identity
                },
                Err(f) => {
                    &&& r matches Err(e) && e.is(Fault::Plain(f))
                    &&& *final(self) == *old(self)
                },
            },
    {
        if frame.type_byte != message::AUTH {
            return Err(
                VelcruxError::Protocol(ProtocolError::InvalidStateTransition("expected AUTH")),
            );
        }
        let auth = match Auth::decode(frame.payload) {
            Ok(a) => a,
            Err(e) => {
                return Err(VelcruxError::Protocol(e));
            },
        };
        let verified = match &self.peer_identity {
            None => {
                return Err(
                    VelcruxError::Protocol(ProtocolError::InvalidIdentity("no peer identity")),
                );
            },
            Some(peer) => match self.authenticator.authenticate(peer) {
                Ok(v) => v,
                Err(e) => {
                    return Err(e);
                },
            },
        };
        if auth.mechanism != message::AUTH_MECHANISM_MTLS {
            self.state = ServerState::Closed;
            return Ok(
                ServerAction::Refuse {
                    reply: error_message(ErrorCode::AuthFailed, "unsupported auth mechanism"),
                    code: ErrorCode::AuthFailed.to_wire(),
                    reason: "unsupported auth mechanism",
                },
            );
        }
        let permissions: u64 = self.authorizer.granted_permissions(&verified).to_wire();
        let reply = Message::AuthOk(AuthOk { identity: verified.name.clone(), permissions });
        self.identity = Some(verified);
        self.state = ServerState::Serving;
        Ok(ServerAction::Send { reply, then: None })
    }

    fn on_request(&mut self, frame: Frame<'_>, now_ms: u64) -> (r: Result<ServerAction>)
        requires
            old(self).state == ServerState::Serving,
            old(self).identity is Some,
        ensures
            final(self).well_formed(),
            final(self).same_setup(*old(self)),
            match old(self).answer_serving(frame.type_byte, frame.payload@, now_ms) {
                Ok(a) => {
                    &&& r matches Ok(x) && x@ == a.action
                    &&& final(self).state == a.state
                    &&& identity_view(final(self).identity) == a.identity
                },
                Err(f) => {
                    &&& r matches Err(e) && e.is(Fault::Plain(f))
                    &&& *final(self) == *old(self)
                },
            },
    {
        let t: u8 = frame.type_byte;
        if t == message::PING {
            return match Ping::decode(frame.payload) {
                Ok(p) => Ok(
                    ServerAction::Send {
                        reply: Message::Pong(Ping { nonce: p.nonce, sender_ts_ms: now_ms }),
                        then: Some(Counted::Ping),
                    },
                ),
                Err(e) => Err(VelcruxError::Protocol(e)),
            };
        }
        if t == message::BYE {
            self.state = ServerState::Closed;
            return Ok(ServerAction::Finish);
        }
        if t == message::TRANSFER_CREATE {
            return Ok(ServerAction::Transfer);
        }
        if t == message::RESUME {
            return Ok(ServerAction::Resume);
        }
        if t == message::STAT {
            return Ok(ServerAction::Stat);
        }
        if t == message::LIST {
            return Ok(ServerAction::List);
        }
        if t == message::CANCEL {
            return Ok(ServerAction::Cancel);
        }
        Ok(
            ServerAction::TrySend(
                error_message(ErrorCode::UnsupportedMessage, "unsupported"),
            ),
        )
    }

    /// The verified identity may perform an operation on a path.
    pub open spec fn allows(self, op: Op, path: Seq<char>) -> bool {
        self.identity matches Some(i) && self.authorizer.verdict(i.name@, op, path) is None
    }

    /// Whether the verified identity may perform an operation on a path.
    pub(crate) fn may(&self, op: Op, path: &str) -> (r: bool)
        ensures
            r == self.allows(op, path@),
    {
        match &self.identity {
            None => false,
            Some(i) => self.authorizer.check(i, op, path).is_ok(),
        }
    }

    /// The transfer that a STAT asks about; none if the request is
    /// malformed, which is not answered.
    pub fn stat_target(payload: &[u8]) -> (r: Option<TransferId>)
        ensures
            match StatQueryView::parse(payload@) {
                Ok(q) => r matches Some(id) && id@ == q.transfer_id,
                Err(_) => r is None,
            },
    {
        match StatQuery::decode(payload) {
            Ok(q) => Some(q.transfer_id),
            Err(_) => None,
        }
    }

    /// What a STAT is answered, from what is recorded of the transfer.
    pub open spec fn stat_answer(self, id: Seq<u8>, found: Option<TransferRecordView>) -> MessageView {
        MessageView::StatResult(
            if !self.has_state {
                no_such_transfer(id, "no_state"@)
            } else {
                match found {
                    Some(r) => if self.allows(Op::List, r.remote_path) {
                        stat_of(r)
                    } else {
                        no_such_transfer(id, "missing"@)
                    },
                    None => no_such_transfer(id, "missing"@),
                }
            },
        )
    }

    /// Answer a STAT, from what is recorded of the transfer.
    pub fn stat_reply(&self, id: TransferId, found: Option<TransferRecord>) -> (r: Message)
        ensures
            r@ == self.stat_answer(
                id@,
                match found {
                    Some(x) => Some(x@),
                    None => None,
                },
            ),
    {
        if !self.has_state {
            return Message::StatResult(missing_result(id, "no_state"));
        }
        match found {
            Some(x) => {
                if self.may(Op::List, x.remote_path.as_str()) {
                    Message::StatResult(stat_result(x))
                } else {
                    Message::StatResult(missing_result(id, "missing"))
                }
            },
            None => Message::StatResult(missing_result(id, "missing")),
        }
    }

    /// The prefix that a LIST asks about, without slashes in front; none if
    /// the request is malformed, which is not answered.
    pub fn list_target(payload: &[u8]) -> (r: Option<String>)
        ensures
            match ListQueryView::parse(payload@) {
                Ok(q) => r matches Some(s) && s@ == text::without_leading(q.url_prefix),
                Err(_) => r is None,
            },
    {
        match ListQuery::decode(payload) {
            Ok(q) => Some(text::trim_start(q.url_prefix.as_str())),
            Err(_) => None,
        }
    }

    /// What a LIST is answered, from the transfers below the prefix: those
    /// that the identity may list.
    pub open spec fn list_answer(self, found: Seq<TransferRecordView>) -> Seq<StatResultView>
        decreases found.len(),
    {
        if found.len() == 0 {
            Seq::empty()
        } else if self.allows(Op::List, found.last().remote_path) {
            self.list_answer(found.drop_last()).push(stat_of(found.last()))
        } else {
            self.list_answer(found.drop_last())
        }
    }

    /// Answer a LIST, from the transfers below the prefix.
    pub fn list_reply(&self, found: Vec<TransferRecord>) -> (r: Message)
        ensures
            r@ == MessageView::ListResult(
                ListResultView {
                    entries: if self.has_state {
                        self.list_answer(state::mock::record_views(found@))
                    } else {
                        Seq::empty()
                    },
                },
            ),
    {
        let mut entries: Vec<StatResult> = Vec::new();
        let ghost all = state::mock::record_views(found@);
        assert(entries@.map_values(|e: StatResult| e@) =~= Seq::empty());
        if self.has_state {
            let mut i: usize = 0;
            assert(all.take(0) =~= Seq::empty());
            while i < found.len()
                invariant
                    i <= found.len(),
                    all == state::mock::record_views(found@),
                    entries@.map_values(|e: StatResult| e@) == self.list_answer(
                        all.take(i as int),
                    ),
                decreases found.len() - i,
            {
                let x = &found[i];
                proof {
                    assert(all.take(i + 1).drop_last() =~= all.take(i as int));
                    assert(all.take(i + 1).last() == x@);
                }
                if self.may(Op::List, x.remote_path.as_str()) {
                    let ghost had = entries@.map_values(|e: StatResult| e@);
                    entries.push(stat_result(x.clone()));
                    assert(entries@.map_values(|e: StatResult| e@) =~= had.push(stat_of(x@)));
                }
                i = i + 1;
            }
            assert(all.take(i as int) =~= all);
        }
        Message::ListResult(ListResult { entries })
    }

    /// The transfer that a CANCEL names; none if the request is malformed.
    pub fn cancel_target(payload: &[u8]) -> (r: Option<TransferId>)
        ensures
            match CancelView::parse(payload@) {
                Ok(c) => r matches Some(id) && id@ == c.transfer_id,
                Err(_) => r is None,
            },
    {
        match Cancel::decode(payload) {
            Ok(c) => Some(c.transfer_id),
            Err(_) => None,
        }
    }

    /// Whether a transfer is to be cancelled, from what is recorded of it.
    /// An unknown one and one that the identity may not touch are both
    /// ignored.
    pub fn cancels(&self, found: &Option<TransferRecord>) -> (r: bool)
        ensures
            r == (self.has_state && match *found {
                Some(x) => self.allows(
                    match x.direction {
                        Direction::Upload => Op::Upload,
                        Direction::Download => Op::Download,
                    },
                    x.remote_path@,
                ),
                None => false,
            }),
    {
        if !self.has_state {
            return false;
        }
        match found {
            None => false,
            Some(x) => {
                let op = match x.direction {
                    Direction::Upload => Op::Upload,
                    Direction::Download => Op::Download,
                };
                self.may(op, x.remote_path.as_str())
            },
        }
    }
}

/// What is recorded of a transfer once it is cancelled.
pub fn cancelled_record(r: TransferRecord, now_ms: u64) -> (n: TransferRecord)
    ensures
        n@ == (TransferRecordView {
            status: TransferStatus::Cancelled,
            updated_ms: now_ms,
            ..r@
        }),
{
    TransferRecord { status: TransferStatus::Cancelled, updated_ms: now_ms, ..r }
}

/// The limits that a server announces.
pub open spec fn default_limits() -> Limits {
    Limits {
        max_message_size: crate::protocol::limits::MAX_MESSAGE_SIZE,
        max_chunk_size: crate::protocol::limits::MAX_CHUNK_SIZE,
        max_manifest_entries: crate::protocol::limits::MAX_MANIFEST_ENTRIES,
        max_concurrent_streams: 32,
    }
}

/// What is said of a transfer.
pub open spec fn stat_of(r: TransferRecordView) -> StatResultView {
    StatResultView {
        transfer_id: r.transfer_id,
        found: true,
        status: r.status.text()@,
        direction: r.direction.text()@,
        remote_path: r.remote_path,
        file_size: r.file_size,
        bytes_completed: r.bytes_completed,
        verified_up_to: r.verified_up_to,
        created_ms: r.created_ms,
        updated_ms: r.updated_ms,
    }
}

fn stat_result(r: TransferRecord) -> (s: StatResult)
    ensures
        s@ == stat_of(r@),
{
    StatResult {
        transfer_id: r.transfer_id,
        found: true,
        status: r.status.name().to_owned(),
        direction: r.direction.name().to_owned(),
        remote_path: r.remote_path,
        file_size: r.file_size,
        bytes_completed: r.bytes_completed,
        verified_up_to: r.verified_up_to,
        created_ms: r.created_ms,
        updated_ms: r.updated_ms,
    }
}

/// What is said of a transfer that is not there.
pub open spec fn no_such_transfer(id: Seq<u8>, status: Seq<char>) -> StatResultView {
    StatResultView {
        transfer_id: id,
        found: false,
        status,
        direction: ""@,
        remote_path: ""@,
        file_size: 0,
        bytes_completed: 0,
        verified_up_to: 0,
        created_ms: 0,
        updated_ms: 0,
    }
}

fn missing_result(id: TransferId, status: &str) -> (s: StatResult)
    ensures
        s@ == no_such_transfer(id@, status@),
{
    StatResult {
        transfer_id: id,
        found: false,
        status: status.to_owned(),
        direction: "".to_owned(),
        remote_path: "".to_owned(),
        file_size: 0,
        bytes_completed: 0,
        verified_up_to: 0,
        created_ms: 0,
        updated_ms: 0,
    }
}

/// Nothing is served to a peer whose identity was not verified: only a
/// connection in SERVING serves, and it has a verified identity.
pub proof fn law_served_only_authenticated<N: Authenticator, A: Authorizer>(
    c: ServerConn<N, A>,
    t: u8,
    payload: Seq<u8>,
    now_ms: u64,
)
    requires
        c.well_formed(),
        c.answer(t, payload, now_ms) matches Ok(a) && a.action.serves(),
    ensures
        c.state == ServerState::Serving,
        c.identity is Some,
{
}

/// SERVING is entered only from AWAIT_AUTH, by an AUTH of a peer whose
/// identity is accepted; and AWAIT_AUTH only from AWAIT_HELLO, with a set of
/// capabilities that both sides have and that is enough.
pub proof fn law_states_in_order<N: Authenticator, A: Authorizer>(
    c: ServerConn<N, A>,
    t: u8,
    payload: Seq<u8>,
    now_ms: u64,
)
    requires
        c.answer(t, payload, now_ms) matches Ok(a) && a.state != c.state,
    ensures
        ({
            let a = c.answer(t, payload, now_ms)->Ok_0;
            &&& a.state == ServerState::Serving ==> c.state == ServerState::AwaitAuth && t
                == message::AUTH && (c.peer_identity matches Some(p) && (
            c.authenticator.accepts(p@) matches Ok(v) && a.identity == Some(v)))
            &&& a.state == ServerState::AwaitAuth ==> c.state == ServerState::AwaitHello && t
                == message::HELLO && (HelloView::parse(payload) matches Ok(h) && Capabilities(
                h.capabilities.0 & c.server_caps.0,
            ).intersection_fault() is None)
            &&& a.state == ServerState::Serving || a.state == ServerState::AwaitAuth || a.state
                == ServerState::Closed
        }),
{
}

/// A STAT about a transfer that the identity may not list is answered as one
/// about a transfer that does not exist.
pub proof fn law_stat_denied_like_missing<N: Authenticator, A: Authorizer>(
    c: ServerConn<N, A>,
    id: Seq<u8>,
    r: TransferRecordView,
)
    requires
        !c.allows(Op::List, r.remote_path),
    ensures
        c.stat_answer(id, Some(r)) == c.stat_answer(id, None),
{
}

/// A LIST shows nothing that the identity may not list.
pub proof fn law_list_shows_only_allowed<N: Authenticator, A: Authorizer>(
    c: ServerConn<N, A>,
    found: Seq<TransferRecordView>,
)
    ensures
        forall|k: int|
            0 <= k < c.list_answer(found).len() ==> c.allows(
                Op::List,
                (#[trigger] c.list_answer(found)[k]).remote_path,
            ),
        forall|i: int|
            0 <= i < found.len() && c.allows(Op::List, (#[trigger] found[i]).remote_path)
                ==> c.list_answer(found).contains(stat_of(found[i])),
    decreases found.len(),
{
    if found.len() > 0 {
        let less = found.drop_last();
        law_list_shows_only_allowed(c, less);
        let short = c.list_answer(less);
        let all = c.list_answer(found);
        assert forall|k: int| 0 <= k < all.len() implies c.allows(
            Op::List,
            (#[trigger] all[k]).remote_path,
        ) by {
            if k < short.len() {
                assert(all[k] == short[k]);
            }
        }
        assert forall|i: int|
            0 <= i < found.len() && c.allows(
                Op::List,
                (#[trigger] found[i]).remote_path,
            ) implies all.contains(stat_of(found[i])) by {
            if i < less.len() {
                assert(less[i] == found[i]);
                let k = choose|k: int| 0 <= k < short.len() && short[k] == stat_of(found[i]);
                assert(all[k] == stat_of(found[i]));
            } else {
                assert(all[all.len() - 1] == stat_of(found[i]));
            }
        }
    }
}

} // verus!
