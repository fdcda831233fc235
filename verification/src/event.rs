//! Events that the p2p service reports to the network, and the keeper that
//! turns the transport's errors and notifications into them.
//!
//! Addresses are carried as the bytes of a multiaddr, keys and peer ids as bytes,
//! and error causes as their text: the keeper only moves them into the event.
use vstd::prelude::*;

verus! {

/// The kind of an I/O error that reaches the keeper.
#[derive(Debug, Clone, PartialEq, Eq)]
pub enum IoError {
    TimedOut,
    Other(String),
}

/// A public key as seen by the transport, with the peer id derived from it.
#[derive(Debug, PartialEq, Eq)]
pub struct PublicKey {
    pub bytes: Vec<u8>,
    pub peer_id: Vec<u8>,
}

impl PublicKey {
    pub open spec fn view(&self) -> (Seq<u8>, Seq<u8>) {
        (self.bytes@, self.peer_id@)
    }

    pub fn duplicate(&self) -> (r: PublicKey)
        ensures
            r@ == self@,
    {
        PublicKey {
            bytes: vstd::slice::slice_to_vec(self.bytes.as_slice()),
            peer_id: vstd::slice::slice_to_vec(self.peer_id.as_slice()),
        }
    }
}

impl Clone for PublicKey {
    fn clone(&self) -> (r: PublicKey)
        ensures
            r@ == self@,
    {
        self.duplicate()
    }
}

/// Direction of a session.
#[derive(Debug, Clone, Copy, PartialEq, Eq, Structural)]
pub enum SessionType {
    Inbound,
    Outbound,
}

/// What the transport knows of a session.
#[derive(Debug, Clone)]
pub struct SessionContext {
    pub id: u64,
    pub address: Vec<u8>,
    pub ty: SessionType,
    pub remote_pubkey: Option<PublicKey>,
}

#[derive(Debug, Clone, PartialEq, Eq)]
pub enum ProtocolIdentity {
    Id(u64),
    Name(String),
}

#[derive(Debug, Clone, Copy, PartialEq, Eq, Structural)]
pub enum ConnectionType {
    /// A repeated connection was received (on a listener).
    Inbound,
    /// A repeated connection was dialed.
    Outbound,
}

#[derive(Debug, Clone)]
pub enum ConnectionErrorKind {
    Io(IoError),
    DNSResolver(String),
    MultiaddrNotSuppored(Vec<u8>),
    SecioHandshake(String),
    PeerIdNotMatch,
}

#[derive(Debug, Clone)]
pub enum SessionErrorKind {
    Io(IoError),
    Protocol { identity: Option<ProtocolIdentity>, cause: Option<String> },
    Unexpected(String),
}

/// Events of the p2p service.
#[derive(Debug, Clone)]
pub enum Event {
    NewSession { pubkey: PublicKey, ctx: SessionContext },
    ConnectFailed { addr: Vec<u8>, kind: ConnectionErrorKind },
    SessionFailed { sid: u64, kind: SessionErrorKind },
    SessionBlocked { ctx: SessionContext },
    SessionClosed { pid: Vec<u8>, sid: u64 },
    RepeatedConnection { ty: ConnectionType, sid: u64, addr: Vec<u8> },
    BadProtocolHandle { proto_id: ProtocolIdentity, cause: String },
    AddNewListenAddr { addr: Vec<u8> },
    RemoveListenAddr { addr: Vec<u8> },
    Shutdown,
    ProtocolConnected { proto_id: u64, sid: u64 },
    ProtocolDisconnected { proto_id: u64, sid: u64 },
}

/// Errors of the transport layer.
#[derive(Debug, Clone)]
pub enum TransportErrorKind {
    Io(IoError),
    NotSupported(Vec<u8>),
    /// A name could not be resolved; `message` is the error's text.
    DNSResolverError { message: String },
}

/// Why dialing an address failed.
#[derive(Debug, Clone)]
pub enum DialerErrorKind {
    IoError(IoError),
    PeerIdNotMatch,
    RepeatedConnection(u64),
    HandshakeError(String),
    TransportError(TransportErrorKind),
}

/// Why listening on an address failed.
#[derive(Debug, Clone)]
pub enum ListenErrorKind {
    IoError(IoError),
    RepeatedConnection(u64),
    TransportError(TransportErrorKind),
}

/// Errors that the transport service reports to its handle.
#[derive(Debug, Clone)]
#[allow(inconsistent_fields)]
pub enum ServiceError {
    DialerError { address: Vec<u8>, error: DialerErrorKind },
    ListenError { address: Vec<u8>, error: ListenErrorKind },
    ProtocolSelectError { session_context: SessionContext, proto_name: Option<String> },
    ProtocolError { id: u64, proto_id: u64, error: String },
    SessionTimeout { session_context: SessionContext },
    MuxerError { session_context: SessionContext, error: IoError },
    ProtocolHandleError { proto_id: u64, error: String },
    SessionBlocked { session_context: SessionContext },
}

/// Notifications that the transport service reports to its handle.
#[derive(Debug, Clone)]
pub enum ServiceEvent {
    SessionOpen { session_context: SessionContext },
    SessionClose { session_context: SessionContext },
    ListenStarted { address: Vec<u8> },
    ListenClose { address: Vec<u8> },
}

/// What the keeper does about a notification.
#[derive(Debug, Clone)]
pub enum KeeperAction {
    /// Send this event to the network.
    Report(Event),
    /// Disconnect this session (a session without a public key).
    Disconnect(u64),
    /// Nothing to report.
    Ignore,
}

impl ConnectionErrorKind {
    pub open spec fn spec_from_transport_error(err: TransportErrorKind) -> ConnectionErrorKind {
        match err {
            TransportErrorKind::Io(e) => ConnectionErrorKind::Io(e),
            TransportErrorKind::NotSupported(addr) => ConnectionErrorKind::MultiaddrNotSuppored(addr),
            TransportErrorKind::DNSResolverError { message } => ConnectionErrorKind::DNSResolver(message),
        }
    }

    pub fn from_transport_error(err: TransportErrorKind) -> (r: ConnectionErrorKind)
        ensures
            r == Self::spec_from_transport_error(err),
    {
        match err {
            TransportErrorKind::Io(e) => ConnectionErrorKind::Io(e),
            TransportErrorKind::NotSupported(addr) => ConnectionErrorKind::MultiaddrNotSuppored(addr),
            TransportErrorKind::DNSResolverError { message } => ConnectionErrorKind::DNSResolver(message),
        }
    }
}

/// The event reported for a failed dial of `addr`.
pub open spec fn dialer_error_event(addr: Vec<u8>, error: DialerErrorKind) -> Event {
    match error {
        DialerErrorKind::RepeatedConnection(sid) => Event::RepeatedConnection {
            ty: ConnectionType::Outbound,
            sid,
            addr,
        },
        DialerErrorKind::IoError(e) => Event::ConnectFailed { addr, kind: ConnectionErrorKind::Io(e) },
        DialerErrorKind::PeerIdNotMatch => Event::ConnectFailed { addr, kind: ConnectionErrorKind::PeerIdNotMatch },
        DialerErrorKind::HandshakeError(e) => Event::ConnectFailed { addr, kind: ConnectionErrorKind::SecioHandshake(e) },
        DialerErrorKind::TransportError(e) => Event::ConnectFailed {
            addr,
            kind: ConnectionErrorKind::spec_from_transport_error(e),
        },
    }
}

/// The event reported for a failed listen on `addr`; a repeated connection that
/// reaches the listener was received, so it is reported as inbound.
pub open spec fn listen_error_event(addr: Vec<u8>, error: ListenErrorKind) -> Event {
    match error {
        ListenErrorKind::RepeatedConnection(sid) => Event::RepeatedConnection {
            ty: ConnectionType::Inbound,
            sid,
            addr,
        },
        ListenErrorKind::IoError(e) => Event::ConnectFailed { addr, kind: ConnectionErrorKind::Io(e) },
        ListenErrorKind::TransportError(e) => Event::ConnectFailed {
            addr,
            kind: ConnectionErrorKind::spec_from_transport_error(e),
        },
    }
}

/// The event reported for a service error.
pub open spec fn service_error_event(error: ServiceError) -> Event {
    match error {
        ServiceError::DialerError { address, error } => dialer_error_event(address, error),
        ServiceError::ListenError { address, error } => listen_error_event(address, error),
        ServiceError::ProtocolSelectError { session_context, proto_name } => Event::SessionFailed {
            sid: session_context.id,
            kind: SessionErrorKind::Protocol {
                identity: match proto_name {
                    Some(n) => Some(ProtocolIdentity::Name(n)),
                    None => None,
                },
                cause: None,
            },
        },
        ServiceError::ProtocolError { id, proto_id, error } => Event::SessionFailed {
            sid: id,
            kind: SessionErrorKind::Protocol {
                identity: Some(ProtocolIdentity::Id(proto_id)),
                cause: Some(error),
            },
        },
        ServiceError::SessionTimeout { session_context } => Event::SessionFailed {
            sid: session_context.id,
            kind: SessionErrorKind::Io(IoError::TimedOut),
        },
        ServiceError::MuxerError { session_context, error } => Event::SessionFailed {
            sid: session_context.id,
            kind: SessionErrorKind::Io(error),
        },
        ServiceError::ProtocolHandleError { proto_id, error } => Event::BadProtocolHandle {
            proto_id: ProtocolIdentity::Id(proto_id),
            cause: error,
        },
        ServiceError::SessionBlocked { session_context } => Event::SessionBlocked { ctx: session_context },
    }
}

/// Whether `action` is what the keeper does about `event`: a session opened with a
/// public key is reported as a new session (the key reported is a copy of the
/// session's), one opened without a key is disconnected; a closed session is
/// reported with its peer id, or ignored without a key; listen changes are reported.
pub open spec fn service_event_action(event: ServiceEvent, action: KeeperAction) -> bool {
    match event {
        ServiceEvent::SessionOpen { session_context } => match session_context.remote_pubkey {
            Some(key) => action matches KeeperAction::Report(Event::NewSession { pubkey, ctx })
                && pubkey@ == key@ && ctx == session_context,
            None => action == KeeperAction::Disconnect(session_context.id),
        },
        ServiceEvent::SessionClose { session_context } => match session_context.remote_pubkey {
            Some(key) => action == KeeperAction::Report(Event::SessionClosed { pid: key.peer_id, sid: session_context.id }),
            None => action == KeeperAction::Ignore,
        },
        ServiceEvent::ListenStarted { address } => action == KeeperAction::Report(Event::AddNewListenAddr { addr: address }),
        ServiceEvent::ListenClose { address } => action == KeeperAction::Report(Event::RemoveListenAddr { addr: address }),
    }
}

/// Turns the transport's errors and notifications into network events.
pub struct Keeper;

impl Keeper {
    pub fn new() -> (r: Keeper)
        ensures
            r == Keeper,
    {
        Keeper
    }

    pub fn handle_dailer_error(&self, addr: Vec<u8>, error: DialerErrorKind) -> (r: Event)
        ensures
            r == dialer_error_event(addr, error),
    {
        let kind = match error {
            DialerErrorKind::IoError(e) => ConnectionErrorKind::Io(e),
            DialerErrorKind::PeerIdNotMatch => ConnectionErrorKind::PeerIdNotMatch,
            DialerErrorKind::RepeatedConnection(sid) => {
                return Event::RepeatedConnection { ty: ConnectionType::Outbound, sid, addr };
            },
            DialerErrorKind::HandshakeError(e) => ConnectionErrorKind::SecioHandshake(e),
            DialerErrorKind::TransportError(e) => ConnectionErrorKind::from_transport_error(e),
        };
        Event::ConnectFailed { addr, kind }
    }

    pub fn handle_listen_error(&self, addr: Vec<u8>, error: ListenErrorKind) -> (r: Event)
        ensures
            r == listen_error_event(addr, error),
    {
        let kind = match error {
            ListenErrorKind::IoError(e) => ConnectionErrorKind::Io(e),
            ListenErrorKind::RepeatedConnection(sid) => {
                return Event::RepeatedConnection { ty: ConnectionType::Inbound, sid, addr };
            },
            ListenErrorKind::TransportError(e) => ConnectionErrorKind::from_transport_error(e),
        };
        Event::ConnectFailed { addr, kind }
    }

    /// The event to report for a service error; every error is reported.
    pub fn handle_error(&self, error: ServiceError) -> (r: Event)
        ensures
            r == service_error_event(error),
    {
        match error {
            ServiceError::DialerError { error, address } => self.handle_dailer_error(address, error),
            ServiceError::ListenError { error, address } => self.handle_listen_error(address, error),
            ServiceError::ProtocolSelectError { session_context, proto_name } => {
                let protocol_identity = match proto_name {
                    Some(name) => Some(ProtocolIdentity::Name(name)),
                    None => None,
                };
                let kind = SessionErrorKind::Protocol { identity: protocol_identity, cause: None };
                Event::SessionFailed { sid: session_context.id, kind }
            },
            ServiceError::ProtocolError { id, error, proto_id } => {
                let kind = SessionErrorKind::Protocol {
                    identity: Some(ProtocolIdentity::Id(proto_id)),
                    cause: Some(error),
                };
                Event::SessionFailed { sid: id, kind }
            },
            ServiceError::SessionTimeout { session_context } => Event::SessionFailed {
                sid: session_context.id,
                kind: SessionErrorKind::Io(IoError::TimedOut),
            },
            ServiceError::MuxerError { session_context, error } => Event::SessionFailed {
                sid: session_context.id,
                kind: SessionErrorKind::Io(error),
            },
            ServiceError::ProtocolHandleError { error, proto_id } => Event::BadProtocolHandle {
                proto_id: ProtocolIdentity::Id(proto_id),
                cause: error,
            },
            ServiceError::SessionBlocked { session_context } => Event::SessionBlocked { ctx: session_context },
        }
    }

    /// What to do about a service notification: a session opened or closed
    /// without a public key is disconnected or ignored; everything else is reported.
    pub fn handle_event(&self, event: ServiceEvent) -> (r: KeeperAction)
        ensures
            service_event_action(event, r),
    {
        match event {
            ServiceEvent::SessionOpen { session_context } => {
                match &session_context.remote_pubkey {
                    Some(key) => {
                        let pubkey = key.duplicate();
                        KeeperAction::Report(Event::NewSession { pubkey, ctx: session_context })
                    },
                    None => KeeperAction::Disconnect(session_context.id),
                }
            },
            ServiceEvent::SessionClose { session_context } => {
                match session_context.remote_pubkey {
                    Some(pubkey) => KeeperAction::Report(Event::SessionClosed { pid: pubkey.peer_id, sid: session_context.id }),
                    None => KeeperAction::Ignore,
                }
            },
            ServiceEvent::ListenStarted { address } => KeeperAction::Report(Event::AddNewListenAddr { addr: address }),
            ServiceEvent::ListenClose { address } => KeeperAction::Report(Event::RemoveListenAddr { addr: address }),
        }
    }
}

} // verus!
