use muta_network::endpoint::{endpoint_handler_kind, Endpoint, EndpointError, EndpointScheme, NetworkError};
use muta_network::event::{
    ConnectionErrorKind, ConnectionType, DialerErrorKind, Event, IoError, Keeper, KeeperAction,
    ListenErrorKind, ProtocolIdentity, PublicKey, ServiceError, ServiceEvent, SessionContext,
    SessionErrorKind, SessionType, TransportErrorKind,
};
use muta_network::p2p::{
    require_listening, send_mode, Error, Message, Priority, ProtocolBook, ProtocolReplaced,
    SendErrorKind, SendMode, TargetSession,
};

fn session(id: u64, key: Option<PublicKey>) -> SessionContext {
    SessionContext { id, address: b"/ip4/127.0.0.1/tcp/1337".to_vec(), ty: SessionType::Inbound, remote_pubkey: key }
}

fn key() -> PublicKey {
    PublicKey { bytes: vec![2, 3, 4], peer_id: vec![9, 9] }
}

#[test]
fn dial_errors_become_connect_failures() {
    let keeper = Keeper::new();
    match keeper.handle_dailer_error(vec![1], DialerErrorKind::RepeatedConnection(5)) {
        Event::RepeatedConnection { ty, sid, addr } => {
            assert_eq!((ty, sid, addr), (ConnectionType::Outbound, 5, vec![1]))
        }
        other => panic!("unexpected {:?}", other),
    }
    match keeper.handle_dailer_error(vec![2], DialerErrorKind::PeerIdNotMatch) {
        Event::ConnectFailed { addr, kind: ConnectionErrorKind::PeerIdNotMatch } => assert_eq!(addr, vec![2]),
        other => panic!("unexpected {:?}", other),
    }
    match keeper.handle_dailer_error(vec![3], DialerErrorKind::HandshakeError("bad".to_string())) {
        Event::ConnectFailed { kind: ConnectionErrorKind::SecioHandshake(m), .. } => assert_eq!(m, "bad"),
        other => panic!("unexpected {:?}", other),
    }
    let dns = TransportErrorKind::DNSResolverError { message: "no host".to_string() };
    match keeper.handle_dailer_error(vec![4], DialerErrorKind::TransportError(dns)) {
        Event::ConnectFailed { kind: ConnectionErrorKind::DNSResolver(m), .. } => assert_eq!(m, "no host"),
        other => panic!("unexpected {:?}", other),
    }
}

#[test]
fn listen_errors_become_connect_failures() {
    let keeper = Keeper::new();
    match keeper.handle_listen_error(vec![6], ListenErrorKind::RepeatedConnection(3)) {
        Event::RepeatedConnection { ty, sid, addr } => {
            assert_eq!((ty, sid, addr), (ConnectionType::Inbound, 3, vec![6]))
        }
        other => panic!("unexpected {:?}", other),
    }
    match keeper.handle_listen_error(vec![7], ListenErrorKind::TransportError(TransportErrorKind::NotSupported(vec![8]))) {
        Event::ConnectFailed { addr, kind: ConnectionErrorKind::MultiaddrNotSuppored(a) } => {
            assert_eq!((addr, a), (vec![7], vec![8]))
        }
        other => panic!("unexpected {:?}", other),
    }
    match keeper.handle_listen_error(vec![7], ListenErrorKind::IoError(IoError::TimedOut)) {
        Event::ConnectFailed { kind: ConnectionErrorKind::Io(IoError::TimedOut), .. } => {}
        other => panic!("unexpected {:?}", other),
    }
}

#[test]
fn service_errors_are_reported() {
    let keeper = Keeper::new();
    match keeper.handle_error(ServiceError::SessionTimeout { session_context: session(11, None) }) {
        Event::SessionFailed { sid: 11, kind: SessionErrorKind::Io(IoError::TimedOut) } => {}
        other => panic!("unexpected {:?}", other),
    }
    match keeper.handle_error(ServiceError::ProtocolError { id: 3, proto_id: 4, error: "x".to_string() }) {
        Event::SessionFailed { sid: 3, kind: SessionErrorKind::Protocol { identity, cause } } => {
            assert_eq!(identity, Some(ProtocolIdentity::Id(4)));
            assert_eq!(cause, Some("x".to_string()));
        }
        other => panic!("unexpected {:?}", other),
    }
    let select = ServiceError::ProtocolSelectError { session_context: session(6, None), proto_name: Some("p".to_string()) };
    match keeper.handle_error(select) {
        Event::SessionFailed { sid: 6, kind: SessionErrorKind::Protocol { identity, cause: None } } => {
            assert_eq!(identity, Some(ProtocolIdentity::Name("p".to_string())))
        }
        other => panic!("unexpected {:?}", other),
    }
    match keeper.handle_error(ServiceError::ProtocolHandleError { proto_id: 8, error: "leak".to_string() }) {
        Event::BadProtocolHandle { proto_id, cause } => {
            assert_eq!((proto_id, cause), (ProtocolIdentity::Id(8), "leak".to_string()))
        }
        other => panic!("unexpected {:?}", other),
    }
    match keeper.handle_error(ServiceError::SessionBlocked { session_context: session(2, None) }) {
        Event::SessionBlocked { ctx } => assert_eq!(ctx.id, 2),
        other => panic!("unexpected {:?}", other),
    }
}

#[test]
fn sessions_without_keys_are_dropped() {
    let keeper = Keeper::new();
    assert!(matches!(
        keeper.handle_event(ServiceEvent::SessionOpen { session_context: session(4, None) }),
        KeeperAction::Disconnect(4)
    ));
    assert!(matches!(
        keeper.handle_event(ServiceEvent::SessionClose { session_context: session(4, None) }),
        KeeperAction::Ignore
    ));
}

#[test]
fn sessions_with_keys_are_reported() {
    let keeper = Keeper::new();
    match keeper.handle_event(ServiceEvent::SessionOpen { session_context: session(5, Some(key())) }) {
        KeeperAction::Report(Event::NewSession { pubkey, ctx }) => {
            assert_eq!(pubkey, key());
            assert_eq!(ctx.id, 5);
        }
        other => panic!("unexpected {:?}", other),
    }
    match keeper.handle_event(ServiceEvent::SessionClose { session_context: session(5, Some(key())) }) {
        KeeperAction::Report(Event::SessionClosed { pid, sid }) => assert_eq!((pid, sid), (vec![9, 9], 5)),
        other => panic!("unexpected {:?}", other),
    }
    match keeper.handle_event(ServiceEvent::ListenStarted { address: vec![1, 2] }) {
        KeeperAction::Report(Event::AddNewListenAddr { addr }) => assert_eq!(addr, vec![1, 2]),
        other => panic!("unexpected {:?}", other),
    }
    match keeper.handle_event(ServiceEvent::ListenClose { address: vec![3] }) {
        KeeperAction::Report(Event::RemoveListenAddr { addr }) => assert_eq!(addr, vec![3]),
        other => panic!("unexpected {:?}", other),
    }
}

#[test]
fn endpoints_are_checked_in_order() {
    assert_eq!(Endpoint::try_from("").unwrap_err(), EndpointError::Invalid(""));
    let long: &'static str = Box::leak(format!("/muta/rpc/{}", "a".repeat(200)).into_boxed_str());
    assert_eq!(Endpoint::try_from(long).unwrap_err(), EndpointError::TooLong);
    assert_eq!(Endpoint::try_from("/other/x").unwrap_err(), EndpointError::UnsupportedScheme("/other/x"));
    let rpc = Endpoint::try_from("/muta/rpc/get_block").unwrap();
    assert_eq!(rpc.scheme(), EndpointScheme::Rpc);
    assert_eq!(rpc.as_str(), "/muta/rpc/get_block");
    let gossip = Endpoint::try_from("/muta/multicast/new_tx").unwrap();
    assert_eq!(gossip.scheme(), EndpointScheme::MultiCast);
}

#[test]
fn endpoint_of_exactly_the_limit_is_accepted() {
    let text: &'static str = Box::leak(format!("/muta/rpc/{}", "b".repeat(110)).into_boxed_str());
    assert_eq!(text.len(), 120);
    assert!(Endpoint::try_from(text).is_ok());
    let text: &'static str = Box::leak(format!("/muta/rpc/{}", "b".repeat(111)).into_boxed_str());
    assert_eq!(Endpoint::try_from(text).unwrap_err(), EndpointError::TooLong);
}

#[test]
fn handlers_are_chosen_by_prefix() {
    assert_eq!(endpoint_handler_kind("/muta/rpc/ping"), Ok(EndpointScheme::Rpc));
    assert_eq!(endpoint_handler_kind("/muta/multicast/tx"), Ok(EndpointScheme::MultiCast));
    assert_eq!(endpoint_handler_kind("/muta/rpc"), Err(NetworkError::UnsupportedEndpoint("/muta/rpc")));
}

#[test]
fn send_errors_convert() {
    assert_eq!(Error::from(SendErrorKind::BrokenPipe), Error::Shutdown);
    assert_eq!(Error::from(SendErrorKind::WouldBlock), Error::Busy);
    assert_eq!(require_listening(false), Err(Error::NoListen));
    assert_eq!(require_listening(true), Ok(()));
    assert_eq!(send_mode(Priority::High), SendMode::Quick);
    assert_eq!(send_mode(Priority::Normal), SendMode::Queued);
    let m = Message::new(TargetSession::Multi(vec![1, 2]), 7, vec![5]);
    assert_eq!((m.recipients, m.protocol_id, m.content), (TargetSession::Multi(vec![1, 2]), 7, vec![5]));
}

#[test]
fn registering_a_protocol_twice_replaces_it() {
    let mut book = ProtocolBook::new();
    assert_eq!(book.get("identify"), None);
    assert_eq!(book.register("identify", 1), None);
    assert_eq!(book.register("ping", 2), None);
    assert_eq!(book.register("identify", 3), Some(ProtocolReplaced("identify")));
    assert_eq!(book.get("identify"), Some(3));
    assert_eq!(book.get("ping"), Some(2));
}
