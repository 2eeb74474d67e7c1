use silkroad_core::server::{AcceptorAction, AcceptorEvent, ConnectionId, SilkroadServer};

const A: ConnectionId = ConnectionId(1);
const B: ConnectionId = ConnectionId(2);
const C: ConnectionId = ConnectionId(3);

#[test]
fn poll_on_a_fresh_acceptor_returns_at_once_with_nothing() {
    let mut server = SilkroadServer::new();
    assert!(!server.is_cancelled());
    assert_eq!(server.connected(), None);
    assert_eq!(server.handle(AcceptorEvent::Poll), AcceptorAction::Nothing);
}

#[test]
fn sessions_are_handed_over_in_the_order_their_handshakes_finish() {
    let mut server = SilkroadServer::new();
    assert_eq!(server.incoming(A), AcceptorAction::StartHandshake(A));
    assert_eq!(server.incoming(B), AcceptorAction::StartHandshake(B));
    assert_eq!(server.incoming(C), AcceptorAction::StartHandshake(C));
    assert_eq!(server.connected(), None);
    assert_eq!(server.handshake_succeeded(C), AcceptorAction::Published(C));
    assert_eq!(server.handshake_succeeded(A), AcceptorAction::Published(A));
    assert_eq!(server.connected(), Some(C));
    assert_eq!(server.connected(), Some(A));
    assert_eq!(server.connected(), None);
}

#[test]
fn a_failed_handshake_publishes_nothing() {
    let mut server = SilkroadServer::new();
    server.incoming(A);
    assert_eq!(server.handshake_failed(A), AcceptorAction::LogFailure(A));
    assert_eq!(server.connected(), None);
    assert_eq!(server.handshake_succeeded(A), AcceptorAction::Nothing);
    assert_eq!(server.handshake_failed(A), AcceptorAction::Nothing);
    assert_eq!(server.connected(), None);
}

#[test]
fn a_handshake_cannot_succeed_twice() {
    let mut server = SilkroadServer::new();
    server.incoming(A);
    assert_eq!(server.incoming(A), AcceptorAction::Refuse(A));
    assert_eq!(server.handshake_succeeded(A), AcceptorAction::Published(A));
    assert_eq!(server.handshake_succeeded(A), AcceptorAction::Nothing);
    assert_eq!(server.incoming(A), AcceptorAction::Refuse(A));
    assert_eq!(server.connected(), Some(A));
    assert_eq!(server.connected(), None);
    assert_eq!(server.incoming(A), AcceptorAction::StartHandshake(A));
}

#[test]
fn after_shutdown_no_connection_is_admitted() {
    let mut server = SilkroadServer::new();
    server.incoming(A);
    server.handshake_succeeded(A);
    assert_eq!(server.shutdown(), AcceptorAction::StopListening);
    assert!(server.is_cancelled());
    assert_eq!(server.shutdown(), AcceptorAction::Nothing);
    assert_eq!(server.incoming(B), AcceptorAction::Refuse(B));
    assert_eq!(server.handshake_succeeded(B), AcceptorAction::Nothing);
    assert_eq!(server.handshake_failed(B), AcceptorAction::Nothing);
    assert_eq!(server.connected(), Some(A));
    assert_eq!(server.connected(), None);
    assert!(server.is_cancelled());
}

#[test]
fn handshakes_in_flight_at_shutdown_run_to_their_end() {
    let mut server = SilkroadServer::new();
    server.incoming(A);
    server.incoming(B);
    server.shutdown();
    assert_eq!(server.handle(AcceptorEvent::HandshakeFailed(A)), AcceptorAction::Swallow(A));
    assert_eq!(server.handle(AcceptorEvent::HandshakeSucceeded(B)), AcceptorAction::Published(B));
    assert_eq!(server.handle(AcceptorEvent::Incoming(C)), AcceptorAction::Refuse(C));
    assert_eq!(server.handle(AcceptorEvent::Poll), AcceptorAction::Deliver(B));
    assert_eq!(server.handle(AcceptorEvent::Poll), AcceptorAction::Nothing);
    assert_eq!(server.handle(AcceptorEvent::Cancel), AcceptorAction::Nothing);
}

#[test]
fn session_hands_out_inbound_packets_in_order() {
    let mut client = silkroad_core::session::Client::<u32>::new();
    assert_eq!(client.next_packet(), None);
    client.receive(5);
    client.receive(6);
    assert_eq!(client.next_packet(), Some(5));
    client.receive(7);
    assert_eq!(client.next_packet(), Some(6));
    assert_eq!(client.next_packet(), Some(7));
    assert_eq!(client.next_packet(), None);
}

#[test]
fn session_defers_send_failures_to_the_disconnect_check() {
    let mut client = silkroad_core::session::Client::<u32>::new();
    client.receive(1);
    client.sent(true);
    assert!(!client.is_disconnected());
    client.sent(false);
    client.sent(true);
    assert!(client.is_disconnected());
    assert_eq!(client.next_packet(), Some(1));
}
