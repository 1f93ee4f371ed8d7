use netflow::addr::PeerAddr;
use netflow::error::RunFault;
use netflow::server::accept::{AcceptAction, AcceptEvent, Acceptor};
use netflow::{Protocol, Server};
use std::sync::Arc;

type Names = Server<u8, &'static str, &'static str, &'static str>;

fn peer(port: u16) -> PeerAddr {
    PeerAddr::V4 { ip: 0x7f00_0001, port }
}

#[test]
fn a_new_server_has_only_its_state() {
    let state = Arc::new(7u8);
    let server: Names = Server::new(state.clone());
    assert!(server.listeners.is_empty());
    assert!(server.on_packet.is_none());
    assert!(server.on_connect.is_none());
    assert!(server.on_disconnect.is_none());
    assert!(server.connection_manager.on_disconnect.is_none());
    assert!(Arc::ptr_eq(&server.state, &state));
    let guard = server.connection_manager.connections.try_read().unwrap();
    assert_eq!(server.connection_manager.connection_count(&guard), 0);
}

#[test]
fn listeners_are_kept_in_order() {
    let server: Names = Server::new(Arc::new(0))
        .bind("127.0.0.1:1", Protocol::Tcp)
        .bind("127.0.0.1:2", Protocol::Udp)
        .bind("127.0.0.1:1", Protocol::Tcp);
    assert_eq!(
        server.listeners,
        vec![
            ("127.0.0.1:1".to_string(), Protocol::Tcp),
            ("127.0.0.1:2".to_string(), Protocol::Udp),
            ("127.0.0.1:1".to_string(), Protocol::Tcp),
        ]
    );
}

#[test]
fn the_disconnect_handler_reaches_the_manager() {
    let handler = Arc::new("gone");
    let server: Names = Server::new(Arc::new(0)).on_disconnect(handler.clone());
    assert!(Arc::ptr_eq(server.on_disconnect.as_ref().unwrap(), &handler));
    let kept = server.connection_manager.on_disconnect.as_ref().unwrap();
    assert!(Arc::ptr_eq(kept, &handler));
}

#[test]
fn a_server_without_packet_handler_does_not_run() {
    let server: Names = Server::new(Arc::new(0)).bind("127.0.0.1:1", Protocol::Tcp);
    match server.run() {
        Err(fault) => {
            assert_eq!(fault, RunFault::PacketHandlerNotSet);
            assert_eq!(fault.message(), "Packet handler not set");
        }
        Ok(_) => panic!("nothing handles packets"),
    }
}

#[test]
fn a_server_starts_every_listener() {
    let server: Names = Server::new(Arc::new(9))
        .bind("a", Protocol::Tcp)
        .bind("b", Protocol::Udp)
        .bind("c", Protocol::WebSocket)
        .on_packet(Arc::new("packet"))
        .on_connect(Arc::new("connect"))
        .on_disconnect(Arc::new("disconnect"));
    let connections = server.connection_manager.connections.clone();
    let launch = server.run().ok().unwrap();
    assert_eq!(*launch.on_packet, "packet");
    assert_eq!(*launch.on_connect.unwrap(), "connect");
    assert_eq!(*launch.manager.on_disconnect.clone().unwrap(), "disconnect");
    assert_eq!(*launch.state, 9);
    assert!(Arc::ptr_eq(&launch.manager.connections, &connections));
    let plan: Vec<(String, Protocol, bool)> =
        launch.listeners.into_iter().map(|l| (l.addr, l.protocol, l.validated)).collect();
    assert_eq!(
        plan,
        vec![
            ("a".to_string(), Protocol::Tcp, true),
            ("b".to_string(), Protocol::Udp, false),
            ("c".to_string(), Protocol::WebSocket, true),
        ]
    );
}

#[test]
fn without_a_validator_nobody_is_validated() {
    let server: Names = Server::new(Arc::new(0))
        .bind("a", Protocol::Tcp)
        .bind("c", Protocol::WebSocket)
        .on_packet(Arc::new("packet"));
    let launch = server.run().ok().unwrap();
    assert!(launch.on_connect.is_none());
    assert!(launch.listeners.iter().all(|l| !l.validated));
}

#[test]
fn an_open_listener_serves_everyone() {
    let mut acceptor = Acceptor::new(false);
    for port in 1..4 {
        let action = acceptor.step(AcceptEvent::Incoming(peer(port)));
        assert_eq!(action, AcceptAction::Serve(peer(port)));
    }
}

#[test]
fn a_validated_listener_serves_whom_the_validator_lets_in() {
    let mut acceptor = Acceptor::new(true);
    assert_eq!(
        acceptor.step(AcceptEvent::Incoming(peer(1))),
        AcceptAction::Validate(peer(1))
    );
    assert_eq!(acceptor.step(AcceptEvent::Verdict(true)), AcceptAction::Serve(peer(1)));
    assert_eq!(
        acceptor.step(AcceptEvent::Incoming(peer(2))),
        AcceptAction::Validate(peer(2))
    );
    assert_eq!(acceptor.step(AcceptEvent::Verdict(false)), AcceptAction::Wait);
    assert_eq!(acceptor.step(AcceptEvent::Verdict(true)), AcceptAction::Wait);
}
