use netflow::addr::PeerAddr;
use netflow::message::binary_message;
use netflow::packet::Settled;
use netflow::server::tcp::{TcpAction, TcpConnection, TcpEvent};
use netflow::server::udp::{UdpAction, UdpEvent, UdpService};
use netflow::server::websocket::{WsAction, WsConnection, WsEvent};
use netflow::{Protocol, Responder};
use std::sync::Arc;
use tokio::net::UdpSocket;
use tokio_tungstenite::tungstenite::Message;

fn peer(port: u16) -> PeerAddr {
    PeerAddr::V4 { ip: 0x7f00_0001, port }
}

#[test]
fn a_tcp_connection_runs_its_course() {
    let (mut connection, first, outbox) = TcpConnection::open(peer(5));
    let mut items = outbox.into_items();
    match first {
        TcpAction::Register(addr, responder) => {
            assert_eq!(addr, peer(5));
            responder.send(b"welcome");
            assert_eq!(items.try_recv().unwrap(), b"welcome".to_vec());
        }
        _ => panic!("a connection is registered first"),
    }
    assert!(matches!(connection.step(TcpEvent::Registered), TcpAction::ReadHeader));
    match connection.step(TcpEvent::Header([0, 0, 1, 2])) {
        TcpAction::ReadBody(buffer) => assert_eq!(buffer, vec![0u8; 258]),
        _ => panic!("a payload follows"),
    }
    match connection.step(TcpEvent::Body(b"data".to_vec())) {
        TcpAction::Handle(packet, from) => {
            assert_eq!(from, peer(5));
            assert_eq!(packet.data, b"data".to_vec());
            assert_eq!(packet.protocol, Protocol::Tcp);
            assert!(matches!(packet.reply(b"back").settle(), Settled::Sent));
            assert_eq!(items.try_recv().unwrap(), b"back".to_vec());
        }
        _ => panic!("the packet is handled"),
    }
    assert!(matches!(connection.step(TcpEvent::Handled), TcpAction::ReadHeader));
    match connection.step(TcpEvent::Failed) {
        TcpAction::Unregister(addr) => assert_eq!(addr, peer(5)),
        _ => panic!("the connection leaves"),
    }
    assert!(matches!(connection.step(TcpEvent::Unregistered), TcpAction::AbortWriter));
    assert!(matches!(connection.step(TcpEvent::Registered), TcpAction::AbortWriter));
}

#[test]
fn a_tcp_connection_leaves_within_a_payload() {
    let (mut connection, _, _outbox) = TcpConnection::open(peer(6));
    connection.step(TcpEvent::Registered);
    connection.step(TcpEvent::Header([0, 0, 0, 9]));
    assert!(matches!(connection.step(TcpEvent::Failed), TcpAction::Unregister(_)));
    assert!(matches!(connection.step(TcpEvent::Failed), TcpAction::AbortWriter));
}

#[test]
fn a_tcp_server_takes_empty_and_large_frames() {
    let (mut connection, _, _outbox) = TcpConnection::open(peer(6));
    connection.step(TcpEvent::Registered);
    assert!(matches!(
        connection.step(TcpEvent::Header([0, 0, 0, 0])),
        TcpAction::ReadBody(buffer) if buffer.is_empty()
    ));
    assert!(matches!(
        connection.step(TcpEvent::Body(vec![])),
        TcpAction::Handle(packet, _) if packet.data.is_empty()
    ));
    connection.step(TcpEvent::Handled);
    assert!(matches!(
        connection.step(TcpEvent::Header([1, 0, 0, 1])),
        TcpAction::ReadBody(buffer) if buffer.len() == netflow::MAX_FRAME_SIZE + 1
    ));
}

#[test]
fn a_websocket_connection_runs_its_course() {
    let (mut connection, first, outbox) = WsConnection::open(peer(7), true).unwrap();
    let mut items = outbox.into_items();
    match first {
        WsAction::Register(addr, responder) => {
            assert_eq!(addr, peer(7));
            assert!(matches!(responder, Responder::WebSocket(_)));
        }
        _ => panic!("a connection is registered first"),
    }
    assert!(matches!(connection.step(WsEvent::Registered), WsAction::Receive));
    match connection.step(WsEvent::Received(Message::text("hi"))) {
        WsAction::Start(packet, from) => {
            assert_eq!(from, peer(7));
            assert_eq!(packet.data, b"hi".to_vec());
            assert_eq!(packet.protocol, Protocol::WebSocket);
            packet.reply(b"back");
            assert_eq!(items.try_recv().unwrap(), Message::binary(b"back".to_vec()));
        }
        _ => panic!("the packet handler is started"),
    }
    assert!(matches!(connection.step(WsEvent::Started), WsAction::Receive));
    assert!(matches!(
        connection.step(WsEvent::Received(Message::Ping(vec![1u8].into()))),
        WsAction::Receive
    ));
    assert!(matches!(
        connection.step(WsEvent::Received(Message::Close(None))),
        WsAction::Receive
    ));
    match connection.step(WsEvent::Received(binary_message(&[1]))) {
        WsAction::Start(packet, _) => assert_eq!(packet.data, vec![1]),
        _ => panic!("the packet handler is started"),
    }
    connection.step(WsEvent::Started);
    match connection.step(WsEvent::Ended) {
        WsAction::Unregister(addr) => assert_eq!(addr, peer(7)),
        _ => panic!("the connection leaves"),
    }
    assert!(matches!(connection.step(WsEvent::Unregistered), WsAction::AbortWriter));
    assert!(matches!(connection.step(WsEvent::Registered), WsAction::AbortWriter));
}

#[test]
fn a_websocket_connection_leaves_on_failure() {
    let (mut connection, _, _outbox) = WsConnection::open(peer(7), true).unwrap();
    connection.step(WsEvent::Registered);
    assert!(matches!(connection.step(WsEvent::Failed), WsAction::Unregister(_)));
}

#[test]
fn a_failed_handshake_opens_nothing() {
    assert!(WsConnection::open(peer(7), false).is_none());
}

#[test]
fn a_udp_service_starts_a_handler_for_each_datagram() {
    let runtime = tokio::runtime::Builder::new_current_thread().enable_io().build().unwrap();
    runtime.block_on(async {
        let socket = Arc::new(UdpSocket::bind("127.0.0.1:0").await.unwrap());
        let service = UdpService::open(socket.clone());
        let event = UdpEvent::Received { buffer: vec![1, 2, 3, 0, 0], size: 3, from: peer(8) };
        match service.step(event) {
            UdpAction::Start(packet, from) => {
                assert_eq!(from, peer(8));
                assert_eq!(packet.data, vec![1, 2, 3]);
                assert_eq!(packet.protocol, Protocol::Udp);
                match packet.reply(b"pong").settle() {
                    Settled::Datagram { socket: via, to, data } => {
                        assert!(Arc::ptr_eq(&via, &socket));
                        assert_eq!(to, Some(peer(8)));
                        assert_eq!(data, b"pong".to_vec());
                    }
                    _ => panic!("the reply is a datagram"),
                }
            }
            UdpAction::Skip => panic!("a datagram was received"),
        }
        assert!(matches!(service.step(UdpEvent::Failed), UdpAction::Skip));
        let event = UdpEvent::Received { buffer: vec![4], size: 9, from: peer(8) };
        assert!(matches!(
            service.step(event),
            UdpAction::Start(packet, _) if packet.data == vec![4]
        ));
    });
}
