use netflow::addr::PeerAddr;
use netflow::client::connect::{ConnectEvent, ConnectStep, Writing};
use netflow::client::listen::{ListenAction, ListenEvent, ListenFault};
use netflow::error::Fault;
use netflow::server::ConnectionManager;
use netflow::server::tcp::{TcpAction, TcpConnection, TcpEvent};
use netflow::server::websocket::{WsAction, WsConnection, WsEvent};
use netflow::writer::{FrameWriter, WriterAction, WriterEvent};
use netflow::{Client, Protocol, MAX_FRAME_SIZE};
use std::sync::Arc;
use tokio::sync::mpsc::UnboundedReceiver;

type Plain = Client<(), (), (), ()>;
type Step = ConnectStep<(), (), (), (), String>;

fn client(protocol: Protocol, event: ConnectEvent<(), (), String>) -> (Plain, Writing) {
    let (connecting, _) = Plain::connect("h", protocol);
    let step: Step = connecting.step(event);
    match step {
        ConnectStep::Done(client, writing) => (client, writing),
        _ => panic!("connecting is done"),
    }
}

/// Writes everything that waits in `items`.
fn written(mut writer: FrameWriter, items: &mut UnboundedReceiver<Vec<u8>>) -> Vec<u8> {
    let mut stream: Vec<u8> = Vec::new();
    let mut action = WriterAction::Receive;
    loop {
        let event = match action {
            WriterAction::Receive => match items.try_recv() {
                Ok(payload) => WriterEvent::Queued(payload),
                Err(_) => WriterEvent::Closed,
            },
            WriterAction::Write(bytes) => {
                stream.extend_from_slice(&bytes);
                WriterEvent::Written
            }
            WriterAction::Stop => return stream,
        };
        let (next, then) = writer.step(event);
        writer = next;
        action = then;
    }
}

#[test]
fn a_server_gets_what_a_client_sends() {
    let (client, writing) = client(Protocol::Tcp, ConnectEvent::TcpOpened(()));
    let mut items = match writing {
        Writing::Frames(outbox) => outbox.into_items(),
        _ => panic!("frames are written"),
    };
    let sent = vec![b"first".to_vec(), vec![], vec![3u8; 70000]];
    for payload in &sent {
        client.send(payload).ok().unwrap();
    }
    let stream = written(FrameWriter::client(), &mut items);
    let mut rest: &[u8] = &stream;
    let peer = PeerAddr::V6 { ip6: 1, port: 2, flow_info: 0, scope_id: 0 };
    let (mut connection, mut action, _outbox) = TcpConnection::open(peer);
    let mut got: Vec<Vec<u8>> = Vec::new();
    let mut registered = 0;
    loop {
        let event = match action {
            TcpAction::Register(addr, _) => {
                assert_eq!(addr, peer);
                registered += 1;
                TcpEvent::Registered
            }
            TcpAction::ReadHeader if rest.len() < 4 => TcpEvent::Failed,
            TcpAction::ReadHeader => {
                let (header, after) = rest.split_at(4);
                rest = after;
                TcpEvent::Header([header[0], header[1], header[2], header[3]])
            }
            TcpAction::ReadBody(mut buffer) => {
                let (payload, after) = rest.split_at(buffer.len());
                rest = after;
                buffer.copy_from_slice(payload);
                TcpEvent::Body(buffer)
            }
            TcpAction::Handle(packet, from) => {
                assert_eq!(from, peer);
                got.push(packet.data);
                TcpEvent::Handled
            }
            TcpAction::Unregister(addr) => {
                assert_eq!(addr, peer);
                registered -= 1;
                TcpEvent::Unregistered
            }
            TcpAction::AbortWriter => break,
        };
        action = connection.step(event);
    }
    assert_eq!(got, sent);
    assert_eq!(registered, 0);
}

#[test]
fn a_client_gets_what_a_server_sends_up_to_the_limit() {
    let peer = PeerAddr::V4 { ip: 1, port: 2 };
    let (_connection, action, outbox) = TcpConnection::open(peer);
    let mut items = outbox.into_items();
    let responder = match action {
        TcpAction::Register(_, responder) => responder,
        _ => panic!("a connection is registered first"),
    };
    let sent = vec![b"first".to_vec(), vec![4u8; MAX_FRAME_SIZE]];
    for payload in &sent {
        responder.send(payload);
    }
    responder.send(&vec![5u8; MAX_FRAME_SIZE + 1]);
    responder.send(b"never heard");
    let stream = written(FrameWriter::server(), &mut items);
    let (client, _writing) = client(Protocol::Tcp, ConnectEvent::TcpOpened(()));
    let client = client.with_state(Arc::new(())).on_message(Arc::new(()));
    let mut listen = client.listen::<String>().ok().unwrap();
    let mut rest: &[u8] = &stream;
    let mut heard: Vec<Vec<u8>> = Vec::new();
    let mut action = listen.first;
    let result = loop {
        let event = match action {
            ListenAction::TakeReader => ListenEvent::Reader(true),
            ListenAction::ReadHeader => {
                let (header, after) = rest.split_at(4);
                rest = after;
                ListenEvent::Header([header[0], header[1], header[2], header[3]])
            }
            ListenAction::ReadBody(mut buffer) => {
                let (payload, after) = rest.split_at(buffer.len());
                rest = after;
                buffer.copy_from_slice(payload);
                ListenEvent::Body(buffer)
            }
            ListenAction::Start(payload) => {
                heard.push(payload);
                ListenEvent::Started
            }
            ListenAction::Return(result) => break result,
            _ => panic!("a TCP client reads frames"),
        };
        action = listen.listening.step(event);
    };
    assert!(heard == sent);
    assert!(matches!(result, Err(ListenFault::Fault(Fault::FrameTooLargeToReceive))));
}

#[test]
fn a_connection_is_in_the_table_while_it_is_open() {
    let manager: ConnectionManager<()> = ConnectionManager::new();
    let mut connections = manager.connections.try_write().unwrap();
    let peer = PeerAddr::V4 { ip: 1, port: 2 };
    let (mut connection, action, _frames) = TcpConnection::open(peer);
    match action {
        TcpAction::Register(addr, responder) => {
            manager.register(&mut connections, addr, responder)
        }
        _ => panic!("a connection is registered first"),
    }
    connection.step(TcpEvent::Registered);
    assert_eq!(manager.connection_count(&connections), 1);
    assert!(manager.send_to(&connections, peer, b"x").is_ok());
    match connection.step(TcpEvent::Failed) {
        TcpAction::Unregister(addr) => {
            manager.unregister(&mut connections, addr);
        }
        _ => panic!("the connection leaves"),
    }
    assert_eq!(manager.connection_count(&connections), 0);
    assert!(manager.send_to(&connections, peer, b"x").is_err());
    let (mut connection, action, _messages) = WsConnection::open(peer, true).unwrap();
    match action {
        WsAction::Register(addr, responder) => {
            manager.register(&mut connections, addr, responder)
        }
        _ => panic!("a connection is registered first"),
    }
    connection.step(WsEvent::Registered);
    assert_eq!(manager.connection_count(&connections), 1);
    match connection.step(WsEvent::Ended) {
        WsAction::Unregister(addr) => {
            manager.unregister(&mut connections, addr);
        }
        _ => panic!("the connection leaves"),
    }
    assert_eq!(manager.connection_count(&connections), 0);
}

#[test]
fn a_websocket_brings_what_is_sent() {
    let (client, writing) = client(Protocol::WebSocket, ConnectEvent::WebSocketOpened(()));
    let mut items = match writing {
        Writing::Messages(outbox) => outbox.into_items(),
        _ => panic!("messages are written"),
    };
    client.send(b"one").ok().unwrap();
    client.send(&[]).ok().unwrap();
    let peer = PeerAddr::V4 { ip: 1, port: 2 };
    let (mut connection, _, _outbox) = WsConnection::open(peer, true).unwrap();
    connection.step(WsEvent::Registered);
    let mut got: Vec<Vec<u8>> = Vec::new();
    while let Ok(message) = items.try_recv() {
        match connection.step(WsEvent::Received(message)) {
            WsAction::Start(packet, _) => got.push(packet.data),
            _ => panic!("a binary message delivers its data"),
        }
        connection.step(WsEvent::Started);
    }
    assert_eq!(got, vec![b"one".to_vec(), vec![]]);
}
