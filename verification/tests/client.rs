use netflow::client::connect::{ConnectAction, ConnectEvent, ConnectStep, Writing};
use netflow::client::Connection;
use netflow::datagram::{datagram_buffer, DATAGRAM_SIZE};
use netflow::error::Fault;
use netflow::packet::Settled;
use netflow::{Client, Protocol};
use std::sync::Arc;
use tokio::net::UdpSocket;
use tokio_tungstenite::tungstenite::Message;

type Plain = Client<u8, &'static str, &'static str, &'static str>;
type Step = ConnectStep<u8, &'static str, &'static str, &'static str, String>;

fn connected(step: Step) -> (Plain, Writing) {
    match step {
        ConnectStep::Done(client, writing) => (client, writing),
        _ => panic!("connecting is done"),
    }
}

fn tcp_client() -> (Plain, Writing) {
    let (connecting, _) = Plain::connect("h:1", Protocol::Tcp);
    connected(connecting.step(ConnectEvent::TcpOpened("stream")))
}

fn websocket_client() -> (Plain, Writing) {
    let (connecting, _) = Plain::connect("ws://h", Protocol::WebSocket);
    connected(connecting.step(ConnectEvent::WebSocketOpened("socket")))
}

#[test]
fn a_tcp_client_opens_a_stream() {
    let (connecting, action) = Plain::connect("host:80", Protocol::Tcp);
    assert!(matches!(action, ConnectAction::OpenTcp(addr) if addr == "host:80"));
    let (client, writing) = connected(connecting.step(ConnectEvent::TcpOpened("stream")));
    assert!(client.on_message.is_none());
    assert!(client.state.is_none());
    match client.connection {
        Connection::Tcp { stream, .. } => assert_eq!(*stream, "stream"),
        _ => panic!("the connection is a stream"),
    }
    assert!(matches!(writing, Writing::Frames(_)));
}

#[test]
fn a_websocket_client_opens_a_socket() {
    let (connecting, action) = Plain::connect("ws://host", Protocol::WebSocket);
    assert!(matches!(action, ConnectAction::OpenWebSocket(addr) if addr == "ws://host"));
    let (client, writing) = connected(connecting.step(ConnectEvent::WebSocketOpened("socket")));
    match client.connection {
        Connection::WebSocket { socket, .. } => assert_eq!(*socket, "socket"),
        _ => panic!("the connection is a WebSocket"),
    }
    assert!(matches!(writing, Writing::Messages(_)));
}

#[test]
fn a_udp_client_binds_then_connects() {
    let runtime = tokio::runtime::Builder::new_current_thread().enable_io().build().unwrap();
    runtime.block_on(async {
        let (connecting, action) = Plain::connect("host:53", Protocol::Udp);
        assert!(matches!(action, ConnectAction::BindUdp(addr) if addr == "0.0.0.0:0"));
        let socket = Arc::new(UdpSocket::bind("127.0.0.1:0").await.unwrap());
        let step: Step = connecting.step(ConnectEvent::UdpBound(socket.clone()));
        let (client, writing) = match step {
            ConnectStep::Next(connecting, ConnectAction::ConnectUdp(addr)) => {
                assert_eq!(addr, "host:53");
                connected(connecting.step(ConnectEvent::UdpConnected))
            }
            _ => panic!("the socket is connected next"),
        };
        assert!(matches!(writing, Writing::Nothing));
        match client.send(b"query").ok().unwrap().settle() {
            Settled::Datagram { socket: via, to, data } => {
                assert!(Arc::ptr_eq(&via, &socket));
                assert_eq!(to, None);
                assert_eq!(data, b"query".to_vec());
            }
            _ => panic!("a datagram is left to be sent"),
        }
    });
}

#[test]
fn a_failed_action_fails_to_connect() {
    for protocol in [Protocol::Tcp, Protocol::Udp, Protocol::WebSocket] {
        let (connecting, _) = Plain::connect("host", protocol);
        let step: Step = connecting.step(ConnectEvent::Failed("refused".to_string()));
        assert!(matches!(step, ConnectStep::Failed(error) if error == "refused"));
    }
}

#[test]
fn an_unrelated_event_repeats_the_action() {
    let (connecting, _) = Plain::connect("host", Protocol::Tcp);
    let step: Step = connecting.step(ConnectEvent::UdpConnected);
    assert!(matches!(
        step,
        ConnectStep::Next(_, ConnectAction::OpenTcp(addr)) if addr == "host"
    ));
}

#[test]
fn a_tcp_client_queues_payloads() {
    let (client, writing) = tcp_client();
    let mut items = match writing {
        Writing::Frames(outbox) => outbox.into_items(),
        _ => panic!("frames are written"),
    };
    assert!(matches!(client.send(b"one").ok().unwrap().settle(), Settled::Sent));
    assert!(matches!(client.send(b"").ok().unwrap().settle(), Settled::Sent));
    assert_eq!(items.try_recv().unwrap(), b"one".to_vec());
    assert_eq!(items.try_recv().unwrap(), b"".to_vec());
    drop(items);
    assert!(matches!(
        client.send(b"two").ok().unwrap().settle(),
        Settled::Refused(Fault::TcpWriterClosed)
    ));
}

#[test]
fn a_websocket_client_queues_messages() {
    let (client, writing) = websocket_client();
    let mut items = match writing {
        Writing::Messages(outbox) => outbox.into_items(),
        _ => panic!("messages are written"),
    };
    assert!(matches!(client.send(b"one").ok().unwrap().settle(), Settled::Sent));
    assert_eq!(items.try_recv().unwrap(), Message::binary(b"one".to_vec()));
    drop(items);
    assert!(matches!(
        client.send(b"two").ok().unwrap().settle(),
        Settled::Refused(Fault::WebSocketWriterClosed)
    ));
}

#[test]
fn builders_set_state_and_handler() {
    let (client, _writing) = tcp_client();
    let client = client.with_state(Arc::new(3)).on_message(Arc::new("handler"));
    assert_eq!(*client.state.clone().unwrap(), 3);
    assert_eq!(*client.on_message.clone().unwrap(), "handler");
    let client = client.with_state(Arc::new(4));
    assert_eq!(*client.state.unwrap(), 4);
    assert_eq!(*client.on_message.unwrap(), "handler");
}

#[test]
fn clones_share_the_connection() {
    let (client, writing) = tcp_client();
    let client = client.with_state(Arc::new(3)).on_message(Arc::new("handler"));
    let clone = client.clone();
    let mut items = match writing {
        Writing::Frames(outbox) => outbox.into_items(),
        _ => panic!("frames are written"),
    };
    client.send(b"a").ok().unwrap();
    clone.send(b"b").ok().unwrap();
    assert_eq!(items.try_recv().unwrap(), b"a".to_vec());
    assert_eq!(items.try_recv().unwrap(), b"b".to_vec());
    assert!(Arc::ptr_eq(clone.state.as_ref().unwrap(), client.state.as_ref().unwrap()));
    match (&client.connection, &clone.connection) {
        (Connection::Tcp { stream: one, .. }, Connection::Tcp { stream: two, .. }) => {
            assert!(Arc::ptr_eq(one, two));
        }
        _ => panic!("both are streams"),
    }
}

#[test]
fn listening_needs_a_handler_and_a_state() {
    let (client, _writing) = tcp_client();
    let refused = client.clone().listen::<String>();
    assert!(matches!(refused, Err(Fault::HandlerNotSet)));
    let refused = client.clone().with_state(Arc::new(1)).listen::<String>();
    assert!(matches!(refused, Err(Fault::HandlerNotSet)));
    let refused = client.on_message(Arc::new("handler")).listen::<String>();
    assert!(matches!(refused, Err(Fault::StateNotSet)));
}

#[test]
fn datagram_buffers_hold_the_largest_datagram() {
    assert_eq!(datagram_buffer(), vec![0u8; 65535]);
    assert_eq!(DATAGRAM_SIZE, 65535);
}
