use netflow::client::connect::{ConnectAction, ConnectEvent, ConnectStep};
use netflow::client::listen::{
    take_reader, Listen, ListenAction, ListenEvent, ListenFault, Listening,
};
use netflow::error::{Fault, FaultKind};
use netflow::message::binary_message;
use netflow::{Client, Protocol, MAX_FRAME_SIZE};
use std::sync::Arc;
use tokio::net::UdpSocket;
use tokio_tungstenite::tungstenite::Message;

type Plain = Client<u8, &'static str, (), ()>;
type Step = ConnectStep<u8, &'static str, (), (), String>;

fn listen(step: Step) -> Listen<u8, &'static str, (), (), String> {
    match step {
        ConnectStep::Done(client, _) => client
            .with_state(Arc::new(1))
            .on_message(Arc::new("handler"))
            .listen()
            .ok()
            .unwrap(),
        _ => panic!("connecting is done"),
    }
}

fn tcp() -> Listening {
    let (connecting, _) = Plain::connect("h", Protocol::Tcp);
    let listen = listen(connecting.step(ConnectEvent::TcpOpened(())));
    assert_eq!(*listen.on_message, "handler");
    assert_eq!(*listen.state, 1);
    assert!(matches!(listen.first, ListenAction::TakeReader));
    listen.listening
}

fn websocket() -> Listening {
    let (connecting, _) = Plain::connect("h", Protocol::WebSocket);
    let listen = listen(connecting.step(ConnectEvent::WebSocketOpened(())));
    assert!(matches!(listen.first, ListenAction::TakeReader));
    listen.listening
}

fn failed() -> String {
    "reset".to_string()
}

/// Feeds `stream` to a TCP client until it returns. Gives back the payloads
/// that its handler was started with and the result.
fn hear(stream: &[u8]) -> (Vec<Vec<u8>>, Result<(), ListenFault<String>>) {
    let mut listening = tcp();
    let mut rest = stream;
    let mut heard: Vec<Vec<u8>> = Vec::new();
    let mut event: ListenEvent<String> = ListenEvent::Reader(true);
    loop {
        event = match listening.step(event) {
            ListenAction::ReadHeader => {
                if rest.len() < 4 {
                    ListenEvent::EndOfStream("end".to_string())
                } else {
                    let (header, after) = rest.split_at(4);
                    rest = after;
                    ListenEvent::Header([header[0], header[1], header[2], header[3]])
                }
            }
            ListenAction::ReadBody(mut buffer) => {
                if rest.len() < buffer.len() {
                    ListenEvent::EndOfStream("end".to_string())
                } else {
                    let (payload, after) = rest.split_at(buffer.len());
                    rest = after;
                    buffer.copy_from_slice(payload);
                    ListenEvent::Body(buffer)
                }
            }
            ListenAction::Start(payload) => {
                heard.push(payload);
                ListenEvent::Started
            }
            ListenAction::Return(result) => return (heard, result),
            _ => panic!("a TCP client reads frames"),
        };
    }
}

#[test]
fn a_tcp_client_hears_each_frame() {
    let (heard, result) = hear(&[0, 0, 0, 2, 8, 9, 0, 0, 0, 0, 0, 0, 0, 1, 7]);
    assert_eq!(heard, vec![vec![8, 9], vec![], vec![7]]);
    assert!(result.is_ok());
}

#[test]
fn the_end_between_frames_is_no_error() {
    let (heard, result) = hear(&[]);
    assert!(heard.is_empty());
    assert!(result.is_ok());
    let (heard, result) = hear(&[0, 0, 0, 1, 5, 0, 0]);
    assert_eq!(heard, vec![vec![5]]);
    assert!(result.is_ok());
}

#[test]
fn the_end_within_a_payload_is_an_error() {
    let (heard, result) = hear(&[0, 0, 0, 1, 5, 0, 0, 0, 3, 1, 2]);
    assert_eq!(heard, vec![vec![5]]);
    assert!(matches!(result, Err(ListenFault::Io(error)) if error == "end"));
}

#[test]
fn a_frame_that_is_too_large_is_an_error() {
    let (heard, result) = hear(&[0, 0, 0, 1, 5, 1, 0, 0, 1, 9, 9]);
    assert_eq!(heard, vec![vec![5]]);
    match result {
        Err(ListenFault::Fault(fault)) => {
            assert_eq!(fault, Fault::FrameTooLargeToReceive);
            assert_eq!(fault.kind(), FaultKind::InvalidData);
        }
        _ => panic!("the frame is too large"),
    }
}

#[test]
fn the_largest_frame_is_accepted() {
    assert_eq!(MAX_FRAME_SIZE, 16777216);
    let mut listening = tcp();
    listening.step::<String>(ListenEvent::Reader(true));
    match listening.step::<String>(ListenEvent::Header([1, 0, 0, 0])) {
        ListenAction::ReadBody(buffer) => assert_eq!(buffer, vec![0u8; MAX_FRAME_SIZE]),
        _ => panic!("the frame is not too large"),
    }
}

#[test]
fn other_read_errors_end_the_listening() {
    let mut listening = tcp();
    listening.step::<String>(ListenEvent::Reader(true));
    assert!(matches!(
        listening.step(ListenEvent::Failed(failed())),
        ListenAction::Return(Err(ListenFault::Io(error))) if error == "reset"
    ));
    let mut listening = tcp();
    listening.step::<String>(ListenEvent::Reader(true));
    listening.step::<String>(ListenEvent::Header([0, 0, 0, 1]));
    assert!(matches!(
        listening.step(ListenEvent::Failed(failed())),
        ListenAction::Return(Err(ListenFault::Io(error))) if error == "reset"
    ));
}

#[test]
fn a_reader_can_be_taken_once() {
    assert!(matches!(
        tcp().step::<String>(ListenEvent::Reader(false)),
        ListenAction::Return(Err(ListenFault::Fault(Fault::TcpReaderTaken)))
    ));
    assert!(matches!(
        websocket().step::<String>(ListenEvent::Reader(false)),
        ListenAction::Return(Err(ListenFault::Fault(Fault::WebSocketReaderTaken)))
    ));
}

#[test]
fn only_the_first_listener_reads() {
    let mut slot = Some("stream");
    let (taken, event) = take_reader::<_, String>(&mut slot);
    assert_eq!(taken, Some("stream"));
    assert_eq!(slot, None);
    assert!(matches!(tcp().step(event), ListenAction::ReadHeader));
    for _ in 0..2 {
        let (taken, event) = take_reader::<_, String>(&mut slot);
        assert_eq!(taken, None);
        assert!(matches!(
            tcp().step(event),
            ListenAction::Return(Err(ListenFault::Fault(Fault::TcpReaderTaken)))
        ));
    }
    let mut slot = Some("socket");
    let (_, event) = take_reader::<_, String>(&mut slot);
    assert!(matches!(websocket().step(event), ListenAction::ReceiveMessage));
    let (_, event) = take_reader::<_, String>(&mut slot);
    assert!(matches!(
        websocket().step(event),
        ListenAction::Return(Err(ListenFault::Fault(Fault::WebSocketReaderTaken)))
    ));
}

#[test]
fn a_websocket_client_hears_each_message() {
    let mut listening = websocket();
    let action = listening.step::<String>(ListenEvent::Reader(true));
    assert!(matches!(action, ListenAction::ReceiveMessage));
    let action = listening.step::<String>(ListenEvent::Received(Message::text("abc")));
    assert!(matches!(action, ListenAction::Start(data) if data == b"abc".to_vec()));
    let action = listening.step::<String>(ListenEvent::Started);
    assert!(matches!(action, ListenAction::ReceiveMessage));
    let action = listening.step::<String>(ListenEvent::Received(Message::Pong(vec![0u8].into())));
    assert!(matches!(action, ListenAction::ReceiveMessage));
    let action = listening.step::<String>(ListenEvent::Received(binary_message(&[200])));
    assert!(matches!(action, ListenAction::Start(data) if data == vec![200]));
    listening.step::<String>(ListenEvent::Started);
    let action = listening.step::<String>(ListenEvent::Ended);
    assert!(matches!(action, ListenAction::Return(Ok(()))));
    let action = listening.step::<String>(ListenEvent::Received(binary_message(&[1])));
    assert!(matches!(action, ListenAction::Return(Ok(()))));
}

#[test]
fn a_failed_websocket_ends_the_listening() {
    let mut listening = websocket();
    listening.step::<String>(ListenEvent::Reader(true));
    assert!(matches!(
        listening.step(ListenEvent::Failed(failed())),
        ListenAction::Return(Err(ListenFault::Io(error))) if error == "reset"
    ));
}

#[test]
fn a_udp_client_hears_each_datagram() {
    let runtime = tokio::runtime::Builder::new_current_thread().enable_io().build().unwrap();
    runtime.block_on(async {
        let (connecting, _) = Plain::connect("h", Protocol::Udp);
        let socket = Arc::new(UdpSocket::bind("127.0.0.1:0").await.unwrap());
        let step: Step = connecting.step(ConnectEvent::UdpBound(socket));
        let connecting = match step {
            ConnectStep::Next(connecting, ConnectAction::ConnectUdp(_)) => connecting,
            _ => panic!("the socket is connected next"),
        };
        let listen = listen(connecting.step(ConnectEvent::UdpConnected));
        let mut listening = listen.listening;
        let mut buffer = match listen.first {
            ListenAction::ReceiveDatagram(buffer) => buffer,
            _ => panic!("a datagram is received first"),
        };
        assert_eq!(buffer.len(), 65535);
        buffer[0] = 4;
        buffer[1] = 2;
        let event: ListenEvent<String> = ListenEvent::Datagram { buffer, size: 2 };
        let action = listening.step(event);
        assert!(matches!(action, ListenAction::Start(data) if data == vec![4, 2]));
        let action = listening.step::<String>(ListenEvent::Started);
        assert!(matches!(action, ListenAction::ReceiveDatagram(buffer) if buffer.len() == 65535));
        assert!(matches!(
            listening.step(ListenEvent::Failed(failed())),
            ListenAction::Return(Err(ListenFault::Io(error))) if error == "reset"
        ));
    });
}
