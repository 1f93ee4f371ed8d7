use netflow::addr::PeerAddr;
use netflow::error::{Fault, FaultKind, RunFault};
use netflow::packet::{show_packet, show_packet_lines, Settled};
use netflow::text::{append_decimal_lines, append_decimals};
use netflow::{Packet, Protocol, Responder};
use std::sync::Arc;
use tokio::net::UdpSocket;
use tokio::sync::mpsc::unbounded_channel;
use tokio_tungstenite::tungstenite::Message;

fn tcp_packet(data: &[u8]) -> Packet {
    let (queue, _) = unbounded_channel();
    Packet { data: data.to_vec(), protocol: Protocol::Tcp, responder: Responder::Tcp(queue) }
}

#[test]
fn protocols_have_labels() {
    assert_eq!(Protocol::Tcp.label(), "TCP");
    assert_eq!(Protocol::Udp.label(), "UDP");
    assert_eq!(Protocol::WebSocket.label(), "WebSocket");
}

#[test]
fn a_tcp_responder_queues_a_copy() {
    let (queue, mut items) = unbounded_channel();
    let responder = Responder::Tcp(queue);
    assert!(matches!(responder.send(b"hello").settle(), Settled::Sent));
    assert_eq!(items.try_recv().unwrap(), b"hello".to_vec());
    assert!(items.try_recv().is_err());
}

#[test]
fn a_closed_tcp_queue_is_a_broken_pipe() {
    let (queue, items) = unbounded_channel();
    drop(items);
    match Responder::Tcp(queue).send(b"hello").settle() {
        Settled::Refused(fault) => {
            assert_eq!(fault, Fault::TcpWriterClosed);
            assert_eq!(fault.kind(), FaultKind::BrokenPipe);
            assert_eq!(fault.message(), "tcp writer closed");
        }
        _ => panic!("the queue is closed"),
    }
}

#[test]
fn a_websocket_responder_queues_a_binary_message() {
    let (queue, mut items) = unbounded_channel();
    let responder = Responder::WebSocket(queue);
    assert!(matches!(responder.send(&[0, 159]).settle(), Settled::Sent));
    assert_eq!(items.try_recv().unwrap(), Message::binary(vec![0u8, 159]));
}

#[test]
fn a_closed_websocket_queue_is_a_broken_pipe() {
    let (queue, items) = unbounded_channel();
    drop(items);
    match Responder::WebSocket(queue).send(b"hello").settle() {
        Settled::Refused(fault) => {
            assert_eq!(fault, Fault::WebSocketWriterClosed);
            assert_eq!(fault.kind(), FaultKind::BrokenPipe);
            assert_eq!(fault.message(), "websocket writer closed");
        }
        _ => panic!("the queue is closed"),
    }
}

#[test]
fn a_udp_responder_addresses_a_datagram() {
    let runtime = tokio::runtime::Builder::new_current_thread().enable_io().build().unwrap();
    runtime.block_on(async {
        let socket = Arc::new(UdpSocket::bind("127.0.0.1:0").await.unwrap());
        let peer = PeerAddr::V4 { ip: 0x7f00_0001, port: 9 };
        let responder = Responder::Udp(socket.clone(), peer);
        for way in [responder.clone(), responder] {
            match way.send(b"ping").settle() {
                Settled::Datagram { socket: via, to, data } => {
                    assert!(Arc::ptr_eq(&via, &socket));
                    assert_eq!(to, Some(peer));
                    assert_eq!(data, b"ping".to_vec());
                }
                _ => panic!("a datagram is left to be sent"),
            }
        }
    });
}

#[test]
fn a_cloned_responder_feeds_the_same_queue() {
    let (queue, mut items) = unbounded_channel();
    let first = Responder::Tcp(queue);
    let second = first.clone();
    first.send(b"a");
    second.send(b"b");
    assert_eq!(items.try_recv().unwrap(), b"a".to_vec());
    assert_eq!(items.try_recv().unwrap(), b"b".to_vec());
    let (queue, mut items) = unbounded_channel();
    let second = Responder::WebSocket(queue).clone();
    second.send(b"c");
    assert_eq!(items.try_recv().unwrap(), Message::binary(b"c".to_vec()));
}

#[test]
fn a_reply_goes_to_the_sender() {
    let (queue, mut items) = unbounded_channel();
    let packet = Packet {
        data: b"question".to_vec(),
        protocol: Protocol::Tcp,
        responder: Responder::Tcp(queue),
    };
    assert!(matches!(packet.reply(b"answer").settle(), Settled::Sent));
    assert_eq!(items.try_recv().unwrap(), b"answer".to_vec());
}

#[test]
fn packets_show_their_payload_twice() {
    assert_eq!(
        tcp_packet(b"hi\"\n").fmt(),
        "Packet { data: [104, 105, 34, 10], data_string: \"hi\\\"\\n\", protocol: \"TCP\" }"
    );
    assert_eq!(
        tcp_packet(&[255, 65]).fmt(),
        "Packet { data: [255, 65], data_string: \"\u{fffd}A\", protocol: \"TCP\" }"
    );
    assert_eq!(
        tcp_packet(b"").fmt(),
        "Packet { data: [], data_string: \"\", protocol: \"TCP\" }"
    );
}

#[test]
fn packets_show_their_transport() {
    assert_eq!(
        show_packet(&[7], "'bell'", "UDP"),
        "Packet { data: [7], data_string: 'bell', protocol: \"UDP\" }"
    );
    let (queue, _) = unbounded_channel();
    let packet = Packet {
        data: vec![],
        protocol: Protocol::WebSocket,
        responder: Responder::WebSocket(queue),
    };
    assert_eq!(packet.fmt(), "Packet { data: [], data_string: \"\", protocol: \"WebSocket\" }");
}

/// A structure with the fields of a packet, shown by std.
#[derive(Debug)]
struct Fields<'a> {
    data: Vec<u8>,
    data_string: std::borrow::Cow<'a, str>,
    protocol: &'a str,
}

#[test]
fn packets_show_as_std_shows_their_fields() {
    for data in [&b""[..], b"h", b"hi\"\n\t", &[255, 0, 65, 13, 10], "\u{e9}\u{1f600}".as_bytes()] {
        let fields = Fields {
            data: data.to_vec(),
            data_string: String::from_utf8_lossy(data),
            protocol: "TCP",
        };
        let packet = tcp_packet(data);
        assert_eq!(packet.fmt(), format!("{:?}", fields).replace("Fields", "Packet"));
        assert_eq!(packet.fmt_lines(), format!("{:#?}", fields).replace("Fields", "Packet"));
        assert_eq!(fields.data.len(), data.len());
        assert!(fields.data_string.len() >= data.len() || data.is_empty());
        assert_eq!(fields.protocol, "TCP");
    }
}

#[test]
fn packets_show_over_several_lines() {
    assert_eq!(
        tcp_packet(b"hi").fmt_lines(),
        "Packet {\n    data: [\n        104,\n        105,\n    ],\n    data_string: \"hi\",\n    \
         protocol: \"TCP\",\n}"
    );
    assert_eq!(
        show_packet_lines(&[], "'none'", "UDP"),
        "Packet {\n    data: [],\n    data_string: 'none',\n    protocol: \"UDP\",\n}"
    );
    let mut text = "bytes:\n".to_string();
    append_decimal_lines(&mut text, &[0, 255]);
    assert_eq!(text, "bytes:\n        0,\n        255,\n");
}

#[test]
fn bytes_are_shown_in_decimal() {
    let mut text = "bytes: ".to_string();
    append_decimals(&mut text, &[0, 9, 10, 99, 100, 105, 210, 255]);
    assert_eq!(text, "bytes: 0, 9, 10, 99, 100, 105, 210, 255");
    append_decimals(&mut text, &[]);
    assert_eq!(text, "bytes: 0, 9, 10, 99, 100, 105, 210, 255");
}

#[test]
fn faults_have_classes_and_texts() {
    let table = [
        (Fault::FrameTooLargeToSend, FaultKind::InvalidInput, "TCP frame too large"),
        (Fault::FrameTooLargeToReceive, FaultKind::InvalidData, "TCP frame too large"),
        (Fault::TcpWriterClosed, FaultKind::BrokenPipe, "tcp writer closed"),
        (Fault::WebSocketWriterClosed, FaultKind::BrokenPipe, "websocket writer closed"),
        (Fault::HandlerNotSet, FaultKind::Other, "Message handler not set"),
        (Fault::StateNotSet, FaultKind::Other, "State not set"),
        (Fault::TcpReaderTaken, FaultKind::Other, "TCP reader already taken"),
        (Fault::WebSocketReaderTaken, FaultKind::Other, "WebSocket reader already taken"),
    ];
    for (fault, kind, text) in table {
        assert_eq!(fault.kind(), kind);
        assert_eq!(fault.message(), text);
    }
    assert_eq!(RunFault::PacketHandlerNotSet.message(), "Packet handler not set");
}
