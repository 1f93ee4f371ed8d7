//! Received packets and the ways back to their senders.
use crate::addr::PeerAddr;
use crate::channel::{offer, share_queue, Handoff, Ledger};
use crate::error::Fault;
use crate::message::binary_message;
use crate::shared::share;
use crate::text::{append_decimal_lines, append_decimals, to_lossy, to_quoted};
use crate::Protocol;
use std::sync::Arc;
use tokio::net::UdpSocket;
use tokio::sync::mpsc::UnboundedSender;
use tokio_tungstenite::tungstenite::Message;
use vstd::prelude::*;
use vstd::slice::slice_to_vec;
use vstd::string::StringExecFns;

verus! {

/// A UDP socket.
#[verifier::external_type_specification]
#[verifier::external_body]
pub struct ExUdpSocket(UdpSocket);

/// A way to send to one peer.
#[derive(Debug)]
pub enum Responder {
    /// The queue of the task that writes frames to a TCP peer.
    Tcp(UnboundedSender<Vec<u8>>),
    /// A UDP socket and the peer's address.
    Udp(Arc<UdpSocket>, PeerAddr),
    /// The queue of the task that writes messages to a WebSocket peer.
    WebSocket(UnboundedSender<Message>),
}

/// One payload on its way to a peer.
pub enum Delivery {
    /// It was handed to the queue of a TCP peer.
    Tcp(Handoff<Vec<u8>>),
    /// It was handed to the queue of a WebSocket peer.
    WebSocket(Handoff<Message>),
    /// It is to be sent as a datagram: to `to`, or where there is no `to`, to
    /// the peer that the socket is connected to.
    Datagram { socket: Arc<UdpSocket>, to: Option<PeerAddr>, data: Vec<u8> },
}

/// Where a delivery ended.
pub enum Settled {
    /// It is on its way.
    Sent,
    /// It cannot be sent.
    Refused(Fault),
    /// The datagram is still to be sent.
    Datagram { socket: Arc<UdpSocket>, to: Option<PeerAddr>, data: Vec<u8> },
}

/// The record of what is handed to the queues of peers. Whatever is handed to
/// one has an entry in a record.
pub struct Record {
    /// The payloads for TCP peers.
    pub frames: Ledger<Vec<u8>>,
    /// The messages for WebSocket peers.
    pub messages: Ledger<Message>,
}

impl Record {
    /// Nothing is recorded.
    pub open spec fn empty(self) -> bool {
        &&& self.frames@.len() == 0
        &&& self.messages@.len() == 0
    }

    /// The same is recorded as in `other`.
    pub open spec fn same(self, other: Record) -> bool {
        &&& self.frames@ == other.frames@
        &&& self.messages@ == other.messages@
    }

    /// Returns a record of nothing.
    pub fn new() -> (record: Record)
        ensures
            record.empty(),
    {
        Record { frames: Ledger::new(), messages: Ledger::new() }
    }
}

impl Delivery {
    /// The item of this delivery is the only one that its record holds.
    pub open spec fn alone(self) -> bool {
        match self {
            Delivery::Tcp(receipt) => receipt.ledger() == seq![(receipt.queue(), receipt.item())],
            Delivery::WebSocket(receipt) => {
                receipt.ledger() == seq![(receipt.queue(), receipt.item())]
            },
            Delivery::Datagram { .. } => true,
        }
    }

    /// The item of this delivery is the last that `record` holds.
    pub open spec fn recorded(self, record: Record) -> bool {
        match self {
            Delivery::Tcp(receipt) => {
                &&& receipt.ledger() == record.frames@
                &&& record.frames@.len() > 0
                &&& record.frames@.last() == (receipt.queue(), receipt.item())
            },
            Delivery::WebSocket(receipt) => {
                &&& receipt.ledger() == record.messages@
                &&& record.messages@.len() > 0
                &&& record.messages@.last() == (receipt.queue(), receipt.item())
            },
            Delivery::Datagram { .. } => true,
        }
    }

    /// This delivery brings `data` to the peer behind `responder`.
    pub open spec fn brings(self, responder: Responder, data: Seq<u8>) -> bool {
        match (responder, self) {
            (Responder::Tcp(queue), Delivery::Tcp(receipt)) => {
                &&& receipt.queue() == queue
                &&& receipt.item()@ == data
            },
            (Responder::Udp(via, peer), Delivery::Datagram { socket, to, data: bytes }) => {
                &&& socket == via
                &&& to == Some(peer)
                &&& bytes@ == data
            },
            (Responder::WebSocket(queue), Delivery::WebSocket(receipt)) => {
                &&& receipt.queue() == queue
                &&& crate::message::content(receipt.item()) == crate::message::Content::Binary(data)
            },
            _ => false,
        }
    }

    /// Returns where this delivery ended. A queue that gave the item back
    /// means that the task that writes to the peer has ended.
    pub fn settle(self) -> (settled: Settled)
        ensures
            match self {
                Delivery::Tcp(receipt) => settled == if receipt.returned() is None {
                    Settled::Sent
                } else {
                    Settled::Refused(Fault::TcpWriterClosed)
                },
                Delivery::WebSocket(receipt) => settled == if receipt.returned() is None {
                    Settled::Sent
                } else {
                    Settled::Refused(Fault::WebSocketWriterClosed)
                },
                Delivery::Datagram { socket, to, data } => settled == (Settled::Datagram {
                    socket,
                    to,
                    data,
                }),
            },
    {
        match self {
            Delivery::Tcp(receipt) => if receipt.accepted() {
                Settled::Sent
            } else {
                Settled::Refused(Fault::TcpWriterClosed)
            },
            Delivery::WebSocket(receipt) => if receipt.accepted() {
                Settled::Sent
            } else {
                Settled::Refused(Fault::WebSocketWriterClosed)
            },
            Delivery::Datagram { socket, to, data } => Settled::Datagram { socket, to, data },
        }
    }
}

/// The last item of a record that holds no more than one is alone in it.
pub(crate) proof fn lemma_alone(delivery: Delivery, record: Record)
    requires
        delivery.recorded(record),
        record.frames@.len() <= 1,
        record.messages@.len() <= 1,
    ensures
        delivery.alone(),
{
    match delivery {
        Delivery::Tcp(receipt) => {
            assert(record.frames@ =~= seq![(receipt.queue(), receipt.item())]);
        },
        Delivery::WebSocket(receipt) => {
            assert(record.messages@ =~= seq![(receipt.queue(), receipt.item())]);
        },
        Delivery::Datagram { .. } => {},
    }
}

impl Clone for Responder {
    /// Returns another way to the same peer.
    fn clone(&self) -> (other: Self)
        ensures
            other == *self,
    {
        match self {
            Responder::Tcp(queue) => Responder::Tcp(share_queue(queue)),
            Responder::Udp(socket, addr) => Responder::Udp(share(socket), *addr),
            Responder::WebSocket(queue) => Responder::WebSocket(share_queue(queue)),
        }
    }
}

impl Responder {
    /// The transport that this responder sends over.
    pub open spec fn transport(self) -> Protocol {
        match self {
            Responder::Tcp(_) => Protocol::Tcp,
            Responder::Udp(_, _) => Protocol::Udp,
            Responder::WebSocket(_) => Protocol::WebSocket,
        }
    }

    /// From `before` to `after` one item is handed over: `data`, to the queue
    /// of this peer. Where the peer has no queue, nothing is handed over.
    pub open spec fn gets_one(self, before: Record, after: Record, data: Seq<u8>) -> bool {
        match self {
            Responder::Tcp(queue) => {
                &&& after.messages@ == before.messages@
                &&& after.frames@.len() == before.frames@.len() + 1
                &&& after.frames@.drop_last() == before.frames@
                &&& after.frames@.last().0 == queue
                &&& after.frames@.last().1@ == data
            },
            Responder::Udp(_, _) => after.same(before),
            Responder::WebSocket(queue) => {
                &&& after.frames@ == before.frames@
                &&& after.messages@.len() == before.messages@.len() + 1
                &&& after.messages@.drop_last() == before.messages@
                &&& after.messages@.last().0 == queue
                &&& crate::message::content(after.messages@.last().1)
                    == crate::message::Content::Binary(data)
            },
        }
    }

    /// Sends a copy of `data` to the peer, once, and to nobody else. A datagram
    /// is left to be sent.
    pub fn send(&self, data: &[u8]) -> (delivery: Delivery)
        ensures
            delivery.brings(*self, data@),
            delivery.alone(),
    {
        let mut record = Record::new();
        let delivery = self.send_recorded(data, &mut record);
        proof {
            lemma_alone(delivery, record);
        }
        delivery
    }

    /// Sends a copy of `data` to the peer and records it. A datagram is left to
    /// be sent.
    pub fn send_recorded(&self, data: &[u8], record: &mut Record) -> (delivery: Delivery)
        ensures
            delivery.brings(*self, data@),
            delivery.recorded(*final(record)),
            self.gets_one(*old(record), *final(record), data@),
    {
        match self {
            Responder::Tcp(queue) => {
                let receipt = offer(&mut record.frames, queue, slice_to_vec(data));
                assert(record.frames@.drop_last() =~= old(record).frames@);
                Delivery::Tcp(receipt)
            },
            Responder::Udp(socket, addr) => Delivery::Datagram {
                socket: share(socket),
                to: Some(*addr),
                data: slice_to_vec(data),
            },
            Responder::WebSocket(queue) => {
                let receipt = offer(&mut record.messages, queue, binary_message(data));
                assert(record.messages@.drop_last() =~= old(record).messages@);
                Delivery::WebSocket(receipt)
            },
        }
    }
}

/// What a server received, with the way back to the peer that sent it.
pub struct Packet {
    /// The payload.
    pub data: Vec<u8>,
    /// The transport that it came over.
    pub protocol: Protocol,
    /// The way back to the peer.
    pub responder: Responder,
}

/// The text that shows a packet: `data` is its payload, `shown` the payload
/// as quoted text and `label` the name of its transport.
pub open spec fn packet_text(data: Seq<u8>, shown: Seq<char>, label: Seq<char>) -> Seq<char> {
    "Packet { data: ["@ + crate::text::decimals(data) + "], data_string: "@ + shown
        + ", protocol: \""@ + label + "\" }"@
}

/// Returns the text that shows a packet.
pub fn show_packet(data: &[u8], shown: &str, label: &str) -> (text: String)
    ensures
        text@ == packet_text(data@, shown@, label@),
{
    let mut text = String::from_str("Packet { data: [");
    append_decimals(&mut text, data);
    text.append("], data_string: ");
    text.append(shown);
    text.append(", protocol: \"");
    text.append(label);
    text.append("\" }");
    text
}

/// A list of bytes over several lines, within a structure that is shown over
/// several lines. An empty list takes no line.
pub open spec fn list_text(data: Seq<u8>) -> Seq<char> {
    if data.len() == 0 {
        "[]"@
    } else {
        "[\n"@ + crate::text::decimal_lines(data) + "    ]"@
    }
}

/// The text that shows a packet over several lines: one for each field, and
/// one for each byte of the payload.
pub open spec fn packet_lines(data: Seq<u8>, shown: Seq<char>, label: Seq<char>) -> Seq<char> {
    "Packet {\n    data: "@ + list_text(data) + ",\n    data_string: "@ + shown
        + ",\n    protocol: \""@ + label + "\",\n}"@
}

/// Returns the text that shows a packet over several lines.
pub fn show_packet_lines(data: &[u8], shown: &str, label: &str) -> (text: String)
    ensures
        text@ == packet_lines(data@, shown@, label@),
{
    let mut text = String::from_str("Packet {\n    data: ");
    if data.len() == 0 {
        text.append("[]");
    } else {
        text.append("[\n");
        append_decimal_lines(&mut text, data);
        text.append("    ]");
    }
    assert(text@ =~= "Packet {\n    data: "@ + list_text(data@));
    text.append(",\n    data_string: ");
    text.append(shown);
    text.append(",\n    protocol: \"");
    text.append(label);
    text.append("\",\n}");
    text
}

impl Packet {
    /// Returns a packet that came in from the peer behind `responder`.
    pub(crate) fn new(data: Vec<u8>, responder: Responder) -> (packet: Packet)
        ensures
            packet.data == data,
            packet.protocol == responder.transport(),
            packet.responder == responder,
    {
        let protocol = match &responder {
            Responder::Tcp(_) => Protocol::Tcp,
            Responder::Udp(_, _) => Protocol::Udp,
            Responder::WebSocket(_) => Protocol::WebSocket,
        };
        Packet { data, protocol, responder }
    }

    /// Sends a copy of `data` back to the peer, once, and to nobody else. A
    /// datagram is left to be sent.
    pub fn reply(&self, data: &[u8]) -> (delivery: Delivery)
        ensures
            delivery.brings(self.responder, data@),
            delivery.alone(),
    {
        self.responder.send(data)
    }

    /// Sends a copy of `data` back to the peer and records it. A datagram is
    /// left to be sent.
    pub fn reply_recorded(&self, data: &[u8], record: &mut Record) -> (delivery: Delivery)
        ensures
            delivery.brings(self.responder, data@),
            delivery.recorded(*final(record)),
            self.responder.gets_one(*old(record), *final(record), data@),
    {
        self.responder.send_recorded(data, record)
    }

    /// Returns this packet as debugging text: its payload as numbers and as
    /// text, and the transport.
    pub fn fmt(&self) -> (text: String)
        ensures
            text@ == packet_text(
                self.data@,
                crate::text::quoted(crate::text::lossy(self.data@)),
                self.protocol.spec_label(),
            ),
    {
        let shown = to_quoted(to_lossy(self.data.as_slice()).as_str());
        show_packet(self.data.as_slice(), shown.as_str(), self.protocol.label())
    }

    /// Returns this packet as debugging text over several lines: its payload
    /// as numbers and as text, and the transport.
    pub fn fmt_lines(&self) -> (text: String)
        ensures
            text@ == packet_lines(
                self.data@,
                crate::text::quoted(crate::text::lossy(self.data@)),
                self.protocol.spec_label(),
            ),
    {
        let shown = to_quoted(to_lossy(self.data.as_slice()).as_str());
        show_packet_lines(self.data.as_slice(), shown.as_str(), self.protocol.label())
    }
}

/// A delivery that brings data to a peer holds exactly that data, for exactly
/// that peer.
pub proof fn law_delivery_holds_the_data(delivery: Delivery, responder: Responder, data: Seq<u8>)
    requires
        delivery.brings(responder, data),
    ensures
        match delivery {
            Delivery::Tcp(receipt) => {
                &&& receipt.item()@ == data
                &&& responder == Responder::Tcp(receipt.queue())
            },
            Delivery::WebSocket(receipt) => {
                &&& crate::message::content(receipt.item()) == crate::message::Content::Binary(data)
                &&& responder == Responder::WebSocket(receipt.queue())
            },
            Delivery::Datagram { socket, to, data: bytes } => {
                &&& bytes@ == data
                &&& to matches Some(peer) && responder == Responder::Udp(socket, peer)
            },
        },
{
}

/// What is sent on a TCP responder adds one payload to what its queue is
/// handed, the data, and changes nothing for any other queue.
pub proof fn law_tcp_send_adds_one_payload(
    queue: UnboundedSender<Vec<u8>>,
    before: Record,
    after: Record,
    data: Seq<u8>,
    other: UnboundedSender<Vec<u8>>,
    messages: UnboundedSender<Message>,
)
    requires
        Responder::Tcp(queue).gets_one(before, after, data),
    ensures
        ({
            let old_items = crate::channel::handed(before.frames@, queue);
            let new_items = crate::channel::handed(after.frames@, queue);
            &&& new_items.len() == old_items.len() + 1
            &&& new_items.drop_last() == old_items
            &&& new_items.last()@ == data
        }),
        other != queue ==> crate::channel::handed(after.frames@, other) == crate::channel::handed(
            before.frames@,
            other,
        ),
        crate::channel::handed(after.messages@, messages) == crate::channel::handed(
            before.messages@,
            messages,
        ),
        after.frames@.len() == before.frames@.len() + 1,
        after.messages@.len() == before.messages@.len(),
{
    let old_items = crate::channel::handed(before.frames@, queue);
    assert(old_items.push(after.frames@.last().1).drop_last() =~= old_items);
}

/// What is sent on a WebSocket responder adds one message to what its queue is
/// handed, a binary one that holds the data, and changes nothing for any other
/// queue.
pub proof fn law_websocket_send_adds_one_message(
    queue: UnboundedSender<Message>,
    before: Record,
    after: Record,
    data: Seq<u8>,
    other: UnboundedSender<Message>,
    frames: UnboundedSender<Vec<u8>>,
)
    requires
        Responder::WebSocket(queue).gets_one(before, after, data),
    ensures
        ({
            let old_items = crate::channel::handed(before.messages@, queue);
            let new_items = crate::channel::handed(after.messages@, queue);
            &&& new_items.len() == old_items.len() + 1
            &&& new_items.drop_last() == old_items
            &&& crate::message::content(new_items.last()) == crate::message::Content::Binary(data)
        }),
        other != queue ==> crate::channel::handed(after.messages@, other)
            == crate::channel::handed(before.messages@, other),
        crate::channel::handed(after.frames@, frames) == crate::channel::handed(
            before.frames@,
            frames,
        ),
        after.messages@.len() == before.messages@.len() + 1,
        after.frames@.len() == before.frames@.len(),
{
    let old_items = crate::channel::handed(before.messages@, queue);
    assert(old_items.push(after.messages@.last().1).drop_last() =~= old_items);
}

/// What is sent on a UDP responder is handed to no queue.
pub proof fn law_udp_send_uses_no_queue(
    responder: Responder,
    before: Record,
    after: Record,
    data: Seq<u8>,
)
    requires
        responder is Udp,
        responder.gets_one(before, after, data),
    ensures
        after.frames@ == before.frames@,
        after.messages@ == before.messages@,
{
}

/// A delivery that is alone is the one entry of its ledger: its item was handed
/// to its queue, and nothing else was handed to any.
pub proof fn law_lone_delivery_is_the_one_entry(delivery: Delivery)
    requires
        delivery.alone(),
    ensures
        delivery matches Delivery::Tcp(receipt) ==> {
            &&& receipt.ledger().len() == 1
            &&& receipt.ledger()[0] == (receipt.queue(), receipt.item())
        },
        delivery matches Delivery::WebSocket(receipt) ==> {
            &&& receipt.ledger().len() == 1
            &&& receipt.ledger()[0] == (receipt.queue(), receipt.item())
        },
{
}

/// The text of a packet holds its payload in decimal, then as text, then its
/// transport, and between them nothing but the names of the fields.
pub proof fn law_packet_text_has_its_parts(data: Seq<u8>, shown: Seq<char>, label: Seq<char>)
    ensures
        ({
            let text = packet_text(data, shown, label);
            let numbers = crate::text::decimals(data);
            let a = "Packet { data: ["@.len() as int;
            let b = a + numbers.len();
            let c = b + "], data_string: "@.len();
            let d = c + shown.len();
            let e = d + ", protocol: \""@.len();
            let f = e + label.len();
            &&& text.len() == f + "\" }"@.len()
            &&& text.subrange(0, a) == "Packet { data: ["@
            &&& text.subrange(a, b) == numbers
            &&& text.subrange(b, c) == "], data_string: "@
            &&& text.subrange(c, d) == shown
            &&& text.subrange(d, e) == ", protocol: \""@
            &&& text.subrange(e, f) == label
            &&& text.skip(f) == "\" }"@
        }),
{
    let text = packet_text(data, shown, label);
    let numbers = crate::text::decimals(data);
    let a = "Packet { data: ["@.len() as int;
    let b = a + numbers.len();
    let c = b + "], data_string: "@.len();
    let d = c + shown.len();
    let e = d + ", protocol: \""@.len();
    let f = e + label.len();
    assert(text.subrange(0, a) =~= "Packet { data: ["@);
    assert(text.subrange(a, b) =~= numbers);
    assert(text.subrange(b, c) =~= "], data_string: "@);
    assert(text.subrange(c, d) =~= shown);
    assert(text.subrange(d, e) =~= ", protocol: \""@);
    assert(text.subrange(e, f) =~= label);
    assert(text.skip(f) =~= "\" }"@);
}

/// The text of a packet over several lines holds its payload in decimal, then
/// as text, then its transport, and between them nothing but the names of the
/// fields.
pub proof fn law_packet_lines_have_their_parts(data: Seq<u8>, shown: Seq<char>, label: Seq<char>)
    ensures
        ({
            let text = packet_lines(data, shown, label);
            let list = list_text(data);
            let a = "Packet {\n    data: "@.len() as int;
            let b = a + list.len();
            let c = b + ",\n    data_string: "@.len();
            let d = c + shown.len();
            let e = d + ",\n    protocol: \""@.len();
            let f = e + label.len();
            &&& text.len() == f + "\",\n}"@.len()
            &&& text.subrange(0, a) == "Packet {\n    data: "@
            &&& text.subrange(a, b) == list
            &&& text.subrange(b, c) == ",\n    data_string: "@
            &&& text.subrange(c, d) == shown
            &&& text.subrange(d, e) == ",\n    protocol: \""@
            &&& text.subrange(e, f) == label
            &&& text.skip(f) == "\",\n}"@
        }),
        data.len() == 0 ==> list_text(data) == "[]"@,
        data.len() > 0 ==> list_text(data) == "[\n"@ + crate::text::decimal_lines(data) + "    ]"@,
{
    let text = packet_lines(data, shown, label);
    let list = list_text(data);
    let a = "Packet {\n    data: "@.len() as int;
    let b = a + list.len();
    let c = b + ",\n    data_string: "@.len();
    let d = c + shown.len();
    let e = d + ",\n    protocol: \""@.len();
    let f = e + label.len();
    assert(text.subrange(0, a) =~= "Packet {\n    data: "@);
    assert(text.subrange(a, b) =~= list);
    assert(text.subrange(b, c) =~= ",\n    data_string: "@);
    assert(text.subrange(c, d) =~= shown);
    assert(text.subrange(d, e) =~= ",\n    protocol: \""@);
    assert(text.subrange(e, f) =~= label);
    assert(text.skip(f) =~= "\",\n}"@);
}

} // verus!
