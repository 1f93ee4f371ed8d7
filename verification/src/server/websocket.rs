//! One WebSocket connection of a server.
use crate::addr::PeerAddr;
use crate::channel::{new_queue, share_queue, Outbox};
use crate::message::message_payload;
use crate::packet::{Packet, Responder};
use crate::server::lifecycle::{Mark, Stage};
use tokio::sync::mpsc::UnboundedSender;
use tokio_tungstenite::tungstenite::Message;
use vstd::prelude::*;

verus! {

/// Where a WebSocket connection stands.
#[derive(Clone, Copy, Debug, PartialEq, Eq, Structural)]
pub enum WsPhase {
    /// It is being registered.
    Opening,
    /// It waits for a message.
    Reading,
    /// The packet handler is being started.
    Starting,
    /// It is being unregistered.
    Leaving,
    /// It is over.
    Closed,
}

/// What happened to a WebSocket connection.
pub enum WsEvent {
    /// It is registered.
    Registered,
    /// This message was received.
    Received(Message),
    /// The connection failed.
    Failed,
    /// The connection ended.
    Ended,
    /// The packet handler is at work.
    Started,
    /// It is unregistered.
    Unregistered,
}

/// What a WebSocket connection does next.
pub enum WsAction {
    /// Register this responder under this address.
    Register(PeerAddr, Responder),
    /// Wait for the next message.
    Receive,
    /// Start the packet handler for this packet from this address, without
    /// waiting until it is done.
    Start(Packet, PeerAddr),
    /// Unregister this address and call the disconnect handler.
    Unregister(PeerAddr),
    /// Abort the task that writes to the peer; the connection is over.
    AbortWriter,
}

/// `WsEvent` over mathematical values.
pub enum WsSignal {
    Registered,
    Received(crate::message::Content),
    Failed,
    Ended,
    Started,
    Unregistered,
}

/// `WsAction` over mathematical values, without what is the same throughout a
/// connection.
pub enum WsOrder {
    Register,
    Receive,
    Start(Seq<u8>),
    Unregister,
    AbortWriter,
}

impl View for WsEvent {
    type V = WsSignal;

    open spec fn view(&self) -> WsSignal {
        match self {
            WsEvent::Registered => WsSignal::Registered,
            WsEvent::Received(message) => WsSignal::Received(crate::message::content(*message)),
            WsEvent::Failed => WsSignal::Failed,
            WsEvent::Ended => WsSignal::Ended,
            WsEvent::Started => WsSignal::Started,
            WsEvent::Unregistered => WsSignal::Unregistered,
        }
    }
}

impl View for WsAction {
    type V = WsOrder;

    open spec fn view(&self) -> WsOrder {
        match self {
            WsAction::Register(_, _) => WsOrder::Register,
            WsAction::Receive => WsOrder::Receive,
            WsAction::Start(packet, _) => WsOrder::Start(packet.data@),
            WsAction::Unregister(_) => WsOrder::Unregister,
            WsAction::AbortWriter => WsOrder::AbortWriter,
        }
    }
}

/// What a WebSocket connection in `phase` does on `signal`. It passes over a
/// message that delivers nothing. It leaves when the connection fails or ends,
/// or on a signal that does not answer the last order.
pub open spec fn ws_next(phase: WsPhase, signal: WsSignal) -> (WsPhase, WsOrder) {
    match (phase, signal) {
        (WsPhase::Opening, WsSignal::Registered) => (WsPhase::Reading, WsOrder::Receive),
        (WsPhase::Reading, WsSignal::Received(content)) => {
            match crate::message::payload(content) {
                Some(payload) => (WsPhase::Starting, WsOrder::Start(payload)),
                None => (WsPhase::Reading, WsOrder::Receive),
            }
        },
        (WsPhase::Starting, WsSignal::Started) => (WsPhase::Reading, WsOrder::Receive),
        (WsPhase::Reading, _) => (WsPhase::Leaving, WsOrder::Unregister),
        (WsPhase::Starting, _) => (WsPhase::Leaving, WsOrder::Unregister),
        _ => (WsPhase::Closed, WsOrder::AbortWriter),
    }
}

/// One WebSocket connection of a server: the decisions between its messages.
pub struct WsConnection {
    addr: PeerAddr,
    queue: UnboundedSender<Message>,
    phase: WsPhase,
}

impl WsConnection {
    /// The address of the peer.
    pub closed spec fn addr(self) -> PeerAddr {
        self.addr
    }

    /// The way to the peer.
    pub closed spec fn responder(self) -> Responder {
        Responder::WebSocket(self.queue)
    }

    /// Where the connection stands.
    pub closed spec fn phase(self) -> WsPhase {
        self.phase
    }

    /// What `action` names besides what its view holds belongs to this
    /// connection.
    pub open spec fn owns(self, action: WsAction) -> bool {
        match action {
            WsAction::Register(addr, responder) => {
                &&& addr == self.addr()
                &&& responder == self.responder()
            },
            WsAction::Start(packet, addr) => {
                &&& addr == self.addr()
                &&& packet.protocol == crate::Protocol::WebSocket
                &&& packet.responder == self.responder()
            },
            WsAction::Unregister(addr) => addr == self.addr(),
            _ => true,
        }
    }

    /// Opens the connection with the peer at `addr` if the handshake
    /// succeeded. Returns it with what it does first and the queue of the task
    /// that writes to the peer.
    pub fn open(addr: PeerAddr, handshake: bool) -> (opened: Option<
        (WsConnection, WsAction, Outbox<Message>),
    >)
        ensures
            match opened {
                Some((connection, action, outbox)) => {
                    &&& handshake
                    &&& connection.addr() == addr
                    &&& connection.responder() == Responder::WebSocket(outbox.queue())
                    &&& connection.phase() == WsPhase::Opening
                    &&& action@ == WsOrder::Register
                    &&& connection.owns(action)
                },
                None => !handshake,
            },
    {
        if handshake {
            let (queue, outbox) = new_queue();
            let action = WsAction::Register(addr, Responder::WebSocket(share_queue(&queue)));
            Some((WsConnection { addr, queue, phase: WsPhase::Opening }, action, outbox))
        } else {
            None
        }
    }

    /// Takes what happened and returns what the connection does next.
    pub fn step(&mut self, event: WsEvent) -> (action: WsAction)
        ensures
            final(self).addr() == old(self).addr(),
            final(self).responder() == old(self).responder(),
            (final(self).phase(), action@) == ws_next(old(self).phase(), event@),
            old(self).owns(action),
    {
        match (self.phase, event) {
            (WsPhase::Opening, WsEvent::Registered) => {
                self.phase = WsPhase::Reading;
                WsAction::Receive
            },
            (WsPhase::Reading, WsEvent::Received(message)) => match message_payload(message) {
                Some(payload) => {
                    self.phase = WsPhase::Starting;
                    let responder = Responder::WebSocket(share_queue(&self.queue));
                    WsAction::Start(Packet::new(payload, responder), self.addr)
                },
                None => WsAction::Receive,
            },
            (WsPhase::Starting, WsEvent::Started) => {
                self.phase = WsPhase::Reading;
                WsAction::Receive
            },
            (WsPhase::Reading, _) | (WsPhase::Starting, _) => {
                self.phase = WsPhase::Leaving;
                WsAction::Unregister(self.addr)
            },
            _ => {
                self.phase = WsPhase::Closed;
                WsAction::AbortWriter
            },
        }
    }
}

/// How many orders a WebSocket connection can still carry out before it
/// receives.
pub open spec fn ws_rank(phase: WsPhase, order: WsOrder) -> int {
    match (phase, order) {
        (_, WsOrder::AbortWriter) => 0,
        (WsPhase::Closed, _) => 1,
        (WsPhase::Leaving, _) => 2,
        (WsPhase::Reading, _) => 3,
        (WsPhase::Starting, _) => 4,
        (WsPhase::Opening, _) => 5,
    }
}

/// The payloads that the packet handler is started with from `phase` on, with
/// `order` to be carried out next, when `contents` is what it still receives
/// before the connection fails, or ends if it has not `failed`.
pub open spec fn started(
    phase: WsPhase,
    order: WsOrder,
    contents: Seq<crate::message::Content>,
    failed: bool,
) -> Seq<Seq<u8>>
    decreases contents.len(), ws_rank(phase, order),
{
    match order {
        WsOrder::Register => {
            let (next, then) = ws_next(phase, WsSignal::Registered);
            started(next, then, contents, failed)
        },
        WsOrder::Receive => {
            if contents.len() == 0 {
                let end = if failed {
                    WsSignal::Failed
                } else {
                    WsSignal::Ended
                };
                let (next, then) = ws_next(phase, end);
                started(next, then, contents, failed)
            } else {
                let (next, then) = ws_next(phase, WsSignal::Received(contents.first()));
                started(next, then, contents.drop_first(), failed)
            }
        },
        WsOrder::Start(payload) => {
            let (next, then) = ws_next(phase, WsSignal::Started);
            seq![payload] + started(next, then, contents, failed)
        },
        WsOrder::Unregister => {
            let (next, then) = ws_next(phase, WsSignal::Unregistered);
            started(next, then, contents, failed)
        },
        WsOrder::AbortWriter => Seq::empty(),
    }
}

proof fn lemma_started_from_reading(contents: Seq<crate::message::Content>, failed: bool)
    ensures
        started(WsPhase::Reading, WsOrder::Receive, contents, failed) == crate::message::payloads(
            contents,
        ),
    decreases contents.len(),
{
    if contents.len() == 0 {
        assert(started(WsPhase::Closed, WsOrder::AbortWriter, contents, failed) =~= Seq::empty());
        assert(started(WsPhase::Leaving, WsOrder::Unregister, contents, failed) =~= Seq::empty());
    } else {
        let rest = contents.drop_first();
        lemma_started_from_reading(rest, failed);
        if let Some(payload) = crate::message::payload(contents.first()) {
            assert(started(WsPhase::Starting, WsOrder::Start(payload), rest, failed) == seq![payload]
                + started(WsPhase::Reading, WsOrder::Receive, rest, failed));
        }
    }
}

/// A connection starts the packet handler once for each text or binary message
/// of its peer, in the order of the messages, and for nothing else, whether the
/// connection then ends or fails.
pub proof fn law_connection_starts_each_message(
    contents: Seq<crate::message::Content>,
    failed: bool,
)
    ensures
        started(WsPhase::Opening, WsOrder::Register, contents, failed) == crate::message::payloads(
            contents,
        ),
{
    lemma_started_from_reading(contents, failed);
}

/// The orders that a WebSocket connection in `phase` gives on `signals`, one
/// for each.
pub open spec fn ws_trace(phase: WsPhase, signals: Seq<WsSignal>) -> Seq<WsOrder>
    decreases signals.len(),
{
    if signals.len() == 0 {
        Seq::empty()
    } else {
        let (next, order) = ws_next(phase, signals.first());
        seq![order] + ws_trace(next, signals.drop_first())
    }
}

/// How far a WebSocket connection in `phase` has come.
pub open spec fn ws_stage(phase: WsPhase) -> Stage {
    match phase {
        WsPhase::Opening => Stage::Opening,
        WsPhase::Leaving => Stage::Leaving,
        WsPhase::Closed => Stage::Closed,
        _ => Stage::Live,
    }
}

/// What an order means for the course of a WebSocket connection.
pub open spec fn ws_mark(order: WsOrder) -> Mark {
    match order {
        WsOrder::Register => Mark::Enter,
        WsOrder::Unregister => Mark::Strike,
        WsOrder::AbortWriter => Mark::Over,
        _ => Mark::Work,
    }
}

/// The marks of `orders`.
pub open spec fn ws_marks(orders: Seq<WsOrder>) -> Seq<Mark> {
    orders.map_values(|order: WsOrder| ws_mark(order))
}

/// Whatever happens to it, a WebSocket connection takes the course of every
/// connection.
pub proof fn law_ws_connection_takes_its_course(phase: WsPhase, signals: Seq<WsSignal>)
    ensures
        ws_trace(phase, signals).len() == signals.len(),
        crate::server::lifecycle::runs(
            ws_stage(phase),
            ws_marks(ws_trace(phase, signals)),
        ),
    decreases signals.len(),
{
    if signals.len() > 0 {
        let (next, order) = ws_next(phase, signals.first());
        let rest = signals.drop_first();
        let later = ws_marks(ws_trace(next, rest));
        let marks = ws_marks(ws_trace(phase, signals));
        law_ws_connection_takes_its_course(next, rest);
        assert(marks.first() == ws_mark(order));
        assert(marks.drop_first() =~= later);
        assert(ws_stage(next) == crate::server::lifecycle::reached(ws_mark(order)));
    }
}

/// Whatever happens to a connection: it is registered only once, at the start;
/// it starts the packet handler only once it is registered; if it was
/// registered it is unregistered before it is over; and after it was
/// unregistered it neither receives nor starts anything.
pub proof fn law_ws_connection_is_unregistered_once(signals: Seq<WsSignal>)
    ensures
        ({
            let orders = ws_trace(WsPhase::Opening, signals);
            &&& orders.len() == signals.len()
            &&& forall|i: int| 0 <= i < orders.len() ==> #[trigger] orders[i] !is Register
            &&& forall|i: int|
                0 <= i < orders.len() && #[trigger] orders[i] !is AbortWriter ==> signals[0]
                    is Registered
            &&& forall|i: int, j: int|
                0 <= i < j < orders.len() && #[trigger] orders[i] is Unregister
                    ==> #[trigger] orders[j] is AbortWriter
            &&& forall|j: int|
                0 <= j < orders.len() && signals[0] is Registered && #[trigger] orders[j]
                    is AbortWriter ==> exists|i: int|
                    0 <= i < j && #[trigger] orders[i] is Unregister
        }),
{
    let orders = ws_trace(WsPhase::Opening, signals);
    let marks = ws_marks(orders);
    law_ws_connection_takes_its_course(WsPhase::Opening, signals);
    crate::server::lifecycle::law_course_of_a_connection(Stage::Opening, marks);
    assert forall|i: int|
        #![trigger orders[i]]
        #![trigger marks[i]]
        0 <= i < orders.len() implies marks[i] == ws_mark(orders[i]) by {}
    if orders.len() > 0 {
        assert(marks[0] == ws_mark(orders[0]));
        assert(orders[0] == ws_next(WsPhase::Opening, signals[0]).1);
    }
    assert forall|j: int|
        0 <= j < orders.len() && signals[0] is Registered && #[trigger] orders[j]
            is AbortWriter implies exists|i: int|
        0 <= i < j && #[trigger] orders[i] is Unregister by {
        assert(crate::server::lifecycle::over_at(marks, j));
        let i = choose|i: int| 0 <= i < j && #[trigger] marks[i] is Strike;
        assert(orders[i] is Unregister);
    }
}

/// What a connection is told and what it orders is shown as it is: the content
/// of the message that was received, the payload of a packet.
pub proof fn law_ws_views_show_what_is_there(event: WsEvent, action: WsAction)
    ensures
        match event {
            WsEvent::Registered => event@ is Registered,
            WsEvent::Received(message) => {
                event@ == WsSignal::Received(crate::message::content(message))
            },
            WsEvent::Failed => event@ is Failed,
            WsEvent::Ended => event@ is Ended,
            WsEvent::Started => event@ is Started,
            WsEvent::Unregistered => event@ is Unregistered,
        },
        match action {
            WsAction::Register(_, _) => action@ is Register,
            WsAction::Receive => action@ is Receive,
            WsAction::Start(packet, _) => action@ == WsOrder::Start(packet.data@),
            WsAction::Unregister(_) => action@ is Unregister,
            WsAction::AbortWriter => action@ is AbortWriter,
        },
{
}

/// Whatever a connection orders names its own peer: it is registered and
/// unregistered under the address of the peer, and a packet is handled as one
/// of that peer, to be answered over the same queue.
pub proof fn law_ws_orders_name_their_peer(connection: WsConnection, action: WsAction)
    requires
        connection.owns(action),
    ensures
        match action {
            WsAction::Register(addr, responder) => {
                &&& addr == connection.addr()
                &&& responder == connection.responder()
            },
            WsAction::Start(packet, addr) => {
                &&& addr == connection.addr()
                &&& packet.responder == connection.responder()
                &&& packet.protocol == crate::Protocol::WebSocket
            },
            WsAction::Unregister(addr) => addr == connection.addr(),
            _ => true,
        },
        connection.responder() is WebSocket,
{
}

} // verus!
