//! One TCP connection of a server.
use crate::addr::PeerAddr;
use crate::channel::{new_queue, share_queue, Outbox};
use crate::frame::{decode_length, HEADER_SIZE};
use crate::packet::{Packet, Responder};
use crate::server::lifecycle::{Mark, Stage};
use tokio::sync::mpsc::UnboundedSender;
use vstd::prelude::*;

verus! {

/// Where a TCP connection stands.
#[derive(Clone, Copy, Debug, PartialEq, Eq, Structural)]
pub enum TcpPhase {
    /// It is being registered.
    Opening,
    /// It reads a length field.
    Header,
    /// It reads a payload.
    Body,
    /// The packet handler is at work.
    Handling,
    /// It is being unregistered.
    Leaving,
    /// It is over.
    Closed,
}

/// What happened to a TCP connection.
pub enum TcpEvent {
    /// It is registered.
    Registered,
    /// This length field was read.
    Header([u8; 4]),
    /// This payload was read.
    Body(Vec<u8>),
    /// The stream ended or failed before all was read.
    Failed,
    /// The packet handler is done.
    Handled,
    /// It is unregistered.
    Unregistered,
}

/// What a TCP connection does next.
pub enum TcpAction {
    /// Register this responder under this address.
    Register(PeerAddr, Responder),
    /// Read a length field.
    ReadHeader,
    /// Fill this buffer from the stream.
    ReadBody(Vec<u8>),
    /// Call the packet handler with this packet from this address, and wait
    /// until it is done.
    Handle(Packet, PeerAddr),
    /// Unregister this address and call the disconnect handler.
    Unregister(PeerAddr),
    /// Abort the task that writes to the peer; the connection is over.
    AbortWriter,
}

/// `TcpEvent` over mathematical values.
pub enum TcpSignal {
    Registered,
    Header(Seq<u8>),
    Body(Seq<u8>),
    Failed,
    Handled,
    Unregistered,
}

/// `TcpAction` over mathematical values: without what is the same throughout a
/// connection, and with the size in place of a buffer.
pub enum TcpOrder {
    Register,
    ReadHeader,
    ReadBody(nat),
    Handle(Seq<u8>),
    Unregister,
    AbortWriter,
}

impl View for TcpEvent {
    type V = TcpSignal;

    open spec fn view(&self) -> TcpSignal {
        match self {
            TcpEvent::Registered => TcpSignal::Registered,
            TcpEvent::Header(bytes) => TcpSignal::Header(bytes@),
            TcpEvent::Body(payload) => TcpSignal::Body(payload@),
            TcpEvent::Failed => TcpSignal::Failed,
            TcpEvent::Handled => TcpSignal::Handled,
            TcpEvent::Unregistered => TcpSignal::Unregistered,
        }
    }
}

impl View for TcpAction {
    type V = TcpOrder;

    open spec fn view(&self) -> TcpOrder {
        match self {
            TcpAction::Register(_, _) => TcpOrder::Register,
            TcpAction::ReadHeader => TcpOrder::ReadHeader,
            TcpAction::ReadBody(buffer) => TcpOrder::ReadBody(buffer@.len()),
            TcpAction::Handle(packet, _) => TcpOrder::Handle(packet.data@),
            TcpAction::Unregister(_) => TcpOrder::Unregister,
            TcpAction::AbortWriter => TcpOrder::AbortWriter,
        }
    }
}

/// What a TCP connection in `phase` does on `signal`. A failed read makes it
/// leave, and so does a signal that does not answer the last order.
pub open spec fn tcp_next(phase: TcpPhase, signal: TcpSignal) -> (TcpPhase, TcpOrder) {
    match (phase, signal) {
        (TcpPhase::Opening, TcpSignal::Registered) => (TcpPhase::Header, TcpOrder::ReadHeader),
        (TcpPhase::Header, TcpSignal::Header(bytes)) => (
            TcpPhase::Body,
            TcpOrder::ReadBody(crate::frame::be_value(bytes)),
        ),
        (TcpPhase::Body, TcpSignal::Body(payload)) => (
            TcpPhase::Handling,
            TcpOrder::Handle(payload),
        ),
        (TcpPhase::Handling, TcpSignal::Handled) => (TcpPhase::Header, TcpOrder::ReadHeader),
        (TcpPhase::Header, _) => (TcpPhase::Leaving, TcpOrder::Unregister),
        (TcpPhase::Body, _) => (TcpPhase::Leaving, TcpOrder::Unregister),
        (TcpPhase::Handling, _) => (TcpPhase::Leaving, TcpOrder::Unregister),
        _ => (TcpPhase::Closed, TcpOrder::AbortWriter),
    }
}

/// One TCP connection of a server: the decisions between its reads.
pub struct TcpConnection {
    addr: PeerAddr,
    queue: UnboundedSender<Vec<u8>>,
    phase: TcpPhase,
}

impl TcpConnection {
    /// The address of the peer.
    pub closed spec fn addr(self) -> PeerAddr {
        self.addr
    }

    /// The way to the peer.
    pub closed spec fn responder(self) -> Responder {
        Responder::Tcp(self.queue)
    }

    /// Where the connection stands.
    pub closed spec fn phase(self) -> TcpPhase {
        self.phase
    }

    /// What `action` names besides what its view holds belongs to this
    /// connection, and a buffer holds zeros.
    pub open spec fn owns(self, action: TcpAction) -> bool {
        match action {
            TcpAction::Register(addr, responder) => {
                &&& addr == self.addr()
                &&& responder == self.responder()
            },
            TcpAction::ReadBody(buffer) => forall|i: int|
                0 <= i < buffer@.len() ==> #[trigger] buffer@[i] == 0,
            TcpAction::Handle(packet, addr) => {
                &&& addr == self.addr()
                &&& packet.protocol == crate::Protocol::Tcp
                &&& packet.responder == self.responder()
            },
            TcpAction::Unregister(addr) => addr == self.addr(),
            _ => true,
        }
    }

    /// Opens the connection with the peer at `addr`. Returns it with what it
    /// does first and the queue of the task that writes to the peer.
    pub fn open(addr: PeerAddr) -> (opened: (TcpConnection, TcpAction, Outbox<Vec<u8>>))
        ensures
            opened.0.addr() == addr,
            opened.0.responder() == Responder::Tcp(opened.2.queue()),
            opened.0.phase() == TcpPhase::Opening,
            opened.1@ == TcpOrder::Register,
            opened.0.owns(opened.1),
    {
        let (queue, outbox) = new_queue();
        let action = TcpAction::Register(addr, Responder::Tcp(share_queue(&queue)));
        (TcpConnection { addr, queue, phase: TcpPhase::Opening }, action, outbox)
    }

    /// Takes what happened and returns what the connection does next.
    pub fn step(&mut self, event: TcpEvent) -> (action: TcpAction)
        ensures
            final(self).addr() == old(self).addr(),
            final(self).responder() == old(self).responder(),
            (final(self).phase(), action@) == tcp_next(old(self).phase(), event@),
            old(self).owns(action),
            action matches TcpAction::Handle(packet, _) ==> (event matches TcpEvent::Body(payload)
                && packet.data == payload),
            action matches TcpAction::ReadBody(buffer) ==> (event matches TcpEvent::Header(bytes)
                && buffer@.len() == crate::frame::be_value(bytes@)),
    {
        match (self.phase, event) {
            (TcpPhase::Opening, TcpEvent::Registered) => {
                self.phase = TcpPhase::Header;
                TcpAction::ReadHeader
            },
            (TcpPhase::Header, TcpEvent::Header(bytes)) => {
                let len: usize = decode_length(bytes) as usize;
                let buffer: Vec<u8> = vec![0u8; len];
                self.phase = TcpPhase::Body;
                TcpAction::ReadBody(buffer)
            },
            (TcpPhase::Body, TcpEvent::Body(payload)) => {
                self.phase = TcpPhase::Handling;
                let responder = Responder::Tcp(share_queue(&self.queue));
                TcpAction::Handle(Packet::new(payload, responder), self.addr)
            },
            (TcpPhase::Handling, TcpEvent::Handled) => {
                self.phase = TcpPhase::Header;
                TcpAction::ReadHeader
            },
            (TcpPhase::Header, _) | (TcpPhase::Body, _) | (TcpPhase::Handling, _) => {
                self.phase = TcpPhase::Leaving;
                TcpAction::Unregister(self.addr)
            },
            _ => {
                self.phase = TcpPhase::Closed;
                TcpAction::AbortWriter
            },
        }
    }
}

/// How many orders a TCP connection can still carry out before it reads.
pub open spec fn tcp_rank(phase: TcpPhase, order: TcpOrder) -> int {
    match (phase, order) {
        (_, TcpOrder::AbortWriter) => 0,
        (TcpPhase::Closed, _) => 1,
        (TcpPhase::Leaving, _) => 2,
        (TcpPhase::Header, _) => 3,
        (TcpPhase::Handling, _) => 4,
        (TcpPhase::Body, _) => 5,
        (TcpPhase::Opening, _) => 6,
    }
}

/// The payloads that the packet handler is called with from `phase` on, with
/// `order` to be carried out next, when `stream` is what the peer still sends.
pub open spec fn handled(phase: TcpPhase, order: TcpOrder, stream: Seq<u8>) -> Seq<Seq<u8>>
    decreases stream.len(), tcp_rank(phase, order),
{
    match order {
        TcpOrder::Register => {
            let (next, then) = tcp_next(phase, TcpSignal::Registered);
            handled(next, then, stream)
        },
        TcpOrder::ReadHeader => {
            if stream.len() < HEADER_SIZE {
                let (next, then) = tcp_next(phase, TcpSignal::Failed);
                handled(next, then, stream)
            } else {
                let bytes = stream.take(HEADER_SIZE as int);
                let (next, then) = tcp_next(phase, TcpSignal::Header(bytes));
                handled(next, then, stream.skip(HEADER_SIZE as int))
            }
        },
        TcpOrder::ReadBody(len) => {
            if stream.len() < len {
                let (next, then) = tcp_next(phase, TcpSignal::Failed);
                handled(next, then, stream)
            } else {
                let (next, then) = tcp_next(phase, TcpSignal::Body(stream.take(len as int)));
                handled(next, then, stream.skip(len as int))
            }
        },
        TcpOrder::Handle(payload) => {
            let (next, then) = tcp_next(phase, TcpSignal::Handled);
            seq![payload] + handled(next, then, stream)
        },
        TcpOrder::Unregister => {
            let (next, then) = tcp_next(phase, TcpSignal::Unregistered);
            handled(next, then, stream)
        },
        TcpOrder::AbortWriter => Seq::empty(),
    }
}

/// A connection that leaves calls the packet handler no more.
proof fn lemma_leaving_handles_nothing(stream: Seq<u8>)
    ensures
        handled(TcpPhase::Leaving, TcpOrder::Unregister, stream) == Seq::<Seq<u8>>::empty(),
{
    assert(handled(TcpPhase::Closed, TcpOrder::AbortWriter, stream) =~= Seq::empty());
}

proof fn lemma_handled_from_header(stream: Seq<u8>)
    ensures
        handled(TcpPhase::Header, TcpOrder::ReadHeader, stream) == crate::frame::deframe(stream),
    decreases stream.len(),
{
    if stream.len() < HEADER_SIZE {
        lemma_leaving_handles_nothing(stream);
    } else {
        let bytes = stream.take(HEADER_SIZE as int);
        let len = crate::frame::be_value(bytes);
        let after = stream.skip(HEADER_SIZE as int);
        let order = TcpOrder::ReadBody(len);
        assert(handled(TcpPhase::Header, TcpOrder::ReadHeader, stream) == handled(
            TcpPhase::Body,
            order,
            after,
        ));
        if after.len() < len {
            lemma_leaving_handles_nothing(after);
        } else {
            let payload = after.take(len as int);
            let rest = after.skip(len as int);
            let end = HEADER_SIZE + len;
            assert(stream.subrange(HEADER_SIZE as int, end as int) =~= payload);
            assert(stream.skip(end as int) =~= rest);
            lemma_handled_from_header(rest);
            assert(handled(TcpPhase::Handling, TcpOrder::Handle(payload), rest) == seq![payload]
                + handled(TcpPhase::Header, TcpOrder::ReadHeader, rest));
        }
    }
}

/// A connection calls the packet handler with the payload of each complete
/// frame on its stream, in the order of the stream, and with nothing else.
pub proof fn law_connection_handles_each_frame(stream: Seq<u8>)
    ensures
        handled(TcpPhase::Opening, TcpOrder::Register, stream) == crate::frame::deframe(stream),
{
    lemma_handled_from_header(stream);
}

/// The orders that a TCP connection in `phase` gives on `signals`, one for
/// each.
pub open spec fn tcp_trace(phase: TcpPhase, signals: Seq<TcpSignal>) -> Seq<TcpOrder>
    decreases signals.len(),
{
    if signals.len() == 0 {
        Seq::empty()
    } else {
        let (next, order) = tcp_next(phase, signals.first());
        seq![order] + tcp_trace(next, signals.drop_first())
    }
}

/// How far a TCP connection in `phase` has come.
pub open spec fn tcp_stage(phase: TcpPhase) -> Stage {
    match phase {
        TcpPhase::Opening => Stage::Opening,
        TcpPhase::Leaving => Stage::Leaving,
        TcpPhase::Closed => Stage::Closed,
        _ => Stage::Live,
    }
}

/// What an order means for the course of a TCP connection.
pub open spec fn tcp_mark(order: TcpOrder) -> Mark {
    match order {
        TcpOrder::Register => Mark::Enter,
        TcpOrder::Unregister => Mark::Strike,
        TcpOrder::AbortWriter => Mark::Over,
        _ => Mark::Work,
    }
}

/// The marks of `orders`.
pub open spec fn tcp_marks(orders: Seq<TcpOrder>) -> Seq<Mark> {
    orders.map_values(|order: TcpOrder| tcp_mark(order))
}

/// Whatever happens to it, a TCP connection takes the course of every
/// connection.
pub proof fn law_tcp_connection_takes_its_course(phase: TcpPhase, signals: Seq<TcpSignal>)
    ensures
        tcp_trace(phase, signals).len() == signals.len(),
        crate::server::lifecycle::runs(
            tcp_stage(phase),
            tcp_marks(tcp_trace(phase, signals)),
        ),
    decreases signals.len(),
{
    if signals.len() > 0 {
        let (next, order) = tcp_next(phase, signals.first());
        let rest = signals.drop_first();
        let later = tcp_marks(tcp_trace(next, rest));
        let marks = tcp_marks(tcp_trace(phase, signals));
        law_tcp_connection_takes_its_course(next, rest);
        assert(marks.first() == tcp_mark(order));
        assert(marks.drop_first() =~= later);
        assert(tcp_stage(next) == crate::server::lifecycle::reached(tcp_mark(order)));
    }
}

/// Whatever happens to a connection: it is registered only once, at the start;
/// it calls the packet handler only once it is registered; if it was
/// registered it is unregistered before it is over; and after it was
/// unregistered it neither reads nor handles anything.
pub proof fn law_connection_is_unregistered_once(signals: Seq<TcpSignal>)
    ensures
        ({
            let orders = tcp_trace(TcpPhase::Opening, signals);
            &&& orders.len() == signals.len()
            &&& forall|i: int| 0 <= i < orders.len() ==> #[trigger] orders[i] !is Register
            &&& forall|i: int|
                0 <= i < orders.len() && #[trigger] orders[i] !is AbortWriter ==> signals[0]
                    is Registered
            &&& forall|i: int, j: int|
                0 <= i < j < orders.len() && #[trigger] orders[i] is Unregister
                    ==> #[trigger] orders[j] is AbortWriter
            &&& forall|j: int|
                0 <= j < orders.len() && signals[0] is Registered && #[trigger] orders[j]
                    is AbortWriter ==> exists|i: int|
                    0 <= i < j && #[trigger] orders[i] is Unregister
        }),
{
    let orders = tcp_trace(TcpPhase::Opening, signals);
    let marks = tcp_marks(orders);
    law_tcp_connection_takes_its_course(TcpPhase::Opening, signals);
    crate::server::lifecycle::law_course_of_a_connection(Stage::Opening, marks);
    assert forall|i: int|
        #![trigger orders[i]]
        #![trigger marks[i]]
        0 <= i < orders.len() implies marks[i] == tcp_mark(orders[i]) by {}
    if orders.len() > 0 {
        assert(marks[0] == tcp_mark(orders[0]));
        assert(orders[0] == tcp_next(TcpPhase::Opening, signals[0]).1);
    }
    assert forall|j: int|
        0 <= j < orders.len() && signals[0] is Registered && #[trigger] orders[j]
            is AbortWriter implies exists|i: int|
        0 <= i < j && #[trigger] orders[i] is Unregister by {
        assert(crate::server::lifecycle::over_at(marks, j));
        let i = choose|i: int| 0 <= i < j && #[trigger] marks[i] is Strike;
        assert(orders[i] is Unregister);
    }
}

/// What a connection is told and what it orders is shown as it is: the bytes
/// that were read, the payload of a packet, the size of a buffer.
pub proof fn law_tcp_views_show_what_is_there(event: TcpEvent, action: TcpAction)
    ensures
        match event {
            TcpEvent::Registered => event@ is Registered,
            TcpEvent::Header(bytes) => event@ == TcpSignal::Header(bytes@),
            TcpEvent::Body(payload) => event@ == TcpSignal::Body(payload@),
            TcpEvent::Failed => event@ is Failed,
            TcpEvent::Handled => event@ is Handled,
            TcpEvent::Unregistered => event@ is Unregistered,
        },
        match action {
            TcpAction::Register(_, _) => action@ is Register,
            TcpAction::ReadHeader => action@ is ReadHeader,
            TcpAction::ReadBody(buffer) => action@ == TcpOrder::ReadBody(buffer@.len()),
            TcpAction::Handle(packet, _) => action@ == TcpOrder::Handle(packet.data@),
            TcpAction::Unregister(_) => action@ is Unregister,
            TcpAction::AbortWriter => action@ is AbortWriter,
        },
{
}

/// Whatever a connection orders names its own peer: it is registered and
/// unregistered under the address of the peer, and a packet is handled as one
/// of that peer, to be answered over the same queue.
pub proof fn law_tcp_orders_name_their_peer(connection: TcpConnection, action: TcpAction)
    requires
        connection.owns(action),
    ensures
        match action {
            TcpAction::Register(addr, responder) => {
                &&& addr == connection.addr()
                &&& responder == connection.responder()
            },
            TcpAction::Handle(packet, addr) => {
                &&& addr == connection.addr()
                &&& packet.responder == connection.responder()
                &&& packet.protocol == crate::Protocol::Tcp
            },
            TcpAction::Unregister(addr) => addr == connection.addr(),
            _ => true,
        },
        connection.responder() is Tcp,
{
}

/// A frame that is cut short is not handled: the packet handler is called with
/// the payloads of the frames before it and no other.
pub proof fn law_cut_frame_is_not_handled(payloads: Seq<Seq<u8>>, last: Seq<u8>, cut: int)
    requires
        crate::frame::all_fit(payloads),
        last.len() < crate::frame::LENGTH_SPAN,
        0 <= cut < HEADER_SIZE + last.len(),
    ensures
        handled(
            TcpPhase::Opening,
            TcpOrder::Register,
            crate::frame::frames(payloads) + crate::frame::frame(last).take(cut),
        ) == payloads,
{
    let tail = crate::frame::frame(last).take(cut);
    law_connection_handles_each_frame(crate::frame::frames(payloads) + tail);
    crate::frame::law_deframe_undoes_frames(payloads, tail);
    crate::frame::law_cut_frame_holds_no_payload(last, cut);
    assert(payloads + Seq::<Seq<u8>>::empty() =~= payloads);
}

} // verus!
