//! How a client listens.
use super::Connection;
use crate::datagram::datagram_buffer;
use crate::error::Fault;
use crate::frame::{decode_length, HEADER_SIZE};
use crate::message::message_payload;
use crate::MAX_FRAME_SIZE;
use std::sync::Arc;
use tokio_tungstenite::tungstenite::Message;
use vstd::prelude::*;

verus! {

/// Where a listening client stands.
#[derive(Clone, Copy, Debug, PartialEq, Eq, Structural)]
pub enum ListenPhase {
    /// It takes the TCP stream out of its slot.
    TakeTcp,
    /// It reads a length field.
    Header,
    /// It reads a payload.
    Body,
    /// The handler of a payload is being started.
    FrameStarting,
    /// It waits for a datagram.
    Receiving,
    /// The handler of a datagram is being started.
    DatagramStarting,
    /// It takes the WebSocket out of its slot.
    TakeWebSocket,
    /// It waits for a WebSocket message.
    Waiting,
    /// The handler of a WebSocket message is being started.
    MessageStarting,
    /// It is done.
    Done,
}

/// What happened to a listening client. `E` is the error of a failed read.
pub enum ListenEvent<E> {
    /// The slot was emptied: whether there was anything in it.
    Reader(bool),
    /// This length field was read.
    Header([u8; 4]),
    /// This payload was read.
    Body(Vec<u8>),
    /// The stream ended before all was read.
    EndOfStream(E),
    /// A datagram was received into the first `size` bytes of `buffer`.
    Datagram { buffer: Vec<u8>, size: usize },
    /// This WebSocket message was received.
    Received(Message),
    /// The WebSocket connection ended.
    Ended,
    /// Reading failed for another reason than the end of the stream.
    Failed(E),
    /// The message handler is at work.
    Started,
}

/// Why listening ended.
pub enum ListenFault<E> {
    /// A fault that the library found.
    Fault(Fault),
    /// The error of a failed read.
    Io(E),
}

/// What a listening client does next.
pub enum ListenAction<E> {
    /// Take what is read from out of its slot.
    TakeReader,
    /// Read a length field.
    ReadHeader,
    /// Fill this buffer from the stream.
    ReadBody(Vec<u8>),
    /// Receive a datagram into this buffer.
    ReceiveDatagram(Vec<u8>),
    /// Wait for the next WebSocket message.
    ReceiveMessage,
    /// Start the message handler, without waiting until it is done.
    Start(Vec<u8>),
    /// Stop listening with this result.
    Return(Result<(), ListenFault<E>>),
}

/// `ListenEvent` over mathematical values.
pub enum ListenSignal<E> {
    Reader(bool),
    Header(Seq<u8>),
    Body(Seq<u8>),
    EndOfStream(E),
    Datagram(Seq<u8>),
    Received(crate::message::Content),
    Ended,
    Failed(E),
    Started,
}

/// `ListenAction` over mathematical values, with the size in place of a
/// buffer.
pub enum ListenOrder<E> {
    TakeReader,
    ReadHeader,
    ReadBody(nat),
    ReceiveDatagram(nat),
    ReceiveMessage,
    Start(Seq<u8>),
    Return(Result<(), ListenFault<E>>),
}

impl<E> View for ListenEvent<E> {
    type V = ListenSignal<E>;

    open spec fn view(&self) -> ListenSignal<E> {
        match *self {
            ListenEvent::Reader(present) => ListenSignal::Reader(present),
            ListenEvent::Header(bytes) => ListenSignal::Header(bytes@),
            ListenEvent::Body(payload) => ListenSignal::Body(payload@),
            ListenEvent::EndOfStream(error) => ListenSignal::EndOfStream(error),
            ListenEvent::Datagram { buffer, size } => ListenSignal::Datagram(
                buffer@.take(size as int),
            ),
            ListenEvent::Received(message) => ListenSignal::Received(
                crate::message::content(message),
            ),
            ListenEvent::Ended => ListenSignal::Ended,
            ListenEvent::Failed(error) => ListenSignal::Failed(error),
            ListenEvent::Started => ListenSignal::Started,
        }
    }
}

impl<E> View for ListenAction<E> {
    type V = ListenOrder<E>;

    open spec fn view(&self) -> ListenOrder<E> {
        match *self {
            ListenAction::TakeReader => ListenOrder::TakeReader,
            ListenAction::ReadHeader => ListenOrder::ReadHeader,
            ListenAction::ReadBody(buffer) => ListenOrder::ReadBody(buffer@.len()),
            ListenAction::ReceiveDatagram(buffer) => ListenOrder::ReceiveDatagram(buffer@.len()),
            ListenAction::ReceiveMessage => ListenOrder::ReceiveMessage,
            ListenAction::Start(payload) => ListenOrder::Start(payload@),
            ListenAction::Return(result) => ListenOrder::Return(result),
        }
    }
}

impl<E> ListenAction<E> {
    /// A buffer holds zeros.
    pub open spec fn clean(self) -> bool {
        match self {
            ListenAction::ReadBody(buffer) => forall|i: int|
                0 <= i < buffer@.len() ==> #[trigger] buffer@[i] == 0,
            ListenAction::ReceiveDatagram(buffer) => forall|i: int|
                0 <= i < buffer@.len() ==> #[trigger] buffer@[i] == 0,
            _ => true,
        }
    }
}

/// Where listening on `connection` starts, and with which order.
pub open spec fn listen_first<T, W, E>(connection: Connection<T, W>) -> (
    ListenPhase,
    ListenOrder<E>,
) {
    match connection {
        Connection::Tcp { .. } => (ListenPhase::TakeTcp, ListenOrder::TakeReader),
        Connection::Udp(_) => (
            ListenPhase::Receiving,
            ListenOrder::ReceiveDatagram(crate::datagram::DATAGRAM_SIZE as nat),
        ),
        Connection::WebSocket { .. } => (ListenPhase::TakeWebSocket, ListenOrder::TakeReader),
    }
}

/// The order that stops listening with `result`.
pub open spec fn listen_return<E>(result: Result<(), ListenFault<E>>) -> (
    ListenPhase,
    ListenOrder<E>,
) {
    (ListenPhase::Done, ListenOrder::Return(result))
}

/// What a listening client in `phase` does on `signal`.
///
/// A TCP stream that ends where a length field is due, or within one, ends the
/// listening without an error; within a payload it is an error. A frame longer
/// than `MAX_FRAME_SIZE` is an error. A WebSocket message that delivers
/// nothing is passed over. A signal that does not answer the last order ends
/// the listening.
pub open spec fn listen_next<E>(phase: ListenPhase, signal: ListenSignal<E>) -> (
    ListenPhase,
    ListenOrder<E>,
) {
    match (phase, signal) {
        (ListenPhase::TakeTcp, ListenSignal::Reader(true)) => (
            ListenPhase::Header,
            ListenOrder::ReadHeader,
        ),
        (ListenPhase::TakeTcp, ListenSignal::Reader(false)) => listen_return(
            Err(ListenFault::Fault(Fault::TcpReaderTaken)),
        ),
        (ListenPhase::Header, ListenSignal::Header(bytes)) => {
            let len = crate::frame::be_value(bytes);
            if len > MAX_FRAME_SIZE {
                listen_return(Err(ListenFault::Fault(Fault::FrameTooLargeToReceive)))
            } else {
                (ListenPhase::Body, ListenOrder::ReadBody(len))
            }
        },
        (ListenPhase::Header, ListenSignal::EndOfStream(_)) => listen_return(Ok(())),
        (ListenPhase::Header, ListenSignal::Failed(error)) => listen_return(
            Err(ListenFault::Io(error)),
        ),
        (ListenPhase::Body, ListenSignal::Body(payload)) => (
            ListenPhase::FrameStarting,
            ListenOrder::Start(payload),
        ),
        (ListenPhase::Body, ListenSignal::EndOfStream(error)) => listen_return(
            Err(ListenFault::Io(error)),
        ),
        (ListenPhase::Body, ListenSignal::Failed(error)) => listen_return(
            Err(ListenFault::Io(error)),
        ),
        (ListenPhase::FrameStarting, ListenSignal::Started) => (
            ListenPhase::Header,
            ListenOrder::ReadHeader,
        ),
        (ListenPhase::Receiving, ListenSignal::Datagram(data)) => (
            ListenPhase::DatagramStarting,
            ListenOrder::Start(data),
        ),
        (ListenPhase::Receiving, ListenSignal::Failed(error)) => listen_return(
            Err(ListenFault::Io(error)),
        ),
        (ListenPhase::DatagramStarting, ListenSignal::Started) => (
            ListenPhase::Receiving,
            ListenOrder::ReceiveDatagram(crate::datagram::DATAGRAM_SIZE as nat),
        ),
        (ListenPhase::TakeWebSocket, ListenSignal::Reader(true)) => (
            ListenPhase::Waiting,
            ListenOrder::ReceiveMessage,
        ),
        (ListenPhase::TakeWebSocket, ListenSignal::Reader(false)) => listen_return(
            Err(ListenFault::Fault(Fault::WebSocketReaderTaken)),
        ),
        (ListenPhase::Waiting, ListenSignal::Received(content)) => {
            match crate::message::payload(content) {
                Some(payload) => (ListenPhase::MessageStarting, ListenOrder::Start(payload)),
                None => (ListenPhase::Waiting, ListenOrder::ReceiveMessage),
            }
        },
        (ListenPhase::Waiting, ListenSignal::Failed(error)) => listen_return(
            Err(ListenFault::Io(error)),
        ),
        (ListenPhase::Waiting, ListenSignal::Ended) => listen_return(Ok(())),
        (ListenPhase::MessageStarting, ListenSignal::Started) => (
            ListenPhase::Waiting,
            ListenOrder::ReceiveMessage,
        ),
        _ => listen_return(Ok(())),
    }
}

/// A client that listens: the decisions between its reads.
pub struct Listening {
    phase: ListenPhase,
}

/// Everything that listening needs.
pub struct Listen<S, H, T, W, E> {
    /// The connection to read from.
    pub connection: Connection<T, W>,
    /// What to call with each message.
    pub on_message: Arc<H>,
    /// The state to call it with.
    pub state: Arc<S>,
    /// The decisions.
    pub listening: Listening,
    /// What to do first.
    pub first: ListenAction<E>,
}

impl Listening {
    /// Where the client stands.
    pub closed spec fn phase(self) -> ListenPhase {
        self.phase
    }

    /// Starts to listen on `connection`. Returns what to do first.
    pub(crate) fn start<T, W, E>(connection: &Connection<T, W>) -> (started: (
        Listening,
        ListenAction<E>,
    ))
        ensures
            (started.0.phase(), started.1@) == listen_first::<T, W, E>(*connection),
            started.1.clean(),
    {
        let (phase, first) = match connection {
            Connection::Tcp { .. } => (ListenPhase::TakeTcp, ListenAction::TakeReader),
            Connection::Udp(_) => (
                ListenPhase::Receiving,
                ListenAction::ReceiveDatagram(datagram_buffer()),
            ),
            Connection::WebSocket { .. } => (ListenPhase::TakeWebSocket, ListenAction::TakeReader),
        };
        (Listening { phase }, first)
    }

    fn stop<E>(&mut self, result: Result<(), ListenFault<E>>) -> (action: ListenAction<E>)
        ensures
            (final(self).phase(), action@) == listen_return(result),
            action.clean(),
    {
        self.phase = ListenPhase::Done;
        ListenAction::Return(result)
    }

    /// Takes what happened and returns what the client does next.
    pub fn step<E>(&mut self, event: ListenEvent<E>) -> (action: ListenAction<E>)
        requires
            event matches ListenEvent::Datagram { buffer, size } ==> size <= buffer@.len(),
        ensures
            (final(self).phase(), action@) == listen_next(old(self).phase(), event@),
            action.clean(),
            action matches ListenAction::Start(data) ==> match event {
                ListenEvent::Body(payload) => data@ == payload@,
                ListenEvent::Datagram { buffer, size } => data@ == buffer@.take(size as int),
                ListenEvent::Received(_) => true,
                _ => false,
            },
            action matches ListenAction::ReadBody(buffer) ==> (event matches ListenEvent::Header(
                bytes,
            ) && buffer@.len() == crate::frame::be_value(bytes@)),
    {
        match (self.phase, event) {
            (ListenPhase::TakeTcp, ListenEvent::Reader(true)) => {
                self.phase = ListenPhase::Header;
                ListenAction::ReadHeader
            },
            (ListenPhase::TakeTcp, ListenEvent::Reader(false)) => {
                self.stop(Err(ListenFault::Fault(Fault::TcpReaderTaken)))
            },
            (ListenPhase::Header, ListenEvent::Header(bytes)) => {
                let len: usize = decode_length(bytes) as usize;
                if len > MAX_FRAME_SIZE {
                    self.stop(Err(ListenFault::Fault(Fault::FrameTooLargeToReceive)))
                } else {
                    let buffer: Vec<u8> = vec![0u8; len];
                    self.phase = ListenPhase::Body;
                    ListenAction::ReadBody(buffer)
                }
            },
            (ListenPhase::Header, ListenEvent::EndOfStream(_)) => self.stop(Ok(())),
            (ListenPhase::Body, ListenEvent::Body(payload)) => {
                self.phase = ListenPhase::FrameStarting;
                ListenAction::Start(payload)
            },
            (ListenPhase::Body, ListenEvent::EndOfStream(error)) => {
                self.stop(Err(ListenFault::Io(error)))
            },
            (ListenPhase::FrameStarting, ListenEvent::Started) => {
                self.phase = ListenPhase::Header;
                ListenAction::ReadHeader
            },
            (ListenPhase::Receiving, ListenEvent::Datagram { buffer, size }) => {
                let mut data = buffer;
                data.truncate(size);
                assert(data@ =~= buffer@.take(size as int));
                self.phase = ListenPhase::DatagramStarting;
                ListenAction::Start(data)
            },
            (ListenPhase::DatagramStarting, ListenEvent::Started) => {
                self.phase = ListenPhase::Receiving;
                ListenAction::ReceiveDatagram(datagram_buffer())
            },
            (ListenPhase::TakeWebSocket, ListenEvent::Reader(true)) => {
                self.phase = ListenPhase::Waiting;
                ListenAction::ReceiveMessage
            },
            (ListenPhase::TakeWebSocket, ListenEvent::Reader(false)) => {
                self.stop(Err(ListenFault::Fault(Fault::WebSocketReaderTaken)))
            },
            (ListenPhase::Waiting, ListenEvent::Received(message)) => {
                match message_payload(message) {
                    Some(payload) => {
                        self.phase = ListenPhase::MessageStarting;
                        ListenAction::Start(payload)
                    },
                    None => ListenAction::ReceiveMessage,
                }
            },
            (ListenPhase::Waiting, ListenEvent::Ended) => self.stop(Ok(())),
            (ListenPhase::MessageStarting, ListenEvent::Started) => {
                self.phase = ListenPhase::Waiting;
                ListenAction::ReceiveMessage
            },
            (ListenPhase::Header, ListenEvent::Failed(error)) | (
                ListenPhase::Body,
                ListenEvent::Failed(error),
            ) | (ListenPhase::Receiving, ListenEvent::Failed(error)) | (
                ListenPhase::Waiting,
                ListenEvent::Failed(error),
            ) => self.stop(Err(ListenFault::Io(error))),
            _ => self.stop(Ok(())),
        }
    }
}

/// Carries out `ListenAction::TakeReader` on the slot that the clones of a
/// client share: empties it, and returns what was in it with the event that
/// tells the client.
pub fn take_reader<R, E>(slot: &mut Option<R>) -> (taken: (Option<R>, ListenEvent<E>))
    ensures
        taken.0 == *old(slot),
        *final(slot) is None,
        taken.1 == ListenEvent::<E>::Reader(*old(slot) is Some),
{
    let reader = slot.take();
    let present = reader.is_some();
    (reader, ListenEvent::Reader(present))
}

/// What `n` listeners find that take from the same slot, one after the other:
/// the first finds what is in it and leaves it empty.
pub open spec fn takes<R>(slot: Option<R>, n: nat) -> Seq<Option<R>>
    decreases n,
{
    if n == 0 {
        Seq::empty()
    } else {
        seq![slot] + takes(None, (n - 1) as nat)
    }
}

proof fn lemma_takes<R>(slot: Option<R>, n: nat)
    ensures
        takes(slot, n).len() == n,
        n > 0 ==> takes(slot, n)[0] == slot,
        forall|i: int| 0 < i < n ==> #[trigger] takes(slot, n)[i] is None,
    decreases n,
{
    if n > 0 {
        let later = takes::<R>(None, (n - 1) as nat);
        lemma_takes::<R>(None, (n - 1) as nat);
        assert forall|i: int| 0 < i < n implies #[trigger] takes(slot, n)[i] is None by {
            assert(takes(slot, n)[i] == later[i - 1]);
        }
    }
}

/// Of the listeners on clones of one client, at most one reads from its stream
/// or WebSocket: listener number `i` reads if it is the first and there is
/// something in the slot. Every other is refused with a fault at once, starts
/// no handler and reads nothing, whatever became of the first. A UDP client has
/// no slot to take from.
pub proof fn law_at_most_one_listener_reads<T, W, R, E>(
    connection: Connection<T, W>,
    slot: Option<R>,
    n: nat,
    i: int,
)
    requires
        0 <= i < n,
    ensures
        ({
            let taken = takes(slot, n)[i];
            let (phase, order) = listen_first::<T, W, E>(connection);
            let then = listen_next::<E>(phase, ListenSignal::Reader(taken is Some));
            &&& taken is Some <==> i == 0 && slot is Some
            &&& taken is Some ==> taken == slot
            &&& match connection {
                Connection::Tcp { .. } => {
                    &&& order is TakeReader
                    &&& then == if taken is Some {
                        (ListenPhase::Header, ListenOrder::<E>::ReadHeader)
                    } else {
                        listen_return(Err(ListenFault::Fault(Fault::TcpReaderTaken)))
                    }
                },
                Connection::WebSocket { .. } => {
                    &&& order is TakeReader
                    &&& then == if taken is Some {
                        (ListenPhase::Waiting, ListenOrder::<E>::ReceiveMessage)
                    } else {
                        listen_return(Err(ListenFault::Fault(Fault::WebSocketReaderTaken)))
                    }
                },
                Connection::Udp(_) => phase == ListenPhase::Receiving && order is ReceiveDatagram,
            }
        }),
{
    lemma_takes(slot, n);
}

/// Whatever happens to a UDP client that listens, it is never refused: it goes
/// on with datagrams, or ends without a fault of the library's own.
pub proof fn law_udp_listener_is_never_refused<E>(phase: ListenPhase, signal: ListenSignal<E>)
    requires
        phase == ListenPhase::Receiving || phase == ListenPhase::DatagramStarting,
    ensures
        ({
            let (next, order) = listen_next(phase, signal);
            ||| next == ListenPhase::Receiving && order is ReceiveDatagram
            ||| next == ListenPhase::DatagramStarting && order is Start
            ||| next == ListenPhase::Done && order == ListenOrder::<E>::Return(Ok(()))
            ||| next == ListenPhase::Done && (order matches ListenOrder::Return(
                Err(ListenFault::Io(error)),
            ) && signal == ListenSignal::Failed(error))
        }),
{
}

/// How many orders a listening client can still carry out before it reads.
pub open spec fn listen_rank<E>(phase: ListenPhase, order: ListenOrder<E>) -> int {
    match (phase, order) {
        (_, ListenOrder::Return(_)) => 0,
        (ListenPhase::Done, _) => 1,
        (ListenPhase::Header, _) => 2,
        (ListenPhase::Receiving, _) => 2,
        (ListenPhase::Waiting, _) => 2,
        (ListenPhase::FrameStarting, _) => 3,
        (ListenPhase::DatagramStarting, _) => 3,
        (ListenPhase::MessageStarting, _) => 3,
        (ListenPhase::Body, _) => 4,
        (ListenPhase::TakeTcp, _) => 5,
        (ListenPhase::TakeWebSocket, _) => 5,
    }
}

/// What a client hears from a server: the payloads that the message handler is
/// started with, and the result of listening.
pub struct Heard<E> {
    pub payloads: Seq<Seq<u8>>,
    pub result: Result<(), ListenFault<E>>,
}

impl<E> Heard<E> {
    /// First `payload`, then this.
    pub open spec fn after(self, payload: Seq<u8>) -> Heard<E> {
        Heard { payloads: seq![payload] + self.payloads, result: self.result }
    }

    /// No payload, and this result.
    pub open spec fn ended(result: Result<(), ListenFault<E>>) -> Heard<E> {
        Heard { payloads: Seq::empty(), result }
    }
}

/// How a stream ends for its reader.
pub enum StreamEnd<E> {
    /// The server closed it; this is the error of a read that meets the end.
    Closed(E),
    /// Reading fails with this error.
    Failed(E),
}

impl<E> StreamEnd<E> {
    /// What a read that needs more than is left of the stream meets.
    pub open spec fn signal(self) -> ListenSignal<E> {
        match self {
            StreamEnd::Closed(error) => ListenSignal::EndOfStream(error),
            StreamEnd::Failed(error) => ListenSignal::Failed(error),
        }
    }

    /// The result of listening where the stream ends before a payload is due:
    /// an error exactly if reading failed.
    pub open spec fn before_payload(self) -> Result<(), ListenFault<E>> {
        match self {
            StreamEnd::Closed(_) => Ok(()),
            StreamEnd::Failed(error) => Err(ListenFault::Io(error)),
        }
    }

    /// The result of listening where the stream ends within a payload: the
    /// error of the read.
    pub open spec fn within_payload(self) -> Result<(), ListenFault<E>> {
        match self {
            StreamEnd::Closed(error) => Err(ListenFault::Io(error)),
            StreamEnd::Failed(error) => Err(ListenFault::Io(error)),
        }
    }
}

/// What a TCP client hears from `phase` on, with `order` to be carried out
/// next, when `stream` is what it still reads before the stream ends with
/// `end`.
pub open spec fn heard_stream<E>(
    phase: ListenPhase,
    order: ListenOrder<E>,
    stream: Seq<u8>,
    end: StreamEnd<E>,
) -> Heard<E>
    decreases stream.len(), listen_rank(phase, order),
{
    match order {
        ListenOrder::TakeReader => {
            let (next, then) = listen_next(phase, ListenSignal::Reader(true));
            heard_stream(next, then, stream, end)
        },
        ListenOrder::ReadHeader => {
            if stream.len() < HEADER_SIZE {
                let (next, then) = listen_next(phase, end.signal());
                heard_stream(next, then, stream, end)
            } else {
                let bytes = stream.take(HEADER_SIZE as int);
                let (next, then) = listen_next(phase, ListenSignal::Header(bytes));
                heard_stream(next, then, stream.skip(HEADER_SIZE as int), end)
            }
        },
        ListenOrder::ReadBody(len) => {
            if stream.len() < len {
                let (next, then) = listen_next(phase, end.signal());
                heard_stream(next, then, stream, end)
            } else {
                let payload = stream.take(len as int);
                let (next, then) = listen_next(phase, ListenSignal::Body(payload));
                heard_stream(next, then, stream.skip(len as int), end)
            }
        },
        ListenOrder::Start(payload) => {
            let (next, then) = listen_next(phase, ListenSignal::Started);
            heard_stream(next, then, stream, end).after(payload)
        },
        ListenOrder::Return(result) => Heard::ended(result),
        _ => Heard::ended(Ok(())),
    }
}

/// What a TCP client accepts of `stream`, which ends with `end`: the payloads
/// of its frames, up to the end or the first frame that is too long or cut
/// short.
pub open spec fn accepted<E>(stream: Seq<u8>, end: StreamEnd<E>) -> Heard<E>
    decreases stream.len(),
{
    if stream.len() < HEADER_SIZE {
        Heard::ended(end.before_payload())
    } else {
        let len = crate::frame::be_value(stream.take(HEADER_SIZE as int));
        let size = HEADER_SIZE + len;
        if len > MAX_FRAME_SIZE {
            Heard::ended(Err(ListenFault::Fault(Fault::FrameTooLargeToReceive)))
        } else if stream.len() < size {
            Heard::ended(end.within_payload())
        } else {
            accepted(stream.skip(size), end).after(stream.subrange(HEADER_SIZE as int, size))
        }
    }
}

proof fn lemma_heard_from_header<E>(stream: Seq<u8>, end: StreamEnd<E>)
    ensures
        heard_stream(ListenPhase::Header, ListenOrder::ReadHeader, stream, end) == accepted(
            stream,
            end,
        ),
    decreases stream.len(),
{
    let done = ListenPhase::Done;
    if stream.len() < HEADER_SIZE {
        let result = end.before_payload();
        assert(heard_stream(done, ListenOrder::Return(result), stream, end) == Heard::ended(
            result,
        ));
    } else {
        let bytes = stream.take(HEADER_SIZE as int);
        let len = crate::frame::be_value(bytes);
        let after = stream.skip(HEADER_SIZE as int);
        if len > MAX_FRAME_SIZE {
            let result = Err(ListenFault::Fault(Fault::FrameTooLargeToReceive));
            assert(heard_stream(done, ListenOrder::Return(result), after, end) == Heard::ended(
                result,
            ));
        } else {
            let body = ListenOrder::ReadBody(len);
            assert(heard_stream(ListenPhase::Header, ListenOrder::ReadHeader, stream, end)
                == heard_stream(ListenPhase::Body, body, after, end));
            if after.len() < len {
                let result = end.within_payload();
                assert(heard_stream(done, ListenOrder::Return(result), after, end)
                    == Heard::ended(result));
            } else {
                let payload = after.take(len as int);
                let rest = after.skip(len as int);
                let size = HEADER_SIZE + len;
                assert(stream.subrange(HEADER_SIZE as int, size as int) =~= payload);
                assert(stream.skip(size as int) =~= rest);
                lemma_heard_from_header(rest, end);
                let start = ListenOrder::Start(payload);
                assert(heard_stream(ListenPhase::FrameStarting, start, rest, end)
                    == heard_stream(
                    ListenPhase::Header,
                    ListenOrder::ReadHeader,
                    rest,
                    end,
                ).after(payload));
            }
        }
    }
}

/// A TCP client starts the message handler with the payload of each frame on
/// its stream, in the order of the stream, until the stream ends, a read fails
/// or a frame is too long or cut short.
pub proof fn law_client_hears_each_frame<E>(stream: Seq<u8>, end: StreamEnd<E>)
    ensures
        heard_stream(ListenPhase::TakeTcp, ListenOrder::TakeReader, stream, end) == accepted(
            stream,
            end,
        ),
{
    lemma_heard_from_header(stream, end);
}

/// Every payload is short enough for a client.
pub open spec fn all_accepted(payloads: Seq<Seq<u8>>) -> bool {
    forall|i: int| 0 <= i < payloads.len() ==> (#[trigger] payloads[i]).len() <= MAX_FRAME_SIZE
}

/// A client accepts every frame that is not longer than `MAX_FRAME_SIZE`, and
/// treats what follows as if it stood alone.
pub proof fn law_client_accepts_frames<E>(payloads: Seq<Seq<u8>>, tail: Seq<u8>, end: StreamEnd<E>)
    requires
        all_accepted(payloads),
    ensures
        accepted(crate::frame::frames(payloads) + tail, end).payloads == payloads + accepted(
            tail,
            end,
        ).payloads,
        accepted(crate::frame::frames(payloads) + tail, end).result == accepted(
            tail,
            end,
        ).result,
    decreases payloads.len(),
{
    let stream = crate::frame::frames(payloads) + tail;
    if payloads.len() == 0 {
        assert(stream =~= tail);
        assert(payloads + accepted(tail, end).payloads =~= accepted(tail, end).payloads);
    } else {
        let first = payloads.first();
        let rest = payloads.drop_first();
        let rest_stream = crate::frame::frames(rest) + tail;
        crate::frame::law_length_round_trip(first.len());
        assert(stream.take(HEADER_SIZE as int) =~= crate::frame::header(first.len()));
        let size = HEADER_SIZE + first.len();
        assert(stream.subrange(HEADER_SIZE as int, size as int) =~= first);
        assert(stream.skip(size as int) =~= rest_stream);
        law_client_accepts_frames(rest, tail, end);
        assert(seq![first] + (rest + accepted(tail, end).payloads) =~= payloads + accepted(
            tail,
            end,
        ).payloads);
    }
}

/// A client refuses a frame longer than `MAX_FRAME_SIZE` as soon as it has read
/// its length, and reads no further.
pub proof fn law_client_refuses_large_frame<E>(len: nat, tail: Seq<u8>, end: StreamEnd<E>)
    requires
        MAX_FRAME_SIZE < len < crate::frame::LENGTH_SPAN,
    ensures
        accepted(crate::frame::header(len) + tail, end) == Heard::<E>::ended(
            Err(ListenFault::Fault(Fault::FrameTooLargeToReceive)),
        ),
{
    let stream = crate::frame::header(len) + tail;
    crate::frame::law_length_round_trip(len);
    assert(stream.take(HEADER_SIZE as int) =~= crate::frame::header(len));
}

/// A stream that ends within a payload ends the listening with the error of
/// the read. One that ends within a length field ends it with an error exactly
/// if reading failed.
pub proof fn law_client_on_cut_stream<E>(payload: Seq<u8>, cut: int, end: StreamEnd<E>)
    requires
        payload.len() <= MAX_FRAME_SIZE,
        0 <= cut < HEADER_SIZE + payload.len(),
    ensures
        accepted(crate::frame::frame(payload).take(cut), end) == Heard::ended(
            if cut < HEADER_SIZE {
                end.before_payload()
            } else {
                end.within_payload()
            },
        ),
{
    let stream = crate::frame::frame(payload).take(cut);
    crate::frame::law_length_round_trip(payload.len());
    if cut >= HEADER_SIZE {
        assert(stream.take(HEADER_SIZE as int) =~= crate::frame::header(payload.len()));
    }
}

/// What a WebSocket client meets where its connection ends: the error in
/// `end`, if there is one.
pub open spec fn message_end<E>(end: Option<E>) -> ListenSignal<E> {
    match end {
        Some(error) => ListenSignal::Failed(error),
        None => ListenSignal::Ended,
    }
}

/// The result of listening on a WebSocket that ends with `end`: an error
/// exactly if there is one in `end`.
pub open spec fn message_result<E>(end: Option<E>) -> Result<(), ListenFault<E>> {
    match end {
        Some(error) => Err(ListenFault::Io(error)),
        None => Ok(()),
    }
}

/// What a WebSocket client hears from `phase` on, with `order` to be carried
/// out next, when `contents` is what it still receives before the connection
/// ends: with an error if there is one in `end`, else without.
pub open spec fn heard_messages<E>(
    phase: ListenPhase,
    order: ListenOrder<E>,
    contents: Seq<crate::message::Content>,
    end: Option<E>,
) -> Heard<E>
    decreases contents.len(), listen_rank(phase, order),
{
    match order {
        ListenOrder::TakeReader => {
            let (next, then) = listen_next(phase, ListenSignal::Reader(true));
            heard_messages(next, then, contents, end)
        },
        ListenOrder::ReceiveMessage => {
            if contents.len() == 0 {
                let (next, then) = listen_next(phase, message_end(end));
                heard_messages(next, then, contents, end)
            } else {
                let (next, then) = listen_next(phase, ListenSignal::Received(contents.first()));
                heard_messages(next, then, contents.drop_first(), end)
            }
        },
        ListenOrder::Start(payload) => {
            let (next, then) = listen_next(phase, ListenSignal::Started);
            heard_messages(next, then, contents, end).after(payload)
        },
        ListenOrder::Return(result) => Heard::ended(result),
        _ => Heard::ended(Ok(())),
    }
}

proof fn lemma_heard_from_waiting<E>(contents: Seq<crate::message::Content>, end: Option<E>)
    ensures
        heard_messages(ListenPhase::Waiting, ListenOrder::ReceiveMessage, contents, end) == (
        Heard { payloads: crate::message::payloads(contents), result: message_result(end) }),
    decreases contents.len(),
{
    if contents.len() == 0 {
        let result = message_result(end);
        assert(heard_messages(ListenPhase::Done, ListenOrder::Return(result), contents, end)
            == Heard::ended(result));
    } else {
        let rest = contents.drop_first();
        lemma_heard_from_waiting(rest, end);
        if let Some(payload) = crate::message::payload(contents.first()) {
            let start = ListenOrder::<E>::Start(payload);
            assert(heard_messages(ListenPhase::MessageStarting, start, rest, end)
                == heard_messages(
                ListenPhase::Waiting,
                ListenOrder::ReceiveMessage,
                rest,
                end,
            ).after(payload));
        }
    }
}

/// A WebSocket client starts the message handler once for each text or binary
/// message of the server, in the order of the messages, and for nothing else.
/// The listening ends with an error exactly if the connection does, and then
/// with that error.
pub proof fn law_client_hears_each_message<E>(
    contents: Seq<crate::message::Content>,
    end: Option<E>,
)
    ensures
        heard_messages(ListenPhase::TakeWebSocket, ListenOrder::TakeReader, contents, end) == (
        Heard { payloads: crate::message::payloads(contents), result: message_result(end) }),
{
    lemma_heard_from_waiting(contents, end);
}

/// What a UDP client hears from `phase` on, with `order` to be carried out
/// next, when `datagrams` is what it still receives before receiving fails
/// with `error`.
pub open spec fn heard_datagrams<E>(
    phase: ListenPhase,
    order: ListenOrder<E>,
    datagrams: Seq<Seq<u8>>,
    error: E,
) -> Heard<E>
    decreases datagrams.len(), listen_rank(phase, order),
{
    match order {
        ListenOrder::ReceiveDatagram(_) => {
            if datagrams.len() == 0 {
                let (next, then) = listen_next(phase, ListenSignal::Failed(error));
                heard_datagrams(next, then, datagrams, error)
            } else {
                let (next, then) = listen_next(phase, ListenSignal::Datagram(datagrams.first()));
                heard_datagrams(next, then, datagrams.drop_first(), error)
            }
        },
        ListenOrder::Start(payload) => {
            let (next, then) = listen_next(phase, ListenSignal::Started);
            heard_datagrams(next, then, datagrams, error).after(payload)
        },
        ListenOrder::Return(result) => Heard::ended(result),
        _ => Heard::ended(Ok(())),
    }
}

/// A UDP client starts the message handler once for each datagram, in the
/// order of receipt, until receiving fails.
pub proof fn law_client_hears_each_datagram<E>(datagrams: Seq<Seq<u8>>, error: E)
    ensures
        heard_datagrams(
            ListenPhase::Receiving,
            ListenOrder::ReceiveDatagram(crate::datagram::DATAGRAM_SIZE as nat),
            datagrams,
            error,
        ) == (Heard { payloads: datagrams, result: Err(ListenFault::Io(error)) }),
    decreases datagrams.len(),
{
    if datagrams.len() == 0 {
        let result = Err(ListenFault::Io(error));
        assert(heard_datagrams(ListenPhase::Done, ListenOrder::Return(result), datagrams, error)
            == Heard::ended(result));
        assert(datagrams =~= Seq::empty());
    } else {
        let rest = datagrams.drop_first();
        law_client_hears_each_datagram(rest, error);
        assert(seq![datagrams.first()] + rest =~= datagrams);
        let start = ListenOrder::Start(datagrams.first());
        assert(heard_datagrams(ListenPhase::DatagramStarting, start, rest, error)
            == heard_datagrams(
            ListenPhase::Receiving,
            ListenOrder::ReceiveDatagram(crate::datagram::DATAGRAM_SIZE as nat),
            rest,
            error,
        ).after(datagrams.first()));
    }
}

/// Once it has returned, a listening client does nothing but return.
pub proof fn law_listening_ends_for_good<E>(signal: ListenSignal<E>)
    ensures
        listen_next(ListenPhase::Done, signal) == listen_return::<E>(Ok(())),
{
}

/// What a listening client is told and what it orders is shown as it is: the
/// bytes that were read, of a datagram exactly those that were received, the
/// content of a message, the data for the handler, the size of a buffer, the
/// result.
pub proof fn law_listen_views_show_what_is_there<E>(
    event: ListenEvent<E>,
    action: ListenAction<E>,
    i: int,
)
    requires
        event matches ListenEvent::Datagram { buffer, size } ==> size <= buffer@.len(),
    ensures
        match event {
            ListenEvent::Reader(present) => event@ == ListenSignal::<E>::Reader(present),
            ListenEvent::Header(bytes) => event@ == ListenSignal::<E>::Header(bytes@),
            ListenEvent::Body(payload) => event@ == ListenSignal::<E>::Body(payload@),
            ListenEvent::EndOfStream(error) => event@ == ListenSignal::EndOfStream(error),
            ListenEvent::Datagram { buffer, size } => {
                &&& event@ matches ListenSignal::Datagram(data)
                &&& data.len() == size
                &&& 0 <= i < size ==> data[i] == buffer@[i]
            },
            ListenEvent::Received(message) => {
                event@ == ListenSignal::<E>::Received(crate::message::content(message))
            },
            ListenEvent::Ended => event@ is Ended,
            ListenEvent::Failed(error) => event@ == ListenSignal::Failed(error),
            ListenEvent::Started => event@ is Started,
        },
        match action {
            ListenAction::TakeReader => action@ is TakeReader,
            ListenAction::ReadHeader => action@ is ReadHeader,
            ListenAction::ReadBody(buffer) => {
                action@ == ListenOrder::<E>::ReadBody(buffer@.len())
            },
            ListenAction::ReceiveDatagram(buffer) => {
                action@ == ListenOrder::<E>::ReceiveDatagram(buffer@.len())
            },
            ListenAction::ReceiveMessage => action@ is ReceiveMessage,
            ListenAction::Start(data) => action@ == ListenOrder::<E>::Start(data@),
            ListenAction::Return(result) => action@ == ListenOrder::Return(result),
        },
{
}

/// How the stream ends decides the result of listening. Between frames, or
/// within a length field, a stream that the server closed ends it without an
/// error and a read that fails ends it with its error; within a payload both
/// end it with the error of the read. The frames before are heard in any case.
pub proof fn law_end_of_stream_decides_the_result<E>(
    payloads: Seq<Seq<u8>>,
    last: Seq<u8>,
    cut: int,
    error: E,
)
    requires
        all_accepted(payloads),
        last.len() <= MAX_FRAME_SIZE,
        0 <= cut < HEADER_SIZE + last.len(),
    ensures
        ({
            let stream = crate::frame::frames(payloads) + crate::frame::frame(last).take(cut);
            let closed = heard_stream(
                ListenPhase::TakeTcp,
                ListenOrder::TakeReader,
                stream,
                StreamEnd::Closed(error),
            );
            let failed = heard_stream(
                ListenPhase::TakeTcp,
                ListenOrder::TakeReader,
                stream,
                StreamEnd::Failed(error),
            );
            &&& closed.payloads == payloads
            &&& failed.payloads == payloads
            &&& closed.result == if cut < HEADER_SIZE {
                Ok(())
            } else {
                Err(ListenFault::Io(error))
            }
            &&& failed.result == Err::<(), ListenFault<E>>(ListenFault::Io(error))
        }),
{
    let tail = crate::frame::frame(last).take(cut);
    let stream = crate::frame::frames(payloads) + tail;
    let (closed, failed) = (StreamEnd::Closed(error), StreamEnd::Failed(error));
    law_client_hears_each_frame(stream, closed);
    law_client_hears_each_frame(stream, failed);
    law_client_accepts_frames(payloads, tail, closed);
    law_client_accepts_frames(payloads, tail, failed);
    law_client_on_cut_stream(last, cut, closed);
    law_client_on_cut_stream(last, cut, failed);
    assert(payloads + Seq::<Seq<u8>>::empty() =~= payloads);
}

/// How a WebSocket ends decides the result of listening: an error ends it with
/// that error, an end without one ends it without one.
pub proof fn law_end_of_websocket_decides_the_result<E>(
    contents: Seq<crate::message::Content>,
    error: E,
)
    ensures
        heard_messages::<E>(
            ListenPhase::TakeWebSocket,
            ListenOrder::TakeReader,
            contents,
            None,
        ).result is Ok,
        heard_messages(
            ListenPhase::TakeWebSocket,
            ListenOrder::TakeReader,
            contents,
            Some(error),
        ).result == Err::<(), ListenFault<E>>(ListenFault::Io(error)),
{
    law_client_hears_each_message::<E>(contents, None);
    law_client_hears_each_message(contents, Some(error));
}

} // verus!
