//! The client side: a client and what it sends.
//!
//! `connect` holds how it connects and `listen` how it listens.
use crate::channel::{offer, share_queue};
use crate::error::Fault;
use crate::frame::{checked_length, LENGTH_SPAN};
use crate::message::binary_message;
use crate::packet::{Delivery, Record};
use crate::shared::share;
use crate::Protocol;
use connect::{ConnectAction, Connecting};
use listen::{Listen, Listening};
use std::sync::Arc;
use tokio::net::UdpSocket;
use tokio::sync::mpsc::UnboundedSender;
use tokio_tungstenite::tungstenite::Message;
use vstd::prelude::*;
use vstd::slice::slice_to_vec;

pub mod connect;
pub mod listen;

verus! {

/// A client's connection to its server.
///
/// `T` and `W` are the slots that hold what is read from, a TCP stream or a
/// WebSocket, until a listener takes it. Clones of a client share the slot.
pub enum Connection<T, W> {
    /// The queue of the task that writes frames, and the slot of the stream.
    Tcp { frames: UnboundedSender<Vec<u8>>, stream: Arc<T> },
    /// A socket that is connected to the server.
    Udp(Arc<UdpSocket>),
    /// The queue of the task that writes messages, and the slot of the
    /// WebSocket.
    WebSocket { messages: UnboundedSender<Message>, socket: Arc<W> },
}

/// A client: its connection, and what to call with each message and with which
/// state.
pub struct Client<S, H, T, W> {
    /// The connection to the server.
    pub connection: Connection<T, W>,
    /// What to call with each message.
    pub on_message: Option<Arc<H>>,
    /// The state to call it with.
    pub state: Option<Arc<S>>,
}

/// From `before` to `after` one item is handed over: `data`, to the queue of
/// `connection`. A UDP connection has no queue, so nothing is handed over.
pub open spec fn gets_one_over<T, W>(
    connection: Connection<T, W>,
    before: Record,
    after: Record,
    data: Seq<u8>,
) -> bool {
    match connection {
        Connection::Tcp { frames, .. } => {
            &&& after.messages@ == before.messages@
            &&& after.frames@.len() == before.frames@.len() + 1
            &&& after.frames@.drop_last() == before.frames@
            &&& after.frames@.last().0 == frames
            &&& after.frames@.last().1@ == data
        },
        Connection::Udp(_) => after.same(before),
        Connection::WebSocket { messages, .. } => {
            &&& after.frames@ == before.frames@
            &&& after.messages@.len() == before.messages@.len() + 1
            &&& after.messages@.drop_last() == before.messages@
            &&& after.messages@.last().0 == messages
            &&& crate::message::content(after.messages@.last().1)
                == crate::message::Content::Binary(data)
        },
    }
}

/// `delivery` brings `data` to the server behind `connection`.
pub open spec fn brings_over<T, W>(
    delivery: Delivery,
    connection: Connection<T, W>,
    data: Seq<u8>,
) -> bool {
    match (connection, delivery) {
        (Connection::Tcp { frames, .. }, Delivery::Tcp(receipt)) => {
            &&& receipt.queue() == frames
            &&& receipt.item()@ == data
        },
        (Connection::Udp(via), Delivery::Datagram { socket, to, data: bytes }) => {
            &&& socket == via
            &&& to is None
            &&& bytes@ == data
        },
        (Connection::WebSocket { messages, .. }, Delivery::WebSocket(receipt)) => {
            &&& receipt.queue() == messages
            &&& crate::message::content(receipt.item()) == crate::message::Content::Binary(data)
        },
        _ => false,
    }
}

impl<T, W> Clone for Connection<T, W> {
    /// Returns another handle on the same connection.
    fn clone(&self) -> (other: Self)
        ensures
            other == *self,
    {
        match self {
            Connection::Tcp { frames, stream } => {
                Connection::Tcp { frames: share_queue(frames), stream: share(stream) }
            },
            Connection::Udp(socket) => Connection::Udp(share(socket)),
            Connection::WebSocket { messages, socket } => {
                Connection::WebSocket { messages: share_queue(messages), socket: share(socket) }
            },
        }
    }
}

impl<S, H, T, W> Clone for Client<S, H, T, W> {
    /// Returns another client over the same connection, with the same handler
    /// and state.
    fn clone(&self) -> (other: Self)
        ensures
            other == *self,
    {
        Client {
            connection: self.connection.clone(),
            on_message: match &self.on_message {
                Some(func) => Some(share(func)),
                None => None,
            },
            state: match &self.state {
                Some(state) => Some(share(state)),
                None => None,
            },
        }
    }
}

impl<S, H, T, W> Client<S, H, T, W> {
    /// Starts to connect to the server at `addr`. Returns what to do first.
    pub fn connect(addr: &str, protocol: Protocol) -> (connecting: (Connecting, ConnectAction))
        ensures
            connecting.0.addr() == addr@,
            connecting.0.phase() == connect::connect_first(protocol),
            connecting.1.answers(connecting.0),
    {
        Connecting::start(addr, protocol)
    }

    /// Returns a client over `connection` without handler or state.
    pub(crate) fn over(connection: Connection<T, W>) -> (client: Self)
        ensures
            client.connection == connection,
            client.on_message is None,
            client.state is None,
    {
        Client { connection, on_message: None, state: None }
    }

    /// Sets the state.
    pub fn with_state(self, state: Arc<S>) -> (client: Self)
        ensures
            client == (Client { state: Some(state), ..self }),
    {
        Client { state: Some(state), ..self }
    }

    /// Sets what to call with each message.
    pub fn on_message(self, func: Arc<H>) -> (client: Self)
        ensures
            client == (Client { on_message: Some(func), ..self }),
    {
        Client { on_message: Some(func), ..self }
    }

    /// Sends a copy of `data` to the server, once. A datagram is left to be
    /// sent. A payload that does not fit into a frame is not sent.
    pub fn send(&self, data: &[u8]) -> (result: Result<Delivery, Fault>)
        ensures
            match result {
                Ok(delivery) => {
                    &&& !(self.connection is Tcp && data@.len() >= LENGTH_SPAN)
                    &&& brings_over(delivery, self.connection, data@)
                    &&& delivery.alone()
                },
                Err(fault) => {
                    &&& self.connection is Tcp
                    &&& data@.len() >= LENGTH_SPAN
                    &&& fault == Fault::FrameTooLargeToSend
                },
            },
    {
        let mut record = Record::new();
        let result = self.send_recorded(data, &mut record);
        proof {
            if result is Ok {
                crate::packet::lemma_alone(result->Ok_0, record);
            }
        }
        result
    }

    /// Sends a copy of `data` to the server and records it. A datagram is left
    /// to be sent. A payload that does not fit into a frame is not sent.
    pub fn send_recorded(&self, data: &[u8], record: &mut Record) -> (result: Result<
        Delivery,
        Fault,
    >)
        ensures
            match result {
                Ok(delivery) => {
                    &&& !(self.connection is Tcp && data@.len() >= LENGTH_SPAN)
                    &&& brings_over(delivery, self.connection, data@)
                    &&& delivery.recorded(*final(record))
                    &&& gets_one_over(self.connection, *old(record), *final(record), data@)
                },
                Err(fault) => {
                    &&& self.connection is Tcp
                    &&& data@.len() >= LENGTH_SPAN
                    &&& fault == Fault::FrameTooLargeToSend
                    &&& final(record).same(*old(record))
                },
            },
    {
        match &self.connection {
            Connection::Tcp { frames, .. } => {
                if checked_length(data.len()).is_none() {
                    return Err(Fault::FrameTooLargeToSend);
                }
                let receipt = offer(&mut record.frames, frames, slice_to_vec(data));
                assert(record.frames@.drop_last() =~= old(record).frames@);
                Ok(Delivery::Tcp(receipt))
            },
            Connection::Udp(socket) => Ok(
                Delivery::Datagram { socket: share(socket), to: None, data: slice_to_vec(data) },
            ),
            Connection::WebSocket { messages, .. } => {
                let receipt = offer(&mut record.messages, messages, binary_message(data));
                assert(record.messages@.drop_last() =~= old(record).messages@);
                Ok(Delivery::WebSocket(receipt))
            },
        }
    }

    /// Starts to listen. Needs a handler and a state.
    pub fn listen<E>(self) -> (result: Result<Listen<S, H, T, W, E>, Fault>)
        ensures
            match result {
                Ok(listen) => {
                    &&& listen.connection == self.connection
                    &&& Some(listen.on_message) == self.on_message
                    &&& Some(listen.state) == self.state
                    &&& (listen.listening.phase(), listen.first@) == listen::listen_first::<T, W, E>(
                        self.connection,
                    )
                    &&& listen.first.clean()
                },
                Err(fault) => {
                    ||| self.on_message is None && fault == Fault::HandlerNotSet
                    ||| self.on_message is Some && self.state is None && fault
                        == Fault::StateNotSet
                },
            },
    {
        let on_message = match self.on_message {
            Some(func) => func,
            None => return Err(Fault::HandlerNotSet),
        };
        let state = match self.state {
            Some(state) => state,
            None => return Err(Fault::StateNotSet),
        };
        let (listening, first) = Listening::start(&self.connection);
        Ok(
            Listen {
                connection: self.connection,
                on_message,
                state,
                listening,
                first,
            },
        )
    }
}

/// A delivery that brings data to a server holds exactly that data, for exactly
/// that connection.
pub proof fn law_delivery_over_connection_holds_the_data<T, W>(
    delivery: Delivery,
    connection: Connection<T, W>,
    data: Seq<u8>,
)
    requires
        brings_over(delivery, connection, data),
    ensures
        match connection {
            Connection::Tcp { frames, .. } => {
                &&& delivery matches Delivery::Tcp(receipt)
                &&& receipt.queue() == frames
                &&& receipt.item()@ == data
            },
            Connection::Udp(via) => {
                &&& delivery matches Delivery::Datagram { socket, to, data: bytes }
                &&& socket == via
                &&& to is None
                &&& bytes@ == data
            },
            Connection::WebSocket { messages, .. } => {
                &&& delivery matches Delivery::WebSocket(receipt)
                &&& receipt.queue() == messages
                &&& crate::message::content(receipt.item()) == crate::message::Content::Binary(data)
            },
        },
{
}

/// What a TCP client sends adds one payload to what the queue of its connection
/// is handed, the data, and changes nothing for any other queue.
pub proof fn law_tcp_client_adds_one_payload<T, W>(
    connection: Connection<T, W>,
    before: Record,
    after: Record,
    data: Seq<u8>,
    other: UnboundedSender<Vec<u8>>,
    messages: UnboundedSender<Message>,
)
    requires
        connection is Tcp,
        gets_one_over(connection, before, after, data),
    ensures
        ({
            let queue = connection->frames;
            let old_items = crate::channel::handed(before.frames@, queue);
            let new_items = crate::channel::handed(after.frames@, queue);
            &&& new_items.len() == old_items.len() + 1
            &&& new_items.drop_last() == old_items
            &&& new_items.last()@ == data
            &&& other != queue ==> crate::channel::handed(after.frames@, other)
                == crate::channel::handed(before.frames@, other)
        }),
        crate::channel::handed(after.messages@, messages) == crate::channel::handed(
            before.messages@,
            messages,
        ),
        after.frames@.len() == before.frames@.len() + 1,
        after.messages@.len() == before.messages@.len(),
{
    let old_items = crate::channel::handed(before.frames@, connection->frames);
    assert(old_items.push(after.frames@.last().1).drop_last() =~= old_items);
}

/// What a WebSocket client sends adds one message to what the queue of its
/// connection is handed, a binary one that holds the data, and changes nothing
/// for any other queue.
pub proof fn law_websocket_client_adds_one_message<T, W>(
    connection: Connection<T, W>,
    before: Record,
    after: Record,
    data: Seq<u8>,
    other: UnboundedSender<Message>,
    frames: UnboundedSender<Vec<u8>>,
)
    requires
        connection is WebSocket,
        gets_one_over(connection, before, after, data),
    ensures
        ({
            let queue = connection->messages;
            let old_items = crate::channel::handed(before.messages@, queue);
            let new_items = crate::channel::handed(after.messages@, queue);
            &&& new_items.len() == old_items.len() + 1
            &&& new_items.drop_last() == old_items
            &&& crate::message::content(new_items.last()) == crate::message::Content::Binary(data)
            &&& other != queue ==> crate::channel::handed(after.messages@, other)
                == crate::channel::handed(before.messages@, other)
        }),
        crate::channel::handed(after.frames@, frames) == crate::channel::handed(
            before.frames@,
            frames,
        ),
        after.messages@.len() == before.messages@.len() + 1,
        after.frames@.len() == before.frames@.len(),
{
    let old_items = crate::channel::handed(before.messages@, connection->messages);
    assert(old_items.push(after.messages@.last().1).drop_last() =~= old_items);
}

} // verus!
