//! How a client connects.
use super::{Client, Connection};
use crate::channel::{new_queue, Outbox};
use crate::Protocol;
use std::sync::Arc;
use tokio::net::UdpSocket;
use tokio_tungstenite::tungstenite::Message;
use vstd::prelude::*;

verus! {

/// Where connecting stands.
pub enum ConnectPhase {
    /// A TCP stream is being opened.
    Tcp,
    /// A UDP socket is being bound.
    UdpBind,
    /// This UDP socket is being connected.
    UdpConnect(Arc<UdpSocket>),
    /// A WebSocket is being opened.
    WebSocket,
}

/// What happened while connecting.
pub enum ConnectEvent<T, W, E> {
    /// A TCP stream was opened; this slot holds what is read from it.
    TcpOpened(T),
    /// This UDP socket was bound.
    UdpBound(Arc<UdpSocket>),
    /// The UDP socket was connected.
    UdpConnected,
    /// A WebSocket was opened; this slot holds what is read from it.
    WebSocketOpened(W),
    /// The last action failed.
    Failed(E),
}

/// What to do next in order to connect.
pub enum ConnectAction {
    /// Open a TCP stream to this address.
    OpenTcp(String),
    /// Bind a UDP socket to this address.
    BindUdp(String),
    /// Connect the UDP socket to this address.
    ConnectUdp(String),
    /// Open a WebSocket to this address.
    OpenWebSocket(String),
}

/// What the task that writes to the server takes its items from. A UDP client
/// has no such task.
pub enum Writing {
    /// Payloads to write as frames.
    Frames(Outbox<Vec<u8>>),
    /// WebSocket messages.
    Messages(Outbox<Message>),
    /// Nothing.
    Nothing,
}

/// What became of connecting.
pub enum ConnectStep<S, H, T, W, E> {
    /// It goes on with this action.
    Next(Connecting, ConnectAction),
    /// It is done.
    Done(Client<S, H, T, W>, Writing),
    /// It failed.
    Failed(E),
}

/// A client that is being connected.
pub struct Connecting {
    addr: String,
    phase: ConnectPhase,
}

impl ConnectAction {
    /// This is the action of `connecting`.
    pub open spec fn answers(self, connecting: Connecting) -> bool {
        match connecting.phase() {
            ConnectPhase::Tcp => {
                self matches ConnectAction::OpenTcp(addr) && addr@ == connecting.addr()
            },
            ConnectPhase::UdpBind => {
                self matches ConnectAction::BindUdp(addr) && addr@ == "0.0.0.0:0"@
            },
            ConnectPhase::UdpConnect(_) => {
                self matches ConnectAction::ConnectUdp(addr) && addr@ == connecting.addr()
            },
            ConnectPhase::WebSocket => {
                self matches ConnectAction::OpenWebSocket(addr) && addr@ == connecting.addr()
            },
        }
    }
}

/// Where connecting over `protocol` starts.
pub open spec fn connect_first(protocol: Protocol) -> ConnectPhase {
    match protocol {
        Protocol::Tcp => ConnectPhase::Tcp,
        Protocol::Udp => ConnectPhase::UdpBind,
        Protocol::WebSocket => ConnectPhase::WebSocket,
    }
}

/// `client` is new: it has the connection and the task that `phase` and
/// `event` lead to, and neither handler nor state.
pub open spec fn connected<S, H, T, W, E>(
    client: Client<S, H, T, W>,
    writing: Writing,
    phase: ConnectPhase,
    event: ConnectEvent<T, W, E>,
) -> bool {
    &&& client.on_message is None
    &&& client.state is None
    &&& match (phase, event, writing) {
        (ConnectPhase::Tcp, ConnectEvent::TcpOpened(stream), Writing::Frames(outbox)) => {
            &&& client.connection matches Connection::Tcp { frames, stream: slot }
            &&& frames == outbox.queue()
            &&& *slot == stream
        },
        (ConnectPhase::UdpConnect(socket), ConnectEvent::UdpConnected, Writing::Nothing) => {
            client.connection == Connection::<T, W>::Udp(socket)
        },
        (
            ConnectPhase::WebSocket,
            ConnectEvent::WebSocketOpened(socket),
            Writing::Messages(outbox),
        ) => {
            &&& client.connection matches Connection::WebSocket { messages, socket: slot }
            &&& messages == outbox.queue()
            &&& *slot == socket
        },
        _ => false,
    }
}

impl Connecting {
    /// The address of the server.
    pub closed spec fn addr(self) -> Seq<char> {
        self.addr@
    }

    /// Where connecting stands.
    pub closed spec fn phase(self) -> ConnectPhase {
        self.phase
    }

    /// Starts to connect to the server at `addr`. Returns what to do first.
    pub(crate) fn start(addr: &str, protocol: Protocol) -> (started: (Connecting, ConnectAction))
        ensures
            started.0.addr() == addr@,
            started.0.phase() == connect_first(protocol),
            started.1.answers(started.0),
    {
        let phase = match protocol {
            Protocol::Tcp => ConnectPhase::Tcp,
            Protocol::Udp => ConnectPhase::UdpBind,
            Protocol::WebSocket => ConnectPhase::WebSocket,
        };
        let connecting = Connecting { addr: addr.to_owned(), phase };
        let action = connecting.action();
        (connecting, action)
    }

    fn action(&self) -> (action: ConnectAction)
        ensures
            action.answers(*self),
    {
        match &self.phase {
            ConnectPhase::Tcp => ConnectAction::OpenTcp(self.addr.clone()),
            ConnectPhase::UdpBind => ConnectAction::BindUdp("0.0.0.0:0".to_owned()),
            ConnectPhase::UdpConnect(_) => ConnectAction::ConnectUdp(self.addr.clone()),
            ConnectPhase::WebSocket => ConnectAction::OpenWebSocket(self.addr.clone()),
        }
    }

    /// Takes what happened and returns what became of connecting. An event
    /// that does not answer the last action repeats it.
    pub fn step<S, H, T, W, E>(self, event: ConnectEvent<T, W, E>) -> (step: ConnectStep<
        S,
        H,
        T,
        W,
        E,
    >)
        ensures
            match (self.phase(), event) {
                (_, ConnectEvent::Failed(error)) => {
                    step == ConnectStep::<S, H, T, W, E>::Failed(error)
                },
                (ConnectPhase::Tcp, ConnectEvent::TcpOpened(_)) | (
                    ConnectPhase::UdpConnect(_),
                    ConnectEvent::UdpConnected,
                ) | (ConnectPhase::WebSocket, ConnectEvent::WebSocketOpened(_)) => {
                    step matches ConnectStep::Done(client, writing) && connected(
                        client,
                        writing,
                        self.phase(),
                        event,
                    )
                },
                (ConnectPhase::UdpBind, ConnectEvent::UdpBound(socket)) => {
                    &&& step matches ConnectStep::Next(next, action)
                    &&& next.addr() == self.addr()
                    &&& next.phase() == ConnectPhase::UdpConnect(socket)
                    &&& action.answers(next)
                },
                _ => {
                    &&& step matches ConnectStep::Next(next, action)
                    &&& next.addr() == self.addr()
                    &&& next.phase() == self.phase()
                    &&& action.answers(next)
                },
            },
    {
        let addr = self.addr;
        match (self.phase, event) {
            (_, ConnectEvent::Failed(error)) => ConnectStep::Failed(error),
            (ConnectPhase::Tcp, ConnectEvent::TcpOpened(stream)) => {
                let (frames, outbox) = new_queue();
                let client = Client::over(Connection::Tcp { frames, stream: Arc::new(stream) });
                ConnectStep::Done(client, Writing::Frames(outbox))
            },
            (ConnectPhase::UdpBind, ConnectEvent::UdpBound(socket)) => {
                let next = Connecting { addr, phase: ConnectPhase::UdpConnect(socket) };
                let action = next.action();
                ConnectStep::Next(next, action)
            },
            (ConnectPhase::UdpConnect(socket), ConnectEvent::UdpConnected) => {
                ConnectStep::Done(Client::over(Connection::Udp(socket)), Writing::Nothing)
            },
            (ConnectPhase::WebSocket, ConnectEvent::WebSocketOpened(socket)) => {
                let (messages, outbox) = new_queue();
                let socket = Arc::new(socket);
                let client = Client::over(Connection::WebSocket { messages, socket });
                ConnectStep::Done(client, Writing::Messages(outbox))
            },
            (phase, _) => {
                let next = Connecting { addr, phase };
                let action = next.action();
                ConnectStep::Next(next, action)
            },
        }
    }
}

/// Every action in order to connect goes to the address that was given, over
/// the transport that was asked for; only the UDP socket is bound, to any
/// address and port of its own, before it is connected.
pub proof fn law_connects_to_the_given_address(
    connecting: Connecting,
    action: ConnectAction,
    protocol: Protocol,
)
    requires
        action.answers(connecting),
    ensures
        match action {
            ConnectAction::OpenTcp(addr) => {
                &&& connecting.phase() is Tcp
                &&& addr@ == connecting.addr()
            },
            ConnectAction::BindUdp(addr) => {
                &&& connecting.phase() is UdpBind
                &&& addr@ == "0.0.0.0:0"@
            },
            ConnectAction::ConnectUdp(addr) => {
                &&& connecting.phase() is UdpConnect
                &&& addr@ == connecting.addr()
            },
            ConnectAction::OpenWebSocket(addr) => {
                &&& connecting.phase() is WebSocket
                &&& addr@ == connecting.addr()
            },
        },
        connect_first(Protocol::Tcp) is Tcp,
        connect_first(Protocol::Udp) is UdpBind,
        connect_first(Protocol::WebSocket) is WebSocket,
{
}

/// A new client has the connection that was opened, the queue that its writing
/// task takes from, and neither handler nor state.
pub proof fn law_new_client_has_what_was_opened<S, H, T, W, E>(
    client: Client<S, H, T, W>,
    writing: Writing,
    phase: ConnectPhase,
    event: ConnectEvent<T, W, E>,
)
    requires
        connected(client, writing, phase, event),
    ensures
        client.on_message is None,
        client.state is None,
        match client.connection {
            Connection::Tcp { frames, stream } => {
                &&& event == ConnectEvent::<T, W, E>::TcpOpened(*stream)
                &&& writing matches Writing::Frames(outbox) && outbox.queue() == frames
            },
            Connection::Udp(socket) => {
                &&& phase == ConnectPhase::UdpConnect(socket)
                &&& event is UdpConnected
                &&& writing is Nothing
            },
            Connection::WebSocket { messages, socket } => {
                &&& event == ConnectEvent::<T, W, E>::WebSocketOpened(*socket)
                &&& writing matches Writing::Messages(outbox) && outbox.queue() == messages
            },
        },
{
}

} // verus!
