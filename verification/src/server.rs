//! The server side: how a server is put together and started.
//!
//! The modules below hold what happens then: who is let in (`accept`), the
//! connections and sockets (`tcp`, `udp`, `websocket`), the course that every
//! connection takes (`lifecycle`) and the table of open connections (`manager`).
use crate::error::RunFault;
use crate::shared::share;
use crate::Protocol;
use std::sync::Arc;
use vstd::prelude::*;

pub mod accept;
pub mod lifecycle;
pub mod manager;
pub mod tcp;
pub mod udp;
pub mod websocket;

pub use manager::{ConnectionManager, Connections};

verus! {

/// A server under construction: its listeners, its handlers and its state.
///
/// `S` is the state that the handlers share. `P`, `C` and `D` are the handlers
/// of packets, of new connections and of connections that are gone.
pub struct Server<S, P, C, D> {
    /// Where to listen, and for which transport.
    pub listeners: Vec<(String, Protocol)>,
    /// What to call with each packet.
    pub on_packet: Option<Arc<P>>,
    /// What decides whether a peer is let in.
    pub on_connect: Option<Arc<C>>,
    /// What to call when a connection is gone.
    pub on_disconnect: Option<Arc<D>>,
    /// The open connections.
    pub connection_manager: ConnectionManager<D>,
    /// The state that the handlers share.
    pub state: Arc<S>,
}

/// One listener to start.
pub struct Listener {
    /// Where to listen.
    pub addr: String,
    /// The transport.
    pub protocol: Protocol,
    /// Whether the handler of new connections decides who is let in.
    pub validated: bool,
}

/// A server that is ready to start.
pub struct Launch<S, P, C, D> {
    /// The listeners to start, in this order.
    pub listeners: Vec<Listener>,
    /// What to call with each packet.
    pub on_packet: Arc<P>,
    /// What decides whether a peer is let in.
    pub on_connect: Option<Arc<C>>,
    /// The open connections.
    pub manager: ConnectionManager<D>,
    /// The state that the handlers share.
    pub state: Arc<S>,
}

/// What to start for a listener. A UDP socket has no connections to decide
/// about, so it is never validated.
pub open spec fn plans(listener: Listener, bound: (String, Protocol), validator: bool) -> bool {
    &&& listener.addr@ == bound.0@
    &&& listener.protocol == bound.1
    &&& listener.validated == (validator && bound.1 != Protocol::Udp)
}

impl<S, P, C, D> Server<S, P, C, D> {
    /// The server and its table of connections agree on what to call when a
    /// connection is gone.
    pub open spec fn wf(self) -> bool {
        self.connection_manager.on_disconnect == self.on_disconnect
    }

    /// Returns a server with nothing but a state and an empty table of
    /// connections.
    pub fn new(state: Arc<S>) -> (server: Self)
        ensures
            server.wf(),
            server.listeners@.len() == 0,
            server.on_packet is None,
            server.on_connect is None,
            server.on_disconnect is None,
            crate::server::manager::made_around(*server.connection_manager.connections)
                == Map::<crate::addr::AddrKey, crate::packet::Responder>::empty(),
            server.state == state,
    {
        Server {
            listeners: Vec::new(),
            on_packet: None,
            on_connect: None,
            on_disconnect: None,
            connection_manager: ConnectionManager::new(),
            state,
        }
    }

    /// Adds a listener behind those that were added before.
    pub fn bind(self, addr: &str, protocol: Protocol) -> (server: Self)
        ensures
            server == (Server { listeners: server.listeners, ..self }),
            server.listeners@.len() == self.listeners@.len() + 1,
            server.listeners@.drop_last() == self.listeners@,
            server.listeners@.last().0@ == addr@,
            server.listeners@.last().1 == protocol,
            self.wf() ==> server.wf(),
    {
        let mut server = self;
        server.listeners.push((addr.to_owned(), protocol));
        assert(server.listeners@.drop_last() =~= self.listeners@);
        server
    }

    /// Sets what to call with each packet.
    pub fn on_packet(self, func: Arc<P>) -> (server: Self)
        ensures
            server == (Server { on_packet: Some(func), ..self }),
            self.wf() ==> server.wf(),
    {
        Server { on_packet: Some(func), ..self }
    }

    /// Sets what decides whether a peer is let in.
    pub fn on_connect(self, func: Arc<C>) -> (server: Self)
        ensures
            server == (Server { on_connect: Some(func), ..self }),
            self.wf() ==> server.wf(),
    {
        Server { on_connect: Some(func), ..self }
    }

    /// Sets what to call when a connection is gone, in the server and in its
    /// table of connections.
    pub fn on_disconnect(self, func: Arc<D>) -> (server: Self)
        ensures
            server == (Server {
                on_disconnect: Some(func),
                connection_manager: ConnectionManager {
                    on_disconnect: Some(func),
                    ..self.connection_manager
                },
                ..self
            }),
            server.wf(),
    {
        let mut server = self;
        server.connection_manager.on_disconnect = Some(share(&func));
        server.on_disconnect = Some(func);
        server
    }

    /// Returns what to start, or an error if nothing handles packets.
    pub fn run(self) -> (result: Result<Launch<S, P, C, D>, RunFault>)
        ensures
            match result {
                Ok(launch) => {
                    &&& self.on_packet == Some(launch.on_packet)
                    &&& launch.on_connect == self.on_connect
                    &&& launch.manager == self.connection_manager
                    &&& launch.state == self.state
                    &&& launch.listeners@.len() == self.listeners@.len()
                    &&& forall|i: int|
                        0 <= i < launch.listeners@.len() ==> plans(
                            #[trigger] launch.listeners@[i],
                            self.listeners@[i],
                            self.on_connect is Some,
                        )
                },
                Err(fault) => self.on_packet is None && fault == RunFault::PacketHandlerNotSet,
            },
    {
        let on_packet = match self.on_packet {
            Some(func) => func,
            None => return Err(RunFault::PacketHandlerNotSet),
        };
        let validator = self.on_connect.is_some();
        let n: usize = self.listeners.len();
        let mut listeners: Vec<Listener> = Vec::new();
        let mut i: usize = 0;
        while i < n
            invariant
                i <= n,
                n == self.listeners@.len(),
                listeners@.len() == i,
                forall|j: int|
                    0 <= j < i ==> plans(
                        #[trigger] listeners@[j],
                        self.listeners@[j],
                        validator,
                    ),
            decreases n - i,
        {
            let bound = &self.listeners[i];
            let protocol = bound.1;
            let listener = match protocol {
                Protocol::Tcp => Listener { addr: bound.0.clone(), protocol, validated: validator },
                Protocol::Udp => Listener { addr: bound.0.clone(), protocol, validated: false },
                Protocol::WebSocket => {
                    Listener { addr: bound.0.clone(), protocol, validated: validator }
                },
            };
            listeners.push(listener);
            i = i + 1;
        }
        Ok(
            Launch {
                listeners,
                on_packet,
                on_connect: self.on_connect,
                manager: self.connection_manager,
                state: self.state,
            },
        )
    }
}

/// What is started for a listener listens where it was bound, for the transport
/// that it was bound for. The validator decides for TCP and WebSocket
/// listeners, if there is one, and never for UDP.
pub proof fn law_listeners_start_as_bound(
    listener: Listener,
    bound: (String, Protocol),
    validator: bool,
)
    requires
        plans(listener, bound, validator),
    ensures
        listener.addr@ == bound.0@,
        listener.protocol == bound.1,
        bound.1 == Protocol::Tcp ==> listener.validated == validator,
        bound.1 == Protocol::WebSocket ==> listener.validated == validator,
        bound.1 == Protocol::Udp ==> !listener.validated,
{
}

} // verus!
