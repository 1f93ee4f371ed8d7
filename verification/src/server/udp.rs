//! The UDP socket of a server.
use crate::addr::PeerAddr;
use crate::packet::{Packet, Responder};
use crate::shared::share;
use std::sync::Arc;
use tokio::net::UdpSocket;
use vstd::prelude::*;

verus! {

/// What happened to a UDP socket.
pub enum UdpEvent {
    /// A datagram from `from` was received into the first `size` bytes of
    /// `buffer`.
    Received { buffer: Vec<u8>, size: usize, from: PeerAddr },
    /// Receiving failed.
    Failed,
}

/// What to do before the next datagram is received.
pub enum UdpAction {
    /// Start the packet handler for a packet from this address, without
    /// waiting until it is done.
    Start(Packet, PeerAddr),
    /// Nothing.
    Skip,
}

/// The UDP socket of a server: the decisions between its datagrams.
pub struct UdpService {
    socket: Arc<UdpSocket>,
}

impl UdpService {
    /// The socket.
    pub closed spec fn socket(self) -> Arc<UdpSocket> {
        self.socket
    }

    /// Serves the datagrams of `socket`.
    pub fn open(socket: Arc<UdpSocket>) -> (service: UdpService)
        ensures
            service.socket() == socket,
    {
        UdpService { socket }
    }

    /// Takes what happened and returns what to do before the next datagram is
    /// received. A packet holds the bytes that were received, no more, and is
    /// answered over the same socket. A failure is passed over.
    pub fn step(&self, event: UdpEvent) -> (action: UdpAction)
        ensures
            match event {
                UdpEvent::Received { buffer, size, from } => {
                    &&& action matches UdpAction::Start(packet, peer)
                    &&& peer == from
                    &&& packet.data@ == buffer@.take(
                        if size <= buffer@.len() {
                            size as int
                        } else {
                            buffer@.len() as int
                        },
                    )
                    &&& packet.protocol == crate::Protocol::Udp
                    &&& packet.responder == Responder::Udp(self.socket(), from)
                },
                UdpEvent::Failed => action is Skip,
            },
    {
        match event {
            UdpEvent::Received { buffer, size, from } => {
                let mut data = buffer;
                data.truncate(size);
                assert(data@ =~= buffer@.take(
                    if size <= buffer@.len() {
                        size as int
                    } else {
                        buffer@.len() as int
                    },
                ));
                let responder = Responder::Udp(share(&self.socket), from);
                UdpAction::Start(Packet::new(data, responder), from)
            },
            UdpEvent::Failed => UdpAction::Skip,
        }
    }
}

} // verus!
