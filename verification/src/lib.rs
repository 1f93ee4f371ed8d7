//! One server and one client for three transports: TCP with length-prefixed
//! frames, UDP datagrams and WebSocket messages.
//!
//! The crate holds the protocol logic as state machines and plain functions.
//! Sockets, timers and tasks belong to the program around it: a machine names
//! the next action, the program performs it and hands back what happened.
use vstd::prelude::*;

pub mod addr;
pub mod channel;
pub mod client;
pub mod datagram;
pub mod demo;
pub mod error;
pub mod frame;
pub mod laws;
pub mod message;
pub mod packet;
pub mod server;
mod shared;
pub mod text;
pub mod writer;

pub use client::Client;
pub use packet::{Packet, Responder};
pub use server::Server;

verus! {

/// Largest payload, in bytes, that a client accepts in one TCP frame.
pub const MAX_FRAME_SIZE: usize = 16 * 1024 * 1024;

/// The transports.
#[derive(Clone, Copy, Debug, PartialEq, Eq, Structural)]
pub enum Protocol {
    /// Length-prefixed frames over a TCP stream.
    Tcp,
    /// One message per datagram.
    Udp,
    /// One message per binary or text WebSocket message.
    WebSocket,
}

impl Protocol {
    /// The name of this transport.
    pub open spec fn spec_label(self) -> Seq<char> {
        match self {
            Protocol::Tcp => "TCP"@,
            Protocol::Udp => "UDP"@,
            Protocol::WebSocket => "WebSocket"@,
        }
    }

    /// Returns the name of this transport.
    pub fn label(&self) -> (label: &'static str)
        ensures
            label@ == self.spec_label(),
    {
        match self {
            Protocol::Tcp => "TCP",
            Protocol::Udp => "UDP",
            Protocol::WebSocket => "WebSocket",
        }
    }
}

} // verus!
