//! The faults that the library itself finds, with their texts.
use vstd::prelude::*;

verus! {

/// The class of an input/output fault.
#[derive(Clone, Copy, Debug, PartialEq, Eq, Structural)]
pub enum FaultKind {
    /// The caller handed over something that cannot be sent.
    InvalidInput,
    /// The peer sent something that cannot be accepted.
    InvalidData,
    /// The task that writes to the peer has ended.
    BrokenPipe,
    /// Anything else.
    Other,
}

/// A fault in sending or receiving.
#[derive(Clone, Copy, Debug, PartialEq, Eq, Structural)]
pub enum Fault {
    /// The payload is too long for a frame's length field.
    FrameTooLargeToSend,
    /// The peer announced a frame longer than `MAX_FRAME_SIZE`.
    FrameTooLargeToReceive,
    /// Nothing takes frames for the TCP peer any more.
    TcpWriterClosed,
    /// Nothing takes messages for the WebSocket peer any more.
    WebSocketWriterClosed,
    /// A client listens without a message handler.
    HandlerNotSet,
    /// A client listens without a state.
    StateNotSet,
    /// Another clone of the client has taken the TCP stream to read from.
    TcpReaderTaken,
    /// Another clone of the client has taken the WebSocket to read from.
    WebSocketReaderTaken,
}

impl Fault {
    /// The class of this fault.
    pub open spec fn spec_kind(self) -> FaultKind {
        match self {
            Fault::FrameTooLargeToSend => FaultKind::InvalidInput,
            Fault::FrameTooLargeToReceive => FaultKind::InvalidData,
            Fault::TcpWriterClosed => FaultKind::BrokenPipe,
            Fault::WebSocketWriterClosed => FaultKind::BrokenPipe,
            Fault::HandlerNotSet => FaultKind::Other,
            Fault::StateNotSet => FaultKind::Other,
            Fault::TcpReaderTaken => FaultKind::Other,
            Fault::WebSocketReaderTaken => FaultKind::Other,
        }
    }

    /// The text of this fault.
    pub open spec fn spec_message(self) -> Seq<char> {
        match self {
            Fault::FrameTooLargeToSend => "TCP frame too large"@,
            Fault::FrameTooLargeToReceive => "TCP frame too large"@,
            Fault::TcpWriterClosed => "tcp writer closed"@,
            Fault::WebSocketWriterClosed => "websocket writer closed"@,
            Fault::HandlerNotSet => "Message handler not set"@,
            Fault::StateNotSet => "State not set"@,
            Fault::TcpReaderTaken => "TCP reader already taken"@,
            Fault::WebSocketReaderTaken => "WebSocket reader already taken"@,
        }
    }

    /// Returns the class of this fault.
    pub fn kind(&self) -> (kind: FaultKind)
        ensures
            kind == self.spec_kind(),
    {
        match self {
            Fault::FrameTooLargeToSend => FaultKind::InvalidInput,
            Fault::FrameTooLargeToReceive => FaultKind::InvalidData,
            Fault::TcpWriterClosed | Fault::WebSocketWriterClosed => FaultKind::BrokenPipe,
            Fault::HandlerNotSet | Fault::StateNotSet => FaultKind::Other,
            Fault::TcpReaderTaken | Fault::WebSocketReaderTaken => FaultKind::Other,
        }
    }

    /// Returns the text of this fault.
    pub fn message(&self) -> (text: &'static str)
        ensures
            text@ == self.spec_message(),
    {
        match self {
            Fault::FrameTooLargeToSend => "TCP frame too large",
            Fault::FrameTooLargeToReceive => "TCP frame too large",
            Fault::TcpWriterClosed => "tcp writer closed",
            Fault::WebSocketWriterClosed => "websocket writer closed",
            Fault::HandlerNotSet => "Message handler not set",
            Fault::StateNotSet => "State not set",
            Fault::TcpReaderTaken => "TCP reader already taken",
            Fault::WebSocketReaderTaken => "WebSocket reader already taken",
        }
    }
}

/// Why a server cannot start.
#[derive(Clone, Copy, Debug, PartialEq, Eq, Structural)]
pub enum RunFault {
    /// Nothing handles packets.
    PacketHandlerNotSet,
}

impl RunFault {
    /// Returns the text of this fault.
    pub fn message(&self) -> (text: &'static str)
        ensures
            text@ == "Packet handler not set"@,
    {
        match self {
            RunFault::PacketHandlerNotSet => "Packet handler not set",
        }
    }
}

} // verus!
