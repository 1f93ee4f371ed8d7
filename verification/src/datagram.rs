//! Buffers for datagrams.
use vstd::prelude::*;

verus! {

/// Size of a receive buffer: no datagram is longer.
pub const DATAGRAM_SIZE: usize = 65535;

/// Returns a buffer to receive a datagram into.
pub fn datagram_buffer() -> (buffer: Vec<u8>)
    ensures
        buffer@ == Seq::new(DATAGRAM_SIZE as nat, |i: int| 0u8),
{
    let buffer: Vec<u8> = vec![0u8; DATAGRAM_SIZE];
    assert(buffer@ =~= Seq::new(DATAGRAM_SIZE as nat, |i: int| 0u8));
    buffer
}

} // verus!
