//! Network addresses of peers, as plain values.
use vstd::prelude::*;

verus! {

/// What identifies a peer's address: the IP version, then the address, the
/// port, the flow information and the scope.
pub type AddrKey = (u8, u128, u16, u32, u32);

/// The address of a peer: an IP address and a port.
#[derive(Clone, Copy, Debug, PartialEq, Eq, Structural)]
pub enum PeerAddr {
    /// An IPv4 address, as the number that its four octets spell, and a port.
    V4 { ip: u32, port: u16 },
    /// An IPv6 address, as the number that its sixteen octets spell, a port,
    /// and the flow information and scope of the socket address.
    V6 { ip6: u128, port: u16, flow_info: u32, scope_id: u32 },
}

impl PeerAddr {
    /// The key of this address.
    pub open spec fn key(self) -> AddrKey {
        match self {
            PeerAddr::V4 { ip, port } => (4, ip as u128, port, 0, 0),
            PeerAddr::V6 { ip6, port, flow_info, scope_id } => (6, ip6, port, flow_info, scope_id),
        }
    }

    /// Returns the key under which a table files this address.
    pub fn to_key(&self) -> (key: AddrKey)
        ensures
            key == self.key(),
    {
        match *self {
            PeerAddr::V4 { ip, port } => (4, ip as u128, port, 0, 0),
            PeerAddr::V6 { ip6, port, flow_info, scope_id } => (6, ip6, port, flow_info, scope_id),
        }
    }

    /// Returns the address that has this key, if there is one.
    pub fn from_key(key: AddrKey) -> (addr: Option<PeerAddr>)
        ensures
            match addr {
                Some(addr) => addr.key() == key,
                None => forall|other: PeerAddr| #[trigger] other.key() != key,
            },
    {
        let (version, ip, port, flow_info, scope_id) = key;
        if version == 4 && ip <= 0xffff_ffff && flow_info == 0 && scope_id == 0 {
            Some(PeerAddr::V4 { ip: ip as u32, port })
        } else if version == 6 {
            Some(PeerAddr::V6 { ip6: ip, port, flow_info, scope_id })
        } else {
            None
        }
    }
}

/// Two addresses have the same key only if they are the same address.
pub proof fn law_keys_tell_addresses_apart(a: PeerAddr, b: PeerAddr)
    ensures
        a.key() == b.key() <==> a == b,
{
}

} // verus!
