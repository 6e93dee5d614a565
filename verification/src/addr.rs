//! Socket addresses of peers, held as plain values.

use vstd::prelude::*;

verus! {

/// The fields by which an address is ordered and found again in a table.
pub type AddrKey = (u8, u128, u16, u32, u32);

/// A TCP socket address: an IPv4 address (held in the low 32 bits of `ip`)
/// or an IPv6 address with its flow label and scope, and a port.
#[derive(Clone, Copy, Debug, PartialEq, Eq, Hash, Structural)]
pub struct PeerAddr {
    pub v6: bool,
    pub ip: u128,
    pub port: u16,
    pub flowinfo: u32,
    pub scope_id: u32,
}

impl PeerAddr {
    /// The table key of this address.
    pub open spec fn key(self) -> AddrKey {
        (if self.v6 { 6u8 } else { 4u8 }, self.ip, self.port, self.flowinfo, self.scope_id)
    }

    /// An IPv4 socket address.
    pub fn v4(ip: u32, port: u16) -> (a: PeerAddr)
        ensures
            a == (PeerAddr { v6: false, ip: ip as u128, port, flowinfo: 0, scope_id: 0 }),
    {
        PeerAddr { v6: false, ip: ip as u128, port, flowinfo: 0, scope_id: 0 }
    }

    /// The table key of this address.
    pub fn addr_key(&self) -> (k: AddrKey)
        ensures
            k == self.key(),
    {
        (if self.v6 { 6u8 } else { 4u8 }, self.ip, self.port, self.flowinfo, self.scope_id)
    }

    /// The same address with another port.
    pub fn with_port(&self, port: u16) -> (a: PeerAddr)
        ensures
            a == (PeerAddr { port, ..*self }),
    {
        PeerAddr { port, ..*self }
    }
}

/// Two addresses with the same key are the same address.
pub proof fn lemma_key_injective(a: PeerAddr, b: PeerAddr)
    ensures
        a.key() == b.key() ==> a == b,
{
}

} // verus!
