//! IP addresses, and the identity under which a caller is counted: its IP
//! address.

use vstd::prelude::*;

verus! {

/// An IP address. An IPv4 address is held as its 32-bit number and an IPv6
/// address as its 128-bit number, both in network order.
#[derive(Clone, Copy, Debug, PartialEq, Eq, Hash, Structural)]
pub enum IpAddress {
    V4(u32),
    V6(u128),
}

/// The identity of a caller: the IP address at the other end of its
/// connection. No header of the request has a say in it.
pub type ClientKey = IpAddress;

/// The number of the IPv4 address `a.b.c.d`.
pub open spec fn octets_value(a: u8, b: u8, c: u8, d: u8) -> u32 {
    (a * 0x100_0000 + b * 0x1_0000 + c * 0x100 + d) as u32
}

/// The IPv4 loopback address `127.0.0.1`.
pub open spec fn loopback() -> IpAddress {
    IpAddress::V4(octets_value(127, 0, 0, 1))
}

/// The identity given to a caller whose peer address is not known: the
/// loopback address.
pub open spec fn fallback_key() -> ClientKey {
    loopback()
}

/// The identity of a caller: its peer address, or the fallback without one.
pub open spec fn caller_of(peer: Option<ClientKey>) -> ClientKey {
    match peer {
        Some(key) => key,
        None => fallback_key(),
    }
}

impl IpAddress {
    /// The IPv4 address `a.b.c.d`.
    pub fn from_octets(a: u8, b: u8, c: u8, d: u8) -> (address: IpAddress)
        ensures
            address == IpAddress::V4(octets_value(a, b, c, d)),
    {
        let high: u32 = (a as u32) * 0x100_0000 + (b as u32) * 0x1_0000;
        let low: u32 = (c as u32) * 0x100 + (d as u32);
        IpAddress::V4(high + low)
    }

    /// The key used when the peer address of a connection is not known.
    pub fn fallback() -> (key: ClientKey)
        ensures
            key == fallback_key(),
    {
        ClientKey::from_octets(127, 0, 0, 1)
    }
}

/// Names the caller of a request. All callers without a peer address share
/// the loopback identity, and so share one quota.
pub fn identify_caller(peer: Option<ClientKey>) -> (caller: ClientKey)
    ensures
        caller == caller_of(peer),
{
    match peer {
        Some(key) => key,
        None => ClientKey::fallback(),
    }
}

} // verus!
