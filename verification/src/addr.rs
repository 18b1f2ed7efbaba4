//! Caller addresses as the routing table keys them.

use vstd::prelude::*;

verus! {

/// An IP address: the four octets of an IPv4 address, or the sixteen of an
/// IPv6 address, read as one big-endian integer.
#[derive(Clone, Copy, PartialEq, Eq, Hash, Debug, Structural)]
pub enum IpAddress {
    V4(u32),
    V6(u128),
}

/// A transport address: an IP address and a port, and for an IPv6 address
/// its flow information and scope id (both 0 for an IPv4 address).
#[derive(Clone, Copy, PartialEq, Eq, Hash, Debug, Structural)]
pub struct SocketAddress {
    pub ip: IpAddress,
    pub port: u16,
    pub flowinfo: u32,
    pub scope_id: u32,
}

impl View for IpAddress {
    type V = IpAddress;

    open spec fn view(&self) -> IpAddress {
        *self
    }
}

impl View for SocketAddress {
    type V = SocketAddress;

    open spec fn view(&self) -> SocketAddress {
        *self
    }
}

/// Address order: every IPv4 address before every IPv6 address, then by the
/// address's integer value.
pub open spec fn ip_lt(a: IpAddress, b: IpAddress) -> bool {
    match (a, b) {
        (IpAddress::V4(x), IpAddress::V4(y)) => x < y,
        (IpAddress::V4(_), IpAddress::V6(_)) => true,
        (IpAddress::V6(_), IpAddress::V4(_)) => false,
        (IpAddress::V6(x), IpAddress::V6(y)) => x < y,
    }
}

/// Socket address order: by IP address, then by port, flow information and
/// scope id.
pub open spec fn addr_lt(a: SocketAddress, b: SocketAddress) -> bool {
    ||| ip_lt(a.ip, b.ip)
    ||| (a.ip == b.ip && a.port < b.port)
    ||| (a.ip == b.ip && a.port == b.port && a.flowinfo < b.flowinfo)
    ||| (a.ip == b.ip && a.port == b.port && a.flowinfo == b.flowinfo && a.scope_id < b.scope_id)
}

pub fn ip_less(a: IpAddress, b: IpAddress) -> (r: bool)
    ensures
        r == ip_lt(a, b),
{
    match (a, b) {
        (IpAddress::V4(x), IpAddress::V4(y)) => x < y,
        (IpAddress::V4(_), IpAddress::V6(_)) => true,
        (IpAddress::V6(_), IpAddress::V4(_)) => false,
        (IpAddress::V6(x), IpAddress::V6(y)) => x < y,
    }
}

pub fn addr_less(a: SocketAddress, b: SocketAddress) -> (r: bool)
    ensures
        r == addr_lt(a, b),
{
    if ip_less(a.ip, b.ip) {
        return true;
    }
    if a.ip != b.ip {
        return false;
    }
    if a.port != b.port {
        return a.port < b.port;
    }
    if a.flowinfo != b.flowinfo {
        return a.flowinfo < b.flowinfo;
    }
    a.scope_id < b.scope_id
}

} // verus!
