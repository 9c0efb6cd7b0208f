use vstd::prelude::*;

verus! {

/// An IP address: an IPv4 address as its 32-bit big-endian value, or an
/// IPv6 address as its 128-bit big-endian value.
#[derive(Clone, Copy, Debug, PartialEq, Eq, Hash, Structural)]
pub enum IpAddr {
    V4(u32),
    V6(u128),
}

/// An IPv4 address and port.
#[derive(Clone, Copy, Debug, PartialEq, Eq, Hash, Structural)]
pub struct SocketAddrV4 {
    pub ip: u32,
    pub port: u16,
}

/// An IPv6 address and port (flow label and scope id zero).
#[derive(Clone, Copy, Debug, PartialEq, Eq, Hash, Structural)]
pub struct SocketAddrV6 {
    pub ip: u128,
    pub port: u16,
}

/// A socket address of either family.
#[derive(Clone, Copy, Debug, PartialEq, Eq, Hash, Structural)]
pub enum SocketAddr {
    V4(SocketAddrV4),
    V6(SocketAddrV6),
}

/// The address families a task may use.
#[derive(Clone, Copy, Debug, PartialEq, Eq, Hash, Structural)]
pub enum Network {
    IPv4,
    IPv6,
    Dual,
}

/// The big-endian value of a byte sequence.
pub open spec fn be_value(s: Seq<u8>) -> nat
    decreases s.len(),
{
    if s.len() == 0 {
        0
    } else {
        (be_value(s.drop_last()) * 256 + s.last()) as nat
    }
}

impl IpAddr {
    /// Whether the address is a loopback address: `127.0.0.0/8` or `::1`.
    pub open spec fn spec_is_loopback(self) -> bool {
        match self {
            IpAddr::V4(a) => a / 0x0100_0000 == 127,
            IpAddr::V6(a) => a == 1,
        }
    }

    /// Whether the address is a loopback address: `127.0.0.0/8` or `::1`.
    pub fn is_loopback(&self) -> (r: bool)
        ensures
            r == self.spec_is_loopback(),
    {
        match self {
            IpAddr::V4(a) => *a / 0x0100_0000 == 127,
            IpAddr::V6(a) => *a == 1,
        }
    }
}

impl SocketAddr {
    /// The socket address for `ip` and `port`.
    pub open spec fn new_spec(ip: IpAddr, port: u16) -> SocketAddr {
        match ip {
            IpAddr::V4(a) => SocketAddr::V4(SocketAddrV4 { ip: a, port }),
            IpAddr::V6(a) => SocketAddr::V6(SocketAddrV6 { ip: a, port }),
        }
    }

    /// The socket address for `ip` and `port`.
    pub fn new(ip: IpAddr, port: u16) -> (r: SocketAddr)
        ensures
            r == SocketAddr::new_spec(ip, port),
            r.spec_ip() == ip,
            r.spec_port() == port,
    {
        match ip {
            IpAddr::V4(a) => SocketAddr::V4(SocketAddrV4 { ip: a, port }),
            IpAddr::V6(a) => SocketAddr::V6(SocketAddrV6 { ip: a, port }),
        }
    }

    pub open spec fn spec_ip(self) -> IpAddr {
        match self {
            SocketAddr::V4(a) => IpAddr::V4(a.ip),
            SocketAddr::V6(a) => IpAddr::V6(a.ip),
        }
    }

    pub open spec fn spec_port(self) -> u16 {
        match self {
            SocketAddr::V4(a) => a.port,
            SocketAddr::V6(a) => a.port,
        }
    }

    /// The IP address of this socket address.
    pub fn ip(&self) -> (r: IpAddr)
        ensures
            r == self.spec_ip(),
    {
        match self {
            SocketAddr::V4(a) => IpAddr::V4(a.ip),
            SocketAddr::V6(a) => IpAddr::V6(a.ip),
        }
    }

    /// The port of this socket address.
    pub fn port(&self) -> (r: u16)
        ensures
            r == self.spec_port(),
    {
        match self {
            SocketAddr::V4(a) => a.port,
            SocketAddr::V6(a) => a.port,
        }
    }

    /// Replaces the port, keeping the address.
    pub fn set_port(&mut self, port: u16)
        ensures
            final(self).spec_ip() == old(self).spec_ip(),
            final(self).spec_port() == port,
    {
        match self {
            SocketAddr::V4(a) => a.port = port,
            SocketAddr::V6(a) => a.port = port,
        }
    }
}

impl Network {
    /// The address families selected by the `ip4`/`ip6` command line flags:
    /// one family when exactly one of them allows only that family, both
    /// otherwise.
    pub fn from_flags(ip4: bool, ip6: bool) -> (r: Network)
        ensures
            ip4 && !ip6 ==> r == Network::IPv4,
            !ip4 && ip6 ==> r == Network::IPv6,
            ip4 == ip6 ==> r == Network::Dual,
    {
        match (ip4, ip6) {
            (true, false) => Network::IPv4,
            (false, true) => Network::IPv6,
            _ => Network::Dual,
        }
    }

    /// As `from_flags`, but with no family when both are allowed.
    pub fn restriction(ip4: bool, ip6: bool) -> (r: Option<Network>)
        ensures
            ip4 && !ip6 ==> r == Some(Network::IPv4),
            !ip4 && ip6 ==> r == Some(Network::IPv6),
            ip4 == ip6 ==> r is None,
    {
        match (ip4, ip6) {
            (true, false) => Some(Network::IPv4),
            (false, true) => Some(Network::IPv6),
            _ => None,
        }
    }
}

} // verus!
