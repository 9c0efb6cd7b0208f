use vstd::prelude::*;
use crate::icmp::{be16, prefix, slice_from, tail};
use crate::net::{be_value, SocketAddr, SocketAddrV4, SocketAddrV6};
use crate::wire::{
    ipv4_header_valid, ipv4_ihl, ipv4_udp_layout, ipv4_udp_packet, ipv6_header_valid,
    read_ipv4_header, read_ipv6_header, read_udp_ports, udp_header_bytes, write_ipv4_udp,
    lemma_ipv4_udp_packet_layout,
    write_udp_header,
};

verus! {

/// IP protocol number of UDP.
pub const UDP: u8 = 17;

/// Errors of probe construction, encoding and decoding.
#[derive(Clone, Copy, Debug, PartialEq, Eq, Structural)]
pub enum ProbeError {
    /// Source and destination belong to different address families.
    MixedFamilies,
    /// The bytes do not start with a readable IP header.
    Header,
    /// The bytes after the IP header are too short for a UDP header.
    Truncated,
    /// The buffer is too short for the packet.
    Buffer,
}

/// An IPv4 traceroute probe: a UDP datagram from `src` to `dst`.
#[derive(Clone, Copy, Debug, PartialEq, Eq, Structural)]
pub struct ProbeV4 {
    pub src: SocketAddrV4,
    pub dst: SocketAddrV4,
    pub ttl: u8,
}

/// An IPv6 traceroute probe.
#[derive(Clone, Copy, Debug, PartialEq, Eq, Structural)]
pub struct ProbeV6 {
    pub src: SocketAddrV6,
    pub dst: SocketAddrV6,
    pub ttl: u8,
}

/// A traceroute probe of either family.
#[derive(Clone, Copy, Debug, PartialEq, Eq, Structural)]
pub enum Probe {
    V4(ProbeV4),
    V6(ProbeV6),
}

impl Probe {
    pub open spec fn spec_src(self) -> SocketAddr {
        match self {
            Probe::V4(p) => SocketAddr::V4(p.src),
            Probe::V6(p) => SocketAddr::V6(p.src),
        }
    }

    pub open spec fn spec_dst(self) -> SocketAddr {
        match self {
            Probe::V4(p) => SocketAddr::V4(p.dst),
            Probe::V6(p) => SocketAddr::V6(p.dst),
        }
    }

    pub open spec fn spec_ttl(self) -> u8 {
        match self {
            Probe::V4(p) => p.ttl,
            Probe::V6(p) => p.ttl,
        }
    }

    /// A probe from `src` to `dst` with time-to-live `ttl`; fails exactly
    /// when the two addresses are of different families.
    pub fn new(src: SocketAddr, dst: SocketAddr, ttl: u8) -> (r: Result<Probe, ProbeError>)
        ensures
            r is Err <==> (src is V4) != (dst is V4),
            r is Err ==> r == Err::<Probe, ProbeError>(ProbeError::MixedFamilies),
            r matches Ok(p) ==> p.spec_src() == src && p.spec_dst() == dst && p.spec_ttl() == ttl,
    {
        match (src, dst) {
            (SocketAddr::V4(src), SocketAddr::V4(dst)) => Ok(Probe::V4(ProbeV4 { src, dst, ttl })),
            (SocketAddr::V6(src), SocketAddr::V6(dst)) => Ok(Probe::V6(ProbeV6 { src, dst, ttl })),
            _ => Err(ProbeError::MixedFamilies),
        }
    }

    /// The source address.
    pub fn src(&self) -> (r: SocketAddr)
        ensures
            r == self.spec_src(),
    {
        match self {
            Probe::V4(v4) => SocketAddr::V4(v4.src),
            Probe::V6(v6) => SocketAddr::V6(v6.src),
        }
    }

    /// The destination address.
    pub fn dst(&self) -> (r: SocketAddr)
        ensures
            r == self.spec_dst(),
    {
        match self {
            Probe::V4(v4) => SocketAddr::V4(v4.dst),
            Probe::V6(v6) => SocketAddr::V6(v6.dst),
        }
    }

    /// The time-to-live (hop limit).
    pub fn ttl(&self) -> (r: u8)
        ensures
            r == self.spec_ttl(),
    {
        match self {
            Probe::V4(v4) => v4.ttl,
            Probe::V6(v6) => v6.ttl,
        }
    }
}

/// What decoding the start of an IPv4 datagram yields: `None` for bytes that
/// cannot be read, `Some(None)` for a datagram that is not UDP, and the
/// probe (with time-to-live 0) that a UDP datagram describes.
pub open spec fn spec_decode4(s: Seq<u8>) -> Option<Option<Probe>> {
    if !ipv4_header_valid(s) {
        None
    } else if s[9] != UDP {
        Some(None)
    } else {
        let t = tail(s, (ipv4_ihl(s) * 4) as int);
        if t.len() < 8 {
            None
        } else {
            Some(
                Some(
                    Probe::V4(
                        ProbeV4 {
                            src: SocketAddrV4 {
                                ip: be_value(s.subrange(12, 16)) as u32,
                                port: be16(t[0], t[1]) as u16,
                            },
                            dst: SocketAddrV4 {
                                ip: be_value(s.subrange(16, 20)) as u32,
                                port: be16(t[2], t[3]) as u16,
                            },
                            ttl: 0,
                        },
                    ),
                ),
            )
        }
    }
}

/// What decoding the start of an IPv6 datagram yields, as for IPv4.
pub open spec fn spec_decode6(s: Seq<u8>) -> Option<Option<Probe>> {
    if !ipv6_header_valid(s) {
        None
    } else if s[6] != UDP {
        Some(None)
    } else {
        let t = tail(s, 40);
        if t.len() < 8 {
            None
        } else {
            Some(
                Some(
                    Probe::V6(
                        ProbeV6 {
                            src: SocketAddrV6 {
                                ip: be_value(s.subrange(8, 24)) as u128,
                                port: be16(t[0], t[1]) as u16,
                            },
                            dst: SocketAddrV6 {
                                ip: be_value(s.subrange(24, 40)) as u128,
                                port: be16(t[2], t[3]) as u16,
                            },
                            ttl: 0,
                        },
                    ),
                ),
            )
        }
    }
}

/// The outcome of a decoding as the spec functions describe it.
pub open spec fn decoded(r: Result<Option<Probe>, ProbeError>) -> Option<Option<Probe>> {
    match r {
        Ok(x) => Some(x),
        Err(_) => None,
    }
}

impl ProbeV4 {
    /// Decodes the IPv4 and UDP headers at the start of `pkt` (as quoted in
    /// an ICMP error) into the probe they describe.
    pub fn decode(pkt: &[u8]) -> (r: Result<Option<Probe>, ProbeError>)
        ensures
            decoded(r) == spec_decode4(pkt@),
    {
        let ip = match read_ipv4_header(pkt) {
            Ok(h) => h,
            Err(_) => return Err(ProbeError::Header),
        };
        if ip.protocol == UDP {
            let rest = slice_from(pkt, ip.header_len);
            let (sport, dport) = match read_udp_ports(rest) {
                Ok(p) => p,
                Err(_) => return Err(ProbeError::Truncated),
            };
            let src = SocketAddrV4 { ip: ip.source, port: sport };
            let dst = SocketAddrV4 { ip: ip.destination, port: dport };
            return Ok(Some(Probe::V4(ProbeV4 { src, dst, ttl: 0 })));
        }
        Ok(None)
    }

    /// Writes this probe as an IPv4 datagram carrying an empty UDP datagram
    /// at the start of `buf` and returns it; fails when `buf` is shorter
    /// than the 28 bytes.
    pub fn encode<'a>(&self, buf: &'a mut [u8]) -> (r: Result<&'a [u8], ProbeError>)
        ensures
            r is Ok <==> old(buf)@.len() >= 28,
            r is Err ==> r == Err::<&[u8], ProbeError>(ProbeError::Buffer),
            r matches Ok(p) ==> {
                &&& p@ == ipv4_udp_packet(self.src.ip, self.src.port, self.dst.ip, self.dst.port, self.ttl)
                &&& ipv4_udp_layout(p@, self.src, self.dst, self.ttl)
            },
    {
        proof {
            lemma_ipv4_udp_packet_layout(self.src, self.dst, self.ttl);
        }
        let n = match write_ipv4_udp(buf, self.src, self.dst, self.ttl) {
            Ok(n) => n,
            Err(_) => return Err(ProbeError::Buffer),
        };
        let out: &'a [u8] = buf;
        Ok(prefix(out, n))
    }
}

impl ProbeV6 {
    /// Decodes the IPv6 and UDP headers at the start of `pkt` into the probe
    /// they describe.
    pub fn decode(pkt: &[u8]) -> (r: Result<Option<Probe>, ProbeError>)
        ensures
            decoded(r) == spec_decode6(pkt@),
    {
        let ip = match read_ipv6_header(pkt) {
            Ok(h) => h,
            Err(_) => return Err(ProbeError::Header),
        };
        if ip.next_header == UDP {
            let rest = slice_from(pkt, 40);
            let (sport, dport) = match read_udp_ports(rest) {
                Ok(p) => p,
                Err(_) => return Err(ProbeError::Truncated),
            };
            let src = SocketAddrV6 { ip: ip.source, port: sport };
            let dst = SocketAddrV6 { ip: ip.destination, port: dport };
            return Ok(Some(Probe::V6(ProbeV6 { src, dst, ttl: 0 })));
        }
        Ok(None)
    }

    /// Writes the UDP header of this probe (no checksum, empty payload) at
    /// the start of `buf` and returns it; the kernel adds the IPv6 header.
    /// Fails when `buf` is shorter than the 8 bytes.
    pub fn encode<'a>(&self, buf: &'a mut [u8]) -> (r: Result<&'a [u8], ProbeError>)
        ensures
            r is Ok <==> old(buf)@.len() >= 8,
            r is Err ==> r == Err::<&[u8], ProbeError>(ProbeError::Buffer),
            r matches Ok(p) ==> p@ == udp_header_bytes(self.src.port, self.dst.port),
    {
        let n = match write_udp_header(buf, self.src.port, self.dst.port) {
            Ok(n) => n,
            Err(_) => return Err(ProbeError::Buffer),
        };
        let out: &'a [u8] = buf;
        Ok(prefix(out, n))
    }
}

/// A probe written by `ProbeV4::encode` decodes back to the same addresses
/// and ports (the time-to-live is not read back).
pub proof fn law_decode_inverts_encode4(p: ProbeV4, e: Seq<u8>)
    requires
        ipv4_udp_layout(e, p.src, p.dst, p.ttl),
    ensures
        spec_decode4(e) == Some(Some(Probe::V4(ProbeV4 { ttl: 0, ..p }))),
{
    assert(ipv4_ihl(e) == 5);
    let t = tail(e, 20);
    assert(t[0] == e[20] && t[1] == e[21] && t[2] == e[22] && t[3] == e[23]);
}

} // verus!
