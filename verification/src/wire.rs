use vstd::prelude::*;
use std::io::Cursor;
use etherparse::{Ipv4Header, Ipv6Header, PacketBuilder, UdpHeader, UdpHeaderSlice};
use crate::icmp::{be16, law_checksum_verifies, spec_checksum, with_checksum_at};
use crate::net::{be_value, SocketAddrV4};

verus! {

/// The fields of an IPv4 header that the probes read.
#[derive(Clone, Copy, Debug, PartialEq, Eq, Structural)]
pub struct Ipv4Fields {
    pub protocol: u8,
    pub source: u32,
    pub destination: u32,
    pub header_len: usize,
}

/// The fields of an IPv6 header that the probes read.
#[derive(Clone, Copy, Debug, PartialEq, Eq, Structural)]
pub struct Ipv6Fields {
    pub next_header: u8,
    pub source: u128,
    pub destination: u128,
}

/// A header could not be read from the bytes given.
#[derive(Clone, Copy, Debug, PartialEq, Eq, Structural)]
pub struct HeaderError;

/// A header could not be written: the buffer is too short.
#[derive(Clone, Copy, Debug, PartialEq, Eq, Structural)]
pub struct WriteError;

/// Length of an IPv4 header without options.
pub const IPV4_HEADER_LEN: usize = 20;
/// Length of an IPv6 header.
pub const IPV6_HEADER_LEN: usize = 40;
/// Length of a UDP header.
pub const UDP_HEADER_LEN: usize = 8;

/// The header length field (in 32-bit words) of an IPv4 header.
pub open spec fn ipv4_ihl(s: Seq<u8>) -> nat {
    (s[0] % 16) as nat
}

/// When the bytes start with a readable IPv4 header: at least 20 bytes,
/// version 4, a header length of at least five words that the bytes hold,
/// and a total length that covers the header.
pub open spec fn ipv4_header_valid(s: Seq<u8>) -> bool {
    &&& s.len() >= 20
    &&& s[0] / 16 == 4
    &&& ipv4_ihl(s) >= 5
    &&& s.len() >= ipv4_ihl(s) * 4
    &&& be16(s[2], s[3]) >= ipv4_ihl(s) * 4
}

/// When the bytes start with a readable IPv6 header.
pub open spec fn ipv6_header_valid(s: Seq<u8>) -> bool {
    s.len() >= 40 && s[0] / 16 == 6
}

/// The four big-endian bytes of a 32-bit value.
pub open spec fn be_bytes32(v: u32) -> Seq<u8> {
    seq![(v >> 24) as u8, ((v >> 16) & 0xff) as u8, ((v >> 8) & 0xff) as u8, (v & 0xff) as u8]
}

/// The UDP checksum of an empty datagram with header `udp` from `src_ip` to
/// `dst_ip`: the checksum over the pseudo header (addresses, protocol 17,
/// UDP length 8) and the UDP header, with 0 sent as `0xffff`.
pub open spec fn udp4_checksum(src_ip: u32, dst_ip: u32, udp: Seq<u8>) -> u16 {
    let c = spec_checksum(be_bytes32(src_ip) + be_bytes32(dst_ip) + seq![0u8, 17u8, 0u8, 8u8] + udp);
    if c == 0 {
        0xffff
    } else {
        c
    }
}

/// The 28 bytes of an IPv4 datagram carrying an empty UDP datagram, as the
/// `etherparse` packet builder lays it out: an IPv4 header of five words
/// (no DSCP or ECN, total length 28, identification 0, don't fragment, the
/// TTL, protocol UDP, its header checksum, the addresses), then the UDP
/// header (the ports, length 8 and its checksum).
pub open spec fn ipv4_udp_packet(src_ip: u32, src_port: u16, dst_ip: u32, dst_port: u16, ttl: u8) -> Seq<u8> {
    let ip = seq![0x45u8, 0u8, 0u8, 28u8, 0u8, 0u8, 0x40u8, 0u8, ttl, 17u8, 0u8, 0u8] + be_bytes32(src_ip)
        + be_bytes32(dst_ip);
    let udp = udp_header_bytes(src_port, dst_port);
    with_checksum_at(ip, 5, spec_checksum(ip)) + with_checksum_at(udp, 3, udp4_checksum(src_ip, dst_ip, udp))
}

proof fn lemma_be_bytes32(v: u32)
    ensures
        be_value(be_bytes32(v)) == v,
{
    let b = be_bytes32(v);
    let b0 = (v >> 24) as u8;
    let b1 = ((v >> 16) & 0xff) as u8;
    let b2 = ((v >> 8) & 0xff) as u8;
    let b3 = (v & 0xff) as u8;
    assert(b.drop_last().drop_last().drop_last().drop_last() =~= Seq::<u8>::empty());
    assert(b.drop_last().drop_last().drop_last() =~= seq![b0]);
    assert(b.drop_last().drop_last() =~= seq![b0, b1]);
    assert(b.drop_last() =~= seq![b0, b1, b2]);
    assert(be_value(Seq::<u8>::empty()) == 0);
    assert(be_value(seq![b0]) == b0) by {
        assert(seq![b0].drop_last() =~= Seq::<u8>::empty());
    }
    assert(be_value(seq![b0, b1]) == b0 * 256 + b1) by {
        assert(seq![b0, b1].drop_last() =~= seq![b0]);
    }
    assert(be_value(seq![b0, b1, b2]) == (b0 * 256 + b1) * 256 + b2) by {
        assert(seq![b0, b1, b2].drop_last() =~= seq![b0, b1]);
    }
    assert(((b0 as u32 * 256 + b1 as u32) * 256 + b2 as u32) * 256 + b3 as u32 == v) by (bit_vector)
        requires
            b0 == (v >> 24) as u8,
            b1 == ((v >> 16) & 0xff) as u8,
            b2 == ((v >> 8) & 0xff) as u8,
            b3 == (v & 0xff) as u8,
    ;
}

/// The datagram that `ipv4_udp_packet` describes reads as such: it has the
/// layout of `ipv4_udp_layout`.
pub proof fn lemma_ipv4_udp_packet_layout(src: SocketAddrV4, dst: SocketAddrV4, ttl: u8)
    ensures
        ipv4_udp_layout(ipv4_udp_packet(src.ip, src.port, dst.ip, dst.port, ttl), src, dst, ttl),
{
    let e = ipv4_udp_packet(src.ip, src.port, dst.ip, dst.port, ttl);
    lemma_be_bytes32(src.ip);
    lemma_be_bytes32(dst.ip);
    assert(e.subrange(12, 16) =~= be_bytes32(src.ip));
    assert(e.subrange(16, 20) =~= be_bytes32(dst.ip));
}

/// The fields of such a datagram that a reader sees: version 4 with a
/// five-word header, total length 28, the TTL, protocol UDP, the addresses,
/// the ports and a UDP length of 8.
pub open spec fn ipv4_udp_layout(e: Seq<u8>, src: SocketAddrV4, dst: SocketAddrV4, ttl: u8) -> bool {
    &&& e.len() == 28
    &&& e[0] == 0x45
    &&& be16(e[2], e[3]) == 28
    &&& e[8] == ttl
    &&& e[9] == 17
    &&& be_value(e.subrange(12, 16)) == src.ip
    &&& be_value(e.subrange(16, 20)) == dst.ip
    &&& be16(e[20], e[21]) == src.port
    &&& be16(e[22], e[23]) == dst.port
    &&& be16(e[24], e[25]) == 8
}

/// The IPv4 header of a probe datagram verifies: the checksum of its first
/// 20 bytes, checksum field included, is zero.
pub proof fn law_probe_header_verifies(src: SocketAddrV4, dst: SocketAddrV4, ttl: u8)
    ensures
        spec_checksum(ipv4_udp_packet(src.ip, src.port, dst.ip, dst.port, ttl).subrange(0, 20)) == 0,
{
    let ip = seq![0x45u8, 0u8, 0u8, 28u8, 0u8, 0u8, 0x40u8, 0u8, ttl, 17u8, 0u8, 0u8] + be_bytes32(src.ip)
        + be_bytes32(dst.ip);
    law_checksum_verifies(ip, 5);
    assert(ipv4_udp_packet(src.ip, src.port, dst.ip, dst.port, ttl).subrange(0, 20) =~= with_checksum_at(
        ip,
        5,
        spec_checksum(ip),
    ));
}

/// Reads an IPv4 header with `etherparse::Ipv4Header::read_from_slice`.
/// Claimed, as its source shows: it succeeds exactly on a readable header
/// (see `ipv4_header_valid`), and then gives the protocol (byte 9), the
/// source and destination addresses (bytes 12..16 and 16..20) and the header
/// length, four times the header length field.
#[verifier::external_body]
#[allow(deprecated)]
pub(crate) fn read_ipv4_header(pkt: &[u8]) -> (r: Result<Ipv4Fields, HeaderError>)
    ensures
        r is Ok <==> ipv4_header_valid(pkt@),
        r matches Ok(h) ==> {
            &&& h.protocol == pkt@[9]
            &&& h.source == be_value(pkt@.subrange(12, 16))
            &&& h.destination == be_value(pkt@.subrange(16, 20))
            &&& h.header_len == ipv4_ihl(pkt@) * 4
        },
{
    match Ipv4Header::read_from_slice(pkt) {
        Ok((h, _)) => Ok(Ipv4Fields {
            protocol: h.protocol,
            source: u32::from_be_bytes(h.source),
            destination: u32::from_be_bytes(h.destination),
            header_len: h.header_len(),
        }),
        Err(_) => Err(HeaderError),
    }
}

/// Reads an IPv6 header with `etherparse::Ipv6Header::read_from_slice`.
/// Claimed, as its source shows: it succeeds exactly when there are at
/// least 40 bytes with version 6, and then gives the next header (byte 6)
/// and the addresses (bytes 8..24 and 24..40); the header is 40 bytes long.
#[verifier::external_body]
#[allow(deprecated)]
pub(crate) fn read_ipv6_header(pkt: &[u8]) -> (r: Result<Ipv6Fields, HeaderError>)
    ensures
        r is Ok <==> ipv6_header_valid(pkt@),
        r matches Ok(h) ==> {
            &&& h.next_header == pkt@[6]
            &&& h.source == be_value(pkt@.subrange(8, 24))
            &&& h.destination == be_value(pkt@.subrange(24, 40))
        },
{
    match Ipv6Header::read_from_slice(pkt) {
        Ok((h, _)) => Ok(Ipv6Fields {
            next_header: h.next_header,
            source: u128::from_be_bytes(h.source),
            destination: u128::from_be_bytes(h.destination),
        }),
        Err(_) => Err(HeaderError),
    }
}

/// Reads the ports of a UDP header with
/// `etherparse::UdpHeaderSlice::from_slice`. Claimed, as its source shows:
/// it succeeds exactly when there are at least 8 bytes, and the ports are
/// the big-endian values of bytes 0..2 and 2..4.
#[verifier::external_body]
pub(crate) fn read_udp_ports(pkt: &[u8]) -> (r: Result<(u16, u16), HeaderError>)
    ensures
        r is Ok <==> pkt@.len() >= 8,
        r matches Ok(p) ==> p.0 == be16(pkt@[0], pkt@[1]) && p.1 == be16(pkt@[2], pkt@[3]),
{
    match UdpHeaderSlice::from_slice(pkt) {
        Ok(h) => Ok((h.source_port(), h.destination_port())),
        Err(_) => Err(HeaderError),
    }
}

/// Writes an IPv4 datagram with an empty UDP datagram from `src` to `dst`
/// with time-to-live `ttl` at the start of `buf`, with
/// `etherparse::PacketBuilder::ipv4(..).udp(..)` and its `write` into a
/// cursor over `buf`. Claimed, as its source shows: it succeeds exactly
/// when `buf` holds the 28 bytes; it then writes the bytes that
/// `ipv4_udp_packet` states, leaves the rest of `buf` as it was, and
/// returns 28, the size the builder reports. What a failed write leaves in
/// `buf` is not stated, but for its length.
#[verifier::external_body]
pub(crate) fn write_ipv4_udp(buf: &mut [u8], src: SocketAddrV4, dst: SocketAddrV4, ttl: u8) -> (r: Result<usize, WriteError>)
    ensures
        final(buf)@.len() == old(buf)@.len(),
        r is Ok <==> old(buf)@.len() >= 28,
        r matches Ok(n) ==> {
            &&& n == 28
            &&& final(buf)@.subrange(0, 28) == ipv4_udp_packet(src.ip, src.port, dst.ip, dst.port, ttl)
            &&& final(buf)@.subrange(28, final(buf)@.len() as int) == old(buf)@.subrange(28, old(buf)@.len() as int)
        },
{
    let mut cursor = Cursor::new(buf);
    let pkt = PacketBuilder::ipv4(src.ip.to_be_bytes(), dst.ip.to_be_bytes(), ttl);
    let pkt = pkt.udp(src.port, dst.port);
    let n = pkt.size(0);
    match pkt.write(&mut cursor, &[]) {
        Ok(()) => Ok(n),
        Err(_) => Err(WriteError),
    }
}

/// The 8 bytes of a UDP header without checksum and with an empty payload.
pub open spec fn udp_header_bytes(src_port: u16, dst_port: u16) -> Seq<u8> {
    seq![
        (src_port / 256) as u8,
        (src_port % 256) as u8,
        (dst_port / 256) as u8,
        (dst_port % 256) as u8,
        0u8,
        8u8,
        0u8,
        0u8,
    ]
}

/// Writes a UDP header for an empty payload and no checksum at the start of
/// `buf`, with `etherparse::UdpHeader::without_ipv4_checksum` and its
/// `write` into a cursor over `buf`. Claimed, as its source shows: it
/// succeeds exactly when `buf` holds the 8 bytes; it then writes
/// `udp_header_bytes`, leaves the rest as it was and returns the cursor
/// position, 8. What a failed write leaves in `buf` is not stated, but for
/// its length.
#[verifier::external_body]
pub(crate) fn write_udp_header(buf: &mut [u8], src_port: u16, dst_port: u16) -> (r: Result<usize, WriteError>)
    ensures
        final(buf)@.len() == old(buf)@.len(),
        r is Ok <==> old(buf)@.len() >= 8,
        r matches Ok(n) ==> {
            &&& n == 8
            &&& final(buf)@.subrange(0, 8) == udp_header_bytes(src_port, dst_port)
            &&& final(buf)@.subrange(8, final(buf)@.len() as int) == old(buf)@.subrange(8, old(buf)@.len() as int)
        },
{
    let mut cursor = Cursor::new(buf);
    let hdr = match UdpHeader::without_ipv4_checksum(src_port, dst_port, 0) {
        Ok(h) => h,
        Err(_) => return Err(WriteError),
    };
    match hdr.write(&mut cursor) {
        Ok(()) => Ok(cursor.position() as usize),
        Err(_) => Err(WriteError),
    }
}

} // verus!
