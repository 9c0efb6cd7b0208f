use vstd::prelude::*;
use crate::icmp::{
    ping4, ping6, slice_from, spec_message4, spec_message6, spec_ping4_buffer, spec_ping6_buffer,
    tail, IcmpV4Packet, IcmpV6Packet, Message4, Message6, PacketError, HEADER_SIZE,
};
use crate::net::IpAddr;
use crate::table::{Key, Table};
use crate::time::{Duration, Instant};
use crate::wire::{ipv4_header_valid, ipv4_ihl, read_ipv4_header};
use crate::icmp::{be16, law_ping4_parses_back, law_ping6_parses_back, ECHO_REPLY4, ECHO_REPLY6};

verus! {

/// IP protocol number of ICMP.
pub const ICMP4: u8 = 1;

/// Length of the token that identifies an echo request.
pub const TOKEN_LEN: usize = 16;

/// The random payload that identifies an echo request and its reply.
#[derive(Clone, Copy, Debug, PartialEq, Eq, Hash)]
pub struct Token(pub [u8; 16]);

impl Key for Token {
    fn same(&self, other: &Self) -> (r: bool) {
        let mut i: usize = 0;
        while i < TOKEN_LEN
            invariant
                i <= TOKEN_LEN,
                forall|j: int| 0 <= j < i ==> self.0@[j] == other.0@[j],
            decreases TOKEN_LEN - i,
        {
            if self.0[i] != other.0[i] {
                return false;
            }
            i = i + 1;
        }
        proof {
            assert(self.0@ =~= other.0@);
            vstd::array::axiom_array_ext_equal(self.0, other.0);
        }
        true
    }
}

/// Draws a token with `rand::random`. Nothing is claimed of its bytes.
#[verifier::external_body]
fn random_token() -> (t: [u8; 16]) {
    rand::random()
}

/// One echo request to send: destination, identifier, sequence number and
/// the token that its reply carries back.
#[derive(Clone, Copy, Debug)]
pub struct Ping {
    pub addr: IpAddr,
    pub id: u16,
    pub seq: u16,
    pub token: Token,
}

impl Ping {
    /// A request to `addr` with a fresh random token.
    pub fn new(addr: IpAddr, id: u16, seq: u16) -> (p: Ping)
        ensures
            p.addr == addr,
            p.id == id,
            p.seq == seq,
    {
        let token = Token(random_token());
        Ping { addr, id, seq, token }
    }

    /// Writes the echo request for this ping at the start of `buf`: ICMPv4
    /// for an IPv4 destination (with its checksum), ICMPv6 otherwise, with
    /// the token as payload. Fails when `buf` is too short.
    pub fn request<'a>(&self, buf: &'a mut [u8]) -> (r: Result<&'a [u8], PacketError>)
        ensures
            r is Err <==> old(buf)@.len() < HEADER_SIZE + TOKEN_LEN,
            r is Ok ==> final(buf)@ == (match self.addr {
                IpAddr::V4(_) => spec_ping4_buffer(old(buf)@, self.id, self.seq, self.token.0@),
                IpAddr::V6(_) => spec_ping6_buffer(old(buf)@, self.id, self.seq, self.token.0@),
            }),
            r matches Ok(p) ==> p@ == final(buf)@.subrange(0, HEADER_SIZE + TOKEN_LEN),
    {
        let payload: &[u8] = self.token.0.as_slice();
        match self.addr {
            IpAddr::V4(_) => ping4(buf, self.id, self.seq, payload),
            IpAddr::V6(_) => ping6(buf, self.id, self.seq, payload),
        }
    }
}

/// Errors of reading a reply.
#[derive(Clone, Copy, Debug, PartialEq, Eq, Structural)]
pub enum ReplyError {
    /// The datagram does not start with a readable IP header.
    Header,
    /// The ICMP message is shorter than its header.
    Packet,
}

/// What reading an IPv4 datagram for an echo reply yields: `None` for
/// bytes that cannot be read, the token of an echo reply whose data is a
/// token, and `Some(None)` for anything else.
pub open spec fn spec_reply_token4(s: Seq<u8>) -> Option<Option<Seq<u8>>> {
    if !ipv4_header_valid(s) {
        None
    } else if s[9] != ICMP4 {
        Some(None)
    } else {
        let t = tail(s, (ipv4_ihl(s) * 4) as int);
        if t.len() < HEADER_SIZE {
            None
        } else {
            match spec_message4(t) {
                Message4::EchoReply(_, _, d) => if d.len() == TOKEN_LEN {
                    Some(Some(d))
                } else {
                    Some(None)
                },
                _ => Some(None),
            }
        }
    }
}

/// What reading an ICMPv6 message for an echo reply yields.
pub open spec fn spec_reply_token6(s: Seq<u8>) -> Option<Option<Seq<u8>>> {
    if s.len() < HEADER_SIZE {
        None
    } else {
        match spec_message6(s) {
            Message6::EchoReply(_, _, d) => if d.len() == TOKEN_LEN {
                Some(Some(d))
            } else {
                Some(None)
            },
            _ => Some(None),
        }
    }
}

/// The outcome of reading a reply as the spec functions describe it.
pub open spec fn read_token(r: Result<Option<Token>, ReplyError>) -> Option<Option<Seq<u8>>> {
    match r {
        Ok(Some(t)) => Some(Some(t.0@)),
        Ok(None) => Some(None),
        Err(_) => None,
    }
}

fn token_from(data: &[u8]) -> (t: Token)
    requires
        data@.len() == TOKEN_LEN,
    ensures
        t.0@ == data@,
{
    let mut bytes = [0u8; 16];
    let mut i: usize = 0;
    while i < TOKEN_LEN
        invariant
            i <= TOKEN_LEN,
            data@.len() == TOKEN_LEN,
            forall|j: int| 0 <= j < i ==> bytes@[j] == data@[j],
        decreases TOKEN_LEN - i,
    {
        bytes[i] = data[i];
        i = i + 1;
    }
    assert(bytes@ =~= data@);
    Token(bytes)
}

/// Reads an IPv4 datagram received on the ICMPv4 socket: the token of an
/// echo reply, if it is one.
pub fn reply_token4(pkt: &[u8]) -> (r: Result<Option<Token>, ReplyError>)
    ensures
        read_token(r) == spec_reply_token4(pkt@),
{
    let ip = match read_ipv4_header(pkt) {
        Ok(h) => h,
        Err(_) => return Err(ReplyError::Header),
    };
    if ip.protocol != ICMP4 {
        return Ok(None);
    }
    let rest = slice_from(pkt, ip.header_len);
    match IcmpV4Packet::try_from(rest) {
        Ok(IcmpV4Packet::EchoReply(echo)) => {
            if echo.data.len() == TOKEN_LEN {
                Ok(Some(token_from(echo.data)))
            } else {
                Ok(None)
            }
        },
        Ok(_) => Ok(None),
        Err(_) => Err(ReplyError::Packet),
    }
}

/// Reads an ICMPv6 message received on the ICMPv6 socket: the token of an
/// echo reply, if it is one.
pub fn reply_token6(pkt: &[u8]) -> (r: Result<Option<Token>, ReplyError>)
    ensures
        read_token(r) == spec_reply_token6(pkt@),
{
    match IcmpV6Packet::try_from(pkt) {
        Ok(IcmpV6Packet::EchoReply(echo)) => {
            if echo.data.len() == TOKEN_LEN {
                Ok(Some(token_from(echo.data)))
            } else {
                Ok(None)
            }
        },
        Ok(_) => Ok(None),
        Err(_) => Err(ReplyError::Packet),
    }
}

/// The round-trip time of a reply received at `received` to a request sent
/// at `sent` (zero if the clock readings are out of order).
pub fn round_trip(sent: Instant, received: Instant) -> (d: Duration)
    ensures
        d.wf(),
        received.nanos >= sent.nanos ==> d.total_nanos() == received.nanos - sent.nanos,
        received.nanos < sent.nanos ==> d.total_nanos() == 0,
{
    received.saturating_duration_since(sent)
}

/// The requests that wait for a reply, by token, each with what is to be
/// told of its reply.
pub struct State<T> {
    waiting: Table<Token, T>,
}

impl<T> State<T> {
    pub closed spec fn wf(&self) -> bool {
        self.waiting.wf()
    }

    /// The waiting requests.
    pub closed spec fn view(&self) -> Map<Token, T> {
        self.waiting.view()
    }

    /// No request waits.
    pub fn new() -> (s: State<T>)
        ensures
            s.wf(),
            s.view() == Map::<Token, T>::empty(),
    {
        State { waiting: Table::new() }
    }

    /// Registers the request with `token`.
    pub fn insert(&mut self, token: Token, tx: T)
        requires
            old(self).wf(),
        ensures
            final(self).wf(),
            final(self).view() == old(self).view().insert(token, tx),
    {
        self.waiting.insert(token, tx)
    }

    /// Takes the request with `token` out, if it waits.
    pub fn remove(&mut self, token: &Token) -> (r: Option<T>)
        requires
            old(self).wf(),
        ensures
            final(self).wf(),
            final(self).view() == old(self).view().remove(*token),
            r == (if old(self).view().contains_key(*token) {
                Some(old(self).view()[*token])
            } else {
                None
            }),
    {
        self.waiting.remove(token)
    }
}

/// The echo reply a host sends back for an echo request: the request with
/// its type set to echo reply.
pub open spec fn echoed(request: Seq<u8>, reply_kind: u8) -> Seq<u8> {
    request.update(0, reply_kind)
}

/// The reply to a request written by `Ping::request` for an IPv4 host,
/// received behind an IPv4 header `h` for ICMP, reads back as the
/// request's token.
pub proof fn law_reply_carries_token4(h: Seq<u8>, b: Seq<u8>, id: u16, seq: u16, token: Token)
    requires
        h.len() >= 20,
        h[0] / 16 == 4,
        ipv4_ihl(h) * 4 == h.len(),
        be16(h[2], h[3]) >= h.len(),
        h[9] == ICMP4,
        b.len() >= HEADER_SIZE + TOKEN_LEN,
    ensures
        spec_reply_token4(
            h + echoed(
                spec_ping4_buffer(b, id, seq, token.0@).subrange(0, (HEADER_SIZE + TOKEN_LEN) as int),
                ECHO_REPLY4,
            ),
        ) == Some(Some(token.0@)),
{
    let p = spec_ping4_buffer(b, id, seq, token.0@).subrange(0, (HEADER_SIZE + TOKEN_LEN) as int);
    law_ping4_parses_back(b, id, seq, token.0@);
    let r = echoed(p, ECHO_REPLY4);
    let s = h + r;
    assert(s[0] == h[0]);
    assert(s[2] == h[2] && s[3] == h[3] && s[9] == h[9]);
    assert(ipv4_header_valid(s));
    assert(tail(s, (ipv4_ihl(s) * 4) as int) =~= r);
    assert(r[1] == p[1]);
    assert(r[4] == p[4] && r[5] == p[5] && r[6] == p[6] && r[7] == p[7]);
    assert(tail(r, 8) =~= tail(p, 8));
}

/// The reply to a request written by `Ping::request` for an IPv6 host reads
/// back as the request's token.
pub proof fn law_reply_carries_token6(b: Seq<u8>, id: u16, seq: u16, token: Token)
    requires
        b.len() >= HEADER_SIZE + TOKEN_LEN,
    ensures
        spec_reply_token6(
            echoed(
                spec_ping6_buffer(b, id, seq, token.0@).subrange(0, (HEADER_SIZE + TOKEN_LEN) as int),
                ECHO_REPLY6,
            ),
        ) == Some(Some(token.0@)),
{
    let p = spec_ping6_buffer(b, id, seq, token.0@).subrange(0, (HEADER_SIZE + TOKEN_LEN) as int);
    law_ping6_parses_back(b, id, seq, token.0@);
    let r = echoed(p, ECHO_REPLY6);
    assert(r[1] == p[1]);
    assert(r[4] == p[4] && r[5] == p[5] && r[6] == p[6] && r[7] == p[7]);
    assert(tail(r, 8) =~= tail(p, 8));
}

} // verus!
