use vstd::prelude::*;
use rand::Rng;
use crate::icmp::{
    slice_from, spec_message4, spec_message6, tail, IcmpV4Packet, IcmpV6Packet, Message4, Message6, Unreachable,
    HEADER_SIZE,
};
use crate::net::{IpAddr, SocketAddr, SocketAddrV4};
use crate::ping::ICMP4;
use crate::probe::{decoded, spec_decode4, spec_decode6, Probe, ProbeError, ProbeV4, ProbeV6};
use crate::table::{Key, Table};
use crate::time::{Duration, Instant};
use crate::wire::{ipv4_header_valid, ipv4_ihl, ipv4_udp_layout, read_ipv4_header};
use crate::text::{decimal, format_u64};
use vstd::string::StringExecFns;

verus! {

/// Lowest source port a trace uses, and the destination port of its first
/// probe.
pub const PORT_MIN: u16 = 33434;
/// Bound (exclusive) of the source ports a trace uses.
pub const PORT_MAX: u16 = 65407;

/// A hop of a route: the node that answered the probe with the given
/// time-to-live, its round-trip time and whether the answer came from the
/// destination itself, or no answer to it.
#[derive(Clone, Copy, Debug, PartialEq, Eq, Structural)]
pub enum Node {
    Node(u8, IpAddr, Duration, bool),
    NoReply(u8),
}

/// An answer to a probe: who sent it, when it arrived, and whether it
/// came from the destination (port unreachable) rather than a router on the
/// way (time exceeded).
#[derive(Clone, Copy, Debug, PartialEq, Eq, Structural)]
pub struct Echo(pub IpAddr, pub Instant, pub bool);

/// A route to trace.
#[derive(Clone, Copy, Debug)]
pub struct Trace {
    pub addr: IpAddr,
    pub probes: usize,
    pub limit: usize,
    pub expiry: Duration,
}

/// How waiting for the answer to a probe ended.
#[derive(Clone, Copy, Debug, PartialEq, Eq, Structural)]
pub enum Outcome {
    /// The answer arrived.
    Answered(Echo),
    /// No answer came before the probe expired.
    Expired,
    /// The channel that was to carry the answer was closed.
    Closed,
}

/// The answer channel closed before an answer or the expiry came.
#[derive(Clone, Copy, Debug, PartialEq, Eq, Structural)]
pub struct ReplyClosed;

/// The hop that a probe with time-to-live `ttl`, sent at `sent`, yields.
pub fn reply_node(ttl: u8, sent: Instant, outcome: Outcome) -> (r: Result<Node, ReplyClosed>)
    ensures
        outcome is Closed <==> r is Err,
        outcome is Expired ==> r == Ok::<Node, ReplyClosed>(Node::NoReply(ttl)),
        outcome matches Outcome::Answered(echo) ==> (r matches Ok(Node::Node(n, ip, rtt, last)) && n == ttl
            && ip == echo.0 && last == echo.2 && rtt.wf() && rtt.total_nanos() == (if echo.1.nanos >= sent.nanos {
            echo.1.nanos - sent.nanos
        } else {
            0
        })),
{
    match outcome {
        Outcome::Answered(echo) => {
            let rtt = echo.1.saturating_duration_since(sent);
            Ok(Node::Node(ttl, echo.0, rtt, echo.2))
        },
        Outcome::Expired => Ok(Node::NoReply(ttl)),
        Outcome::Closed => Err(ReplyClosed),
    }
}

/// Errors from reading a datagram received on the ICMP socket.
#[derive(Clone, Copy, Debug, PartialEq, Eq, Structural)]
pub enum RecvError {
    /// The datagram does not start with a readable IPv4 header.
    Header,
    /// The ICMP message is shorter than its header.
    Packet,
    /// The datagram quoted in the ICMP message cannot be decoded.
    Probe(ProbeError),
}

/// The quoted probe of an ICMP error, and whether the answer came from the
/// destination.
pub open spec fn quoted(d: Seq<u8>, last: bool) -> Option<Option<(Probe, bool)>> {
    match spec_decode4(d) {
        None => None,
        Some(None) => Some(None),
        Some(Some(p)) => Some(Some((p, last))),
    }
}

/// What reading a datagram received on the ICMPv4 socket yields: `None` for
/// bytes that cannot be read, the probe quoted by a time-exceeded message
/// (not from the destination) or by a destination-unreachable message (from
/// the destination), and `Some(None)` for anything else.
pub open spec fn spec_classify4(s: Seq<u8>) -> Option<Option<(Probe, bool)>> {
    if !ipv4_header_valid(s) {
        None
    } else if s[9] != ICMP4 {
        Some(None)
    } else {
        let t = tail(s, (ipv4_ihl(s) * 4) as int);
        if t.len() < HEADER_SIZE {
            None
        } else {
            match spec_message4(t) {
                Message4::TimeExceeded(d) => quoted(d, false),
                Message4::Unreachable(_, d) => quoted(d, true),
                _ => Some(None),
            }
        }
    }
}

/// The outcome of a read as the spec function describes it.
pub open spec fn classified(r: Result<Option<(Probe, bool)>, RecvError>) -> Option<Option<(Probe, bool)>> {
    match r {
        Ok(x) => Some(x),
        Err(_) => None,
    }
}

fn answer(inner: &[u8], last: bool) -> (r: Result<Option<(Probe, bool)>, RecvError>)
    ensures
        classified(r) == quoted(inner@, last),
{
    match ProbeV4::decode(inner) {
        Ok(Some(probe)) => Ok(Some((probe, last))),
        Ok(None) => Ok(None),
        Err(e) => Err(RecvError::Probe(e)),
    }
}

/// Reads a datagram received on the ICMPv4 socket: the probe that a
/// time-exceeded or destination-unreachable message answers, if any.
pub fn classify4(pkt: &[u8]) -> (r: Result<Option<(Probe, bool)>, RecvError>)
    ensures
        classified(r) == spec_classify4(pkt@),
{
    let ip = match read_ipv4_header(pkt) {
        Ok(h) => h,
        Err(_) => return Err(RecvError::Header),
    };
    if ip.protocol != ICMP4 {
        return Ok(None);
    }
    let rest = slice_from(pkt, ip.header_len);
    match IcmpV4Packet::try_from(rest) {
        Ok(IcmpV4Packet::TimeExceeded(inner)) => answer(inner, false),
        Ok(IcmpV4Packet::Unreachable(what)) => {
            let inner = match what {
                Unreachable::Net(pkt) => pkt,
                Unreachable::Host(pkt) => pkt,
                Unreachable::Protocol(pkt) => pkt,
                Unreachable::Port(pkt) => pkt,
                Unreachable::Other(_, pkt) => pkt,
            };
            answer(inner, true)
        },
        Ok(_) => Ok(None),
        Err(_) => Err(RecvError::Packet),
    }
}

/// The ICMPv6 type of a destination-unreachable message.
pub const UNREACHABLE6: u8 = 1;
/// The ICMPv6 type of a hop-limit-exceeded message.
pub const TIME_EXCEEDED6: u8 = 3;

/// The quoted IPv6 probe of an ICMPv6 error, and whether the answer came
/// from the destination.
pub open spec fn quoted6(d: Seq<u8>, last: bool) -> Option<Option<(Probe, bool)>> {
    match spec_decode6(d) {
        None => None,
        Some(None) => Some(None),
        Some(Some(p)) => Some(Some((p, last))),
    }
}

/// What reading a message received on the ICMPv6 socket yields: `None` for
/// bytes that cannot be read, the probe quoted by a hop-limit-exceeded
/// message (not from the destination) or by a destination-unreachable
/// message (from the destination), and `Some(None)` for anything else.
pub open spec fn spec_classify6(s: Seq<u8>) -> Option<Option<(Probe, bool)>> {
    if s.len() < HEADER_SIZE {
        None
    } else {
        match spec_message6(s) {
            Message6::Other(kind, _, _) => if kind == TIME_EXCEEDED6 {
                quoted6(tail(s, 8), false)
            } else if kind == UNREACHABLE6 {
                quoted6(tail(s, 8), true)
            } else {
                Some(None)
            },
            _ => Some(None),
        }
    }
}

fn answer6(inner: &[u8], last: bool) -> (r: Result<Option<(Probe, bool)>, RecvError>)
    ensures
        classified(r) == quoted6(inner@, last),
{
    match ProbeV6::decode(inner) {
        Ok(Some(probe)) => Ok(Some((probe, last))),
        Ok(None) => Ok(None),
        Err(e) => Err(RecvError::Probe(e)),
    }
}

/// Reads a message received on the ICMPv6 socket: the probe that a
/// hop-limit-exceeded or destination-unreachable message answers, if any.
pub fn classify6(pkt: &[u8]) -> (r: Result<Option<(Probe, bool)>, RecvError>)
    ensures
        classified(r) == spec_classify6(pkt@),
{
    match IcmpV6Packet::try_from(pkt) {
        Ok(IcmpV6Packet::Other(kind, _, rest)) => {
            assert(tail(rest@, 4) =~= tail(pkt@, 8));
            if kind == TIME_EXCEEDED6 {
                answer6(slice_from(rest, 4), false)
            } else if kind == UNREACHABLE6 {
                answer6(slice_from(rest, 4), true)
            } else {
                Ok(None)
            }
        },
        Ok(_) => Ok(None),
        Err(_) => Err(RecvError::Packet),
    }
}

impl Key for SocketAddr {
    fn same(&self, other: &Self) -> (r: bool) {
        *self == *other
    }
}

/// The key under which the answer to a probe is awaited: its source and
/// destination.
#[derive(Clone, Copy, Debug, PartialEq, Eq, Hash, Structural)]
pub struct ProbeKey(pub SocketAddr, pub SocketAddr);

impl Key for ProbeKey {
    fn same(&self, other: &Self) -> (r: bool) {
        *self == *other
    }
}

/// The key of a probe.
pub open spec fn key_of(p: Probe) -> ProbeKey {
    ProbeKey(p.spec_src(), p.spec_dst())
}

/// The source port drawn for a trace, with `rand`'s uniform sampling over
/// `PORT_MIN..PORT_MAX`. Claimed: the port lies in that range.
#[verifier::external_body]
fn random_port() -> (p: u16)
    ensures
        PORT_MIN <= p < PORT_MAX,
{
    rand::thread_rng().sample(rand::distributions::Uniform::new(PORT_MIN, PORT_MAX))
}

/// The source addresses in use by traces, and the probes that await an
/// answer, each with what is to be told of the answer.
pub struct State<T> {
    sources: Table<SocketAddr, ()>,
    pending: Table<ProbeKey, T>,
}

impl<T> State<T> {
    pub closed spec fn wf(&self) -> bool {
        self.sources.wf() && self.pending.wf()
    }

    /// The source addresses in use.
    pub closed spec fn sources(&self) -> Set<SocketAddr> {
        self.sources.view().dom()
    }

    /// The probes awaiting an answer.
    pub closed spec fn pending(&self) -> Map<ProbeKey, T> {
        self.pending.view()
    }

    /// No source in use, no probe pending.
    pub fn new() -> (s: State<T>)
        ensures
            s.wf(),
            s.sources() == Set::<SocketAddr>::empty(),
            s.pending() == Map::<ProbeKey, T>::empty(),
    {
        let s = State { sources: Table::new(), pending: Table::new() };
        assert(s.sources() =~= Set::<SocketAddr>::empty());
        s
    }

    /// Reserves the source address (`src`, `port`) for a trace to `dst` if
    /// it is free, returning it and the destination address of the first
    /// probe (port `PORT_MIN`).
    pub fn reserve_port(&mut self, src: IpAddr, dst: IpAddr, port: u16) -> (r: Option<(SocketAddr, SocketAddr)>)
        requires
            old(self).wf(),
        ensures
            final(self).wf(),
            final(self).pending() == old(self).pending(),
            ({
                let s = SocketAddr::new_spec(src, port);
                &&& r is Some <==> !old(self).sources().contains(s)
                &&& r is Some ==> r == Some((s, SocketAddr::new_spec(dst, PORT_MIN)))
                &&& r is Some ==> final(self).sources() == old(self).sources().insert(s)
                &&& r is None ==> final(self).sources() == old(self).sources()
            }),
    {
        let s = SocketAddr::new(src, port);
        let d = SocketAddr::new(dst, PORT_MIN);
        if self.sources.contains(&s) {
            None
        } else {
            self.sources.insert(s, ());
            assert(self.sources() =~= old(self).sources().insert(s));
            Some((s, d))
        }
    }

    /// One attempt to reserve a source address for a trace from `src` to
    /// `dst`, on a randomly drawn port; `None` when that port is in use.
    pub fn try_reserve(&mut self, src: IpAddr, dst: IpAddr) -> (r: Option<(SocketAddr, SocketAddr)>)
        requires
            old(self).wf(),
        ensures
            final(self).wf(),
            final(self).pending() == old(self).pending(),
            r matches Some((s, d)) ==> {
                &&& s.spec_ip() == src
                &&& PORT_MIN <= s.spec_port() < PORT_MAX
                &&& !old(self).sources().contains(s)
                &&& final(self).sources() == old(self).sources().insert(s)
                &&& d == SocketAddr::new_spec(dst, PORT_MIN)
            },
            r is None ==> final(self).sources() == old(self).sources(),
            r is None ==> exists|p: u16|
                PORT_MIN <= p < PORT_MAX && #[trigger] old(self).sources().contains(
                    SocketAddr::new_spec(src, p),
                ),
    {
        let port = random_port();
        let r = self.reserve_port(src, dst, port);
        assert(r is None ==> old(self).sources().contains(SocketAddr::new_spec(src, port)));
        r
    }

    /// Gives the source address `src` back.
    pub fn release(&mut self, src: &SocketAddr)
        requires
            old(self).wf(),
        ensures
            final(self).wf(),
            final(self).sources() == old(self).sources().remove(*src),
            final(self).pending() == old(self).pending(),
    {
        let _ = self.sources.remove(src);
        assert(self.sources() =~= old(self).sources().remove(*src));
    }

    /// Awaits the answer to `probe`.
    pub fn insert(&mut self, probe: &Probe, tx: T)
        requires
            old(self).wf(),
        ensures
            final(self).wf(),
            final(self).sources() == old(self).sources(),
            final(self).pending() == old(self).pending().insert(key_of(*probe), tx),
    {
        let key = ProbeKey(probe.src(), probe.dst());
        self.pending.insert(key, tx)
    }

    /// Takes out what awaits the answer to `probe`, if anything.
    pub fn remove(&mut self, probe: &Probe) -> (r: Option<T>)
        requires
            old(self).wf(),
        ensures
            final(self).wf(),
            final(self).sources() == old(self).sources(),
            final(self).pending() == old(self).pending().remove(key_of(*probe)),
            r == (if old(self).pending().contains_key(key_of(*probe)) {
                Some(old(self).pending()[key_of(*probe)])
            } else {
                None
            }),
    {
        let key = ProbeKey(probe.src(), probe.dst());
        self.pending.remove(&key)
    }
}

/// Whether `node` is an answer from `addr`.
pub open spec fn answered_by(node: Node, addr: IpAddr) -> bool {
    node matches Node::Node(_, ip, _, _) && ip == addr
}

/// Whether some answer in `nodes` came from `addr`.
pub open spec fn reaches(nodes: Seq<Node>, addr: IpAddr) -> bool {
    exists|i: int| 0 <= i < nodes.len() && #[trigger] answered_by(nodes[i], addr)
}

/// Whether one of the answers to a hop's probes came from `addr`.
pub fn reached(nodes: &Vec<Node>, addr: IpAddr) -> (r: bool)
    ensures
        r == reaches(nodes@, addr),
{
    let mut i: usize = 0;
    while i < nodes.len()
        invariant
            i <= nodes@.len(),
            forall|j: int| 0 <= j < i ==> !#[trigger] answered_by(nodes@[j], addr),
        decreases nodes@.len() - i,
    {
        match nodes[i] {
            Node::Node(_, ip, _, _) => {
                if ip == addr {
                    assert(answered_by(nodes@[i as int], addr));
                    return true;
                }
            },
            Node::NoReply(_) => {},
        }
        i = i + 1;
    }
    false
}

/// Whether a round of probes ends a command-line trace: its last answer
/// came from `addr` or from the destination; a round with no answer does
/// not end it.
pub open spec fn spec_round_done(nodes: Seq<Node>, addr: IpAddr) -> bool
    decreases nodes.len(),
{
    if nodes.len() == 0 {
        false
    } else {
        match nodes.last() {
            Node::Node(_, ip, _, last) => last || ip == addr,
            Node::NoReply(_) => spec_round_done(nodes.drop_last(), addr),
        }
    }
}

/// Whether the trace of `addr` is over after a round that gave `nodes`.
pub fn round_done(nodes: &Vec<Node>, addr: IpAddr) -> (r: bool)
    ensures
        r == spec_round_done(nodes@, addr),
{
    let mut i: usize = nodes.len();
    assert(nodes@.take(i as int) =~= nodes@);
    while i > 0
        invariant
            i <= nodes@.len(),
            spec_round_done(nodes@.take(i as int), addr) == spec_round_done(nodes@, addr),
        decreases i,
    {
        assert(nodes@.take(i as int).drop_last() =~= nodes@.take(i - 1));
        match nodes[i - 1] {
            Node::Node(_, ip, _, last) => {
                return last || ip == addr;
            },
            Node::NoReply(_) => {},
        }
        i = i - 1;
    }
    assert(nodes@.take(0) =~= Seq::<Node>::empty());
    false
}

/// The hops of a route traced so far: a trace stops after the first hop
/// that reaches the destination, and after `limit` hops.
pub struct Route {
    addr: IpAddr,
    limit: usize,
    hops: Vec<Vec<Node>>,
}

impl Route {
    /// The destination of the route.
    pub closed spec fn target(&self) -> IpAddr {
        self.addr
    }

    /// The largest number of hops traced.
    pub closed spec fn max_hops(&self) -> usize {
        self.limit
    }

    /// The hops so far.
    pub closed spec fn hops(&self) -> Seq<Seq<Node>> {
        Seq::new(self.hops@.len(), |i: int| self.hops@[i]@)
    }

    /// Only the last hop may reach the destination, and there are at most
    /// `limit` hops.
    pub open spec fn wf(&self) -> bool {
        &&& self.hops().len() <= self.max_hops()
        &&& forall|i: int| 0 <= i < self.hops().len() - 1 ==> !reaches(#[trigger] self.hops()[i], self.target())
    }

    /// Whether the trace is over: the destination answered, or `limit` hops
    /// have been traced.
    pub open spec fn spec_finished(&self) -> bool {
        ||| self.hops().len() >= self.max_hops()
        ||| (self.hops().len() > 0 && reaches(self.hops().last(), self.target()))
    }

    /// A route to `addr` with no hop yet.
    pub fn new(addr: IpAddr, limit: usize) -> (r: Route)
        ensures
            r.wf(),
            r.target() == addr,
            r.max_hops() == limit,
            r.hops() == Seq::<Seq<Node>>::empty(),
    {
        let r = Route { addr, limit, hops: Vec::new() };
        assert(r.hops() =~= Seq::<Seq<Node>>::empty());
        r
    }

    /// Whether the trace is over.
    pub fn finished(&self) -> (r: bool)
        ensures
            r == self.spec_finished(),
    {
        let n = self.hops.len();
        if n >= self.limit {
            return true;
        }
        if n == 0 {
            return false;
        }
        reached(&self.hops[n - 1], self.addr)
    }

    /// Records the next hop.
    pub fn push(&mut self, nodes: Vec<Node>)
        requires
            old(self).wf(),
            !old(self).spec_finished(),
        ensures
            final(self).wf(),
            final(self).target() == old(self).target(),
            final(self).max_hops() == old(self).max_hops(),
            final(self).hops() == old(self).hops().push(nodes@),
    {
        let ghost before = self.hops();
        self.hops.push(nodes);
        assert(self.hops() =~= before.push(nodes@));
    }

    /// The hops traced.
    pub fn into_hops(self) -> (r: Vec<Vec<Node>>)
        ensures
            r@.len() == self.hops().len(),
            forall|i: int| 0 <= i < r@.len() ==> #[trigger] r@[i]@ == self.hops()[i],
    {
        self.hops
    }
}

/// The destination of the next probe of a hop: the same address, one port
/// higher.
pub fn next_destination(dst: &mut SocketAddrV4)
    requires
        old(dst).port < u16::MAX,
    ensures
        final(dst).ip == old(dst).ip,
        final(dst).port == old(dst).port + 1,
{
    dst.port = dst.port + 1;
}

/// The answer to a probe written by `ProbeV4::encode`, which quotes that
/// datagram, is found under the probe's key among the pending probes: it
/// reaches whoever awaits it.
pub proof fn law_answer_reaches_waiter<T>(pending: Map<ProbeKey, T>, p: ProbeV4, tx: T, e: Seq<u8>)
    requires
        ipv4_udp_layout(e, p.src, p.dst, p.ttl),
    ensures
        spec_decode4(e) matches Some(Some(q)) && pending.insert(key_of(Probe::V4(p)), tx).contains_key(
            key_of(q),
        ) && pending.insert(key_of(Probe::V4(p)), tx)[key_of(q)] == tx,
{
    crate::probe::law_decode_inverts_encode4(p, e);
}

/// The texts joined, with `sep` between two of them.
pub open spec fn join(parts: Seq<Seq<char>>, sep: Seq<char>) -> Seq<char>
    decreases parts.len(),
{
    if parts.len() == 0 {
        Seq::empty()
    } else if parts.len() == 1 {
        parts[0]
    } else {
        join(parts.drop_last(), sep) + sep + parts.last()
    }
}

/// The number of round-trip times over all nodes of a hop.
pub open spec fn answers(nodes: Seq<(String, Vec<String>)>) -> nat
    decreases nodes.len(),
{
    if nodes.len() == 0 {
        0
    } else {
        answers(nodes.drop_last()) + nodes.last().1@.len()
    }
}

/// `* ` repeated `n` times.
pub open spec fn stars(n: nat) -> Seq<char>
    decreases n,
{
    if n == 0 {
        Seq::empty()
    } else {
        stars((n - 1) as nat) + seq!['*', ' ']
    }
}

/// The rows of a hop: each node with its round-trip times separated by
/// `, `, then, when fewer than `probes` answers came, one `* ` per missing
/// answer.
pub open spec fn spec_rows(nodes: Seq<(String, Vec<String>)>, probes: nat) -> Seq<(Seq<char>, Seq<char>)> {
    let named = Seq::new(
        nodes.len(),
        |i: int| (nodes[i].0@, join(Seq::new(nodes[i].1@.len(), |j: int| nodes[i].1@[j]@), ", "@)),
    );
    if answers(nodes) < probes {
        named.push((stars((probes - answers(nodes)) as nat), Seq::empty()))
    } else {
        named
    }
}

proof fn lemma_prefix_last<T>(s: Seq<T>, i: int)
    requires
        0 <= i < s.len(),
    ensures
        s.subrange(0, i + 1).drop_last() == s.subrange(0, i),
        s.subrange(0, i + 1).last() == s[i],
{
    assert(s.subrange(0, i + 1).drop_last() =~= s.subrange(0, i));
}

fn join_times(times: &Vec<String>) -> (r: String)
    ensures
        r@ == join(Seq::new(times@.len(), |j: int| times@[j]@), ", "@),
{
    let ghost parts = Seq::new(times@.len(), |j: int| times@[j]@);
    let mut s = String::new();
    let mut i: usize = 0;
    while i < times.len()
        invariant
            i <= times@.len(),
            parts == Seq::new(times@.len(), |j: int| times@[j]@),
            s@ == join(parts.subrange(0, i as int), ", "@),
        decreases times@.len() - i,
    {
        if i > 0 {
            s.append(", ");
        }
        s.append(times[i].as_str());
        proof {
            lemma_prefix_last(parts, i as int);
            if i == 0 {
                assert(parts.subrange(0, 1) =~= seq![parts[0]]);
            }
        }
        i = i + 1;
    }
    assert(parts.subrange(0, parts.len() as int) =~= parts);
    s
}

fn repeat_stars(n: usize) -> (r: String)
    ensures
        r@ == stars(n as nat),
{
    let mut s = String::new();
    let mut i: usize = 0;
    while i < n
        invariant
            i <= n,
            s@ == stars(i as nat),
        decreases n - i,
    {
        proof {
            reveal_strlit("* ");
        }
        s.append("* ");
        i = i + 1;
    }
    s
}

/// The rows printed for a hop: each node that answered, with its round-trip
/// times, and a row of `* ` for the probes that got no answer.
pub fn hop_rows(nodes: &Vec<(String, Vec<String>)>, probes: usize) -> (r: Vec<(String, String)>)
    ensures
        r@.len() == spec_rows(nodes@, probes as nat).len(),
        forall|i: int|
            0 <= i < r@.len() ==> (#[trigger] r@[i]).0@ == spec_rows(nodes@, probes as nat)[i].0 && r@[i].1@
                == spec_rows(nodes@, probes as nat)[i].1,
{
    let mut rows: Vec<(String, String)> = Vec::new();
    let mut count: usize = 0;
    let mut i: usize = 0;
    while i < nodes.len()
        invariant
            i <= nodes@.len(),
            rows@.len() == i,
            count == (if answers(nodes@.subrange(0, i as int)) <= usize::MAX {
                answers(nodes@.subrange(0, i as int))
            } else {
                usize::MAX as nat
            }),
            forall|k: int|
                0 <= k < i ==> (#[trigger] rows@[k]).0@ == nodes@[k].0@ && rows@[k].1@ == join(
                    Seq::new(nodes@[k].1@.len(), |j: int| nodes@[k].1@[j]@),
                    ", "@,
                ),
        decreases nodes@.len() - i,
    {
        proof {
            lemma_prefix_last(nodes@, i as int);
        }
        count = count.saturating_add(nodes[i].1.len());
        let times = join_times(&nodes[i].1);
        rows.push((nodes[i].0.clone(), times));
        i = i + 1;
    }
    assert(nodes@.subrange(0, nodes@.len() as int) =~= nodes@);
    if count < probes {
        rows.push((repeat_stars(probes - count), String::new()));
    }
    rows
}

/// `n` spaces.
pub open spec fn spaces(n: nat) -> Seq<char>
    decreases n,
{
    if n == 0 {
        Seq::empty()
    } else {
        spaces((n - 1) as nat).push(' ')
    }
}

/// `s` followed by spaces up to `width` characters.
pub open spec fn pad_right(s: Seq<char>, width: nat) -> Seq<char> {
    if s.len() >= width {
        s
    } else {
        s + spaces((width - s.len()) as nat)
    }
}

/// Spaces up to `width` characters, followed by `s`.
pub open spec fn pad_left(s: Seq<char>, width: nat) -> Seq<char> {
    if s.len() >= width {
        s
    } else {
        spaces((width - s.len()) as nat) + s
    }
}

fn push_spaces(s: &mut String, n: usize)
    ensures
        final(s)@ == old(s)@ + spaces(n as nat),
{
    let ghost start = s@;
    let mut i: usize = 0;
    while i < n
        invariant
            i <= n,
            s@ == start + spaces(i as nat),
        decreases n - i,
    {
        proof {
            reveal_strlit(" ");
        }
        s.append(" ");
        i = i + 1;
        assert(s@ =~= start + spaces(i as nat));
    }
}

/// The line of a row of a hop: the time-to-live right-aligned in three
/// columns (blank but on the first row), the node left-aligned in 32, then
/// the round-trip times.
pub open spec fn row_line(first: bool, ttl: u8, node: Seq<char>, rtt: Seq<char>) -> Seq<char> {
    seq!['['] + pad_left(if first { decimal(ttl as nat) } else { Seq::empty() }, 3) + seq![']', ' ']
        + pad_right(node, 32) + seq![' '] + rtt
}

/// The line printed for a row of a hop.
pub fn format_row(first: bool, ttl: u8, node: &str, rtt: &str) -> (r: String)
    ensures
        r@ == row_line(first, ttl, node@, rtt@),
{
    proof {
        reveal_strlit("[");
        reveal_strlit("] ");
        reveal_strlit(" ");
    }
    let label = if first {
        format_u64(ttl as u64)
    } else {
        String::new()
    };
    let mut s = String::from_str("[");
    let n = label.as_str().unicode_len();
    if n < 3 {
        push_spaces(&mut s, 3 - n);
    }
    s.append(label.as_str());
    s.append("] ");
    s.append(node);
    let m = node.unicode_len();
    if m < 32 {
        push_spaces(&mut s, 32 - m);
    }
    s.append(" ");
    s.append(rtt);
    assert(s@ =~= row_line(first, ttl, node@, rtt@));
    s
}

/// An IPv4 header that the ICMP socket reads: version 4, a header length
/// field that gives the length of `h`, a total length that covers it, and
/// protocol ICMP (1).
pub open spec fn answer4_header(h: Seq<u8>) -> bool {
    &&& h.len() >= 20
    &&& h[0] / 16 == 4
    &&& h.len() == (h[0] % 16) as int * 4
    &&& h[2] as int * 256 + h[3] as int >= h.len()
    &&& h[9] == 1
}

proof fn lemma_classify4_reads(h: Seq<u8>, kind: u8, code: u8, rest: Seq<u8>, d: Seq<u8>)
    requires
        answer4_header(h),
        rest.len() == 6,
    ensures
        ({
            let s = h + seq![kind, code] + rest + d;
            &&& ipv4_header_valid(s)
            &&& s[9] == ICMP4
            &&& tail(s, (ipv4_ihl(s) * 4) as int) == seq![kind, code] + rest + d
            &&& tail(seq![kind, code] + rest + d, 8) == d
        }),
{
    let s = h + seq![kind, code] + rest + d;
    assert(s[0] == h[0] && s[2] == h[2] && s[3] == h[3] && s[9] == h[9]);
    assert(tail(s, (ipv4_ihl(s) * 4) as int) =~= seq![kind, code] + rest + d);
    assert(tail(seq![kind, code] + rest + d, 8) =~= d);
}

/// Every destination-unreachable answer (ICMPv4 type 3) that quotes a probe
/// ends the trace, whatever its code (net, host, protocol, port or other
/// unreachable): reading it gives the quoted probe, marked as coming from
/// the destination.
pub proof fn law_unreachable4_is_last(h: Seq<u8>, code: u8, rest: Seq<u8>, d: Seq<u8>, p: Probe)
    requires
        answer4_header(h),
        rest.len() == 6,
        spec_decode4(d) == Some(Some(p)),
    ensures
        spec_classify4(h + seq![3u8, code] + rest + d) == Some(Some((p, true))),
{
    lemma_classify4_reads(h, 3, code, rest, d);
}

/// A time-exceeded answer (ICMPv4 type 11) that quotes a probe comes from a
/// router on the way, whatever its code: reading it gives the quoted probe,
/// not marked as coming from the destination.
pub proof fn law_time_exceeded4_is_not_last(h: Seq<u8>, code: u8, rest: Seq<u8>, d: Seq<u8>, p: Probe)
    requires
        answer4_header(h),
        rest.len() == 6,
        spec_decode4(d) == Some(Some(p)),
    ensures
        spec_classify4(h + seq![11u8, code] + rest + d) == Some(Some((p, false))),
{
    lemma_classify4_reads(h, 11, code, rest, d);
}

/// Every ICMPv6 destination-unreachable answer (type 1) that quotes a probe
/// ends the trace, whatever its code.
pub proof fn law_unreachable6_is_last(code: u8, rest: Seq<u8>, d: Seq<u8>, p: Probe)
    requires
        rest.len() == 6,
        spec_decode6(d) == Some(Some(p)),
    ensures
        spec_classify6(seq![1u8, code] + rest + d) == Some(Some((p, true))),
{
    assert(tail(seq![1u8, code] + rest + d, 8) =~= d);
}

/// An ICMPv6 hop-limit-exceeded answer (type 3) that quotes a probe comes
/// from a router on the way, whatever its code.
pub proof fn law_time_exceeded6_is_not_last(code: u8, rest: Seq<u8>, d: Seq<u8>, p: Probe)
    requires
        rest.len() == 6,
        spec_decode6(d) == Some(Some(p)),
    ensures
        spec_classify6(seq![3u8, code] + rest + d) == Some(Some((p, false))),
{
    assert(tail(seq![3u8, code] + rest + d, 8) =~= d);
}

} // verus!
