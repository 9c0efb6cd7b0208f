use vstd::prelude::*;

verus! {

/// Length of the fixed ICMP header: type, code, checksum, identifier and
/// sequence number.
pub const HEADER_SIZE: usize = 8;

pub const ECHO_REPLY4: u8 = 0;
pub const UNREACHABLE: u8 = 3;
pub const ECHO_REQUEST4: u8 = 8;
pub const TIME_EXCEEDED: u8 = 11;

pub const ECHO_REQUEST6: u8 = 128;
pub const ECHO_REPLY6: u8 = 129;

// ---------------------------------------------------------------------------
// The internet checksum (RFC 1071), as a function of the bytes.

/// The big-endian 16-bit value of two bytes.
pub open spec fn be16(hi: u8, lo: u8) -> nat {
    (hi as nat) * 256 + (lo as nat)
}

/// The number of 16-bit words the checksum reads from `s`; a trailing odd
/// byte forms a word of its own, padded with a zero byte.
pub open spec fn num_words(s: Seq<u8>) -> nat {
    ((s.len() + 1) / 2) as nat
}

/// The `k`-th 16-bit word of `s`.
pub open spec fn word_at(s: Seq<u8>, k: int) -> nat {
    if 2 * k + 1 < s.len() {
        be16(s[2 * k], s[2 * k + 1])
    } else {
        be16(s[2 * k], 0)
    }
}

/// The plain sum of the first `k` words of `s`.
pub open spec fn words_sum(s: Seq<u8>, k: nat) -> nat
    decreases k,
{
    if k == 0 {
        0
    } else {
        words_sum(s, (k - 1) as nat) + word_at(s, k - 1)
    }
}

/// End-around-carry folding of a sum into 16 bits: while the value does not
/// fit in 16 bits, its high part is added to its low part.
pub open spec fn ones_fold(x: nat) -> nat
    decreases x,
{
    if x < 65536 {
        x
    } else {
        proof {
            lemma_fold_step_decreases(x);
        }
        ones_fold(x % 65536 + x / 65536)
    }
}

/// The checksum of `s`: the ones' complement of the folded sum of its words,
/// where the running sum is kept in 32 bits and wraps around.
pub open spec fn spec_checksum(s: Seq<u8>) -> u16 {
    (65535 - ones_fold(words_sum(s, num_words(s)) % 0x1_0000_0000)) as u16
}

pub proof fn lemma_fold_step_decreases(x: nat)
    requires
        x >= 65536,
    ensures
        x % 65536 + x / 65536 < x,
{
    assert(x == 65536 * (x / 65536) + x % 65536) by (nonlinear_arith);
    assert(x / 65536 >= 1) by (nonlinear_arith)
        requires
            x >= 65536,
    ;
    assert(65536 * (x / 65536) > x / 65536) by (nonlinear_arith)
        requires
            x / 65536 >= 1,
    ;
}

/// The folded value is at most 0xffff.
pub proof fn lemma_fold_bound(x: nat)
    ensures
        ones_fold(x) <= 65535,
    decreases x,
{
    if x >= 65536 {
        lemma_fold_step_decreases(x);
        lemma_fold_bound(x % 65536 + x / 65536);
    }
}

/// Every word is at most 0xffff.
proof fn lemma_word_bound(s: Seq<u8>, k: int)
    requires
        0 <= k < num_words(s),
    ensures
        word_at(s, k) <= 65535,
{
}

proof fn lemma_words_sum_bound(s: Seq<u8>, k: nat)
    requires
        k <= num_words(s),
    ensures
        words_sum(s, k) <= 65535 * k,
    decreases k,
{
    if k > 0 {
        lemma_words_sum_bound(s, (k - 1) as nat);
        lemma_word_bound(s, k - 1);
    }
}

/// Computes the internet checksum of `pkt`.
pub fn checksum(pkt: &[u8]) -> (r: u16)
    ensures
        r == spec_checksum(pkt@),
{
    let len = pkt.len();
    let nwords: usize = len / 2 + len % 2;
    assert(nwords == num_words(pkt@));
    let mut sum: u32 = 0;
    let mut k: usize = 0;
    while k < nwords
        invariant
            nwords == num_words(pkt@),
            len == pkt@.len(),
            k <= nwords,
            sum == words_sum(pkt@, k as nat) % 0x1_0000_0000,
        decreases nwords - k,
    {
        let i: usize = 2 * k;
        let word: u32 = if i + 1 < len {
            (pkt[i] as u32) * 256 + (pkt[i + 1] as u32)
        } else {
            (pkt[i] as u32) * 256
        };
        assert(word == word_at(pkt@, k as int));
        let ghost prev = words_sum(pkt@, k as nat);
        sum = sum.wrapping_add(word);
        proof {
            assert(words_sum(pkt@, (k + 1) as nat) == prev + word);
            assert((prev % 0x1_0000_0000 + word) % 0x1_0000_0000 == (prev + word) % 0x1_0000_0000)
                by (nonlinear_arith);
        }
        k = k + 1;
    }
    let ghost total = sum as nat;
    while (sum >> 16) > 0
        invariant
            ones_fold(sum as nat) == ones_fold(total),
        decreases sum,
    {
        let ghost old_sum = sum;
        assert((sum >> 16) == sum / 65536 && (sum & 0xffff) == sum % 65536) by (bit_vector);
        assert(sum >> 16 > 0 ==> sum >= 65536) by (bit_vector);
        proof {
            lemma_fold_step_decreases(sum as nat);
        }
        sum = (sum & 0xffff) + (sum >> 16);
        assert(ones_fold(old_sum as nat) == ones_fold(sum as nat));
    }
    assert(sum >> 16 == 0 ==> sum < 65536) by (bit_vector);
    assert(sum < 65536 ==> ((!sum) as u16) == (65535 - sum) as u16) by (bit_vector);
    !sum as u16
}


// ---------------------------------------------------------------------------
// Packets.

/// Errors from parsing or building ICMP packets.
#[derive(Clone, Copy, Debug, PartialEq, Eq, Structural)]
pub enum PacketError {
    /// The slice is too short for the ICMP header, or the buffer is too
    /// short for the packet.
    InvalidSlice,
}

/// An echo request or reply: identifier, sequence number and payload.
#[derive(Debug)]
pub struct Echo<'a> {
    pub id: u16,
    pub seq: u16,
    pub data: &'a [u8],
}

/// A destination-unreachable message, by code, with the bytes that follow
/// its 8-byte header (the start of the offending datagram).
#[derive(Debug)]
pub enum Unreachable<'a> {
    Net(&'a [u8]),
    Host(&'a [u8]),
    Protocol(&'a [u8]),
    Port(&'a [u8]),
    Other(u8, &'a [u8]),
}

/// An ICMPv4 message.
#[derive(Debug)]
pub enum IcmpV4Packet<'a> {
    EchoRequest(Echo<'a>),
    EchoReply(Echo<'a>),
    Unreachable(Unreachable<'a>),
    TimeExceeded(&'a [u8]),
    Other(u8, u8, &'a [u8]),
}

/// An ICMPv6 message.
#[derive(Debug)]
pub enum IcmpV6Packet<'a> {
    EchoRequest(Echo<'a>),
    EchoReply(Echo<'a>),
    Other(u8, u8, &'a [u8]),
}

/// The abstract content of an ICMPv4 message.
pub enum Message4 {
    EchoRequest(u16, u16, Seq<u8>),
    EchoReply(u16, u16, Seq<u8>),
    Unreachable(u8, Seq<u8>),
    TimeExceeded(Seq<u8>),
    Other(u8, u8, Seq<u8>),
}

/// The abstract content of an ICMPv6 message.
pub enum Message6 {
    EchoRequest(u16, u16, Seq<u8>),
    EchoReply(u16, u16, Seq<u8>),
    Other(u8, u8, Seq<u8>),
}

impl<'a> Unreachable<'a> {
    /// The unreachable code and the data that follows the header.
    pub open spec fn model(&self) -> (u8, Seq<u8>) {
        match self {
            Unreachable::Net(d) => (0u8, d@),
            Unreachable::Host(d) => (1u8, d@),
            Unreachable::Protocol(d) => (2u8, d@),
            Unreachable::Port(d) => (3u8, d@),
            Unreachable::Other(c, d) => (*c, d@),
        }
    }

    /// Classifies an unreachable message by its `code`; `slice` holds the
    /// message from its fifth byte on.
    pub fn try_from(code: u8, slice: &'a [u8]) -> (r: Result<Unreachable<'a>, PacketError>)
        requires
            slice@.len() >= 4,
        ensures
            r is Ok,
            r matches Ok(u) ==> u.model() == (code, tail(slice@, 4)),
            r matches Ok(u) ==> (u is Other <==> code > 3),
    {
        let data = slice_from(slice, 4);
        Ok(match code {
            0 => Unreachable::Net(data),
            1 => Unreachable::Host(data),
            2 => Unreachable::Protocol(data),
            3 => Unreachable::Port(data),
            c => Unreachable::Other(c, data),
        })
    }
}

impl<'a> Echo<'a> {
    /// Reads an echo message body: identifier, sequence number, payload.
    pub fn try_from(slice: &'a [u8]) -> (r: Result<Echo<'a>, PacketError>)
        requires
            slice@.len() >= 4,
        ensures
            r matches Ok(e) && e.id == be16(slice@[0], slice@[1]) && e.seq == be16(
                slice@[2],
                slice@[3],
            ) && e.data@ == tail(slice@, 4),
    {
        let id: u16 = (slice[0] as u16) * 256 + (slice[1] as u16);
        let seq: u16 = (slice[2] as u16) * 256 + (slice[3] as u16);
        Ok(Echo { id, seq, data: slice_from(slice, 4) })
    }
}

/// The bytes of `s` from position `i` on.
pub open spec fn tail(s: Seq<u8>, i: int) -> Seq<u8> {
    s.subrange(i, s.len() as int)
}

/// The big-endian 16-bit value of two bytes, as a `u16`.
pub open spec fn word16(hi: u8, lo: u8) -> u16 {
    be16(hi, lo) as u16
}

/// The suffix of `s` from byte `i` on.
pub(crate) fn slice_from<'a>(s: &'a [u8], i: usize) -> (r: &'a [u8])
    requires
        i <= s@.len(),
    ensures
        r@ == tail(s@, i as int),
{
    vstd::slice::slice_subrange(s, i, s.len())
}

/// How an ICMPv4 message with at least `HEADER_SIZE` bytes is read.
pub open spec fn spec_message4(s: Seq<u8>) -> Message4 {
    let kind = s[0];
    let code = s[1];
    let rest = tail(s, 4);
    let data = tail(s, 8);
    if kind == ECHO_REPLY4 && code == 0 {
        Message4::EchoReply(word16(s[4], s[5]), word16(s[6], s[7]), data)
    } else if kind == UNREACHABLE {
        Message4::Unreachable(code, data)
    } else if kind == ECHO_REQUEST4 && code == 0 {
        Message4::EchoRequest(word16(s[4], s[5]), word16(s[6], s[7]), data)
    } else if kind == TIME_EXCEEDED {
        Message4::TimeExceeded(data)
    } else {
        Message4::Other(kind, code, rest)
    }
}

/// How an ICMPv6 message with at least `HEADER_SIZE` bytes is read.
pub open spec fn spec_message6(s: Seq<u8>) -> Message6 {
    let kind = s[0];
    let code = s[1];
    let rest = tail(s, 4);
    let data = tail(s, 8);
    if kind == ECHO_REQUEST6 && code == 0 {
        Message6::EchoRequest(word16(s[4], s[5]), word16(s[6], s[7]), data)
    } else if kind == ECHO_REPLY6 && code == 0 {
        Message6::EchoReply(word16(s[4], s[5]), word16(s[6], s[7]), data)
    } else {
        Message6::Other(kind, code, rest)
    }
}

impl<'a> IcmpV4Packet<'a> {
    /// The abstract content of this message.
    pub open spec fn model(&self) -> Message4 {
        match self {
            IcmpV4Packet::EchoRequest(e) => Message4::EchoRequest(e.id, e.seq, e.data@),
            IcmpV4Packet::EchoReply(e) => Message4::EchoReply(e.id, e.seq, e.data@),
            IcmpV4Packet::Unreachable(u) => Message4::Unreachable(u.model().0, u.model().1),
            IcmpV4Packet::TimeExceeded(d) => Message4::TimeExceeded(d@),
            IcmpV4Packet::Other(k, c, d) => Message4::Other(*k, *c, d@),
        }
    }

    /// Parses an ICMPv4 message; fails exactly when the slice is shorter
    /// than the ICMP header.
    pub fn try_from(slice: &'a [u8]) -> (r: Result<IcmpV4Packet<'a>, PacketError>)
        ensures
            r is Err <==> slice@.len() < HEADER_SIZE,
            r matches Ok(p) ==> p.model() == spec_message4(slice@),
    {
        if slice.len() < HEADER_SIZE {
            return Err(PacketError::InvalidSlice);
        }
        let kind = slice[0];
        let code = slice[1];
        let rest = slice_from(slice, 4);
        assert(tail(rest@, 4) =~= tail(slice@, 8));
        if kind == ECHO_REPLY4 && code == 0 {
            Ok(IcmpV4Packet::EchoReply(Echo::try_from(rest)?))
        } else if kind == UNREACHABLE {
            Ok(IcmpV4Packet::Unreachable(Unreachable::try_from(code, rest)?))
        } else if kind == ECHO_REQUEST4 && code == 0 {
            Ok(IcmpV4Packet::EchoRequest(Echo::try_from(rest)?))
        } else if kind == TIME_EXCEEDED {
            Ok(IcmpV4Packet::TimeExceeded(slice_from(rest, 4)))
        } else {
            Ok(IcmpV4Packet::Other(kind, code, rest))
        }
    }
}

impl<'a> IcmpV6Packet<'a> {
    /// The abstract content of this message.
    pub open spec fn model(&self) -> Message6 {
        match self {
            IcmpV6Packet::EchoRequest(e) => Message6::EchoRequest(e.id, e.seq, e.data@),
            IcmpV6Packet::EchoReply(e) => Message6::EchoReply(e.id, e.seq, e.data@),
            IcmpV6Packet::Other(k, c, d) => Message6::Other(*k, *c, d@),
        }
    }

    /// Parses an ICMPv6 message; fails exactly when the slice is shorter
    /// than the ICMP header.
    pub fn try_from(slice: &'a [u8]) -> (r: Result<IcmpV6Packet<'a>, PacketError>)
        ensures
            r is Err <==> slice@.len() < HEADER_SIZE,
            r matches Ok(p) ==> p.model() == spec_message6(slice@),
    {
        if slice.len() < HEADER_SIZE {
            return Err(PacketError::InvalidSlice);
        }
        let kind = slice[0];
        let code = slice[1];
        let rest = slice_from(slice, 4);
        assert(tail(rest@, 4) =~= tail(slice@, 8));
        if kind == ECHO_REQUEST6 && code == 0 {
            Ok(IcmpV6Packet::EchoRequest(Echo::try_from(rest)?))
        } else if kind == ECHO_REPLY6 && code == 0 {
            Ok(IcmpV6Packet::EchoReply(Echo::try_from(rest)?))
        } else {
            Ok(IcmpV6Packet::Other(kind, code, rest))
        }
    }
}

// ---------------------------------------------------------------------------
// Building echo requests.

/// The buffer `b` after an echo message has been laid out at its start:
/// message type `kind`, code 0, a zero checksum, identifier and sequence
/// number in big-endian order, then the payload; later bytes are unchanged.
pub open spec fn echo_frame(b: Seq<u8>, kind: u8, id: u16, seq: u16, payload: Seq<u8>) -> Seq<u8> {
    Seq::new(
        b.len(),
        |i: int|
            if i == 0 {
                kind
            } else if i < 4 {
                0u8
            } else if i == 4 {
                (id / 256) as u8
            } else if i == 5 {
                (id % 256) as u8
            } else if i == 6 {
                (seq / 256) as u8
            } else if i == 7 {
                (seq % 256) as u8
            } else if i < 8 + payload.len() {
                payload[i - 8]
            } else {
                b[i]
            },
    )
}

/// `b` with the word at index `w` (bytes `2w` and `2w + 1`) set to `c`,
/// big-endian.
pub open spec fn with_checksum_at(b: Seq<u8>, w: int, c: u16) -> Seq<u8> {
    b.update(2 * w, (c / 256) as u8).update(2 * w + 1, (c % 256) as u8)
}

/// `b` with the checksum field (bytes 2 and 3) set to `c`, big-endian.
pub open spec fn with_checksum(b: Seq<u8>, c: u16) -> Seq<u8> {
    b.update(2, (c / 256) as u8).update(3, (c % 256) as u8)
}

/// The buffer after `ping4`: an ICMPv4 echo request whose checksum covers
/// the whole buffer.
pub open spec fn spec_ping4_buffer(b: Seq<u8>, id: u16, seq: u16, payload: Seq<u8>) -> Seq<u8> {
    let f = echo_frame(b, ECHO_REQUEST4, id, seq, payload);
    with_checksum(f, spec_checksum(f))
}

/// The buffer after `ping6`: an ICMPv6 echo request with a zero checksum,
/// which the kernel fills in.
pub open spec fn spec_ping6_buffer(b: Seq<u8>, id: u16, seq: u16, payload: Seq<u8>) -> Seq<u8> {
    echo_frame(b, ECHO_REQUEST6, id, seq, payload)
}

fn write_echo(buf: &mut [u8], kind: u8, id: u16, seq: u16, payload: &[u8])
    requires
        old(buf)@.len() >= 8 + payload@.len(),
    ensures
        final(buf)@ == echo_frame(old(buf)@, kind, id, seq, payload@),
{
    buf[0] = kind;
    buf[1] = 0;
    buf[2] = 0;
    buf[3] = 0;
    buf[4] = (id / 256) as u8;
    buf[5] = (id % 256) as u8;
    buf[6] = (seq / 256) as u8;
    buf[7] = (seq % 256) as u8;
    let blen = buf.len();
    let mut i: usize = 0;
    while i < payload.len()
        invariant
            buf@.len() == old(buf)@.len(),
            blen == buf@.len(),
            old(buf)@.len() >= 8 + payload@.len(),
            i <= payload@.len(),
            forall|j: int|
                #![trigger buf@[j]]
                0 <= j < buf@.len() ==> buf@[j] == (if j < 8 + i {
                    echo_frame(old(buf)@, kind, id, seq, payload@)[j]
                } else {
                    old(buf)@[j]
                }),
        decreases payload@.len() - i,
    {
        buf[8 + i] = payload[i];
        i = i + 1;
    }
    assert(buf@ =~= echo_frame(old(buf)@, kind, id, seq, payload@));
}

pub(crate) fn prefix<'a>(s: &'a [u8], n: usize) -> (r: &'a [u8])
    requires
        n <= s@.len(),
    ensures
        r@ == s@.subrange(0, n as int),
{
    vstd::slice::slice_subrange(s, 0, n)
}

/// Writes an ICMPv4 echo request with the given identifier, sequence number
/// and payload at the start of `buf`, sets its checksum (computed over the
/// whole of `buf`), and returns the packet. Fails, leaving `buf` unchanged,
/// when `buf` is shorter than the packet.
pub fn ping4<'a>(buf: &'a mut [u8], id: u16, seq: u16, payload: &[u8]) -> (r: Result<&'a [u8], PacketError>)
    requires
        payload@.len() + HEADER_SIZE <= usize::MAX,
    ensures
        r is Err <==> old(buf)@.len() < HEADER_SIZE + payload@.len(),
        r is Err ==> final(buf)@ == old(buf)@,
        r is Ok ==> final(buf)@ == spec_ping4_buffer(old(buf)@, id, seq, payload@),
        r matches Ok(p) ==> p@ == final(buf)@.subrange(0, HEADER_SIZE + payload@.len()),
{
    let n = HEADER_SIZE + payload.len();
    if buf.len() < n {
        return Err(PacketError::InvalidSlice);
    }
    write_echo(buf, ECHO_REQUEST4, id, seq, payload);
    let cksum = checksum(buf);
    buf[2] = (cksum / 256) as u8;
    buf[3] = (cksum % 256) as u8;
    let out: &'a [u8] = buf;
    Ok(prefix(out, n))
}

/// Writes an ICMPv6 echo request with the given identifier, sequence number
/// and payload at the start of `buf`, with a zero checksum, and returns the
/// packet. Fails, leaving `buf` unchanged, when `buf` is shorter than the
/// packet.
pub fn ping6<'a>(buf: &'a mut [u8], id: u16, seq: u16, payload: &[u8]) -> (r: Result<&'a [u8], PacketError>)
    requires
        payload@.len() + HEADER_SIZE <= usize::MAX,
    ensures
        r is Err <==> old(buf)@.len() < HEADER_SIZE + payload@.len(),
        r is Err ==> final(buf)@ == old(buf)@,
        r is Ok ==> final(buf)@ == spec_ping6_buffer(old(buf)@, id, seq, payload@),
        r matches Ok(p) ==> p@ == final(buf)@.subrange(0, HEADER_SIZE + payload@.len()),
{
    let n = HEADER_SIZE + payload.len();
    if buf.len() < n {
        return Err(PacketError::InvalidSlice);
    }
    write_echo(buf, ECHO_REQUEST6, id, seq, payload);
    let out: &'a [u8] = buf;
    Ok(prefix(out, n))
}

// ---------------------------------------------------------------------------
// Laws.

proof fn lemma_fold_mod(x: nat)
    ensures
        ones_fold(x) % 65535 == x % 65535,
        x > 0 ==> ones_fold(x) > 0,
    decreases x,
{
    if x >= 65536 {
        lemma_fold_step_decreases(x);
        let y: nat = x % 65536 + x / 65536;
        lemma_fold_mod(y);
        assert(x == 65536 * (x / 65536) + x % 65536) by (nonlinear_arith);
        assert(x - y == 65535 * (x / 65536));
        assert(x % 65535 == y % 65535) by (nonlinear_arith)
            requires
                x - y == 65535 * (x / 65536),
                x >= y,
        ;
        assert(y > 0) by (nonlinear_arith)
            requires
                x >= 65536,
                y == x % 65536 + x / 65536,
        ;
    }
}

proof fn lemma_words_sum_shift(s: Seq<u8>, t: Seq<u8>, w: int, c: nat, k: nat)
    requires
        s.len() == t.len(),
        0 <= w < num_words(s),
        k <= num_words(s),
        forall|i: int| 0 <= i < num_words(s) && i != w ==> word_at(t, i) == word_at(s, i),
        word_at(t, w) == word_at(s, w) + c,
    ensures
        k > w ==> words_sum(t, k) == words_sum(s, k) + c,
        k <= w ==> words_sum(t, k) == words_sum(s, k),
    decreases k,
{
    if k > 0 {
        lemma_words_sum_shift(s, t, w, c, (k - 1) as nat);
    }
}

/// An echo request built by `ping4` reads back as that echo request:
/// parsing the returned packet gives the identifier, sequence number and
/// payload it was built from.
pub proof fn law_ping4_parses_back(b: Seq<u8>, id: u16, seq: u16, payload: Seq<u8>)
    requires
        b.len() >= HEADER_SIZE + payload.len(),
    ensures
        spec_message4(
            spec_ping4_buffer(b, id, seq, payload).subrange(0, HEADER_SIZE + payload.len()),
        ) == Message4::EchoRequest(id, seq, payload),
{
    let p = spec_ping4_buffer(b, id, seq, payload).subrange(0, HEADER_SIZE + payload.len());
    assert(word16(p[4], p[5]) == id);
    assert(word16(p[6], p[7]) == seq);
    assert(tail(p, 8) =~= payload);
}

/// An echo request built by `ping6` reads back as that echo request.
pub proof fn law_ping6_parses_back(b: Seq<u8>, id: u16, seq: u16, payload: Seq<u8>)
    requires
        b.len() >= HEADER_SIZE + payload.len(),
    ensures
        spec_message6(
            spec_ping6_buffer(b, id, seq, payload).subrange(0, HEADER_SIZE + payload.len()),
        ) == Message6::EchoRequest(id, seq, payload),
{
    let p = spec_ping6_buffer(b, id, seq, payload).subrange(0, HEADER_SIZE + payload.len());
    assert(word16(p[4], p[5]) == id);
    assert(word16(p[6], p[7]) == seq);
    assert(tail(p, 8) =~= payload);
}

/// A packet that carries its own checksum verifies: when the word at index
/// `w` (bytes `2w` and `2w + 1`) is zero, storing there the checksum of the
/// packet, big-endian, makes the checksum of the result zero. Stated for
/// packets of at most 128 KiB (beyond that the 32-bit running sum may wrap
/// around).
pub proof fn law_checksum_verifies(f: Seq<u8>, w: int)
    requires
        0 <= w,
        2 * w + 1 < f.len(),
        f.len() <= 131072,
        f[2 * w] == 0,
        f[2 * w + 1] == 0,
    ensures
        spec_checksum(with_checksum_at(f, w, spec_checksum(f))) == 0,
{
    let c = spec_checksum(f);
    let g = with_checksum_at(f, w, c);
    let n = num_words(f);
    assert(num_words(g) == n);
    assert(word_at(f, w) == 0);
    assert(word_at(g, w) == c as nat);
    assert forall|i: int| 0 <= i < n && i != w implies word_at(g, i) == word_at(f, i) by {
        assert(g[2 * i] == f[2 * i]);
        if 2 * i + 1 < g.len() {
            assert(g[2 * i + 1] == f[2 * i + 1]);
        }
    }
    lemma_words_sum_shift(f, g, w, c as nat, n);
    lemma_words_sum_bound(f, n);
    lemma_words_sum_bound(g, n);
    assert(n <= 65536);
    assert(65535 * n <= 65535 * 65536) by (nonlinear_arith)
        requires
            n <= 65536,
    ;
    let s0 = words_sum(f, n);
    let s1 = words_sum(g, n);
    assert(s0 % 0x1_0000_0000 == s0);
    assert(s1 % 0x1_0000_0000 == s1);
    lemma_fold_bound(s0);
    lemma_fold_mod(s0);
    lemma_fold_bound(s1);
    lemma_fold_mod(s1);
    let f0 = ones_fold(s0);
    assert(c as nat == 65535 - f0);
    assert(s1 == s0 + 65535 - f0);
    assert(s1 % 65535 == 0) by (nonlinear_arith)
        requires
            s1 == s0 + 65535 - f0,
            f0 % 65535 == s0 % 65535,
            f0 <= 65535,
            f0 <= s0,
    ;
    if s0 == 0 {
        assert(f0 == 0);
    }
    assert(s1 > 0);
    let f1 = ones_fold(s1);
    assert(f1 == 65535) by (nonlinear_arith)
        requires
            f1 % 65535 == 0,
            0 < f1 <= 65535,
    ;
}

/// The checksum that `ping4` stores makes the buffer verify: the checksum
/// of the whole buffer after `ping4` is zero, for buffers of at most 128 KiB.
pub proof fn law_ping4_checksum_verifies(b: Seq<u8>, id: u16, seq: u16, payload: Seq<u8>)
    requires
        b.len() >= HEADER_SIZE + payload.len(),
        b.len() <= 131072,
    ensures
        spec_checksum(spec_ping4_buffer(b, id, seq, payload)) == 0,
{
    let f = echo_frame(b, ECHO_REQUEST4, id, seq, payload);
    let c = spec_checksum(f);
    assert(with_checksum(f, c) =~= with_checksum_at(f, 1, c));
    law_checksum_verifies(f, 1);
}

} // verus!
