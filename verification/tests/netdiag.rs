use ksynth::icmp::{checksum, ping4, ping6, IcmpV4Packet, IcmpV6Packet, PacketError, Unreachable};
use ksynth::net::{IpAddr, Network, SocketAddr, SocketAddrV4};
use ksynth::ping::{reply_token4, reply_token6, round_trip, Ping, Token};
use ksynth::probe::{Probe, ProbeError, ProbeV4};
use ksynth::time::{Duration, Instant};
use ksynth::trace::{
    classify4, classify6, format_row, hop_rows, next_destination, reached, reply_node, round_done, Echo, Node, Outcome, ReplyClosed,
    Route, State, PORT_MAX, PORT_MIN,
};

#[test]
fn checksum_of_echo_header() {
    assert_eq!(0xf7fd, checksum(&[8, 0, 0, 0, 0, 1, 0, 1]));
    assert_eq!(0xffff, checksum(&[]));
    assert_eq!(!0x0100u16, checksum(&[1]));
}

#[test]
fn packet_carrying_its_checksum_verifies() {
    let mut header = vec![0x45, 0, 0, 0x1c, 0, 1, 0, 0, 64, 17, 0, 0, 10, 0, 0, 1, 10, 0, 0, 2];
    let c = checksum(&header);
    header[10..12].copy_from_slice(&c.to_be_bytes());
    assert_eq!(0, checksum(&header));

    let mut odd = vec![8, 0, 0, 0, 1, 2, 3];
    let c = checksum(&odd);
    odd[2..4].copy_from_slice(&c.to_be_bytes());
    assert_eq!(0, checksum(&odd));
}

#[test]
fn ping4_parses_back_and_checks() {
    let mut buf = [0u8; 12];
    let pkt = ping4(&mut buf, 0x1234, 7, b"abcd").unwrap().to_vec();
    assert_eq!(12, pkt.len());
    assert_eq!(0, checksum(&pkt));
    match IcmpV4Packet::try_from(&pkt) {
        Ok(IcmpV4Packet::EchoRequest(echo)) => {
            assert_eq!(0x1234, echo.id);
            assert_eq!(7, echo.seq);
            assert_eq!(b"abcd", echo.data);
        },
        other => panic!("{:?}", other),
    }
}

#[test]
fn ping6_parses_back() {
    let mut buf = [0u8; 10];
    let pkt = ping6(&mut buf, 1, 2, b"xy").unwrap().to_vec();
    match IcmpV6Packet::try_from(&pkt) {
        Ok(IcmpV6Packet::EchoRequest(echo)) => {
            assert_eq!((1, 2), (echo.id, echo.seq));
            assert_eq!(b"xy", echo.data);
        },
        other => panic!("{:?}", other),
    }
}

#[test]
fn ping_buffer_too_short() {
    let mut buf = [9u8; 9];
    assert_eq!(Some(PacketError::InvalidSlice), ping4(&mut buf, 1, 1, b"ab").err());
    assert_eq!([9u8; 9], buf);
    assert_eq!(Some(PacketError::InvalidSlice), IcmpV4Packet::try_from(&[8, 0, 0]).err());
}

#[test]
fn unreachable_codes() {
    let data = [0u8, 0, 0, 0, 1, 2, 3];
    assert!(matches!(Unreachable::try_from(0, &data), Ok(Unreachable::Net(_))));
    assert!(matches!(Unreachable::try_from(1, &data), Ok(Unreachable::Host(_))));
    assert!(matches!(Unreachable::try_from(2, &data), Ok(Unreachable::Protocol(_))));
    assert!(matches!(Unreachable::try_from(3, &data), Ok(Unreachable::Port(_))));
    assert!(matches!(Unreachable::try_from(9, &data), Ok(Unreachable::Other(9, _))));
    match Unreachable::try_from(3, &data) {
        Ok(Unreachable::Port(rest)) => assert_eq!(&[1u8, 2, 3], rest),
        _ => panic!("port unreachable"),
    }
}

#[test]
fn ping_request_carries_token() {
    let ping = Ping { addr: IpAddr::V4(1), id: 5, seq: 6, token: Token([7u8; 16]) };
    let mut buf = [0u8; 24];
    let pkt = ping.request(&mut buf).unwrap().to_vec();
    assert_eq!(24, pkt.len());
    let mut reply = pkt.clone();
    reply[0] = 0;
    let mut ip = vec![0x45, 0, 0, 44, 0, 0, 0, 0, 64, 1, 0, 0, 10, 0, 0, 1, 10, 0, 0, 2];
    ip.extend_from_slice(&reply);
    match reply_token4(&ip) {
        Ok(Some(token)) => assert_eq!([7u8; 16], token.0),
        other => panic!("{:?}", other),
    }
    assert_eq!(Duration::from_nanos(5), round_trip(Instant { nanos: 10 }, Instant { nanos: 15 }));
    let fresh = Ping::new(IpAddr::V6(1), 3, 4);
    assert_eq!((3, 4), (fresh.id, fresh.seq));
}

#[test]
fn probe_round_trip_and_answer() {
    let src = SocketAddrV4 { ip: 0x0a00_0001, port: 40000 };
    let dst = SocketAddrV4 { ip: 0x0a00_0002, port: PORT_MIN };
    let probe = ProbeV4 { src, dst, ttl: 3 };
    let mut buf = [0u8; 28];
    let bytes = probe.encode(&mut buf).unwrap().to_vec();
    assert_eq!(28, bytes.len());
    assert_eq!(0x45, bytes[0]);
    assert_eq!(3, bytes[8]);
    match ProbeV4::decode(&bytes) {
        Ok(Some(Probe::V4(p))) => {
            assert_eq!(src, p.src);
            assert_eq!(dst, p.dst);
        },
        other => panic!("{:?}", other),
    }
    let mut short = [0u8; 27];
    assert_eq!(Some(ProbeError::Buffer), probe.encode(&mut short).err());

    let exact = ProbeV4 {
        src: SocketAddrV4 { ip: 0x0a00_0001, port: 33434 },
        dst: SocketAddrV4 { ip: 0x0a00_0002, port: 33435 },
        ttl: 3,
    };
    let mut longer = [0xeeu8; 30];
    let written = exact.encode(&mut longer).unwrap().to_vec();
    assert_eq!(
        vec![69, 0, 0, 28, 0, 0, 64, 0, 3, 17, 99, 207, 10, 0, 0, 1, 10, 0, 0, 2, 130, 154, 130, 155, 0, 8, 230, 165],
        written
    );
    assert_eq!([0xee, 0xee], longer[28..]);
    assert_eq!(0, checksum(&written[..20]));

    let mut pkt = vec![0x45, 0, 0, 56, 0, 0, 0, 0, 64, 1, 0, 0, 10, 0, 0, 9, 10, 0, 0, 1];
    pkt.extend_from_slice(&[11, 0, 0, 0, 0, 0, 0, 0]);
    pkt.extend_from_slice(&bytes);
    match classify4(&pkt) {
        Ok(Some((Probe::V4(p), last))) => {
            assert_eq!((src, dst), (p.src, p.dst));
            assert!(!last);
        },
        other => panic!("{:?}", other),
    }
    pkt[20] = 3;
    pkt[21] = 3;
    match classify4(&pkt) {
        Ok(Some((_, last))) => assert!(last),
        other => panic!("{:?}", other),
    }
    pkt[9] = 17;
    assert_eq!(Ok(None), classify4(&pkt).map(|r| r.map(|_| ())));
}

#[test]
fn probe_families_must_match() {
    let a = SocketAddr::new(IpAddr::V4(1), 1);
    let b = SocketAddr::new(IpAddr::V6(1), 1);
    assert_eq!(Some(ProbeError::MixedFamilies), Probe::new(a, b, 1).err());
    let p = Probe::new(a, a, 9).unwrap();
    assert_eq!((a, a, 9), (p.src(), p.dst(), p.ttl()));
}

#[test]
fn ports_reserved_once() {
    let mut state: State<u8> = State::new();
    let src = IpAddr::V4(1);
    let dst = IpAddr::V4(2);
    let (s, d) = state.reserve_port(src, dst, 40000).unwrap();
    assert_eq!(40000, s.port());
    assert_eq!(PORT_MIN, d.port());
    assert_eq!(None, state.reserve_port(src, dst, 40000));
    state.release(&s);
    assert!(state.reserve_port(src, dst, 40000).is_some());
    if let Some((s, _)) = state.try_reserve(src, dst) {
        assert!(PORT_MIN <= s.port() && s.port() < PORT_MAX);
    }

    let probe = Probe::new(s, d, 1).unwrap();
    state.insert(&probe, 5);
    assert_eq!(Some(5), state.remove(&probe));
    assert_eq!(None, state.remove(&probe));
}

#[test]
fn replies_become_nodes() {
    let sent = Instant { nanos: 100 };
    let echo = Echo(IpAddr::V4(7), Instant { nanos: 350 }, true);
    assert_eq!(Ok(Node::Node(4, IpAddr::V4(7), Duration::from_nanos(250), true)), reply_node(4, sent, Outcome::Answered(echo)));
    assert_eq!(Ok(Node::NoReply(4)), reply_node(4, sent, Outcome::Expired));
    assert_eq!(Err(ReplyClosed), reply_node(4, sent, Outcome::Closed));
}

#[test]
fn route_stops_at_destination_or_limit() {
    let target = IpAddr::V4(9);
    let mut route = Route::new(target, 3);
    assert!(!route.finished());
    route.push(vec![Node::NoReply(1)]);
    assert!(!route.finished());
    let hop = vec![Node::NoReply(2), Node::Node(2, target, Duration::zero(), false)];
    assert!(reached(&hop, target));
    route.push(hop);
    assert!(route.finished());
    assert_eq!(2, route.into_hops().len());

    let mut capped = Route::new(target, 1);
    capped.push(vec![Node::NoReply(1)]);
    assert!(capped.finished());

    let mut next = SocketAddrV4 { ip: 1, port: PORT_MIN };
    next_destination(&mut next);
    assert_eq!(PORT_MIN + 1, next.port);
}

#[test]
fn command_trace_stops_on_last_answer() {
    let target = IpAddr::V4(9);
    let router = IpAddr::V4(3);
    let at = Duration::zero();
    assert!(!round_done(&vec![], target));
    assert!(!round_done(&vec![Node::NoReply(1), Node::NoReply(1)], target));
    assert!(round_done(&vec![Node::Node(2, router, at, false), Node::Node(2, target, at, false)], target));
    assert!(round_done(&vec![Node::Node(2, target, at, false), Node::NoReply(2)], target));
    assert!(!round_done(&vec![Node::Node(2, target, at, false), Node::Node(2, router, at, false)], target));
    assert!(round_done(&vec![Node::Node(2, router, at, true)], target));
    assert!(!round_done(&vec![Node::Node(2, router, at, true), Node::Node(2, router, at, false)], target));
}

#[test]
fn hop_report() {
    let nodes = vec![("10.0.0.1".to_string(), vec!["1.00ms".to_string(), "2.00ms".to_string()])];
    let rows = hop_rows(&nodes, 3);
    assert_eq!(2, rows.len());
    assert_eq!(("10.0.0.1".to_string(), "1.00ms, 2.00ms".to_string()), rows[0]);
    assert_eq!(("* ".to_string(), String::new()), rows[1]);
    assert_eq!(vec![("* * * ".to_string(), String::new())], hop_rows(&vec![], 3));
    assert_eq!(1, hop_rows(&nodes, 2).len());

    assert_eq!(format!("[{:>3}] {:32} {}", 7, "10.0.0.1", "1.00ms"), format_row(true, 7, "10.0.0.1", "1.00ms"));
    assert_eq!(format!("[{:>3}] {:32} {}", "", "* ", ""), format_row(false, 7, "* ", ""));
    let long = "x".repeat(40);
    assert_eq!(format!("[{:>3}] {:32} {}", 255, long, "r"), format_row(true, 255, &long, "r"));
}

#[test]
fn network_flags() {
    assert_eq!(Network::IPv4, Network::from_flags(true, false));
    assert_eq!(Network::IPv6, Network::from_flags(false, true));
    assert_eq!(Network::Dual, Network::from_flags(true, true));
    assert_eq!(None, Network::restriction(true, true));
    assert_eq!(Some(Network::IPv6), Network::restriction(false, true));
}

#[test]
fn ipv6_answers() {
    let mut quote = vec![0x60u8, 0, 0, 0, 0, 8, 17, 1];
    quote.extend_from_slice(&[0u8; 15]);
    quote.push(1);
    quote.extend_from_slice(&[0u8; 15]);
    quote.push(2);
    quote.extend_from_slice(&[0x9c, 0x40, 0x82, 0x9a, 0, 8, 0, 0]);

    let mut msg = vec![3u8, 0, 0, 0, 0, 0, 0, 0];
    msg.extend_from_slice(&quote);
    match classify6(&msg) {
        Ok(Some((Probe::V6(p), last))) => {
            assert!(!last);
            assert_eq!((1, 40000), (p.src.ip, p.src.port));
            assert_eq!((2, 33434), (p.dst.ip, p.dst.port));
        },
        other => panic!("{:?}", other),
    }
    msg[0] = 1;
    assert!(matches!(classify6(&msg), Ok(Some((_, true)))));
    msg[0] = 129;
    assert!(matches!(classify6(&msg), Ok(None)));
    assert!(classify6(&msg[..4]).is_err());
}

#[test]
fn ipv6_reply_carries_token() {
    let ping = Ping { addr: IpAddr::V6(1), id: 9, seq: 10, token: Token([3u8; 16]) };
    let mut buf = [0u8; 24];
    let mut reply = ping.request(&mut buf).unwrap().to_vec();
    assert_eq!(128, reply[0]);
    reply[0] = 129;
    match reply_token6(&reply) {
        Ok(Some(token)) => assert_eq!(ping.token, token),
        other => panic!("{:?}", other),
    }
    reply[0] = 128;
    assert!(matches!(reply_token6(&reply), Ok(None)));
}
