use std::collections::HashMap;
use rand::{thread_rng, Rng};
use ksynth::kentik::{
    encode, Column, Columns, CustomValue, Customs, Device, Kind, MissingColumn, Target, AGENT, ERROR,
    FETCH, KNOCK, PING, QUERY, SHAKE, TIMEOUT, TRACE,
};
use ksynth::net::IpAddr;
use ksynth::record::{Error, Fetch, Hop, Knock, Ping, Query, Record, Shake, Summary, Timeout, Trace};
use ksynth::time::Duration;
use ksynth::kentik::{JsonValue, ValueError};
use ksynth::kentik::{columns, ColumnIdRange, NamedColumn};

#[derive(Clone, Debug, PartialEq)]
enum Value {
    AddrV4(u32),
    AddrV6(u128),
    UInt32(u32),
    UInt64(u64),
    String(String),
}

fn u16v(v: u16) -> Value {
    Value::UInt32(v.into())
}

fn u32v(v: u32) -> Value {
    Value::UInt32(v)
}

fn u64v(v: u64) -> Value {
    Value::UInt64(v)
}

fn usizev(v: usize) -> Value {
    Value::UInt32(u32::try_from(v).unwrap())
}

fn durv(v: Duration) -> Value {
    Value::UInt32(u32::try_from(v.as_micros()).unwrap())
}

fn strv(v: &String) -> Value {
    Value::String(v.clone())
}

fn addrv(v: IpAddr) -> Value {
    match v {
        IpAddr::V4(ip) => Value::AddrV4(ip),
        IpAddr::V6(ip) => Value::AddrV6(ip),
    }
}

fn serde(target: &Target, record: Record) -> HashMap<String, Value> {
    let flows = encode(target, &vec![record]).unwrap();
    assert_eq!(1, flows.len());

    let columns: HashMap<u32, &str> =
        target.device.columns.iter().map(|c| (u32::try_from(c.id).unwrap(), &*c.name)).collect();

    let mut values = HashMap::new();
    for flow in &flows {
        assert_eq!(1, flow.sample_rate);
        assert!(flow.sample_adj);
        let (ip4, ip6) = match flow.dst {
            Some(IpAddr::V4(ip)) => (ip, 0),
            Some(IpAddr::V6(ip)) => (0, ip),
            None => (0, 0),
        };
        values.insert("IPV4_DST_ADDR".to_owned(), Value::AddrV4(ip4));
        values.insert("IPV6_DST_ADDR".to_owned(), Value::AddrV6(ip6));

        for custom in &flow.customs {
            let name = columns[&custom.id].to_owned();
            values.insert(name, match &custom.value {
                CustomValue::UInt32(n) => Value::UInt32(*n),
                CustomValue::UInt64(n) => Value::UInt64(*n),
                CustomValue::Str(s) => Value::String(s.clone()),
            });
        }
    }
    values
}

fn dst_addr(addr: IpAddr, values: &HashMap<String, Value>) -> Value {
    match addr {
        IpAddr::V4(_) => values["IPV4_DST_ADDR"].clone(),
        IpAddr::V6(_) => values["IPV6_DST_ADDR"].clone(),
    }
}

fn target<R: Rng>(rng: &mut R) -> Target {
    let mut columns = Vec::new();
    let mut index = 1;

    let mut push = |name: String, kind: Kind| {
        columns.push(Column { id: index, name, kind });
        index += 1;
    };

    push("APP_PROTOCOL".into(), Kind::UInt32);
    push("IPV4_DST_ADDR".into(), Kind::Addr);
    push("IPV6_DST_ADDR".into(), Kind::Addr);

    for kind in &[Kind::UInt32, Kind::UInt64, Kind::String] {
        for n in 0..32 {
            let prefix = match kind {
                Kind::UInt32 => "INT",
                Kind::UInt64 => "INT64_",
                Kind::String => "STR",
                Kind::Addr => "INET_",
            };
            push(format!("{}{:02}", prefix, n), *kind);
        }
    }

    Target {
        company: rng.gen(),
        agent: rng.gen(),
        device: Device { id: rng.gen(), columns },
        email: String::new(),
        token: String::new(),
    }
}

fn duration<R: Rng>(rng: &mut R) -> Duration {
    Duration::from_micros(u64::from(rng.gen::<u32>()))
}

fn string<R: Rng>(rng: &mut R) -> String {
    (0..)
        .flat_map(|_| match rng.gen::<char>() {
            c if c.is_ascii_alphanumeric() => Some(c),
            _ => None,
        })
        .take(8)
        .collect()
}

fn addr<R: Rng>(rng: &mut R) -> IpAddr {
    match rng.gen() {
        true => IpAddr::V4(rng.gen::<u32>()),
        false => IpAddr::V6(rng.gen::<u128>()),
    }
}

fn summary<R: Rng>(rng: &mut R) -> Summary {
    Summary { min: duration(rng), max: duration(rng), avg: duration(rng), std: duration(rng), jit: duration(rng) }
}

fn durations<R: Rng>(rng: &mut R) -> Vec<Duration> {
    (0..8).map(|_| duration(rng)).collect()
}

#[test]
fn encode_fetch() {
    let mut rng = thread_rng();

    let record = Fetch {
        task: rng.gen(),
        test: rng.gen(),
        target: string(&mut rng),
        addr: addr(&mut rng),
        status: rng.gen(),
        dns: duration(&mut rng),
        tcp: duration(&mut rng),
        tls: duration(&mut rng),
        rtt: duration(&mut rng),
        size: usize::try_from(rng.gen::<u32>()).unwrap(),
    };
    let target = target(&mut rng);
    let values = serde(&target, Record::Fetch(record.clone()));

    assert_eq!(u32v(AGENT), values["APP_PROTOCOL"]);
    assert_eq!(u64v(target.agent), values["INT64_00"]);
    assert_eq!(u64v(record.task), values["INT64_01"]);
    assert_eq!(u64v(record.test), values["INT64_02"]);
    assert_eq!(u32v(FETCH), values["INT00"]);
    assert_eq!(u16v(record.status), values["INT01"]);
    assert_eq!(durv(record.rtt), values["INT02"]);
    assert_eq!(usizev(record.size), values["INT03"]);
    assert_eq!(addrv(record.addr), dst_addr(record.addr, &values));
}

#[test]
fn encode_knock() {
    let mut rng = thread_rng();

    let record = Knock {
        task: rng.gen(),
        test: rng.gen(),
        target: string(&mut rng),
        addr: addr(&mut rng),
        port: rng.gen(),
        sent: rng.gen(),
        lost: rng.gen(),
        rtt: summary(&mut rng),
        result: durations(&mut rng),
    };
    let target = target(&mut rng);
    let values = serde(&target, Record::Knock(record.clone()));

    assert_eq!(u32v(AGENT), values["APP_PROTOCOL"]);
    assert_eq!(u64v(target.agent), values["INT64_00"]);
    assert_eq!(u64v(record.task), values["INT64_01"]);
    assert_eq!(u64v(record.test), values["INT64_02"]);
    assert_eq!(u32v(KNOCK), values["INT00"]);
    assert_eq!(u32v(record.sent), values["INT01"]);
    assert_eq!(u32v(record.lost), values["INT02"]);
    assert_eq!(durv(record.rtt.min), values["INT03"]);
    assert_eq!(durv(record.rtt.max), values["INT04"]);
    assert_eq!(durv(record.rtt.avg), values["INT05"]);
    assert_eq!(durv(record.rtt.std), values["INT06"]);
    assert_eq!(durv(record.rtt.jit), values["INT07"]);
    assert_eq!(u16v(record.port), values["INT08"]);
    assert_eq!(addrv(record.addr), dst_addr(record.addr, &values));
}

#[test]
fn encode_ping() {
    let mut rng = thread_rng();

    let record = Ping {
        task: rng.gen(),
        test: rng.gen(),
        target: string(&mut rng),
        addr: addr(&mut rng),
        sent: rng.gen(),
        lost: rng.gen(),
        rtt: summary(&mut rng),
        result: durations(&mut rng),
    };
    let target = target(&mut rng);
    let values = serde(&target, Record::Ping(record.clone()));

    assert_eq!(u32v(AGENT), values["APP_PROTOCOL"]);
    assert_eq!(u64v(target.agent), values["INT64_00"]);
    assert_eq!(u64v(record.task), values["INT64_01"]);
    assert_eq!(u64v(record.test), values["INT64_02"]);
    assert_eq!(u32v(PING), values["INT00"]);
    assert_eq!(u32v(record.sent), values["INT01"]);
    assert_eq!(u32v(record.lost), values["INT02"]);
    assert_eq!(durv(record.rtt.min), values["INT03"]);
    assert_eq!(durv(record.rtt.max), values["INT04"]);
    assert_eq!(durv(record.rtt.avg), values["INT05"]);
    assert_eq!(durv(record.rtt.std), values["INT06"]);
    assert_eq!(durv(record.rtt.jit), values["INT07"]);
    assert_eq!(addrv(record.addr), dst_addr(record.addr, &values));
}

#[test]
fn encode_query() {
    let mut rng = thread_rng();

    let record = Query {
        task: rng.gen(),
        test: rng.gen(),
        code: rng.gen(),
        record: string(&mut rng),
        answers: string(&mut rng),
        time: duration(&mut rng),
    };
    let target = target(&mut rng);
    let values = serde(&target, Record::Query(record.clone()));

    assert_eq!(u32v(AGENT), values["APP_PROTOCOL"]);
    assert_eq!(u64v(target.agent), values["INT64_00"]);
    assert_eq!(u64v(record.task), values["INT64_01"]);
    assert_eq!(u64v(record.test), values["INT64_02"]);
    assert_eq!(u32v(QUERY), values["INT00"]);
    assert_eq!(durv(record.time), values["INT01"]);
    assert_eq!(u16v(record.code), values["INT02"]);
    assert_eq!(strv(&record.answers), values["STR00"]);
    assert_eq!(strv(&record.record), values["STR01"]);
}

#[test]
fn encode_shake() {
    let mut rng = thread_rng();

    let record = Shake {
        task: rng.gen(),
        test: rng.gen(),
        target: string(&mut rng),
        addr: addr(&mut rng),
        port: rng.gen(),
        time: duration(&mut rng),
    };
    let target = target(&mut rng);
    let values = serde(&target, Record::Shake(record.clone()));

    assert_eq!(u32v(AGENT), values["APP_PROTOCOL"]);
    assert_eq!(u64v(target.agent), values["INT64_00"]);
    assert_eq!(u64v(record.task), values["INT64_01"]);
    assert_eq!(u64v(record.test), values["INT64_02"]);
    assert_eq!(u32v(SHAKE), values["INT00"]);
    assert_eq!(durv(record.time), values["INT01"]);
    assert_eq!(u16v(record.port), values["INT08"]);
    assert_eq!(addrv(record.addr), dst_addr(record.addr, &values));
}

#[test]
fn encode_trace() {
    let mut rng = thread_rng();

    let record = Trace {
        task: rng.gen(),
        test: rng.gen(),
        target: string(&mut rng),
        addr: addr(&mut rng),
        hops: (0..8).map(|_| Hop { hop: 0, nodes: Vec::new() }).collect(),
        route: string(&mut rng),
        time: duration(&mut rng),
    };
    let target = target(&mut rng);
    let values = serde(&target, Record::Trace(record.clone()));

    assert_eq!(u32v(AGENT), values["APP_PROTOCOL"]);
    assert_eq!(u64v(target.agent), values["INT64_00"]);
    assert_eq!(u64v(record.task), values["INT64_01"]);
    assert_eq!(u64v(record.test), values["INT64_02"]);
    assert_eq!(u32v(TRACE), values["INT00"]);
    assert_eq!(durv(record.time), values["INT01"]);
    assert_eq!(strv(&record.route), values["STR00"]);
    assert_eq!(addrv(record.addr), dst_addr(record.addr, &values));
}

#[test]
fn encode_error() {
    let mut rng = thread_rng();

    let record = Error { task: rng.gen(), test: rng.gen(), cause: string(&mut rng) };
    let target = target(&mut rng);
    let values = serde(&target, Record::Error(record.clone()));

    assert_eq!(u32v(AGENT), values["APP_PROTOCOL"]);
    assert_eq!(u64v(target.agent), values["INT64_00"]);
    assert_eq!(u64v(record.task), values["INT64_01"]);
    assert_eq!(u64v(record.test), values["INT64_02"]);
    assert_eq!(u32v(ERROR), values["INT00"]);
    assert_eq!(strv(&record.cause), values["STR00"]);
}

#[test]
fn encode_timeout() {
    let mut rng = thread_rng();

    let record = Timeout { task: rng.gen(), test: rng.gen() };
    let target = target(&mut rng);
    let values = serde(&target, Record::Timeout(record));

    assert_eq!(u32v(AGENT), values["APP_PROTOCOL"]);
    assert_eq!(u64v(target.agent), values["INT64_00"]);
    assert_eq!(u64v(record.task), values["INT64_01"]);
    assert_eq!(u64v(record.test), values["INT64_02"]);
    assert_eq!(u32v(TIMEOUT), values["INT00"]);
}

fn small_target(names: &[(&str, u64)]) -> Target {
    Target {
        company: 1,
        agent: 2,
        device: Device {
            id: 3,
            columns: names
                .iter()
                .map(|(n, id)| Column { id: *id, name: n.to_string(), kind: Kind::UInt32 })
                .collect(),
        },
        email: String::new(),
        token: String::new(),
    }
}

const NEEDED: [&str; 15] = [
    "APP_PROTOCOL", "INT64_00", "INT00", "INT64_01", "INT64_02", "STR00", "INT01", "INT02", "INT03",
    "INT04", "INT05", "INT06", "INT07", "INT08", "STR01",
];

#[test]
fn missing_column_is_reported_first_in_lookup_order() {
    let names: Vec<(&str, u64)> =
        NEEDED.iter().enumerate().filter(|(i, _)| *i != 4 && *i != 9).map(|(i, n)| (*n, i as u64 + 1)).collect();
    let target = small_target(&names);
    match encode(&target, &[]) {
        Err(MissingColumn(name)) => assert_eq!("INT64_02", name),
        Ok(_) => panic!("column missing"),
    }
}

#[test]
fn first_column_of_a_name_wins_and_ids_are_cut() {
    let mut names: Vec<(&str, u64)> = NEEDED.iter().enumerate().map(|(i, n)| (*n, i as u64 + 10)).collect();
    names.insert(0, ("INT00", (1u64 << 32) + 7));
    let target = small_target(&names);
    let cs = match Columns::new(&target) {
        Ok(cs) => cs,
        Err(_) => panic!("all columns present"),
    };
    assert_eq!(7, cs.kind);
    assert_eq!(10, cs.app);
    assert_eq!(cs.status, cs.sent);
    assert_eq!(cs.status, cs.time);
    assert_eq!(cs.ttlb, cs.code);
    assert_eq!(cs.cause, cs.route);
    assert_eq!(24, cs.record);
}

#[test]
fn encode_keeps_order_and_opaque_gets_no_columns() {
    let names: Vec<(&str, u64)> = NEEDED.iter().enumerate().map(|(i, n)| (*n, i as u64 + 1)).collect();
    let target = small_target(&names);
    let records = vec![
        Record::Timeout(Timeout { task: 1, test: 2 }),
        Record::Opaque(ksynth::record::Opaque { task: 3, test: 4, output: "{}".to_string() }),
        Record::Error(Error { task: 5, test: 6, cause: "boom".to_string() }),
    ];
    let flows = match encode(&target, &records) {
        Ok(f) => f,
        Err(_) => panic!("all columns present"),
    };
    assert_eq!(3, flows.len());
    assert_eq!(5, flows[0].customs.len());
    assert_eq!(0, flows[1].customs.len());
    assert_eq!(None, flows[1].dst);
    assert_eq!(6, flows[2].customs.len());
    assert_eq!(IpAddr::V4(0), flows[2].src);
}

#[test]
fn micros_out_of_range_become_zero() {
    assert_eq!(0, ksynth::kentik::as_micros(Duration::from_secs(5000)));
    assert_eq!(4_000_000_000, ksynth::kentik::as_micros(Duration::from_secs(4000)));
    assert_eq!(1500, ksynth::kentik::as_micros(Duration::from_nanos(1_500_999)));
}

#[test]
fn customs_drop_columns_beyond_capacity() {
    let mut cs = Customs::new(2);
    cs.next(1, CustomValue::UInt32(10));
    cs.next(2, CustomValue::UInt64(20));
    cs.next(3, CustomValue::UInt32(30));
    let items = cs.finish();
    assert_eq!(2, items.len());
    assert_eq!(1, items[0].id);
    assert_eq!(2, items[1].id);
}

#[test]
fn json_values_fill_columns() {
    match CustomValue::try_from(Kind::String, &JsonValue::Str("x".into())) {
        Ok(CustomValue::Str(s)) => assert_eq!("x", s),
        other => panic!("{:?}", other),
    }
    assert!(matches!(CustomValue::try_from(Kind::UInt32, &JsonValue::Unsigned(7)), Ok(CustomValue::UInt32(7))));
    assert!(matches!(CustomValue::try_from(Kind::UInt64, &JsonValue::Unsigned(1 << 40)), Ok(CustomValue::UInt64(_))));
    assert_eq!(Some(ValueError::Range), CustomValue::try_from(Kind::UInt32, &JsonValue::Unsigned(1 << 40)).err());
    assert_eq!(Some(ValueError::InvalidStr), CustomValue::try_from(Kind::String, &JsonValue::Unsigned(1)).err());
    assert_eq!(Some(ValueError::InvalidU32), CustomValue::try_from(Kind::UInt32, &JsonValue::Other).err());
    assert_eq!(Some(ValueError::InvalidU64), CustomValue::try_from(Kind::UInt64, &JsonValue::Str("1".into())).err());
    assert_eq!(Some(ValueError::Unsupported(Kind::Addr)), CustomValue::try_from(Kind::Addr, &JsonValue::Other).err());
}

#[test]
fn session_ids() {
    assert_eq!("12:foo:345", ksynth::kentik::session_id(12, 345));
    assert_eq!(format!("{}:foo:0", u64::MAX), ksynth::kentik::session_id(u64::MAX, 0));
}

#[test]
fn device_columns_by_name_later_wins() {
    let device = Device {
        id: 1,
        columns: vec![
            Column { id: 1, name: "INT00".into(), kind: Kind::UInt32 },
            Column { id: 2, name: "STR00".into(), kind: Kind::String },
            Column { id: 3, name: "INT00".into(), kind: Kind::UInt64 },
        ],
    };
    let map = columns(&device).unwrap();
    assert_eq!(2, map.len());
    let find = |n: &str| map.iter().find(|(k, _)| k == n).map(|(_, c)| *c);
    assert_eq!(Some(NamedColumn { id: 3, kind: Kind::UInt64 }), find("INT00"));
    assert_eq!(Some(NamedColumn { id: 2, kind: Kind::String }), find("STR00"));

    let wide = Device { id: 1, columns: vec![Column { id: 1 << 32, name: "X".into(), kind: Kind::Addr }] };
    assert_eq!(Some(ColumnIdRange), columns(&wide).err());
}
