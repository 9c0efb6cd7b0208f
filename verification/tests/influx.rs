use ksynth::influx::{self, Field, Point, RangeError, Rendered, Tag, Value};
use ksynth::net::IpAddr;
use ksynth::record::{Fetch, Hop, Knock, Query, Record, Shake, Summary, Timeout, Trace};
use ksynth::time::Duration;
use ksynth::influx::{basic_credentials, basic_value, Auth};

fn float(v: f64) -> Value {
    Value::Float(ryu::Buffer::new().format(v).to_string())
}

fn field(key: &str, value: Value) -> Field {
    Field { key: key.to_string(), value }
}

fn tag(key: &str, value: &str) -> Tag {
    Tag { key: key.to_string(), value: value.to_string() }
}

#[test]
fn write_point() {
    let point = Point {
        measurement: "point".into(),
        tags: vec![],
        fields: vec![field("value", float(3.14))],
        timestamp: 1234,
    };

    let expect = "point value=3.14 1234\n";

    assert_eq!(expect, point.to_text());
}

#[test]
fn write_tags() {
    let point = Point {
        measurement: "point".into(),
        tags: vec![tag("foo", "A"), tag("bar", "B")],
        fields: vec![field("value", float(3.14))],
        timestamp: 1234,
    };

    let expect = "point,foo=A,bar=B value=3.14 1234\n";

    assert_eq!(expect, point.to_text());
}

#[test]
fn write_fields() {
    let point = Point {
        measurement: "point".into(),
        tags: vec![],
        fields: vec![field("foo", float(3.14)), field("bar", float(6.28))],
        timestamp: 1234,
    };

    let expect = "point foo=3.14,bar=6.28 1234\n";

    assert_eq!(expect, point.to_text());
}

#[test]
fn write_value() {
    fn check(expect: &str, v: Value) {
        let mut vec = Vec::new();
        v.write(&mut vec);
        let actual = String::from_utf8(vec).unwrap();
        assert_eq!(expect, actual);
    }

    check("3.141", float(3.141f64));
    check("-1.23", float(-1.23f64));
    check("-456i", Value::Int(i64::from(-456i16)));
    check("7890u", Value::UInt(u64::from(7890u32)));
    check("true", Value::Bool(true));
    check("false", Value::Bool(false));
    check("\"A\"", Value::Str("A".to_string()));
}

#[test]
fn point_bytes_follow_the_text() {
    let point = Point {
        measurement: "m".into(),
        tags: vec![tag("k", "v")],
        fields: vec![field("a", Value::Int(-1)), field("b", Value::UInt(u64::MAX))],
        timestamp: u128::MAX,
    };
    let mut vec = b"prefix ".to_vec();
    point.write(&mut vec);
    let expect = format!("prefix m,k=v a=-1i,b={}u {}\n", u64::MAX, u128::MAX);
    assert_eq!(expect.as_bytes(), &vec[..]);
}

fn fetch_record(size: usize) -> Fetch {
    Fetch {
        task: 1,
        test: 2,
        target: "example.com".to_string(),
        addr: IpAddr::V4(0x0a00_0001),
        status: 200,
        dns: Duration::from_micros(10),
        tcp: Duration::from_micros(20),
        tls: Duration::from_micros(30),
        rtt: Duration::from_secs(3000),
        size,
    }
}

#[test]
fn fetch_point() {
    let p = match influx::fetch(&fetch_record(512), "agent-1", "10.0.0.1", 99) {
        Ok(p) => p,
        Err(_) => panic!("size fits"),
    };
    assert_eq!(
        "ksynth,agent=agent-1,task=fetch,target=example.com,addr=10.0.0.1 status=200i,size=512i,rtt=0i,dns=10i,tcp=20i,tls=30i 99\n",
        p.to_text()
    );
}

#[test]
fn fetch_size_out_of_range() {
    if usize::BITS == 64 {
        let size = usize::try_from(u64::MAX).unwrap();
        assert_eq!(Some(RangeError), influx::fetch(&fetch_record(size), "a", "b", 0).err());
    }
}

fn knock_record(sent: u32, lost: u32) -> Knock {
    let d = Duration::from_micros(7);
    Knock {
        task: 1,
        test: 2,
        target: "host".to_string(),
        addr: IpAddr::V4(1),
        port: 443,
        sent,
        lost,
        rtt: Summary { min: d, max: d, avg: d, std: d, jit: d },
        result: vec![Duration::from_micros(5), Duration::from_micros(6)],
    }
}

#[test]
fn knock_points() {
    let mut out = String::new();
    assert!(influx::knock(&knock_record(4, 1), "a", "0.0.0.1", "0.25", 5, &mut out).is_ok());
    assert_eq!(
        "ksynth,agent=a,task=knock,target=host,addr=0.0.0.1 lost=1i,sent=4i,loss=0.25,rtt=5i 5\n\
         ksynth,agent=a,task=knock,target=host,addr=0.0.0.1 lost=1i,sent=4i,loss=0.25,rtt=6i 5\n",
        out
    );
    let mut none = String::new();
    assert_eq!(Err(RangeError), influx::knock(&knock_record(u32::MAX, 0), "a", "b", "0", 5, &mut none));
    assert!(none.is_empty());
}

#[test]
fn batch_stops_at_first_unwritable_record() {
    let rendered = |addr: &str, loss: &str| Rendered { addr: addr.to_string(), loss: loss.to_string() };
    let records = vec![
        (Record::Fetch(fetch_record(1)), rendered("10.0.0.1", "")),
        (Record::Timeout(Timeout { task: 1, test: 1 }), rendered("", "")),
        (Record::Knock(knock_record(1 << 31, 0)), rendered("x", "0")),
        (Record::Timeout(Timeout { task: 2, test: 2 }), rendered("", "")),
    ];
    let mut buf = Vec::new();
    assert_eq!(Err(RangeError), influx::encode("ag", &records, 7, &mut buf));
    let fetch = influx::fetch(&fetch_record(1), "ag", "10.0.0.1", 7).ok().unwrap().to_text();
    assert_eq!(fetch.as_bytes(), &buf[..]);

    let mut all = Vec::new();
    assert_eq!(Ok(()), influx::encode("ag", &records[..2], 7, &mut all));
    assert_eq!(fetch.as_bytes(), &all[..]);
}

#[test]
fn query_shake_trace_points() {
    let q = Query { task: 1, test: 2, code: 3, record: "A".into(), answers: "x".into(), time: Duration::from_micros(44) };
    assert_eq!("ksynth,agent=a,task=query code=3i,rtt=44i 1\n", influx::query(&q, "a", 1).to_text());

    let s = Shake { task: 1, test: 2, target: "t".into(), addr: IpAddr::V4(1), port: 8443, time: Duration::from_micros(9) };
    assert_eq!("ksynth,agent=a,task=shake,target=t,addr=ad,port=8443 rtt=9i 2\n", influx::shake(&s, "a", "ad", 2).to_text());

    let t = Trace {
        task: 1,
        test: 2,
        target: "t".into(),
        addr: IpAddr::V4(1),
        hops: vec![Hop { hop: 2, nodes: vec![] }, Hop { hop: 7, nodes: vec![] }, Hop { hop: 3, nodes: vec![] }],
        route: String::new(),
        time: Duration::from_micros(12),
    };
    match influx::trace(&t, "a", "ad", 3) {
        Ok(p) => assert_eq!("ksynth,agent=a,task=trace,target=t,addr=ad hops=7i,rtt=12i 3\n", p.to_text()),
        Err(_) => panic!("hops fit"),
    }
}

#[test]
fn micros_beyond_i32_become_zero() {
    assert_eq!(0, influx::as_micros(Duration::from_secs(3000)));
    assert_eq!(2_000_000_000, influx::as_micros(Duration::from_secs(2000)));
}

#[test]
fn authorization_headers() {
    assert_eq!(Some("Token abc".to_string()), Auth::Token("abc".into()).header());
    assert_eq!(Some("Basic dXNlcjpwYXNz".to_string()), Auth::Basic("user".into(), "pass".into()).header());
    assert_eq!(Some("Basic YWI6Yw==".to_string()), Auth::Basic("ab".into(), "c".into()).header());
    assert_eq!(Some("Basic YWI6Y2Q=".to_string()), Auth::Basic("ab".into(), "cd".into()).header());
    assert_eq!(Some("Basic Pzo/".to_string()), Auth::Basic("?".into(), "?".into()).header());
    assert_eq!(Some("Basic fj46Pw==".to_string()), Auth::Basic("~>".into(), "?".into()).header());
    assert_eq!(None, Auth::Anonymous.header());
    assert_eq!("a:b", basic_credentials("a", "b"));
    assert_eq!("Basic x", basic_value("x"));
}
