use ksynth::control::{
    command, identity, is_truthy, EnvVars, levels, lookup_strategy, machine, resolver_bind, Command, Directive, Filter,
    Handle, HandleError, LevelFilter, LookupStrategy, Signal,
};
use ksynth::export::{Key, Queue};
use ksynth::kentik::{Device, Target};
use ksynth::net::{IpAddr, Network, SocketAddr};
use ksynth::newrelic::{events_endpoint, Attribute, Attributes, Common, InvalidRegion, Metric};
use ksynth::notary::{self, update_file_name, Arch, Failure, Response, System, Version};
use ksynth::record::{Record, Timeout};
use ksynth::schema::{self, Count as CountField, Time};
use ksynth::tasks::{
    network, step, ConfigError, Count, Limit, Loader, Net, Runner, Running, State, Step, TaskConfig,
};
use ksynth::time::Duration;
use std::cell::RefCell;
use std::rc::Rc;
use ksynth::newrelic::encode_events;
use ksynth::notary::verify_release;
use ksynth::tasks::reload_due;
use ksynth::record::{Error, Opaque, Query};

fn time(s: u64) -> Time {
    Time(Duration::from_secs(s))
}

fn ping_task(count: u64) -> schema::Task {
    schema::Task {
        config: schema::Config::Ping(schema::Ping {
            target: "example.com".into(),
            count: CountField(count),
            period: time(60),
            delay: time(1),
            expiry: time(5),
        }),
        network: Network::IPv6,
    }
}

fn opaque_task() -> schema::Task {
    schema::Task {
        config: schema::Config::Opaque(schema::Opaque {
            method: "m".into(),
            config: "{}".into(),
            period: time(1),
            expiry: time(1),
        }),
        network: Network::Dual,
    }
}

#[test]
fn reload_numbers_tasks_and_deletes_previous() {
    let mut loader = Loader::new();
    let outdated = loader.reload(schema::Tasks { tasks: vec![ping_task(3), ping_task(4)] }).unwrap();
    assert!(outdated.is_empty());
    let current = loader.current();
    assert_eq!(2, current.len());
    assert_eq!((0, 1), (current[0].task, current[1].task));
    assert_eq!(State::Created, current[1].state);
    assert_eq!(Net::IPv6, current[1].family);
    match &current[1].config {
        TaskConfig::Ping(p) => {
            assert_eq!(Count(4), p.count);
            assert_eq!("example.com", p.target);
        },
        _ => panic!("ping"),
    }

    let outdated = loader.reload(schema::Tasks { tasks: vec![ping_task(9)] }).unwrap();
    assert_eq!(2, outdated.len());
    assert!(outdated.iter().all(|t| t.state == State::Deleted));
    assert_eq!(1, loader.current().len());

    assert_eq!(Some(ConfigError::Unsupported), loader.reload(schema::Tasks { tasks: vec![ping_task(1), opaque_task()] }).err());
    assert_eq!(1, loader.current().len());
}

#[test]
fn counts_and_limits_convert() {
    assert_eq!(Ok(Count(7)), Count::try_from(CountField(7)));
    assert_eq!(Ok(Limit(30)), Limit::try_from(CountField(30)));
    if usize::BITS == 32 {
        assert_eq!(Err(ConfigError::CountRange), Count::try_from(CountField(u64::MAX)));
    }
}

#[test]
fn executor_steps() {
    let mut loader = Loader::new();
    loader.reload(schema::Tasks { tasks: vec![ping_task(1)] }).unwrap();
    let task = loader.current()[0].clone();
    assert_eq!(Step::Start(Runner::Ping), step(&task));
    let mut deleted = task.clone();
    deleted.state = State::Deleted;
    assert_eq!(Step::Stop, step(&deleted));

    assert_eq!(Network::IPv4, network(Some(Network::IPv4), Net::IPv6));
    assert_eq!(Network::Dual, network(None, Net::Dual));

    let mut running: Running<&str> = Running::new();
    running.insert(4, "a");
    running.insert(4, "b");
    assert_eq!(1, running.len());
    assert_eq!(Some("b"), running.delete(4));
    assert_eq!(None, running.delete(4));
    running.insert(1, "c");
    running.reset();
    assert_eq!(0, running.len());
}

fn target(company: u64, device: u64) -> Target {
    Target {
        company,
        agent: 0,
        device: Device { id: device, columns: vec![] },
        email: String::new(),
        token: String::new(),
    }
}

#[test]
fn queue_groups_records_by_key() {
    let mut queue: Queue<u8> = Queue::new();
    let a = Key::of(&target(1, 2));
    let b = Key::of(&target(1, 3));
    queue.export(a, 10, Record::Timeout(Timeout { task: 1, test: 0 }));
    queue.export(b, 11, Record::Timeout(Timeout { task: 2, test: 0 }));
    queue.export(a, 12, Record::Timeout(Timeout { task: 3, test: 0 }));
    let status = queue.report();
    assert_eq!((2, 3), (status.length, status.records));
    let drained = queue.drain();
    assert_eq!(2, drained.len());
    assert_eq!(a, drained[0].0);
    assert_eq!(10, drained[0].1.target);
    assert_eq!(2, drained[0].1.values.len());
    assert_eq!(11, drained[1].1.target);
    assert_eq!(0, queue.report().length);
}

#[test]
fn queue_keys_records_by_target_and_keeps_first_target() {
    let mut queue: Queue<std::sync::Arc<Target>> = Queue::new();
    let first = std::sync::Arc::new(target(1, 2));
    let again = std::sync::Arc::new(target(1, 2));
    let other = std::sync::Arc::new(target(4, 2));
    queue.export_for(first.clone(), Record::Timeout(Timeout { task: 1, test: 0 }));
    queue.export_for(other.clone(), Record::Timeout(Timeout { task: 2, test: 0 }));
    queue.export_for(again.clone(), Record::Timeout(Timeout { task: 3, test: 0 }));
    let drained = queue.drain();
    assert_eq!(2, drained.len());
    assert_eq!(Key { company: 1, device: 2 }, drained[0].0);
    assert!(std::sync::Arc::ptr_eq(&first, &drained[0].1.target));
    assert_eq!(2, drained[0].1.values.len());
    assert_eq!(Key { company: 4, device: 2 }, drained[1].0);
    assert!(std::sync::Arc::ptr_eq(&other, &drained[1].1.target));
}

#[test]
fn notary_texts() {
    let v = Version { major: 1, minor: 20, patch: 3 };
    assert_eq!("1.20.3", v.to_string());
    assert_eq!("x86_64", Arch::X86_64.to_string());
    assert_eq!("aarch64", Arch::AArch64.to_string());
    assert_eq!("linux", System::Linux.to_string());
    assert_eq!("aarch64/linux", notary::Target { arch: Arch::AArch64, system: System::Linux }.to_string());
    assert_eq!("ksynth-update-1.20.3", update_file_name("ksynth", &v));

    let ok: Response<u8> = Response::Success(5);
    assert!(matches!(ok.into_result(), Ok(5)));
    let failed: Response<u8> = Response::Failure(Failure { error: "no".into() });
    match failed.into_result() {
        Err(notary::Error::Application(e)) => assert_eq!("no", e),
        _ => panic!("failure"),
    }
}

#[test]
fn newrelic_endpoints() {
    assert_eq!(
        "https://insights-collector.newrelic.com/v1/accounts/42/events",
        events_endpoint("us", "42").unwrap()
    );
    assert_eq!(
        "https://insights-collector.eu01.nr-data.net/v1/accounts/42/events",
        events_endpoint("Eu", "42").unwrap()
    );
    match events_endpoint("asia", "42") {
        Err(InvalidRegion(r)) => assert_eq!("asia", r),
        Ok(_) => panic!("invalid region"),
    }
}

#[test]
fn newrelic_json() {
    let attrs = Attributes(vec![
        Attribute::String("agent".into(), "a\"b".into()),
        Attribute::Number("port".into(), 443),
        Attribute::Boolean("ok".into(), true),
    ]);
    let mut s = String::new();
    attrs.write(&mut s);
    assert_eq!(r#"{"agent":"a\"b","port":443,"ok":true}"#, s);
    let value: serde_json::Value = serde_json::from_str(&s).unwrap();
    assert_eq!(443, value["port"]);

    let mut e = String::new();
    Attributes(vec![Attribute::String("k".into(), "\\/\n\t\u{1}\u{1f}\u{8}\u{c}\r\u{7f}é".into())]).write(&mut e);
    assert_eq!("{\"k\":\"\\\\/\\n\\t\\u0001\\u001f\\b\\f\\r\u{7f}é\"}", e);

    let mut c = String::new();
    Common { attributes: Attributes(vec![]) }.write(&mut c);
    assert_eq!(r#"{"attributes":{}}"#, c);

    let m = Metric::count("ksynth.x", 3, Duration::from_millis(12_500), Duration::from_millis(10_000));
    let mut t = String::new();
    m.write(&mut t);
    assert_eq!(
        r#"{"name":"ksynth.x","type":"count","value":3,"interval.ms":10000,"timestamp":12,"attributes":{}}"#,
        t
    );
}

/// Records what it is handed; refuses every directive after the first
/// `accept` ones.
struct Log {
    seen: Rc<RefCell<Vec<String>>>,
    accept: usize,
}

impl Log {
    fn new(accept: usize) -> (Log, Rc<RefCell<Vec<String>>>) {
        let seen = Rc::new(RefCell::new(Vec::new()));
        (Log { seen: seen.clone(), accept }, seen)
    }
}

impl Handle<Directive> for Log {
    fn modify(&self, c: Directive) -> Result<(), HandleError> {
        let text = match c.target {
            Some(t) => format!("{}={:?}", t, c.level),
            None => format!("{:?}", c.level),
        };
        self.seen.borrow_mut().push(text);
        if self.seen.borrow().len() > self.accept {
            return Err(HandleError("refused".to_string()));
        }
        Ok(())
    }
}

#[test]
fn log_levels_cycle() {
    assert_eq!((LevelFilter::Info, LevelFilter::Warn), levels(0));
    assert_eq!((LevelFilter::Trace, LevelFilter::Debug), levels(3));
    assert_eq!((LevelFilter::Trace, LevelFilter::Trace), levels(9));

    let (log, seen) = Log::new(usize::MAX);
    let mut filter = Filter::new(log, "ksynth", 3).ok().unwrap();
    assert_eq!(Some((3, 4)), filter.increment().ok());
    assert_eq!(Some((4, 0)), filter.increment().ok());
    assert_eq!(Some((0, 1)), filter.increment().ok());
    let (directive, lib) = filter.directives();
    assert_eq!(Some("ksynth".to_string()), directive.target);
    assert_eq!(None, lib.target);
    assert_eq!((LevelFilter::Debug, LevelFilter::Info), (directive.level, lib.level));
    let expected = vec![
        "ksynth=Trace", "Debug", "ksynth=Trace", "Trace", "ksynth=Info", "Warn", "ksynth=Debug", "Info",
    ];
    assert_eq!(expected, *seen.borrow());
}

#[test]
fn refused_directive_is_returned_and_level_stays_raised() {
    let (log, seen) = Log::new(3);
    let mut filter = Filter::new(log, "k", 0).ok().unwrap();
    assert!(filter.increment().is_err());
    assert_eq!(vec!["k=Info", "Warn", "k=Debug", "Info"], *seen.borrow());
    assert!(filter.increment().is_err());
    assert_eq!(5, seen.borrow().len());
    assert_eq!("k=Trace", seen.borrow()[4]);
    assert_eq!(LevelFilter::Info, filter.directives().1.level);
    assert!(Filter::new(Log::new(0).0, "k", 0).is_err());
}

#[test]
fn flags_and_signals() {
    assert!(is_truthy(""));
    assert!(is_truthy("true"));
    assert!(is_truthy("TRUE"));
    assert!(is_truthy("TrUe"));
    assert!(!is_truthy("yes"));
    assert!(!is_truthy("truee"));
    assert!(!is_truthy("1"));

    assert_eq!(Command::Stop, command(Signal::Interrupt));
    assert_eq!(Command::Stop, command(Signal::Terminate));
    assert_eq!(Command::Report, command(Signal::User1));
    assert_eq!(Command::Toggle, command(Signal::User2));
}

#[test]
fn identity_and_machine() {
    let key: Vec<u8> = (0..32).map(|i| i * 7).collect();
    assert_eq!("00070e151c23", identity(&key));
    assert_eq!("Linux host 6.1 #1 x86_64", machine("Linux", "host", "6.1", "#1", "x86_64"));
}

#[test]
fn resolver_choices() {
    let sa4 = SocketAddr::new(IpAddr::V4(0x0a00_0001), 0);
    let sa6 = SocketAddr::new(IpAddr::V6(5), 0);
    let local = SocketAddr::new(IpAddr::V4(0x7f00_0035), 53);
    let remote4 = SocketAddr::new(IpAddr::V4(0x0808_0808), 53);
    let remote6 = SocketAddr::new(IpAddr::V6(0x2001 << 112), 53);
    let local6 = SocketAddr::new(IpAddr::V6(1), 53);
    assert_eq!(None, resolver_bind(local, sa4, sa6));
    assert_eq!(None, resolver_bind(local6, sa4, sa6));
    assert_eq!(Some(sa4), resolver_bind(remote4, sa4, sa6));
    assert_eq!(Some(sa6), resolver_bind(remote6, sa4, sa6));

    assert_eq!(LookupStrategy::Ipv4Only, lookup_strategy(Some(Network::IPv4)));
    assert_eq!(LookupStrategy::Ipv6Only, lookup_strategy(Some(Network::IPv6)));
    assert_eq!(LookupStrategy::Ipv4AndIpv6, lookup_strategy(None));
    assert_eq!(LookupStrategy::Ipv4AndIpv6, lookup_strategy(Some(Network::Dual)));
}

#[test]
fn newrelic_events() {
    let rs = vec![
        (Record::Query(Query {
            task: 1,
            test: 2,
            code: 3,
            record: "A".into(),
            answers: "1.2.3.4".into(),
            time: Duration::from_micros(55),
        }), String::new()),
        (Record::Opaque(Opaque { task: 1, test: 1, output: "{}".into() }), String::new()),
        (Record::Error(Error { task: 1, test: 1, cause: "bad".into() }), String::new()),
        (Record::Timeout(Timeout { task: 1, test: 1 }), String::new()),
    ];
    assert_eq!(
        r#"[{"eventType":"query","agent":"ag","record":"A","code":3,"answers":"1.2.3.4","time":55},{"eventType":"error","agent":"ag","cause":"bad"},{"eventType":"timeout"}]"#,
        encode_events("ag", &rs)
    );
    assert_eq!("[]", encode_events("ag", &[]));
}

#[test]
fn five_raises_come_back() {
    let (log, _) = Log::new(usize::MAX);
    let mut filter = Filter::new(log, "k", 2).ok().unwrap();
    for _ in 0..5 {
        filter.increment().ok().unwrap();
    }
    assert_eq!(Some((2, 3)), filter.increment().ok());
}

#[test]
fn releases_verify_against_the_notary_key() {
    let keys = ed25519_compact::KeyPair::from_seed(ed25519_compact::Seed::new([7u8; 32]));
    let content = b"new agent binary".to_vec();
    let body = zstd::stream::encode_all(&content[..], 3).unwrap();
    let hash = hmac_sha512::Hash::hash(&content);
    let signature = keys.sk.sign(&hash[..], None);
    let public: [u8; 32] = *keys.pk;

    match verify_release(&public, &body, &signature[..]) {
        Ok(v) => assert_eq!(content, v),
        Err(e) => panic!("{:?}", e),
    }

    let mut forged = signature.to_vec();
    forged[10] ^= 1;
    assert!(matches!(verify_release(&public, &body, &forged), Err(notary::Error::InvalidSignature)));
    assert!(matches!(verify_release(&public, &body, &forged[..63]), Err(notary::Error::InvalidSignature)));
    assert!(matches!(verify_release(&public, b"not zstd", &signature[..]), Err(notary::Error::Transport(_))));
    assert!(matches!(verify_release(&public, b"not zstd", &signature[..63]), Err(notary::Error::InvalidSignature)));
    let cut = &body[..body.len() - 3];
    assert!(matches!(verify_release(&public, cut, &signature[..]), Err(notary::Error::InvalidSignature)));
}

#[test]
fn task_file_reload_waits_for_a_quiet_second() {
    let t = |s: u64| Duration::from_secs(s);
    assert!(reload_due(t(10), t(5), Duration::from_millis(1001)));
    assert!(!reload_due(t(10), t(5), t(1)));
    assert!(!reload_due(t(5), t(5), t(30)));
    assert!(!reload_due(t(4), t(5), t(30)));
}

#[test]
fn environment_sets_flags_and_last_declared_wins() {
    let found = vec![
        ("ip4".to_string(), Some("TRUE".to_string())),
        ("name".to_string(), Some("x".to_string())),
        ("ip4".to_string(), None),
        ("ip6".to_string(), Some("no".to_string())),
        ("global".to_string(), Some(String::new())),
        ("name".to_string(), Some("y".to_string())),
    ];
    let vars = EnvVars::new(found);
    assert!(vars.is_set("ip4"));
    assert!(!vars.is_set("ip6"));
    assert!(vars.is_set("global"));
    assert!(!vars.is_set("missing"));
    assert_eq!(Some("y".to_string()), vars.get("name"));
    assert_eq!(None, vars.get("nam"));
    assert!(vars.is_present(true, "ip6"));
    assert!(!vars.is_present(false, "ip6"));
    assert!(vars.is_present(false, "ip4"));
}
