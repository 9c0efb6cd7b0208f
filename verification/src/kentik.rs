use vstd::prelude::*;
use vstd::string::StringExecFns;
use crate::net::IpAddr;
use crate::record::{Error, Fetch, Knock, Ping, Query, Record, Shake, Summary, Timeout, Trace};
use crate::text::{decimal, format_u64};
use crate::time::Duration;

verus! {

/// `APP_PROTOCOL` of every flow this agent exports.
pub const AGENT: u32 = 10;

/// Kinds of measurement, in the `INT00` column.
pub const ERROR: u32 = 0;
pub const TIMEOUT: u32 = 1;
pub const PING: u32 = 2;
pub const FETCH: u32 = 3;
pub const TRACE: u32 = 4;
pub const KNOCK: u32 = 5;
pub const QUERY: u32 = 6;
pub const SHAKE: u32 = 7;

/// The type of a custom column of a device.
#[derive(Clone, Copy, Debug, PartialEq, Eq, Structural)]
pub enum Kind {
    UInt32,
    UInt64,
    String,
    Addr,
}

/// A custom column of a device.
#[derive(Clone, Debug)]
pub struct Column {
    pub id: u64,
    pub name: String,
    pub kind: Kind,
}

/// The device that flows are exported for, and its columns.
#[derive(Clone, Debug)]
pub struct Device {
    pub id: u64,
    pub columns: Vec<Column>,
}

/// Where records go: the company, agent and device they belong to, and the
/// credentials to send them with.
#[derive(Clone, Debug)]
pub struct Target {
    pub company: u64,
    pub agent: u64,
    pub device: Device,
    pub email: String,
    pub token: String,
}

/// The value of a custom column in a flow.
#[derive(Clone, Debug)]
pub enum CustomValue {
    UInt32(u32),
    UInt64(u64),
    Str(String),
}

/// A JSON value of a task's output, as the column conversion reads it: a
/// string, a number that is an unsigned 64-bit integer, or anything else.
#[derive(Clone, Debug)]
pub enum JsonValue {
    Str(String),
    Unsigned(u64),
    Other,
}

/// Why a JSON value cannot fill a column.
#[derive(Clone, Copy, Debug, PartialEq, Eq, Structural)]
pub enum ValueError {
    /// Columns of this kind are not filled from JSON.
    Unsupported(Kind),
    /// The value is not a string.
    InvalidStr,
    /// The value is not an unsigned integer (for a 32-bit column).
    InvalidU32,
    /// The value does not fit 32 bits.
    Range,
    /// The value is not an unsigned integer (for a 64-bit column).
    InvalidU64,
}

/// The column value of a JSON value for a column of `kind`.
pub open spec fn spec_custom_value(kind: Kind, v: JsonValue) -> Result<CustomValue, ValueError> {
    match kind {
        Kind::String => match v {
            JsonValue::Str(s) => Ok(CustomValue::Str(s)),
            _ => Err(ValueError::InvalidStr),
        },
        Kind::UInt32 => match v {
            JsonValue::Unsigned(n) => if n <= u32::MAX {
                Ok(CustomValue::UInt32(n as u32))
            } else {
                Err(ValueError::Range)
            },
            _ => Err(ValueError::InvalidU32),
        },
        Kind::UInt64 => match v {
            JsonValue::Unsigned(n) => Ok(CustomValue::UInt64(n)),
            _ => Err(ValueError::InvalidU64),
        },
        Kind::Addr => Err(ValueError::Unsupported(Kind::Addr)),
    }
}

impl CustomValue {
    /// The value a JSON value gives a column of `kind`.
    pub fn try_from(kind: Kind, v: &JsonValue) -> (r: Result<CustomValue, ValueError>)
        ensures
            r == spec_custom_value(kind, *v),
    {
        match kind {
            Kind::String => match v {
                JsonValue::Str(s) => Ok(CustomValue::Str(s.clone())),
                _ => Err(ValueError::InvalidStr),
            },
            Kind::UInt32 => match v {
                JsonValue::Unsigned(n) => if *n <= 0xffff_ffffu64 {
                    Ok(CustomValue::UInt32(*n as u32))
                } else {
                    Err(ValueError::Range)
                },
                _ => Err(ValueError::InvalidU32),
            },
            Kind::UInt64 => match v {
                JsonValue::Unsigned(n) => Ok(CustomValue::UInt64(*n)),
                _ => Err(ValueError::InvalidU64),
            },
            Kind::Addr => Err(ValueError::Unsupported(Kind::Addr)),
        }
    }
}

/// A custom column of a flow: its id and value.
#[derive(Clone, Debug)]
pub struct Custom {
    pub id: u32,
    pub value: CustomValue,
}

/// A flow message: sampling, addresses and custom columns.
#[derive(Clone, Debug)]
pub struct Flow {
    pub sample_rate: u32,
    pub sample_adj: bool,
    pub src: IpAddr,
    pub dst: Option<IpAddr>,
    pub customs: Vec<Custom>,
}

/// A flow message as values.
pub struct FlowView {
    pub sample_rate: u32,
    pub sample_adj: bool,
    pub src: IpAddr,
    pub dst: Option<IpAddr>,
    pub customs: Seq<Custom>,
}

impl View for Flow {
    type V = FlowView;

    open spec fn view(&self) -> FlowView {
        FlowView {
            sample_rate: self.sample_rate,
            sample_adj: self.sample_adj,
            src: self.src,
            dst: self.dst,
            customs: self.customs@,
        }
    }
}

/// A device lacks a column the flows need.
#[derive(Clone, Debug)]
pub struct MissingColumn(pub String);

/// The custom columns of a flow under construction, up to a fixed number;
/// columns beyond it are dropped.
pub struct Customs {
    items: Vec<Custom>,
    count: u32,
}

impl Customs {
    /// The columns so far.
    pub closed spec fn items(&self) -> Seq<Custom> {
        self.items@
    }

    /// How many columns the flow takes.
    pub closed spec fn capacity(&self) -> nat {
        self.count as nat
    }

    /// A flow with room for `n` columns and none yet.
    pub fn new(n: u32) -> (c: Customs)
        ensures
            c.items() == Seq::<Custom>::empty(),
            c.capacity() == n,
    {
        Customs { items: Vec::new(), count: n }
    }

    /// Adds a column if there is room for it.
    pub fn next(&mut self, id: u32, value: CustomValue)
        ensures
            final(self).capacity() == old(self).capacity(),
            old(self).items().len() < old(self).capacity() ==> final(self).items() == old(self).items().push(
                Custom { id, value },
            ),
            old(self).items().len() >= old(self).capacity() ==> final(self).items() == old(self).items(),
    {
        if self.items.len() < self.count as usize {
            self.items.push(Custom { id, value });
        }
    }

    /// The columns.
    pub fn finish(self) -> (r: Vec<Custom>)
        ensures
            r@ == self.items(),
    {
        self.items
    }
}

/// Round-trip statistics columns.
#[derive(Clone, Copy, Debug, PartialEq, Eq, Structural)]
pub struct Stats {
    pub min: u32,
    pub max: u32,
    pub avg: u32,
    pub std: u32,
    pub jit: u32,
}

/// The ids of the columns that flows fill.
#[derive(Clone, Copy, Debug, PartialEq, Eq, Structural)]
pub struct Columns {
    pub app: u32,
    pub agent: u32,
    pub kind: u32,
    pub task: u32,
    pub test: u32,
    pub cause: u32,
    pub status: u32,
    pub ttlb: u32,
    pub size: u32,
    pub sent: u32,
    pub lost: u32,
    pub code: u32,
    pub rtt: Stats,
    pub route: u32,
    pub time: u32,
    pub port: u32,
    pub data: u32,
    pub record: u32,
}

/// The names of the columns flows need, in the order they are looked up.
pub open spec fn wanted() -> Seq<Seq<char>> {
    seq![
        "APP_PROTOCOL"@,
        "INT64_00"@,
        "INT00"@,
        "INT64_01"@,
        "INT64_02"@,
        "STR00"@,
        "INT01"@,
        "INT02"@,
        "INT03"@,
        "INT04"@,
        "INT05"@,
        "INT06"@,
        "INT07"@,
        "INT08"@,
        "STR01"@
    ]
}

/// The id of the first column named `name` at or after position `i`.
pub open spec fn scan_column(cols: Seq<Column>, name: Seq<char>, i: int) -> Option<u64>
    decreases cols.len() - i,
{
    if i < 0 || i >= cols.len() {
        None
    } else if cols[i].name@ == name {
        Some(cols[i].id)
    } else {
        scan_column(cols, name, i + 1)
    }
}

/// The id of the first column named `name`.
pub open spec fn column_id(cols: Seq<Column>, name: Seq<char>) -> Option<u64> {
    scan_column(cols, name, 0)
}

/// The first of `names` from position `i` on that no column has.
pub open spec fn missing_from(cols: Seq<Column>, names: Seq<Seq<char>>, i: int) -> Option<Seq<char>>
    decreases names.len() - i,
{
    if i < 0 || i >= names.len() {
        None
    } else if column_id(cols, names[i]) is None {
        Some(names[i])
    } else {
        missing_from(cols, names, i + 1)
    }
}

/// The first needed column that is missing.
pub open spec fn first_missing(cols: Seq<Column>) -> Option<Seq<char>> {
    missing_from(cols, wanted(), 0)
}

/// The id of the `k`th needed column, cut to 32 bits.
pub open spec fn wanted_id(cols: Seq<Column>, k: int) -> u32 {
    column_id(cols, wanted()[k])->0 as u32
}

/// The column ids flows use, read from the device's columns.
pub open spec fn spec_columns(cols: Seq<Column>) -> Columns {
    Columns {
        app: wanted_id(cols, 0),
        agent: wanted_id(cols, 1),
        kind: wanted_id(cols, 2),
        task: wanted_id(cols, 3),
        test: wanted_id(cols, 4),
        cause: wanted_id(cols, 5),
        status: wanted_id(cols, 6),
        ttlb: wanted_id(cols, 7),
        size: wanted_id(cols, 8),
        sent: wanted_id(cols, 6),
        lost: wanted_id(cols, 7),
        code: wanted_id(cols, 7),
        rtt: Stats {
            min: wanted_id(cols, 8),
            max: wanted_id(cols, 9),
            avg: wanted_id(cols, 10),
            std: wanted_id(cols, 11),
            jit: wanted_id(cols, 12),
        },
        route: wanted_id(cols, 5),
        time: wanted_id(cols, 6),
        port: wanted_id(cols, 13),
        data: wanted_id(cols, 5),
        record: wanted_id(cols, 14),
    }
}

/// The id of the first column named `name`, cut to 32 bits.
fn lookup(cols: &Vec<Column>, name: &String) -> (r: Option<u32>)
    ensures
        match column_id(cols@, name@) {
            Some(id) => r == Some(id as u32),
            None => r is None,
        },
{
    let mut i: usize = 0;
    while i < cols.len()
        invariant
            i <= cols@.len(),
            column_id(cols@, name@) == scan_column(cols@, name@, i as int),
        decreases cols@.len() - i,
    {
        if cols[i].name == *name {
            return Some(cols[i].id as u32);
        }
        i = i + 1;
    }
    None
}

/// The names of the needed columns.
fn wanted_names() -> (r: Vec<String>)
    ensures
        r@.len() == wanted().len(),
        forall|k: int| 0 <= k < r@.len() ==> #[trigger] r@[k]@ == wanted()[k],
{
    let mut v: Vec<String> = Vec::new();
    v.push(String::from_str("APP_PROTOCOL"));
    v.push(String::from_str("INT64_00"));
    v.push(String::from_str("INT00"));
    v.push(String::from_str("INT64_01"));
    v.push(String::from_str("INT64_02"));
    v.push(String::from_str("STR00"));
    v.push(String::from_str("INT01"));
    v.push(String::from_str("INT02"));
    v.push(String::from_str("INT03"));
    v.push(String::from_str("INT04"));
    v.push(String::from_str("INT05"));
    v.push(String::from_str("INT06"));
    v.push(String::from_str("INT07"));
    v.push(String::from_str("INT08"));
    v.push(String::from_str("STR01"));
    v
}

/// The ids of all needed columns, or the first that is missing.
fn find_all(cols: &Vec<Column>) -> (r: Result<Vec<u32>, MissingColumn>)
    ensures
        match r {
            Ok(ids) => first_missing(cols@) is None && ids@.len() == wanted().len() && forall|k: int|
                0 <= k < ids@.len() ==> #[trigger] ids@[k] == wanted_id(cols@, k),
            Err(MissingColumn(name)) => first_missing(cols@) == Some(name@),
        },
{
    let names = wanted_names();
    let mut ids: Vec<u32> = Vec::new();
    let mut k: usize = 0;
    while k < names.len()
        invariant
            names@.len() == wanted().len(),
            forall|j: int| 0 <= j < names@.len() ==> #[trigger] names@[j]@ == wanted()[j],
            k <= names@.len(),
            ids@.len() == k,
            first_missing(cols@) == missing_from(cols@, wanted(), k as int),
            forall|j: int| 0 <= j < k ==> #[trigger] ids@[j] == wanted_id(cols@, j),
        decreases names@.len() - k,
    {
        match lookup(cols, &names[k]) {
            Some(id) => {
                ids.push(id);
            },
            None => {
                return Err(MissingColumn(names[k].clone()));
            },
        }
        k = k + 1;
    }
    Ok(ids)
}

impl Columns {
    /// The column ids a device provides, or the first needed column it
    /// lacks.
    pub fn new(target: &Target) -> (r: Result<Columns, MissingColumn>)
        ensures
            match r {
                Ok(c) => first_missing(target.device.columns@) is None && c == spec_columns(
                    target.device.columns@,
                ),
                Err(MissingColumn(name)) => first_missing(target.device.columns@) == Some(name@),
            },
    {
        let ids = match find_all(&target.device.columns) {
            Ok(ids) => ids,
            Err(e) => return Err(e),
        };
        Ok(Columns {
            app: ids[0],
            agent: ids[1],
            kind: ids[2],
            task: ids[3],
            test: ids[4],
            cause: ids[5],
            status: ids[6],
            ttlb: ids[7],
            size: ids[8],
            sent: ids[6],
            lost: ids[7],
            code: ids[7],
            rtt: Stats { min: ids[8], max: ids[9], avg: ids[10], std: ids[11], jit: ids[12] },
            route: ids[5],
            time: ids[6],
            port: ids[13],
            data: ids[5],
            record: ids[14],
        })
    }
}

/// Microseconds of a span as 32 bits, or zero when they do not fit.
pub open spec fn micros32(d: Duration) -> u32 {
    if d.total_nanos() / 1000 <= u32::MAX {
        (d.total_nanos() / 1000) as u32
    } else {
        0
    }
}

/// Microseconds of a span as 32 bits, or zero when they do not fit.
pub fn as_micros(d: Duration) -> (r: u32)
    ensures
        r == micros32(d),
{
    let m = d.as_micros();
    if m <= 0xffff_ffffu128 {
        m as u32
    } else {
        0
    }
}

pub open spec fn u32_custom(id: u32, v: u32) -> Custom {
    Custom { id, value: CustomValue::UInt32(v) }
}

pub open spec fn u64_custom(id: u32, v: u64) -> Custom {
    Custom { id, value: CustomValue::UInt64(v) }
}

pub open spec fn str_custom(id: u32, v: String) -> Custom {
    Custom { id, value: CustomValue::Str(v) }
}

/// The columns every flow starts with.
pub open spec fn header(c: Columns, agent: u64, kind: u32, task: u64, test: u64) -> Seq<Custom> {
    seq![
        u32_custom(c.app, AGENT),
        u64_custom(c.agent, agent),
        u32_custom(c.kind, kind),
        u64_custom(c.task, task),
        u64_custom(c.test, test)
    ]
}

/// The round-trip statistics columns.
pub open spec fn stats(c: Columns, rtt: Summary) -> Seq<Custom> {
    seq![
        u32_custom(c.rtt.min, micros32(rtt.min)),
        u32_custom(c.rtt.max, micros32(rtt.max)),
        u32_custom(c.rtt.avg, micros32(rtt.avg)),
        u32_custom(c.rtt.std, micros32(rtt.std)),
        u32_custom(c.rtt.jit, micros32(rtt.jit))
    ]
}

/// A size as 32 bits, or zero when it does not fit.
pub open spec fn size32(n: usize) -> u32 {
    if n <= u32::MAX {
        n as u32
    } else {
        0
    }
}

pub open spec fn fetch_customs(c: Columns, agent: u64, d: Fetch) -> Seq<Custom> {
    header(c, agent, FETCH, d.task, d.test) + seq![
        u32_custom(c.status, d.status as u32),
        u32_custom(c.ttlb, micros32(d.rtt)),
        u32_custom(c.size, size32(d.size))
    ]
}

pub open spec fn knock_customs(c: Columns, agent: u64, d: Knock) -> Seq<Custom> {
    header(c, agent, KNOCK, d.task, d.test) + seq![
        u32_custom(c.port, d.port as u32),
        u32_custom(c.sent, d.sent),
        u32_custom(c.lost, d.lost)
    ] + stats(c, d.rtt)
}

pub open spec fn ping_customs(c: Columns, agent: u64, d: Ping) -> Seq<Custom> {
    header(c, agent, PING, d.task, d.test) + seq![
        u32_custom(c.sent, d.sent),
        u32_custom(c.lost, d.lost)
    ] + stats(c, d.rtt)
}

pub open spec fn query_customs(c: Columns, agent: u64, d: Query) -> Seq<Custom> {
    header(c, agent, QUERY, d.task, d.test) + seq![
        str_custom(c.data, d.answers),
        str_custom(c.record, d.record),
        u32_custom(c.time, micros32(d.time)),
        u32_custom(c.code, d.code as u32)
    ]
}

pub open spec fn shake_customs(c: Columns, agent: u64, d: Shake) -> Seq<Custom> {
    header(c, agent, SHAKE, d.task, d.test) + seq![
        u32_custom(c.time, micros32(d.time)),
        u32_custom(c.port, d.port as u32)
    ]
}

pub open spec fn trace_customs(c: Columns, agent: u64, d: Trace) -> Seq<Custom> {
    header(c, agent, TRACE, d.task, d.test) + seq![
        str_custom(c.route, d.route),
        u32_custom(c.time, micros32(d.time))
    ]
}

pub open spec fn error_customs(c: Columns, agent: u64, d: Error) -> Seq<Custom> {
    header(c, agent, ERROR, d.task, d.test) + seq![str_custom(c.cause, d.cause)]
}

pub open spec fn timeout_customs(c: Columns, agent: u64, d: Timeout) -> Seq<Custom> {
    header(c, agent, TIMEOUT, d.task, d.test)
}

/// The destination and custom columns of the flow for a record. A record
/// of a kind this agent does not run has neither.
pub open spec fn spec_record(c: Columns, agent: u64, r: Record) -> (Option<IpAddr>, Seq<Custom>) {
    match r {
        Record::Fetch(d) => (Some(d.addr), fetch_customs(c, agent, d)),
        Record::Knock(d) => (Some(d.addr), knock_customs(c, agent, d)),
        Record::Opaque(_) => (None, Seq::empty()),
        Record::Ping(d) => (Some(d.addr), ping_customs(c, agent, d)),
        Record::Query(d) => (None, query_customs(c, agent, d)),
        Record::Shake(d) => (Some(d.addr), shake_customs(c, agent, d)),
        Record::Trace(d) => (Some(d.addr), trace_customs(c, agent, d)),
        Record::Error(d) => (None, error_customs(c, agent, d)),
        Record::Timeout(d) => (None, timeout_customs(c, agent, d)),
    }
}

/// The flow for a record: sampled one in one, from the unspecified IPv4
/// address.
pub open spec fn spec_flow(c: Columns, agent: u64, r: Record) -> FlowView {
    FlowView {
        sample_rate: 1,
        sample_adj: true,
        src: IpAddr::V4(0),
        dst: spec_record(c, agent, r).0,
        customs: spec_record(c, agent, r).1,
    }
}

fn header_customs(cs: &mut Customs, c: &Columns, agent: u64, kind: u32, task: u64, test: u64)
    requires
        old(cs).items().len() + 5 <= old(cs).capacity(),
    ensures
        final(cs).capacity() == old(cs).capacity(),
        final(cs).items() == old(cs).items() + header(*c, agent, kind, task, test),
{
    let ghost start = cs.items();
    cs.next(c.app, CustomValue::UInt32(AGENT));
    cs.next(c.agent, CustomValue::UInt64(agent));
    cs.next(c.kind, CustomValue::UInt32(kind));
    cs.next(c.task, CustomValue::UInt64(task));
    cs.next(c.test, CustomValue::UInt64(test));
    assert(cs.items() =~= start + header(*c, agent, kind, task, test));
}

fn stats_customs(cs: &mut Customs, c: &Columns, rtt: &Summary)
    requires
        old(cs).items().len() + 5 <= old(cs).capacity(),
    ensures
        final(cs).capacity() == old(cs).capacity(),
        final(cs).items() == old(cs).items() + stats(*c, *rtt),
{
    let ghost start = cs.items();
    cs.next(c.rtt.min, CustomValue::UInt32(as_micros(rtt.min)));
    cs.next(c.rtt.max, CustomValue::UInt32(as_micros(rtt.max)));
    cs.next(c.rtt.avg, CustomValue::UInt32(as_micros(rtt.avg)));
    cs.next(c.rtt.std, CustomValue::UInt32(as_micros(rtt.std)));
    cs.next(c.rtt.jit, CustomValue::UInt32(as_micros(rtt.jit)));
    assert(cs.items() =~= start + stats(*c, *rtt));
}

fn flow(dst: Option<IpAddr>, customs: Customs) -> (f: Flow)
    ensures
        f@.sample_rate == 1,
        f@.sample_adj,
        f@.src == IpAddr::V4(0),
        f@.dst == dst,
        f@.customs == customs.items(),
{
    Flow { sample_rate: 1, sample_adj: true, src: IpAddr::V4(0), dst, customs: customs.finish() }
}

impl Columns {
    /// The flow for the result of an HTTP request.
    pub fn fetch(&self, agent: u64, data: &Fetch) -> (f: Flow)
        ensures
            f@ == spec_flow(*self, agent, Record::Fetch(*data)),
    {
        let size: u32 = if data.size <= 0xffff_ffffusize {
            data.size as u32
        } else {
            0
        };
        let mut cs = Customs::new(8);
        header_customs(&mut cs, self, agent, FETCH, data.task, data.test);
        cs.next(self.status, CustomValue::UInt32(data.status as u32));
        cs.next(self.ttlb, CustomValue::UInt32(as_micros(data.rtt)));
        cs.next(self.size, CustomValue::UInt32(size));
        assert(cs.items() =~= fetch_customs(*self, agent, *data));
        flow(Some(data.addr), cs)
    }

    /// The flow for the result of a series of TCP connections.
    pub fn knock(&self, agent: u64, data: &Knock) -> (f: Flow)
        ensures
            f@ == spec_flow(*self, agent, Record::Knock(*data)),
    {
        let mut cs = Customs::new(13);
        header_customs(&mut cs, self, agent, KNOCK, data.task, data.test);
        cs.next(self.port, CustomValue::UInt32(data.port as u32));
        cs.next(self.sent, CustomValue::UInt32(data.sent));
        cs.next(self.lost, CustomValue::UInt32(data.lost));
        stats_customs(&mut cs, self, &data.rtt);
        assert(cs.items() =~= knock_customs(*self, agent, *data));
        flow(Some(data.addr), cs)
    }

    /// The flow for the result of a series of ICMP echo requests.
    pub fn ping(&self, agent: u64, data: &Ping) -> (f: Flow)
        ensures
            f@ == spec_flow(*self, agent, Record::Ping(*data)),
    {
        let mut cs = Customs::new(12);
        header_customs(&mut cs, self, agent, PING, data.task, data.test);
        cs.next(self.sent, CustomValue::UInt32(data.sent));
        cs.next(self.lost, CustomValue::UInt32(data.lost));
        stats_customs(&mut cs, self, &data.rtt);
        assert(cs.items() =~= ping_customs(*self, agent, *data));
        flow(Some(data.addr), cs)
    }

    /// The flow for the result of a DNS query.
    pub fn query(&self, agent: u64, data: &Query) -> (f: Flow)
        ensures
            f@ == spec_flow(*self, agent, Record::Query(*data)),
    {
        let mut cs = Customs::new(9);
        header_customs(&mut cs, self, agent, QUERY, data.task, data.test);
        cs.next(self.data, CustomValue::Str(data.answers.clone()));
        cs.next(self.record, CustomValue::Str(data.record.clone()));
        cs.next(self.time, CustomValue::UInt32(as_micros(data.time)));
        cs.next(self.code, CustomValue::UInt32(data.code as u32));
        assert(cs.items() =~= query_customs(*self, agent, *data));
        flow(None, cs)
    }

    /// The flow for the result of a TLS handshake.
    pub fn shake(&self, agent: u64, data: &Shake) -> (f: Flow)
        ensures
            f@ == spec_flow(*self, agent, Record::Shake(*data)),
    {
        let mut cs = Customs::new(7);
        header_customs(&mut cs, self, agent, SHAKE, data.task, data.test);
        cs.next(self.time, CustomValue::UInt32(as_micros(data.time)));
        cs.next(self.port, CustomValue::UInt32(data.port as u32));
        assert(cs.items() =~= shake_customs(*self, agent, *data));
        flow(Some(data.addr), cs)
    }

    /// The flow for the result of a route trace.
    pub fn trace(&self, agent: u64, data: &Trace) -> (f: Flow)
        ensures
            f@ == spec_flow(*self, agent, Record::Trace(*data)),
    {
        let mut cs = Customs::new(7);
        header_customs(&mut cs, self, agent, TRACE, data.task, data.test);
        cs.next(self.route, CustomValue::Str(data.route.clone()));
        cs.next(self.time, CustomValue::UInt32(as_micros(data.time)));
        assert(cs.items() =~= trace_customs(*self, agent, *data));
        flow(Some(data.addr), cs)
    }

    /// The flow for a task that failed.
    pub fn error(&self, agent: u64, data: &Error) -> (f: Flow)
        ensures
            f@ == spec_flow(*self, agent, Record::Error(*data)),
    {
        let mut cs = Customs::new(6);
        header_customs(&mut cs, self, agent, ERROR, data.task, data.test);
        cs.next(self.cause, CustomValue::Str(data.cause.clone()));
        assert(cs.items() =~= error_customs(*self, agent, *data));
        flow(None, cs)
    }

    /// The flow for a task that did not finish in time.
    pub fn timeout(&self, agent: u64, data: &Timeout) -> (f: Flow)
        ensures
            f@ == spec_flow(*self, agent, Record::Timeout(*data)),
    {
        let mut cs = Customs::new(5);
        header_customs(&mut cs, self, agent, TIMEOUT, data.task, data.test);
        assert(cs.items() =~= timeout_customs(*self, agent, *data));
        flow(None, cs)
    }

    /// The flow for any record.
    pub fn record(&self, agent: u64, r: &Record) -> (f: Flow)
        ensures
            f@ == spec_flow(*self, agent, *r),
    {
        match r {
            Record::Fetch(d) => self.fetch(agent, d),
            Record::Knock(d) => self.knock(agent, d),
            Record::Opaque(_) => {
                let cs = Customs::new(0);
                assert(cs.items() =~= spec_record(*self, agent, *r).1);
                flow(None, cs)
            },
            Record::Ping(d) => self.ping(agent, d),
            Record::Query(d) => self.query(agent, d),
            Record::Shake(d) => self.shake(agent, d),
            Record::Trace(d) => self.trace(agent, d),
            Record::Error(d) => self.error(agent, d),
            Record::Timeout(d) => self.timeout(agent, d),
        }
    }
}

/// The flows for a batch of records, one per record in order, or the first
/// column the target's device lacks.
pub fn encode(target: &Target, rs: &[Record]) -> (r: Result<Vec<Flow>, MissingColumn>)
    ensures
        match r {
            Ok(flows) => {
                &&& first_missing(target.device.columns@) is None
                &&& flows@.len() == rs@.len()
                &&& forall|i: int|
                    0 <= i < rs@.len() ==> #[trigger] flows@[i]@ == spec_flow(
                        spec_columns(target.device.columns@),
                        target.agent,
                        rs@[i],
                    )
            },
            Err(MissingColumn(name)) => first_missing(target.device.columns@) == Some(name@),
        },
{
    let cs = match Columns::new(target) {
        Ok(cs) => cs,
        Err(e) => return Err(e),
    };
    let mut flows: Vec<Flow> = Vec::new();
    let mut i: usize = 0;
    while i < rs.len()
        invariant
            cs == spec_columns(target.device.columns@),
            i <= rs@.len(),
            flows@.len() == i,
            forall|j: int|
                0 <= j < i ==> #[trigger] flows@[j]@ == spec_flow(cs, target.agent, rs@[j]),
        decreases rs@.len() - i,
    {
        let f = cs.record(target.agent, &rs[i]);
        flows.push(f);
        i = i + 1;
    }
    Ok(flows)
}

/// The value a flow holds under column id `id`: that of its first custom
/// column with that id.
pub open spec fn value_of(customs: Seq<Custom>, id: u32) -> Option<CustomValue>
    decreases customs.len(),
{
    if customs.len() == 0 {
        None
    } else if customs[0].id == id {
        Some(customs[0].value)
    } else {
        value_of(customs.drop_first(), id)
    }
}

/// The value a flow holds under the device's column `name`.
pub open spec fn read_column(customs: Seq<Custom>, cols: Seq<Column>, name: Seq<char>) -> Option<CustomValue> {
    value_of(customs, column_id(cols, name)->0 as u32)
}

/// Whether the needed columns have distinct ids once cut to 32 bits.
pub open spec fn distinct_ids(cols: Seq<Column>) -> bool {
    forall|i: int, j: int| 0 <= i < j < 15 ==> #[trigger] wanted_id(cols, i) != #[trigger] wanted_id(cols, j)
}

/// Whether `customs`, read by column name, gives `v` under `name`.
pub open spec fn reads(customs: Seq<Custom>, cols: Seq<Column>, name: Seq<char>, v: CustomValue) -> bool {
    read_column(customs, cols, name) == Some(v)
}

/// The columns every flow carries, read back.
pub open spec fn header_reads(f: Seq<Custom>, cols: Seq<Column>, agent: u64, kind: u32, task: u64, test: u64) -> bool {
    &&& reads(f, cols, "APP_PROTOCOL"@, CustomValue::UInt32(AGENT))
    &&& reads(f, cols, "INT64_00"@, CustomValue::UInt64(agent))
    &&& reads(f, cols, "INT00"@, CustomValue::UInt32(kind))
    &&& reads(f, cols, "INT64_01"@, CustomValue::UInt64(task))
    &&& reads(f, cols, "INT64_02"@, CustomValue::UInt64(test))
}

/// What reading a record's flow back by column name gives: its kind, agent,
/// task and test, and the fields of its kind in the columns that carry them.
pub open spec fn flow_reads_back(f: Seq<Custom>, cols: Seq<Column>, agent: u64, r: Record) -> bool {
    match r {
        Record::Fetch(d) => {
            &&& header_reads(f, cols, agent, FETCH, d.task, d.test)
            &&& reads(f, cols, "INT01"@, CustomValue::UInt32(d.status as u32))
            &&& reads(f, cols, "INT02"@, CustomValue::UInt32(micros32(d.rtt)))
            &&& reads(f, cols, "INT03"@, CustomValue::UInt32(size32(d.size)))
        },
        Record::Knock(d) => {
            &&& header_reads(f, cols, agent, KNOCK, d.task, d.test)
            &&& reads(f, cols, "INT01"@, CustomValue::UInt32(d.sent))
            &&& reads(f, cols, "INT02"@, CustomValue::UInt32(d.lost))
            &&& reads(f, cols, "INT03"@, CustomValue::UInt32(micros32(d.rtt.min)))
            &&& reads(f, cols, "INT04"@, CustomValue::UInt32(micros32(d.rtt.max)))
            &&& reads(f, cols, "INT05"@, CustomValue::UInt32(micros32(d.rtt.avg)))
            &&& reads(f, cols, "INT06"@, CustomValue::UInt32(micros32(d.rtt.std)))
            &&& reads(f, cols, "INT07"@, CustomValue::UInt32(micros32(d.rtt.jit)))
            &&& reads(f, cols, "INT08"@, CustomValue::UInt32(d.port as u32))
        },
        Record::Ping(d) => {
            &&& header_reads(f, cols, agent, PING, d.task, d.test)
            &&& reads(f, cols, "INT01"@, CustomValue::UInt32(d.sent))
            &&& reads(f, cols, "INT02"@, CustomValue::UInt32(d.lost))
            &&& reads(f, cols, "INT03"@, CustomValue::UInt32(micros32(d.rtt.min)))
            &&& reads(f, cols, "INT04"@, CustomValue::UInt32(micros32(d.rtt.max)))
            &&& reads(f, cols, "INT05"@, CustomValue::UInt32(micros32(d.rtt.avg)))
            &&& reads(f, cols, "INT06"@, CustomValue::UInt32(micros32(d.rtt.std)))
            &&& reads(f, cols, "INT07"@, CustomValue::UInt32(micros32(d.rtt.jit)))
        },
        Record::Query(d) => {
            &&& header_reads(f, cols, agent, QUERY, d.task, d.test)
            &&& reads(f, cols, "INT01"@, CustomValue::UInt32(micros32(d.time)))
            &&& reads(f, cols, "INT02"@, CustomValue::UInt32(d.code as u32))
            &&& reads(f, cols, "STR00"@, CustomValue::Str(d.answers))
            &&& reads(f, cols, "STR01"@, CustomValue::Str(d.record))
        },
        Record::Shake(d) => {
            &&& header_reads(f, cols, agent, SHAKE, d.task, d.test)
            &&& reads(f, cols, "INT01"@, CustomValue::UInt32(micros32(d.time)))
            &&& reads(f, cols, "INT08"@, CustomValue::UInt32(d.port as u32))
        },
        Record::Trace(d) => {
            &&& header_reads(f, cols, agent, TRACE, d.task, d.test)
            &&& reads(f, cols, "INT01"@, CustomValue::UInt32(micros32(d.time)))
            &&& reads(f, cols, "STR00"@, CustomValue::Str(d.route))
        },
        Record::Error(d) => {
            &&& header_reads(f, cols, agent, ERROR, d.task, d.test)
            &&& reads(f, cols, "STR00"@, CustomValue::Str(d.cause))
        },
        Record::Timeout(d) => header_reads(f, cols, agent, TIMEOUT, d.task, d.test),
        Record::Opaque(_) => f.len() == 0,
    }
}

proof fn lemma_first_at(f: Seq<Custom>, id: u32, k: int)
    requires
        0 <= k < f.len(),
        f[k].id == id,
        forall|j: int| 0 <= j < k ==> f[j].id != id,
    ensures
        value_of(f, id) == Some(f[k].value),
    decreases k,
{
    if k > 0 {
        assert forall|j: int| 0 <= j < k - 1 implies f.drop_first()[j].id != id by {
            assert(f.drop_first()[j] == f[j + 1]);
        }
        lemma_first_at(f.drop_first(), id, k - 1);
    }
}

proof fn lemma_wanted_names()
    ensures
        wanted()[0] == "APP_PROTOCOL"@,
        wanted()[1] == "INT64_00"@,
        wanted()[2] == "INT00"@,
        wanted()[3] == "INT64_01"@,
        wanted()[4] == "INT64_02"@,
        wanted()[5] == "STR00"@,
        wanted()[6] == "INT01"@,
        wanted()[7] == "INT02"@,
        wanted()[8] == "INT03"@,
        wanted()[9] == "INT04"@,
        wanted()[10] == "INT05"@,
        wanted()[11] == "INT06"@,
        wanted()[12] == "INT07"@,
        wanted()[13] == "INT08"@,
        wanted()[14] == "STR01"@,
{
}

/// Reading the `k`th column of a flow whose first five columns are the
/// header, when the ids before it differ from its own.
proof fn lemma_read_at(f: Seq<Custom>, cols: Seq<Column>, w: int, k: int)
    requires
        first_missing(cols) is None,
        0 <= w < 15,
        0 <= k < f.len(),
        f[k].id == wanted_id(cols, w),
        forall|j: int| 0 <= j < k ==> f[j].id != wanted_id(cols, w),
    ensures
        read_column(f, cols, wanted()[w]) == Some(f[k].value),
{
    lemma_first_at(f, wanted_id(cols, w), k);
}

proof fn lemma_fetch_reads_back(cols: Seq<Column>, agent: u64, d: Fetch)
    requires
        first_missing(cols) is None,
        distinct_ids(cols),
    ensures
        flow_reads_back(fetch_customs(spec_columns(cols), agent, d), cols, agent, Record::Fetch(d)),
{
    let f = fetch_customs(spec_columns(cols), agent, d);
    lemma_wanted_names();
    assert(wanted_id(cols, 0) != wanted_id(cols, 1));
    assert(wanted_id(cols, 0) != wanted_id(cols, 2));
    assert(wanted_id(cols, 0) != wanted_id(cols, 3));
    assert(wanted_id(cols, 0) != wanted_id(cols, 4));
    assert(wanted_id(cols, 0) != wanted_id(cols, 6));
    assert(wanted_id(cols, 0) != wanted_id(cols, 7));
    assert(wanted_id(cols, 0) != wanted_id(cols, 8));
    assert(wanted_id(cols, 1) != wanted_id(cols, 2));
    assert(wanted_id(cols, 1) != wanted_id(cols, 3));
    assert(wanted_id(cols, 1) != wanted_id(cols, 4));
    assert(wanted_id(cols, 1) != wanted_id(cols, 6));
    assert(wanted_id(cols, 1) != wanted_id(cols, 7));
    assert(wanted_id(cols, 1) != wanted_id(cols, 8));
    assert(wanted_id(cols, 2) != wanted_id(cols, 3));
    assert(wanted_id(cols, 2) != wanted_id(cols, 4));
    assert(wanted_id(cols, 2) != wanted_id(cols, 6));
    assert(wanted_id(cols, 2) != wanted_id(cols, 7));
    assert(wanted_id(cols, 2) != wanted_id(cols, 8));
    assert(wanted_id(cols, 3) != wanted_id(cols, 4));
    assert(wanted_id(cols, 3) != wanted_id(cols, 6));
    assert(wanted_id(cols, 3) != wanted_id(cols, 7));
    assert(wanted_id(cols, 3) != wanted_id(cols, 8));
    assert(wanted_id(cols, 4) != wanted_id(cols, 6));
    assert(wanted_id(cols, 4) != wanted_id(cols, 7));
    assert(wanted_id(cols, 4) != wanted_id(cols, 8));
    assert(wanted_id(cols, 6) != wanted_id(cols, 7));
    assert(wanted_id(cols, 6) != wanted_id(cols, 8));
    assert(wanted_id(cols, 7) != wanted_id(cols, 8));
    lemma_read_at(f, cols, 0, 0);
    lemma_read_at(f, cols, 1, 1);
    lemma_read_at(f, cols, 2, 2);
    lemma_read_at(f, cols, 3, 3);
    lemma_read_at(f, cols, 4, 4);
    lemma_read_at(f, cols, 6, 5);
    lemma_read_at(f, cols, 7, 6);
    lemma_read_at(f, cols, 8, 7);
}

proof fn lemma_knock_reads_back(cols: Seq<Column>, agent: u64, d: Knock)
    requires
        first_missing(cols) is None,
        distinct_ids(cols),
    ensures
        flow_reads_back(knock_customs(spec_columns(cols), agent, d), cols, agent, Record::Knock(d)),
{
    let f = knock_customs(spec_columns(cols), agent, d);
    lemma_wanted_names();
    assert(wanted_id(cols, 0) != wanted_id(cols, 1));
    assert(wanted_id(cols, 0) != wanted_id(cols, 2));
    assert(wanted_id(cols, 0) != wanted_id(cols, 3));
    assert(wanted_id(cols, 0) != wanted_id(cols, 4));
    assert(wanted_id(cols, 0) != wanted_id(cols, 6));
    assert(wanted_id(cols, 0) != wanted_id(cols, 7));
    assert(wanted_id(cols, 0) != wanted_id(cols, 8));
    assert(wanted_id(cols, 0) != wanted_id(cols, 9));
    assert(wanted_id(cols, 0) != wanted_id(cols, 10));
    assert(wanted_id(cols, 0) != wanted_id(cols, 11));
    assert(wanted_id(cols, 0) != wanted_id(cols, 12));
    assert(wanted_id(cols, 0) != wanted_id(cols, 13));
    assert(wanted_id(cols, 1) != wanted_id(cols, 2));
    assert(wanted_id(cols, 1) != wanted_id(cols, 3));
    assert(wanted_id(cols, 1) != wanted_id(cols, 4));
    assert(wanted_id(cols, 1) != wanted_id(cols, 6));
    assert(wanted_id(cols, 1) != wanted_id(cols, 7));
    assert(wanted_id(cols, 1) != wanted_id(cols, 8));
    assert(wanted_id(cols, 1) != wanted_id(cols, 9));
    assert(wanted_id(cols, 1) != wanted_id(cols, 10));
    assert(wanted_id(cols, 1) != wanted_id(cols, 11));
    assert(wanted_id(cols, 1) != wanted_id(cols, 12));
    assert(wanted_id(cols, 1) != wanted_id(cols, 13));
    assert(wanted_id(cols, 2) != wanted_id(cols, 3));
    assert(wanted_id(cols, 2) != wanted_id(cols, 4));
    assert(wanted_id(cols, 2) != wanted_id(cols, 6));
    assert(wanted_id(cols, 2) != wanted_id(cols, 7));
    assert(wanted_id(cols, 2) != wanted_id(cols, 8));
    assert(wanted_id(cols, 2) != wanted_id(cols, 9));
    assert(wanted_id(cols, 2) != wanted_id(cols, 10));
    assert(wanted_id(cols, 2) != wanted_id(cols, 11));
    assert(wanted_id(cols, 2) != wanted_id(cols, 12));
    assert(wanted_id(cols, 2) != wanted_id(cols, 13));
    assert(wanted_id(cols, 3) != wanted_id(cols, 4));
    assert(wanted_id(cols, 3) != wanted_id(cols, 6));
    assert(wanted_id(cols, 3) != wanted_id(cols, 7));
    assert(wanted_id(cols, 3) != wanted_id(cols, 8));
    assert(wanted_id(cols, 3) != wanted_id(cols, 9));
    assert(wanted_id(cols, 3) != wanted_id(cols, 10));
    assert(wanted_id(cols, 3) != wanted_id(cols, 11));
    assert(wanted_id(cols, 3) != wanted_id(cols, 12));
    assert(wanted_id(cols, 3) != wanted_id(cols, 13));
    assert(wanted_id(cols, 4) != wanted_id(cols, 6));
    assert(wanted_id(cols, 4) != wanted_id(cols, 7));
    assert(wanted_id(cols, 4) != wanted_id(cols, 8));
    assert(wanted_id(cols, 4) != wanted_id(cols, 9));
    assert(wanted_id(cols, 4) != wanted_id(cols, 10));
    assert(wanted_id(cols, 4) != wanted_id(cols, 11));
    assert(wanted_id(cols, 4) != wanted_id(cols, 12));
    assert(wanted_id(cols, 4) != wanted_id(cols, 13));
    assert(wanted_id(cols, 6) != wanted_id(cols, 7));
    assert(wanted_id(cols, 6) != wanted_id(cols, 8));
    assert(wanted_id(cols, 6) != wanted_id(cols, 9));
    assert(wanted_id(cols, 6) != wanted_id(cols, 10));
    assert(wanted_id(cols, 6) != wanted_id(cols, 11));
    assert(wanted_id(cols, 6) != wanted_id(cols, 12));
    assert(wanted_id(cols, 6) != wanted_id(cols, 13));
    assert(wanted_id(cols, 7) != wanted_id(cols, 8));
    assert(wanted_id(cols, 7) != wanted_id(cols, 9));
    assert(wanted_id(cols, 7) != wanted_id(cols, 10));
    assert(wanted_id(cols, 7) != wanted_id(cols, 11));
    assert(wanted_id(cols, 7) != wanted_id(cols, 12));
    assert(wanted_id(cols, 7) != wanted_id(cols, 13));
    assert(wanted_id(cols, 8) != wanted_id(cols, 9));
    assert(wanted_id(cols, 8) != wanted_id(cols, 10));
    assert(wanted_id(cols, 8) != wanted_id(cols, 11));
    assert(wanted_id(cols, 8) != wanted_id(cols, 12));
    assert(wanted_id(cols, 8) != wanted_id(cols, 13));
    assert(wanted_id(cols, 9) != wanted_id(cols, 10));
    assert(wanted_id(cols, 9) != wanted_id(cols, 11));
    assert(wanted_id(cols, 9) != wanted_id(cols, 12));
    assert(wanted_id(cols, 9) != wanted_id(cols, 13));
    assert(wanted_id(cols, 10) != wanted_id(cols, 11));
    assert(wanted_id(cols, 10) != wanted_id(cols, 12));
    assert(wanted_id(cols, 10) != wanted_id(cols, 13));
    assert(wanted_id(cols, 11) != wanted_id(cols, 12));
    assert(wanted_id(cols, 11) != wanted_id(cols, 13));
    assert(wanted_id(cols, 12) != wanted_id(cols, 13));
    lemma_read_at(f, cols, 0, 0);
    lemma_read_at(f, cols, 1, 1);
    lemma_read_at(f, cols, 2, 2);
    lemma_read_at(f, cols, 3, 3);
    lemma_read_at(f, cols, 4, 4);
    lemma_read_at(f, cols, 13, 5);
    lemma_read_at(f, cols, 6, 6);
    lemma_read_at(f, cols, 7, 7);
    lemma_read_at(f, cols, 8, 8);
    lemma_read_at(f, cols, 9, 9);
    lemma_read_at(f, cols, 10, 10);
    lemma_read_at(f, cols, 11, 11);
    lemma_read_at(f, cols, 12, 12);
}

proof fn lemma_ping_reads_back(cols: Seq<Column>, agent: u64, d: Ping)
    requires
        first_missing(cols) is None,
        distinct_ids(cols),
    ensures
        flow_reads_back(ping_customs(spec_columns(cols), agent, d), cols, agent, Record::Ping(d)),
{
    let f = ping_customs(spec_columns(cols), agent, d);
    lemma_wanted_names();
    assert(wanted_id(cols, 0) != wanted_id(cols, 1));
    assert(wanted_id(cols, 0) != wanted_id(cols, 2));
    assert(wanted_id(cols, 0) != wanted_id(cols, 3));
    assert(wanted_id(cols, 0) != wanted_id(cols, 4));
    assert(wanted_id(cols, 0) != wanted_id(cols, 6));
    assert(wanted_id(cols, 0) != wanted_id(cols, 7));
    assert(wanted_id(cols, 0) != wanted_id(cols, 8));
    assert(wanted_id(cols, 0) != wanted_id(cols, 9));
    assert(wanted_id(cols, 0) != wanted_id(cols, 10));
    assert(wanted_id(cols, 0) != wanted_id(cols, 11));
    assert(wanted_id(cols, 0) != wanted_id(cols, 12));
    assert(wanted_id(cols, 1) != wanted_id(cols, 2));
    assert(wanted_id(cols, 1) != wanted_id(cols, 3));
    assert(wanted_id(cols, 1) != wanted_id(cols, 4));
    assert(wanted_id(cols, 1) != wanted_id(cols, 6));
    assert(wanted_id(cols, 1) != wanted_id(cols, 7));
    assert(wanted_id(cols, 1) != wanted_id(cols, 8));
    assert(wanted_id(cols, 1) != wanted_id(cols, 9));
    assert(wanted_id(cols, 1) != wanted_id(cols, 10));
    assert(wanted_id(cols, 1) != wanted_id(cols, 11));
    assert(wanted_id(cols, 1) != wanted_id(cols, 12));
    assert(wanted_id(cols, 2) != wanted_id(cols, 3));
    assert(wanted_id(cols, 2) != wanted_id(cols, 4));
    assert(wanted_id(cols, 2) != wanted_id(cols, 6));
    assert(wanted_id(cols, 2) != wanted_id(cols, 7));
    assert(wanted_id(cols, 2) != wanted_id(cols, 8));
    assert(wanted_id(cols, 2) != wanted_id(cols, 9));
    assert(wanted_id(cols, 2) != wanted_id(cols, 10));
    assert(wanted_id(cols, 2) != wanted_id(cols, 11));
    assert(wanted_id(cols, 2) != wanted_id(cols, 12));
    assert(wanted_id(cols, 3) != wanted_id(cols, 4));
    assert(wanted_id(cols, 3) != wanted_id(cols, 6));
    assert(wanted_id(cols, 3) != wanted_id(cols, 7));
    assert(wanted_id(cols, 3) != wanted_id(cols, 8));
    assert(wanted_id(cols, 3) != wanted_id(cols, 9));
    assert(wanted_id(cols, 3) != wanted_id(cols, 10));
    assert(wanted_id(cols, 3) != wanted_id(cols, 11));
    assert(wanted_id(cols, 3) != wanted_id(cols, 12));
    assert(wanted_id(cols, 4) != wanted_id(cols, 6));
    assert(wanted_id(cols, 4) != wanted_id(cols, 7));
    assert(wanted_id(cols, 4) != wanted_id(cols, 8));
    assert(wanted_id(cols, 4) != wanted_id(cols, 9));
    assert(wanted_id(cols, 4) != wanted_id(cols, 10));
    assert(wanted_id(cols, 4) != wanted_id(cols, 11));
    assert(wanted_id(cols, 4) != wanted_id(cols, 12));
    assert(wanted_id(cols, 6) != wanted_id(cols, 7));
    assert(wanted_id(cols, 6) != wanted_id(cols, 8));
    assert(wanted_id(cols, 6) != wanted_id(cols, 9));
    assert(wanted_id(cols, 6) != wanted_id(cols, 10));
    assert(wanted_id(cols, 6) != wanted_id(cols, 11));
    assert(wanted_id(cols, 6) != wanted_id(cols, 12));
    assert(wanted_id(cols, 7) != wanted_id(cols, 8));
    assert(wanted_id(cols, 7) != wanted_id(cols, 9));
    assert(wanted_id(cols, 7) != wanted_id(cols, 10));
    assert(wanted_id(cols, 7) != wanted_id(cols, 11));
    assert(wanted_id(cols, 7) != wanted_id(cols, 12));
    assert(wanted_id(cols, 8) != wanted_id(cols, 9));
    assert(wanted_id(cols, 8) != wanted_id(cols, 10));
    assert(wanted_id(cols, 8) != wanted_id(cols, 11));
    assert(wanted_id(cols, 8) != wanted_id(cols, 12));
    assert(wanted_id(cols, 9) != wanted_id(cols, 10));
    assert(wanted_id(cols, 9) != wanted_id(cols, 11));
    assert(wanted_id(cols, 9) != wanted_id(cols, 12));
    assert(wanted_id(cols, 10) != wanted_id(cols, 11));
    assert(wanted_id(cols, 10) != wanted_id(cols, 12));
    assert(wanted_id(cols, 11) != wanted_id(cols, 12));
    lemma_read_at(f, cols, 0, 0);
    lemma_read_at(f, cols, 1, 1);
    lemma_read_at(f, cols, 2, 2);
    lemma_read_at(f, cols, 3, 3);
    lemma_read_at(f, cols, 4, 4);
    lemma_read_at(f, cols, 6, 5);
    lemma_read_at(f, cols, 7, 6);
    lemma_read_at(f, cols, 8, 7);
    lemma_read_at(f, cols, 9, 8);
    lemma_read_at(f, cols, 10, 9);
    lemma_read_at(f, cols, 11, 10);
    lemma_read_at(f, cols, 12, 11);
}

proof fn lemma_query_reads_back(cols: Seq<Column>, agent: u64, d: Query)
    requires
        first_missing(cols) is None,
        distinct_ids(cols),
    ensures
        flow_reads_back(query_customs(spec_columns(cols), agent, d), cols, agent, Record::Query(d)),
{
    let f = query_customs(spec_columns(cols), agent, d);
    lemma_wanted_names();
    assert(wanted_id(cols, 0) != wanted_id(cols, 1));
    assert(wanted_id(cols, 0) != wanted_id(cols, 2));
    assert(wanted_id(cols, 0) != wanted_id(cols, 3));
    assert(wanted_id(cols, 0) != wanted_id(cols, 4));
    assert(wanted_id(cols, 0) != wanted_id(cols, 5));
    assert(wanted_id(cols, 0) != wanted_id(cols, 6));
    assert(wanted_id(cols, 0) != wanted_id(cols, 7));
    assert(wanted_id(cols, 0) != wanted_id(cols, 14));
    assert(wanted_id(cols, 1) != wanted_id(cols, 2));
    assert(wanted_id(cols, 1) != wanted_id(cols, 3));
    assert(wanted_id(cols, 1) != wanted_id(cols, 4));
    assert(wanted_id(cols, 1) != wanted_id(cols, 5));
    assert(wanted_id(cols, 1) != wanted_id(cols, 6));
    assert(wanted_id(cols, 1) != wanted_id(cols, 7));
    assert(wanted_id(cols, 1) != wanted_id(cols, 14));
    assert(wanted_id(cols, 2) != wanted_id(cols, 3));
    assert(wanted_id(cols, 2) != wanted_id(cols, 4));
    assert(wanted_id(cols, 2) != wanted_id(cols, 5));
    assert(wanted_id(cols, 2) != wanted_id(cols, 6));
    assert(wanted_id(cols, 2) != wanted_id(cols, 7));
    assert(wanted_id(cols, 2) != wanted_id(cols, 14));
    assert(wanted_id(cols, 3) != wanted_id(cols, 4));
    assert(wanted_id(cols, 3) != wanted_id(cols, 5));
    assert(wanted_id(cols, 3) != wanted_id(cols, 6));
    assert(wanted_id(cols, 3) != wanted_id(cols, 7));
    assert(wanted_id(cols, 3) != wanted_id(cols, 14));
    assert(wanted_id(cols, 4) != wanted_id(cols, 5));
    assert(wanted_id(cols, 4) != wanted_id(cols, 6));
    assert(wanted_id(cols, 4) != wanted_id(cols, 7));
    assert(wanted_id(cols, 4) != wanted_id(cols, 14));
    assert(wanted_id(cols, 5) != wanted_id(cols, 6));
    assert(wanted_id(cols, 5) != wanted_id(cols, 7));
    assert(wanted_id(cols, 5) != wanted_id(cols, 14));
    assert(wanted_id(cols, 6) != wanted_id(cols, 7));
    assert(wanted_id(cols, 6) != wanted_id(cols, 14));
    assert(wanted_id(cols, 7) != wanted_id(cols, 14));
    lemma_read_at(f, cols, 0, 0);
    lemma_read_at(f, cols, 1, 1);
    lemma_read_at(f, cols, 2, 2);
    lemma_read_at(f, cols, 3, 3);
    lemma_read_at(f, cols, 4, 4);
    lemma_read_at(f, cols, 5, 5);
    lemma_read_at(f, cols, 14, 6);
    lemma_read_at(f, cols, 6, 7);
    lemma_read_at(f, cols, 7, 8);
}

proof fn lemma_shake_reads_back(cols: Seq<Column>, agent: u64, d: Shake)
    requires
        first_missing(cols) is None,
        distinct_ids(cols),
    ensures
        flow_reads_back(shake_customs(spec_columns(cols), agent, d), cols, agent, Record::Shake(d)),
{
    let f = shake_customs(spec_columns(cols), agent, d);
    lemma_wanted_names();
    assert(wanted_id(cols, 0) != wanted_id(cols, 1));
    assert(wanted_id(cols, 0) != wanted_id(cols, 2));
    assert(wanted_id(cols, 0) != wanted_id(cols, 3));
    assert(wanted_id(cols, 0) != wanted_id(cols, 4));
    assert(wanted_id(cols, 0) != wanted_id(cols, 6));
    assert(wanted_id(cols, 0) != wanted_id(cols, 13));
    assert(wanted_id(cols, 1) != wanted_id(cols, 2));
    assert(wanted_id(cols, 1) != wanted_id(cols, 3));
    assert(wanted_id(cols, 1) != wanted_id(cols, 4));
    assert(wanted_id(cols, 1) != wanted_id(cols, 6));
    assert(wanted_id(cols, 1) != wanted_id(cols, 13));
    assert(wanted_id(cols, 2) != wanted_id(cols, 3));
    assert(wanted_id(cols, 2) != wanted_id(cols, 4));
    assert(wanted_id(cols, 2) != wanted_id(cols, 6));
    assert(wanted_id(cols, 2) != wanted_id(cols, 13));
    assert(wanted_id(cols, 3) != wanted_id(cols, 4));
    assert(wanted_id(cols, 3) != wanted_id(cols, 6));
    assert(wanted_id(cols, 3) != wanted_id(cols, 13));
    assert(wanted_id(cols, 4) != wanted_id(cols, 6));
    assert(wanted_id(cols, 4) != wanted_id(cols, 13));
    assert(wanted_id(cols, 6) != wanted_id(cols, 13));
    lemma_read_at(f, cols, 0, 0);
    lemma_read_at(f, cols, 1, 1);
    lemma_read_at(f, cols, 2, 2);
    lemma_read_at(f, cols, 3, 3);
    lemma_read_at(f, cols, 4, 4);
    lemma_read_at(f, cols, 6, 5);
    lemma_read_at(f, cols, 13, 6);
}

proof fn lemma_trace_reads_back(cols: Seq<Column>, agent: u64, d: Trace)
    requires
        first_missing(cols) is None,
        distinct_ids(cols),
    ensures
        flow_reads_back(trace_customs(spec_columns(cols), agent, d), cols, agent, Record::Trace(d)),
{
    let f = trace_customs(spec_columns(cols), agent, d);
    lemma_wanted_names();
    assert(wanted_id(cols, 0) != wanted_id(cols, 1));
    assert(wanted_id(cols, 0) != wanted_id(cols, 2));
    assert(wanted_id(cols, 0) != wanted_id(cols, 3));
    assert(wanted_id(cols, 0) != wanted_id(cols, 4));
    assert(wanted_id(cols, 0) != wanted_id(cols, 5));
    assert(wanted_id(cols, 0) != wanted_id(cols, 6));
    assert(wanted_id(cols, 1) != wanted_id(cols, 2));
    assert(wanted_id(cols, 1) != wanted_id(cols, 3));
    assert(wanted_id(cols, 1) != wanted_id(cols, 4));
    assert(wanted_id(cols, 1) != wanted_id(cols, 5));
    assert(wanted_id(cols, 1) != wanted_id(cols, 6));
    assert(wanted_id(cols, 2) != wanted_id(cols, 3));
    assert(wanted_id(cols, 2) != wanted_id(cols, 4));
    assert(wanted_id(cols, 2) != wanted_id(cols, 5));
    assert(wanted_id(cols, 2) != wanted_id(cols, 6));
    assert(wanted_id(cols, 3) != wanted_id(cols, 4));
    assert(wanted_id(cols, 3) != wanted_id(cols, 5));
    assert(wanted_id(cols, 3) != wanted_id(cols, 6));
    assert(wanted_id(cols, 4) != wanted_id(cols, 5));
    assert(wanted_id(cols, 4) != wanted_id(cols, 6));
    assert(wanted_id(cols, 5) != wanted_id(cols, 6));
    lemma_read_at(f, cols, 0, 0);
    lemma_read_at(f, cols, 1, 1);
    lemma_read_at(f, cols, 2, 2);
    lemma_read_at(f, cols, 3, 3);
    lemma_read_at(f, cols, 4, 4);
    lemma_read_at(f, cols, 5, 5);
    lemma_read_at(f, cols, 6, 6);
}

proof fn lemma_error_reads_back(cols: Seq<Column>, agent: u64, d: Error)
    requires
        first_missing(cols) is None,
        distinct_ids(cols),
    ensures
        flow_reads_back(error_customs(spec_columns(cols), agent, d), cols, agent, Record::Error(d)),
{
    let f = error_customs(spec_columns(cols), agent, d);
    lemma_wanted_names();
    assert(wanted_id(cols, 0) != wanted_id(cols, 1));
    assert(wanted_id(cols, 0) != wanted_id(cols, 2));
    assert(wanted_id(cols, 0) != wanted_id(cols, 3));
    assert(wanted_id(cols, 0) != wanted_id(cols, 4));
    assert(wanted_id(cols, 0) != wanted_id(cols, 5));
    assert(wanted_id(cols, 1) != wanted_id(cols, 2));
    assert(wanted_id(cols, 1) != wanted_id(cols, 3));
    assert(wanted_id(cols, 1) != wanted_id(cols, 4));
    assert(wanted_id(cols, 1) != wanted_id(cols, 5));
    assert(wanted_id(cols, 2) != wanted_id(cols, 3));
    assert(wanted_id(cols, 2) != wanted_id(cols, 4));
    assert(wanted_id(cols, 2) != wanted_id(cols, 5));
    assert(wanted_id(cols, 3) != wanted_id(cols, 4));
    assert(wanted_id(cols, 3) != wanted_id(cols, 5));
    assert(wanted_id(cols, 4) != wanted_id(cols, 5));
    lemma_read_at(f, cols, 0, 0);
    lemma_read_at(f, cols, 1, 1);
    lemma_read_at(f, cols, 2, 2);
    lemma_read_at(f, cols, 3, 3);
    lemma_read_at(f, cols, 4, 4);
    lemma_read_at(f, cols, 5, 5);
}

proof fn lemma_timeout_reads_back(cols: Seq<Column>, agent: u64, d: Timeout)
    requires
        first_missing(cols) is None,
        distinct_ids(cols),
    ensures
        flow_reads_back(timeout_customs(spec_columns(cols), agent, d), cols, agent, Record::Timeout(d)),
{
    let f = timeout_customs(spec_columns(cols), agent, d);
    lemma_wanted_names();
    assert(wanted_id(cols, 0) != wanted_id(cols, 1));
    assert(wanted_id(cols, 0) != wanted_id(cols, 2));
    assert(wanted_id(cols, 0) != wanted_id(cols, 3));
    assert(wanted_id(cols, 0) != wanted_id(cols, 4));
    assert(wanted_id(cols, 1) != wanted_id(cols, 2));
    assert(wanted_id(cols, 1) != wanted_id(cols, 3));
    assert(wanted_id(cols, 1) != wanted_id(cols, 4));
    assert(wanted_id(cols, 2) != wanted_id(cols, 3));
    assert(wanted_id(cols, 2) != wanted_id(cols, 4));
    assert(wanted_id(cols, 3) != wanted_id(cols, 4));
    lemma_read_at(f, cols, 0, 0);
    lemma_read_at(f, cols, 1, 1);
    lemma_read_at(f, cols, 2, 2);
    lemma_read_at(f, cols, 3, 3);
    lemma_read_at(f, cols, 4, 4);
}

/// The flow `encode` writes for a record reads back, column by column name,
/// as the record: its kind, agent, task, test and the fields of its kind,
/// provided the device's needed columns have distinct ids.
pub proof fn law_flow_reads_back(cols: Seq<Column>, agent: u64, r: Record)
    requires
        first_missing(cols) is None,
        distinct_ids(cols),
    ensures
        flow_reads_back(spec_flow(spec_columns(cols), agent, r).customs, cols, agent, r),
{
    match r {
        Record::Fetch(d) => lemma_fetch_reads_back(cols, agent, d),
        Record::Knock(d) => lemma_knock_reads_back(cols, agent, d),
        Record::Ping(d) => lemma_ping_reads_back(cols, agent, d),
        Record::Query(d) => lemma_query_reads_back(cols, agent, d),
        Record::Shake(d) => lemma_shake_reads_back(cols, agent, d),
        Record::Trace(d) => lemma_trace_reads_back(cols, agent, d),
        Record::Error(d) => lemma_error_reads_back(cols, agent, d),
        Record::Timeout(d) => lemma_timeout_reads_back(cols, agent, d),
        Record::Opaque(_) => {},
    }
}

/// A device column by name: its id, cut to 32 bits, and its kind.
#[derive(Clone, Copy, Debug, PartialEq, Eq, Structural)]
pub struct NamedColumn {
    pub id: u32,
    pub kind: Kind,
}

/// A column id does not fit 32 bits.
#[derive(Clone, Copy, Debug, PartialEq, Eq, Structural)]
pub struct ColumnIdRange;

/// The columns of a device by name; of two columns with one name, the later
/// one counts.
pub open spec fn column_map(cols: Seq<Column>) -> Map<Seq<char>, NamedColumn>
    decreases cols.len(),
{
    if cols.len() == 0 {
        Map::empty()
    } else {
        column_map(cols.drop_last()).insert(
            cols.last().name@,
            NamedColumn { id: cols.last().id as u32, kind: cols.last().kind },
        )
    }
}

/// Whether every column id fits 32 bits.
pub open spec fn ids_fit(cols: Seq<Column>) -> bool {
    forall|i: int| 0 <= i < cols.len() ==> #[trigger] cols[i].id <= u32::MAX
}

/// Whether the names of the entries are distinct.
pub open spec fn distinct_names(v: Seq<(String, NamedColumn)>) -> bool {
    forall|i: int, j: int| 0 <= i < j < v.len() ==> #[trigger] v[i].0@ != #[trigger] v[j].0@
}

/// The entries as a map from name to column.
pub open spec fn entry_map(v: Seq<(String, NamedColumn)>) -> Map<Seq<char>, NamedColumn> {
    Map::new(
        |k: Seq<char>| exists|i: int| 0 <= i < v.len() && #[trigger] v[i].0@ == k,
        |k: Seq<char>| v[choose|i: int| 0 <= i < v.len() && #[trigger] v[i].0@ == k].1,
    )
}

proof fn lemma_entry_at(v: Seq<(String, NamedColumn)>, i: int)
    requires
        distinct_names(v),
        0 <= i < v.len(),
    ensures
        entry_map(v).contains_key(v[i].0@),
        entry_map(v)[v[i].0@] == v[i].1,
{
    let k = v[i].0@;
    assert(entry_map(v).dom().contains(k));
    let c = choose|j: int| 0 <= j < v.len() && #[trigger] v[j].0@ == k;
    if c != i {
        if c < i {
            assert(v[c].0@ != v[i].0@);
        } else {
            assert(v[i].0@ != v[c].0@);
        }
    }
}

proof fn lemma_entry_push(v: Seq<(String, NamedColumn)>, e: (String, NamedColumn))
    requires
        distinct_names(v),
        !entry_map(v).contains_key(e.0@),
    ensures
        distinct_names(v.push(e)),
        entry_map(v.push(e)) == entry_map(v).insert(e.0@, e.1),
{
    let w = v.push(e);
    assert forall|i: int, j: int| 0 <= i < j < w.len() implies #[trigger] w[i].0@ != #[trigger] w[j].0@ by {
        if j == v.len() {
            if w[i].0@ == e.0@ {
                assert(entry_map(v).dom().contains(e.0@));
            }
        } else {
            assert(v[i].0@ != v[j].0@);
        }
    }
    assert forall|k: Seq<char>| #[trigger] entry_map(w).contains_key(k) == entry_map(v).insert(e.0@, e.1).contains_key(k) by {
        if entry_map(v).contains_key(k) {
            let c = choose|i: int| 0 <= i < v.len() && #[trigger] v[i].0@ == k;
            assert(w[c].0@ == k);
        }
        if entry_map(w).contains_key(k) && k != e.0@ {
            let c = choose|i: int| 0 <= i < w.len() && #[trigger] w[i].0@ == k;
            assert(c < v.len());
            assert(v[c].0@ == k);
        }
        if k == e.0@ {
            assert(w[v.len() as int].0@ == k);
        }
    }
    assert forall|k: Seq<char>| #[trigger] entry_map(w).contains_key(k) implies entry_map(w)[k] == entry_map(v).insert(e.0@, e.1)[k] by {
        let c = choose|i: int| 0 <= i < w.len() && #[trigger] w[i].0@ == k;
        lemma_entry_at(w, c);
        if c < v.len() {
            lemma_entry_at(v, c);
        }
    }
    assert(entry_map(w) =~= entry_map(v).insert(e.0@, e.1));
}

proof fn lemma_entry_set(v: Seq<(String, NamedColumn)>, i: int, c: NamedColumn)
    requires
        distinct_names(v),
        0 <= i < v.len(),
    ensures
        distinct_names(v.update(i, (v[i].0, c))),
        entry_map(v.update(i, (v[i].0, c))) == entry_map(v).insert(v[i].0@, c),
{
    let w = v.update(i, (v[i].0, c));
    assert forall|a: int, b: int| 0 <= a < b < w.len() implies #[trigger] w[a].0@ != #[trigger] w[b].0@ by {
        assert(v[a].0@ != v[b].0@);
    }
    lemma_entry_at(v, i);
    assert forall|k: Seq<char>| #[trigger] entry_map(w).contains_key(k) == entry_map(v).insert(v[i].0@, c).contains_key(k) by {
        if entry_map(v).contains_key(k) {
            let j = choose|j: int| 0 <= j < v.len() && #[trigger] v[j].0@ == k;
            assert(w[j].0@ == k);
        }
        if entry_map(w).contains_key(k) {
            let j = choose|j: int| 0 <= j < w.len() && #[trigger] w[j].0@ == k;
            assert(v[j].0@ == k);
        }
    }
    assert forall|k: Seq<char>| #[trigger] entry_map(w).contains_key(k) implies entry_map(w)[k] == entry_map(v).insert(v[i].0@, c)[k] by {
        let j = choose|j: int| 0 <= j < w.len() && #[trigger] w[j].0@ == k;
        lemma_entry_at(w, j);
        if j != i {
            lemma_entry_at(v, j);
        }
    }
    assert(entry_map(w) =~= entry_map(v).insert(v[i].0@, c));
}

fn find_name(v: &Vec<(String, NamedColumn)>, name: &String) -> (r: Option<usize>)
    ensures
        match r {
            Some(i) => i < v@.len() && v@[i as int].0@ == name@,
            None => forall|i: int| 0 <= i < v@.len() ==> v@[i].0@ != name@,
        },
{
    let mut i: usize = 0;
    while i < v.len()
        invariant
            i <= v@.len(),
            forall|j: int| 0 <= j < i ==> v@[j].0@ != name@,
        decreases v@.len() - i,
    {
        if v[i].0 == *name {
            return Some(i);
        }
        i = i + 1;
    }
    None
}

/// The columns of a device by name, each id cut to 32 bits; of two columns
/// with one name, the later one counts. Fails when an id does not fit 32
/// bits.
pub fn columns(device: &Device) -> (r: Result<Vec<(String, NamedColumn)>, ColumnIdRange>)
    ensures
        r is Ok <==> ids_fit(device.columns@),
        r matches Ok(v) ==> distinct_names(v@) && entry_map(v@) == column_map(device.columns@),
{
    let cols = &device.columns;
    let mut v: Vec<(String, NamedColumn)> = Vec::new();
    let mut i: usize = 0;
    assert(entry_map(v@) =~= column_map(cols@.subrange(0, 0)));
    while i < cols.len()
        invariant
            cols@ == device.columns@,
            i <= cols@.len(),
            distinct_names(v@),
            entry_map(v@) == column_map(cols@.subrange(0, i as int)),
            forall|j: int| 0 <= j < i ==> #[trigger] cols@[j].id <= u32::MAX,
        decreases cols@.len() - i,
    {
        let c = &cols[i];
        if c.id > 0xffff_ffffu64 {
            assert(!(cols@[i as int].id <= u32::MAX));
            return Err(ColumnIdRange);
        }
        let named = NamedColumn { id: c.id as u32, kind: c.kind };
        proof {
            assert(cols@.subrange(0, i + 1).drop_last() =~= cols@.subrange(0, i as int));
        }
        match find_name(&v, &c.name) {
            Some(k) => {
                proof {
                    lemma_entry_set(v@, k as int, named);
                }
                let name = v[k].0.clone();
                v.set(k, (name, named));
            },
            None => {
                proof {
                    if entry_map(v@).contains_key(c.name@) {
                        let j = choose|j: int| 0 <= j < v@.len() && #[trigger] v@[j].0@ == c.name@;
                        assert(v@[j].0@ != c.name@);
                    }
                    lemma_entry_push(v@, (c.name, named));
                }
                v.push((c.name.clone(), named));
            },
        }
        i = i + 1;
    }
    assert(cols@.subrange(0, cols@.len() as int) =~= cols@);
    Ok(v)
}

/// The id of the export session of a device: company, a fixed name and the
/// device, separated by colons.
pub fn session_id(company: u64, device: u64) -> (r: String)
    ensures
        r@ == decimal(company as nat) + ":foo:"@ + decimal(device as nat),
{
    let mut s = format_u64(company);
    s.append(":foo:");
    let d = format_u64(device);
    s.append(d.as_str());
    s
}

} // verus!
