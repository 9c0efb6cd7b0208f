use vstd::prelude::*;
use vstd::string::StringExecFns;
use crate::record::{Fetch, Hop, Knock, Ping, Query, Record, Shake, Trace};
use crate::text::{decimal, format_i64, format_u128, format_u64, signed_decimal};
use crate::time::Duration;
use crate::newrelic::{carries, distinct_keys, lemma_distinct_carries};

verus! {

/// A value of a field of a point. A float is kept as the text it is written
/// as (the shortest decimal text that reads back as the same `f64`).
#[derive(Clone, Debug)]
pub enum Value {
    Float(String),
    Int(i64),
    UInt(u64),
    Str(String),
    Bool(bool),
}

/// A tag of a point.
#[derive(Clone, Debug)]
pub struct Tag {
    pub key: String,
    pub value: String,
}

/// A field of a point.
#[derive(Clone, Debug)]
pub struct Field {
    pub key: String,
    pub value: Value,
}

/// A point of the line protocol: a measurement, its tags and fields, and a
/// timestamp in nanoseconds.
#[derive(Clone, Debug)]
pub struct Point {
    pub measurement: String,
    pub tags: Vec<Tag>,
    pub fields: Vec<Field>,
    pub timestamp: u128,
}

/// The text of a value: a float as given, an integer with the suffix `i`,
/// an unsigned one with `u`, a string in double quotes, a boolean as
/// `true` or `false`.
pub open spec fn value_text(v: Value) -> Seq<char> {
    match v {
        Value::Float(t) => t@,
        Value::Int(n) => signed_decimal(n as int).push('i'),
        Value::UInt(n) => decimal(n as nat).push('u'),
        Value::Str(s) => seq!['"'] + s@ + seq!['"'],
        Value::Bool(b) => if b {
            seq!['t', 'r', 'u', 'e']
        } else {
            seq!['f', 'a', 'l', 's', 'e']
        },
    }
}

/// The key and value texts of the tags.
pub open spec fn tag_pairs(ts: Seq<Tag>) -> Seq<(Seq<char>, Seq<char>)> {
    Seq::new(ts.len(), |i: int| (ts[i].key@, ts[i].value@))
}

/// The key and value texts of the fields.
pub open spec fn field_pairs(fs: Seq<Field>) -> Seq<(Seq<char>, Seq<char>)> {
    Seq::new(fs.len(), |i: int| (fs[i].key@, value_text(fs[i].value)))
}

/// `,key=value` for each tag.
pub open spec fn tags_text(ts: Seq<(Seq<char>, Seq<char>)>) -> Seq<char>
    decreases ts.len(),
{
    if ts.len() == 0 {
        Seq::empty()
    } else {
        tags_text(ts.drop_last()) + seq![','] + ts.last().0 + seq!['='] + ts.last().1
    }
}

/// `key=value` for one field.
pub open spec fn field_text(f: (Seq<char>, Seq<char>)) -> Seq<char> {
    f.0 + seq!['='] + f.1
}

/// The fields, separated by commas.
pub open spec fn fields_text(fs: Seq<(Seq<char>, Seq<char>)>) -> Seq<char>
    decreases fs.len(),
{
    if fs.len() == 0 {
        Seq::empty()
    } else if fs.len() == 1 {
        field_text(fs[0])
    } else {
        fields_text(fs.drop_last()) + seq![','] + field_text(fs.last())
    }
}

/// A line of the protocol: measurement, tags, fields and timestamp.
pub open spec fn line(measurement: Seq<char>, tags: Seq<(Seq<char>, Seq<char>)>, fields: Seq<(Seq<char>, Seq<char>)>, ts: u128) -> Seq<char> {
    measurement + tags_text(tags) + seq![' '] + fields_text(fields) + seq![' '] + decimal(ts as nat)
        + seq!['\n']
}

/// The line of a point.
pub open spec fn point_text(p: Point) -> Seq<char> {
    line(p.measurement@, tag_pairs(p.tags@), field_pairs(p.fields@), p.timestamp)
}

fn comma(s: &mut String)
    ensures
        final(s)@ == old(s)@.push(','),
{
    proof {
        reveal_strlit(",");
    }
    s.append(",");
}

fn equals(s: &mut String)
    ensures
        final(s)@ == old(s)@.push('='),
{
    proof {
        reveal_strlit("=");
    }
    s.append("=");
}

fn space(s: &mut String)
    ensures
        final(s)@ == old(s)@.push(' '),
{
    proof {
        reveal_strlit(" ");
    }
    s.append(" ");
}

fn newline(s: &mut String)
    ensures
        final(s)@ == old(s)@.push('\n'),
{
    proof {
        reveal_strlit("\n");
    }
    s.append("\n");
}

fn quote(s: &mut String)
    ensures
        final(s)@ == old(s)@.push('"'),
{
    proof {
        reveal_strlit("\"");
    }
    s.append("\"");
}

fn suffix_i(s: &mut String)
    ensures
        final(s)@ == old(s)@.push('i'),
{
    proof {
        reveal_strlit("i");
    }
    s.append("i");
}

fn suffix_u(s: &mut String)
    ensures
        final(s)@ == old(s)@.push('u'),
{
    proof {
        reveal_strlit("u");
    }
    s.append("u");
}

fn true_text(s: &mut String)
    ensures
        final(s)@ == old(s)@ + seq!['t', 'r', 'u', 'e'],
{
    proof {
        reveal_strlit("true");
    }
    s.append("true");
}

fn false_text(s: &mut String)
    ensures
        final(s)@ == old(s)@ + seq!['f', 'a', 'l', 's', 'e'],
{
    proof {
        reveal_strlit("false");
    }
    s.append("false");
}

proof fn lemma_prefix_drop_last<T>(s: Seq<T>, i: int)
    requires
        0 <= i < s.len(),
    ensures
        s.subrange(0, i + 1).drop_last() == s.subrange(0, i),
        s.subrange(0, i + 1).last() == s[i],
{
    assert(s.subrange(0, i + 1).drop_last() =~= s.subrange(0, i));
}

impl Value {
    /// Appends the text of the value.
    pub fn write_text(&self, s: &mut String)
        ensures
            final(s)@ == old(s)@ + value_text(*self),
    {
        let ghost start = s@;
        match self {
            Value::Float(t) => {
                s.append(t.as_str());
            },
            Value::Int(n) => {
                let t = format_i64(*n);
                s.append(t.as_str());
                suffix_i(s);
            },
            Value::UInt(n) => {
                let t = format_u64(*n);
                s.append(t.as_str());
                suffix_u(s);
            },
            Value::Str(v) => {
                quote(s);
                s.append(v.as_str());
                quote(s);
            },
            Value::Bool(b) => {
                if *b {
                    true_text(s);
                } else {
                    false_text(s);
                }
            },
        }
        assert(s@ =~= start + value_text(*self));
    }

    /// Appends the value as UTF-8 bytes.
    pub fn write(&self, vec: &mut Vec<u8>)
        ensures
            final(vec)@ == old(vec)@ + vstd::utf8::encode_utf8(value_text(*self)),
    {
        let mut s = String::new();
        self.write_text(&mut s);
        extend_str(vec, &s);
    }
}

fn extend_str(vec: &mut Vec<u8>, s: &String)
    ensures
        final(vec)@ == old(vec)@ + vstd::utf8::encode_utf8(s@),
{
    let bytes = s.as_str().as_bytes();
    let ghost start = vec@;
    let mut i: usize = 0;
    while i < bytes.len()
        invariant
            i <= bytes@.len(),
            vec@ == start + bytes@.subrange(0, i as int),
        decreases bytes@.len() - i,
    {
        vec.push(bytes[i]);
        i = i + 1;
        assert(vec@ =~= start + bytes@.subrange(0, i as int));
    }
    assert(bytes@.subrange(0, bytes@.len() as int) =~= bytes@);
}

impl Point {
    /// The line of the point.
    pub fn to_text(&self) -> (r: String)
        ensures
            r@ == point_text(*self),
    {
        let mut s = String::new();
        s.append(self.measurement.as_str());
        let ghost head = s@;
        let mut i: usize = 0;
        while i < self.tags.len()
            invariant
                i <= self.tags@.len(),
                s@ == head + tags_text(tag_pairs(self.tags@.subrange(0, i as int))),
            decreases self.tags@.len() - i,
        {
            let tag = &self.tags[i];
            comma(&mut s);
            s.append(tag.key.as_str());
            equals(&mut s);
            s.append(tag.value.as_str());
            proof {
                lemma_prefix_drop_last(self.tags@, i as int);
                assert(tag_pairs(self.tags@.subrange(0, i + 1)).drop_last() =~= tag_pairs(
                    self.tags@.subrange(0, i as int),
                ));
            }
            i = i + 1;
            assert(s@ =~= head + tags_text(tag_pairs(self.tags@.subrange(0, i as int))));
        }
        assert(self.tags@.subrange(0, self.tags@.len() as int) =~= self.tags@);
        space(&mut s);
        let ghost mid = s@;
        let mut j: usize = 0;
        while j < self.fields.len()
            invariant
                j <= self.fields@.len(),
                s@ == mid + fields_text(field_pairs(self.fields@.subrange(0, j as int))),
            decreases self.fields@.len() - j,
        {
            let field = &self.fields[j];
            if j > 0 {
                comma(&mut s);
            }
            s.append(field.key.as_str());
            equals(&mut s);
            field.value.write_text(&mut s);
            proof {
                lemma_prefix_drop_last(self.fields@, j as int);
                assert(field_pairs(self.fields@.subrange(0, j + 1)).drop_last() =~= field_pairs(
                    self.fields@.subrange(0, j as int),
                ));
                if j == 0 {
                    assert(field_pairs(self.fields@.subrange(0, 1)).len() == 1);
                }
            }
            j = j + 1;
            assert(s@ =~= mid + fields_text(field_pairs(self.fields@.subrange(0, j as int))));
        }
        assert(self.fields@.subrange(0, self.fields@.len() as int) =~= self.fields@);
        space(&mut s);
        let t = format_u128(self.timestamp);
        s.append(t.as_str());
        newline(&mut s);
        assert(s@ =~= point_text(*self));
        s
    }

    /// Appends the line of the point as UTF-8 bytes.
    pub fn write(&self, vec: &mut Vec<u8>)
        ensures
            final(vec)@ == old(vec)@ + vstd::utf8::encode_utf8(point_text(*self)),
    {
        let s = self.to_text();
        extend_str(vec, &s);
    }
}

/// A count does not fit the integer type of its field.
#[derive(Clone, Copy, Debug, PartialEq, Eq, Structural)]
pub struct RangeError;

/// Microseconds of a span as 32 signed bits, or zero when they do not fit.
pub open spec fn micros_i32(d: Duration) -> i32 {
    if d.total_nanos() / 1000 <= i32::MAX {
        (d.total_nanos() / 1000) as i32
    } else {
        0
    }
}

/// Microseconds of a span as 32 signed bits, or zero when they do not fit.
pub fn as_micros(d: Duration) -> (r: i32)
    ensures
        r == micros_i32(d),
{
    let m = d.as_micros();
    if m <= 0x7fff_ffffu128 {
        m as i32
    } else {
        0
    }
}

/// The text of an integer field value.
pub open spec fn int_text(n: int) -> Seq<char> {
    signed_decimal(n).push('i')
}

/// The tags of a record's points: agent, task, target and address.
pub open spec fn record_tags(agent: Seq<char>, task: Seq<char>, target: Seq<char>, addr: Seq<char>) -> Seq<(Seq<char>, Seq<char>)> {
    seq![("agent"@, agent), ("task"@, task), ("target"@, target), ("addr"@, addr)]
}

/// The line of an HTTP request.
pub open spec fn fetch_line(d: Fetch, agent: Seq<char>, addr: Seq<char>, ts: u128) -> Seq<char> {
    line(
        "ksynth"@,
        record_tags(agent, "fetch"@, d.target@, addr),
        seq![
            ("status"@, int_text(d.status as int)),
            ("size"@, int_text(d.size as int)),
            ("rtt"@, int_text(micros_i32(d.rtt) as int)),
            ("dns"@, int_text(micros_i32(d.dns) as int)),
            ("tcp"@, int_text(micros_i32(d.tcp) as int)),
            ("tls"@, int_text(micros_i32(d.tls) as int))
        ],
        ts,
    )
}

/// The line of one round trip `rtt` of a series of probes.
pub open spec fn probe_line(task: Seq<char>, target: Seq<char>, agent: Seq<char>, addr: Seq<char>, sent: u32, lost: u32, loss: Seq<char>, rtt: Duration, ts: u128) -> Seq<char> {
    line(
        "ksynth"@,
        record_tags(agent, task, target, addr),
        seq![
            ("lost"@, int_text(lost as int)),
            ("sent"@, int_text(sent as int)),
            ("loss"@, loss),
            ("rtt"@, int_text(micros_i32(rtt) as int))
        ],
        ts,
    )
}

/// The lines of a series of probes, one per round trip.
pub open spec fn probe_lines(task: Seq<char>, target: Seq<char>, agent: Seq<char>, addr: Seq<char>, sent: u32, lost: u32, loss: Seq<char>, rtts: Seq<Duration>, ts: u128) -> Seq<char>
    decreases rtts.len(),
{
    if rtts.len() == 0 {
        Seq::empty()
    } else {
        probe_lines(task, target, agent, addr, sent, lost, loss, rtts.drop_last(), ts) + probe_line(
            task,
            target,
            agent,
            addr,
            sent,
            lost,
            loss,
            rtts.last(),
            ts,
        )
    }
}

/// The line of a DNS query.
pub open spec fn query_line(d: Query, agent: Seq<char>, ts: u128) -> Seq<char> {
    line(
        "ksynth"@,
        seq![("agent"@, agent), ("task"@, "query"@)],
        seq![("code"@, int_text(d.code as int)), ("rtt"@, int_text(micros_i32(d.time) as int))],
        ts,
    )
}

/// The line of a TLS handshake.
pub open spec fn shake_line(d: Shake, agent: Seq<char>, addr: Seq<char>, ts: u128) -> Seq<char> {
    line(
        "ksynth"@,
        record_tags(agent, "shake"@, d.target@, addr).push(("port"@, decimal(d.port as nat))),
        seq![("rtt"@, int_text(micros_i32(d.time) as int))],
        ts,
    )
}

/// The line of a route trace.
pub open spec fn trace_line(d: Trace, agent: Seq<char>, addr: Seq<char>, ts: u128) -> Seq<char> {
    line(
        "ksynth"@,
        record_tags(agent, "trace"@, d.target@, addr),
        seq![("hops"@, int_text(max_hop(d.hops@) as int)), ("rtt"@, int_text(micros_i32(d.time) as int))],
        ts,
    )
}

fn text(s: &str) -> (r: String)
    ensures
        r@ == s@,
{
    String::from_str(s)
}

/// The tag `key=value`.
pub fn tag(key: &str, value: &str) -> (t: Tag)
    ensures
        t.key@ == key@,
        t.value@ == value@,
{
    Tag { key: text(key), value: text(value) }
}

fn int_pair(key: &str, n: i64) -> (f: Field)
    ensures
        f.key@ == key@,
        value_text(f.value) == int_text(n as int),
{
    Field { key: text(key), value: Value::Int(n) }
}

fn record_tag_list(agent: &str, task: &str, target: &str, addr: &str) -> (v: Vec<Tag>)
    ensures
        tag_pairs(v@) == record_tags(agent@, task@, target@, addr@),
{
    let mut v: Vec<Tag> = Vec::new();
    v.push(tag("agent", agent));
    v.push(tag("task", task));
    v.push(tag("target", target));
    v.push(tag("addr", addr));
    assert(tag_pairs(v@) =~= record_tags(agent@, task@, target@, addr@));
    v
}

/// The point of an HTTP request, with `addr` the text of its address.
pub fn fetch(data: &Fetch, agent: &str, addr: &str, ts: u128) -> (r: Result<Point, RangeError>)
    ensures
        r is Ok <==> data.size <= i64::MAX,
        r matches Ok(p) ==> point_text(p) == fetch_line(*data, agent@, addr@, ts),
{
    if data.size as u64 > 0x7fff_ffff_ffff_ffffu64 {
        return Err(RangeError);
    }
    let mut fields: Vec<Field> = Vec::new();
    fields.push(int_pair("status", data.status as i64));
    fields.push(int_pair("size", data.size as i64));
    fields.push(int_pair("rtt", as_micros(data.rtt) as i64));
    fields.push(int_pair("dns", as_micros(data.dns) as i64));
    fields.push(int_pair("tcp", as_micros(data.tcp) as i64));
    fields.push(int_pair("tls", as_micros(data.tls) as i64));
    let p = Point {
        measurement: text("ksynth"),
        tags: record_tag_list(agent, "fetch", data.target.as_str(), addr),
        fields,
        timestamp: ts,
    };
    assert(field_pairs(p.fields@) =~= seq![
        ("status"@, int_text(data.status as int)),
        ("size"@, int_text(data.size as int)),
        ("rtt"@, int_text(micros_i32(data.rtt) as int)),
        ("dns"@, int_text(micros_i32(data.dns) as int)),
        ("tcp"@, int_text(micros_i32(data.tcp) as int)),
        ("tls"@, int_text(micros_i32(data.tls) as int))
    ]);
    Ok(p)
}

fn probe_point(task: &str, target: &str, agent: &str, addr: &str, sent: u32, lost: u32, loss: &str, rtt: Duration, ts: u128) -> (p: Point)
    requires
        sent <= i32::MAX,
        lost <= i32::MAX,
    ensures
        point_text(p) == probe_line(task@, target@, agent@, addr@, sent, lost, loss@, rtt, ts),
{
    let mut fields: Vec<Field> = Vec::new();
    fields.push(int_pair("lost", lost as i64));
    fields.push(int_pair("sent", sent as i64));
    fields.push(Field { key: text("loss"), value: Value::Float(text(loss)) });
    fields.push(int_pair("rtt", as_micros(rtt) as i64));
    let p = Point {
        measurement: text("ksynth"),
        tags: record_tag_list(agent, task, target, addr),
        fields,
        timestamp: ts,
    };
    assert(field_pairs(p.fields@) =~= seq![
        ("lost"@, int_text(lost as int)),
        ("sent"@, int_text(sent as int)),
        ("loss"@, loss@),
        ("rtt"@, int_text(micros_i32(rtt) as int))
    ]);
    p
}

/// Appends the lines of a series of probes, one for each round trip.
fn probes(task: &str, target: &str, sent: u32, lost: u32, result: &Vec<Duration>, agent: &str, addr: &str, loss: &str, ts: u128, out: &mut String) -> (r: Result<(), RangeError>)
    ensures
        r is Ok <==> (sent <= i32::MAX && lost <= i32::MAX),
        r is Ok ==> final(out)@ == old(out)@ + probe_lines(task@, target@, agent@, addr@, sent, lost, loss@, result@, ts),
        r is Err ==> final(out)@ == old(out)@,
{
    if lost > 0x7fff_ffffu32 || sent > 0x7fff_ffffu32 {
        return Err(RangeError);
    }
    let ghost start = out@;
    let mut i: usize = 0;
    while i < result.len()
        invariant
            sent <= i32::MAX,
            lost <= i32::MAX,
            i <= result@.len(),
            out@ == start + probe_lines(task@, target@, agent@, addr@, sent, lost, loss@, result@.subrange(0, i as int), ts),
        decreases result@.len() - i,
    {
        let p = probe_point(task, target, agent, addr, sent, lost, loss, result[i], ts);
        let t = p.to_text();
        out.append(t.as_str());
        proof {
            lemma_prefix_drop_last(result@, i as int);
        }
        i = i + 1;
        assert(out@ =~= start + probe_lines(task@, target@, agent@, addr@, sent, lost, loss@, result@.subrange(0, i as int), ts));
    }
    assert(result@.subrange(0, result@.len() as int) =~= result@);
    Ok(())
}

/// The points of a series of TCP connections, with `addr` the text of its
/// address and `loss` that of the share of connections lost: one line per
/// round trip.
pub fn knock(data: &Knock, agent: &str, addr: &str, loss: &str, ts: u128, out: &mut String) -> (r: Result<(), RangeError>)
    ensures
        r is Ok <==> (data.sent <= i32::MAX && data.lost <= i32::MAX),
        r is Ok ==> final(out)@ == old(out)@ + probe_lines("knock"@, data.target@, agent@, addr@, data.sent, data.lost, loss@, data.result@, ts),
        r is Err ==> final(out)@ == old(out)@,
{
    probes("knock", data.target.as_str(), data.sent, data.lost, &data.result, agent, addr, loss, ts, out)
}

/// The points of a series of ICMP echo requests, with `addr` the text of
/// its address and `loss` that of the share of requests lost: one line per
/// round trip.
pub fn ping(data: &Ping, agent: &str, addr: &str, loss: &str, ts: u128, out: &mut String) -> (r: Result<(), RangeError>)
    ensures
        r is Ok <==> (data.sent <= i32::MAX && data.lost <= i32::MAX),
        r is Ok ==> final(out)@ == old(out)@ + probe_lines("ping"@, data.target@, agent@, addr@, data.sent, data.lost, loss@, data.result@, ts),
        r is Err ==> final(out)@ == old(out)@,
{
    probes("ping", data.target.as_str(), data.sent, data.lost, &data.result, agent, addr, loss, ts, out)
}

/// The point of a DNS query.
pub fn query(data: &Query, agent: &str, ts: u128) -> (p: Point)
    ensures
        point_text(p) == query_line(*data, agent@, ts),
{
    let mut tags: Vec<Tag> = Vec::new();
    tags.push(tag("agent", agent));
    tags.push(tag("task", "query"));
    let mut fields: Vec<Field> = Vec::new();
    fields.push(int_pair("code", data.code as i64));
    fields.push(int_pair("rtt", as_micros(data.time) as i64));
    let p = Point { measurement: text("ksynth"), tags, fields, timestamp: ts };
    assert(tag_pairs(p.tags@) =~= seq![("agent"@, agent@), ("task"@, "query"@)]);
    assert(field_pairs(p.fields@) =~= seq![
        ("code"@, int_text(data.code as int)),
        ("rtt"@, int_text(micros_i32(data.time) as int))
    ]);
    p
}

/// The point of a TLS handshake, with `addr` the text of its address.
pub fn shake(data: &Shake, agent: &str, addr: &str, ts: u128) -> (p: Point)
    ensures
        point_text(p) == shake_line(*data, agent@, addr@, ts),
{
    let mut tags = record_tag_list(agent, "shake", data.target.as_str(), addr);
    let ghost head = tags@;
    let port = format_u64(data.port as u64);
    tags.push(Tag { key: text("port"), value: port });
    let mut fields: Vec<Field> = Vec::new();
    fields.push(int_pair("rtt", as_micros(data.time) as i64));
    let p = Point { measurement: text("ksynth"), tags, fields, timestamp: ts };
    assert(tag_pairs(p.tags@) =~= tag_pairs(head).push(("port"@, decimal(data.port as nat))));
    assert(field_pairs(p.fields@) =~= seq![("rtt"@, int_text(micros_i32(data.time) as int))]);
    p
}

/// The highest hop number of a route, zero for a route of no hop.
pub open spec fn max_hop(hops: Seq<Hop>) -> nat
    decreases hops.len(),
{
    if hops.len() == 0 {
        0
    } else {
        let rest = max_hop(hops.drop_last());
        if hops.last().hop > rest {
            hops.last().hop as nat
        } else {
            rest
        }
    }
}

fn highest_hop(hops: &Vec<Hop>) -> (r: usize)
    ensures
        r == max_hop(hops@),
{
    let mut best: usize = 0;
    let mut i: usize = 0;
    while i < hops.len()
        invariant
            i <= hops@.len(),
            best == max_hop(hops@.subrange(0, i as int)),
        decreases hops@.len() - i,
    {
        proof {
            lemma_prefix_drop_last(hops@, i as int);
        }
        if hops[i].hop > best {
            best = hops[i].hop;
        }
        i = i + 1;
    }
    assert(hops@.subrange(0, hops@.len() as int) =~= hops@);
    best
}

/// The point of a route trace, with `addr` the text of its address.
pub fn trace(data: &Trace, agent: &str, addr: &str, ts: u128) -> (r: Result<Point, RangeError>)
    ensures
        r is Ok <==> max_hop(data.hops@) <= i64::MAX,
        r matches Ok(p) ==> point_text(p) == trace_line(*data, agent@, addr@, ts),
{
    let hops = highest_hop(&data.hops);
    if hops as u64 > 0x7fff_ffff_ffff_ffffu64 {
        return Err(RangeError);
    }
    let mut fields: Vec<Field> = Vec::new();
    fields.push(int_pair("hops", hops as i64));
    fields.push(int_pair("rtt", as_micros(data.time) as i64));
    let p = Point {
        measurement: text("ksynth"),
        tags: record_tag_list(agent, "trace", data.target.as_str(), addr),
        fields,
        timestamp: ts,
    };
    assert(field_pairs(p.fields@) =~= seq![
        ("hops"@, int_text(max_hop(data.hops@) as int)),
        ("rtt"@, int_text(micros_i32(data.time) as int))
    ]);
    Ok(p)
}

/// Texts for a record that the library cannot write itself: its address
/// as text, and the share of probes lost as the text of a float.
#[derive(Clone, Debug)]
pub struct Rendered {
    pub addr: String,
    pub loss: String,
}

/// The lines of a record, or `None` when a count does not fit its field.
/// Records of tasks this agent does not run, errors and timeouts have none.
pub open spec fn record_text(r: Record, t: Rendered, agent: Seq<char>, ts: u128) -> Option<Seq<char>> {
    match r {
        Record::Fetch(d) => if d.size <= i64::MAX {
            Some(fetch_line(d, agent, t.addr@, ts))
        } else {
            None
        },
        Record::Knock(d) => if d.sent <= i32::MAX && d.lost <= i32::MAX {
            Some(probe_lines("knock"@, d.target@, agent, t.addr@, d.sent, d.lost, t.loss@, d.result@, ts))
        } else {
            None
        },
        Record::Ping(d) => if d.sent <= i32::MAX && d.lost <= i32::MAX {
            Some(probe_lines("ping"@, d.target@, agent, t.addr@, d.sent, d.lost, t.loss@, d.result@, ts))
        } else {
            None
        },
        Record::Query(d) => Some(query_line(d, agent, ts)),
        Record::Shake(d) => Some(shake_line(d, agent, t.addr@, ts)),
        Record::Trace(d) => if max_hop(d.hops@) <= i64::MAX {
            Some(trace_line(d, agent, t.addr@, ts))
        } else {
            None
        },
        Record::Opaque(_) | Record::Error(_) | Record::Timeout(_) => Some(Seq::empty()),
    }
}

/// The lines of the records, up to the first that cannot be written.
pub open spec fn records_text(rs: Seq<(Record, Rendered)>, agent: Seq<char>, ts: u128) -> Seq<char>
    decreases rs.len(),
{
    if rs.len() == 0 {
        Seq::empty()
    } else {
        let before = records_text(rs.drop_last(), agent, ts);
        match record_text(rs.last().0, rs.last().1, agent, ts) {
            Some(t) => before + t,
            None => before,
        }
    }
}

/// The first record that cannot be written, from position `i` on.
pub open spec fn first_unwritable(rs: Seq<(Record, Rendered)>, agent: Seq<char>, ts: u128, i: int) -> Option<int>
    decreases rs.len() - i,
{
    if i < 0 || i >= rs.len() {
        None
    } else if record_text(rs[i].0, rs[i].1, agent, ts) is None {
        Some(i)
    } else {
        first_unwritable(rs, agent, ts, i + 1)
    }
}

fn record_lines(r: &Record, t: &Rendered, agent: &str, ts: u128, out: &mut String) -> (res: Result<(), RangeError>)
    ensures
        match record_text(*r, *t, agent@, ts) {
            Some(text) => res is Ok && final(out)@ == old(out)@ + text,
            None => res is Err && final(out)@ == old(out)@,
        },
{
    let ghost start = out@;
    match r {
        Record::Fetch(d) => match fetch(d, agent, t.addr.as_str(), ts) {
            Ok(p) => {
                let line = p.to_text();
                out.append(line.as_str());
                Ok(())
            },
            Err(e) => Err(e),
        },
        Record::Knock(d) => knock(d, agent, t.addr.as_str(), t.loss.as_str(), ts, out),
        Record::Ping(d) => ping(d, agent, t.addr.as_str(), t.loss.as_str(), ts, out),
        Record::Query(d) => {
            let line = query(d, agent, ts).to_text();
            out.append(line.as_str());
            Ok(())
        },
        Record::Shake(d) => {
            let line = shake(d, agent, t.addr.as_str(), ts).to_text();
            out.append(line.as_str());
            Ok(())
        },
        Record::Trace(d) => match trace(d, agent, t.addr.as_str(), ts) {
            Ok(p) => {
                let line = p.to_text();
                out.append(line.as_str());
                Ok(())
            },
            Err(e) => Err(e),
        },
        Record::Opaque(_) | Record::Error(_) | Record::Timeout(_) => {
            assert(out@ =~= start + Seq::<char>::empty());
            Ok(())
        },
    }
}

/// Writes the lines of a batch of records, all stamped `ts`, as UTF-8 to
/// `buf`. Stops at the first record with a count that does not fit its
/// field, keeping the lines of the records before it.
pub fn encode(agent: &str, rs: &[(Record, Rendered)], ts: u128, buf: &mut Vec<u8>) -> (r: Result<(), RangeError>)
    ensures
        match first_unwritable(rs@, agent@, ts, 0) {
            None => r is Ok && final(buf)@ == old(buf)@ + vstd::utf8::encode_utf8(
                records_text(rs@, agent@, ts),
            ),
            Some(k) => r is Err && final(buf)@ == old(buf)@ + vstd::utf8::encode_utf8(
                records_text(rs@.subrange(0, k), agent@, ts),
            ),
        },
{
    let mut out = String::new();
    let mut i: usize = 0;
    while i < rs.len()
        invariant
            i <= rs@.len(),
            buf@ == old(buf)@,
            first_unwritable(rs@, agent@, ts, 0) == first_unwritable(rs@, agent@, ts, i as int),
            out@ == records_text(rs@.subrange(0, i as int), agent@, ts),
        decreases rs@.len() - i,
    {
        let ghost before = out@;
        proof {
            lemma_prefix_drop_last(rs@, i as int);
        }
        match record_lines(&rs[i].0, &rs[i].1, agent, ts, &mut out) {
            Ok(()) => {},
            Err(e) => {
                assert(first_unwritable(rs@, agent@, ts, i as int) == Some(i as int));
                extend_str(buf, &out);
                return Err(e);
            },
        }
        assert(record_text(rs@[i as int].0, rs@[i as int].1, agent@, ts) is Some);
        i = i + 1;
    }
    assert(rs@.subrange(0, rs@.len() as int) =~= rs@);
    extend_str(buf, &out);
    Ok(())
}

/// How requests to the database are authorised.
#[derive(Clone, Debug)]
pub enum Auth {
    Basic(String, String),
    Token(String),
    Anonymous,
}

/// The character of the standard base64 alphabet for a 6-bit value.
pub open spec fn base64_char(n: int) -> char {
    if n < 26 {
        ('A' as int + n) as char
    } else if n < 52 {
        ('a' as int + (n - 26)) as char
    } else if n < 62 {
        ('0' as int + (n - 52)) as char
    } else if n == 62 {
        '+'
    } else {
        '/'
    }
}

/// The standard base64 encoding of bytes, with padding: each group of three
/// bytes becomes four characters of six bits each; a last group of one or
/// two bytes is padded with `=` to four characters.
pub open spec fn base64_standard(data: Seq<u8>) -> Seq<char>
    decreases data.len(),
{
    let a = data[0] as int;
    let b = if data.len() > 1 { data[1] as int } else { 0 };
    let c = if data.len() > 2 { data[2] as int } else { 0 };
    if data.len() == 0 {
        Seq::empty()
    } else if data.len() == 1 {
        seq![base64_char(a / 4), base64_char((a % 4) * 16), '=', '=']
    } else if data.len() == 2 {
        seq![base64_char(a / 4), base64_char((a % 4) * 16 + b / 16), base64_char((b % 16) * 4), '=']
    } else {
        seq![
            base64_char(a / 4),
            base64_char((a % 4) * 16 + b / 16),
            base64_char((b % 16) * 4 + c / 64),
            base64_char(c % 64),
        ] + base64_standard(data.subrange(3, data.len() as int))
    }
}

/// Encodes with `base64::encode` (the standard alphabet, with padding).
/// Claimed: the result is `base64_standard` of the bytes.
#[verifier::external_body]
fn base64_encode(data: &[u8]) -> (r: String)
    ensures
        r@ == base64_standard(data@),
{
    base64::encode(data)
}

/// `user:password`, the credentials of basic authorisation.
pub fn basic_credentials(user: &str, password: &str) -> (r: String)
    ensures
        r@ == user@ + ":"@ + password@,
{
    let mut s = String::from_str(user);
    s.append(":");
    s.append(password);
    s
}

/// The header value of basic authorisation from the encoded credentials.
pub fn basic_value(encoded: &str) -> (r: String)
    ensures
        r@ == "Basic "@ + encoded@,
{
    let mut s = String::from_str("Basic ");
    s.append(encoded);
    s
}

impl Auth {
    /// The value of the `Authorization` header, if any: `Token` and the
    /// token, or `Basic` and the base64 of `user:password`.
    pub fn header(&self) -> (r: Option<String>)
        ensures
            match *self {
                Auth::Token(t) => r matches Some(h) && h@ == "Token "@ + t@,
                Auth::Basic(u, p) => r matches Some(h) && h@ == "Basic "@ + base64_standard(
                    vstd::utf8::encode_utf8(u@ + ":"@ + p@),
                ),
                Auth::Anonymous => r is None,
            },
    {
        match self {
            Auth::Token(t) => {
                let mut s = String::from_str("Token ");
                s.append(t.as_str());
                Some(s)
            },
            Auth::Basic(u, p) => {
                let creds = basic_credentials(u.as_str(), p.as_str());
                let encoded = base64_encode(creds.as_str().as_bytes());
                Some(basic_value(encoded.as_str()))
            },
            Auth::Anonymous => None,
        }
    }
}

/// The line of one round trip of a series of probes (ping or knock) carries
/// each value under the key of its name: the agent, task, target and address
/// tags, and the lost and sent counts, the loss and the round-trip time in
/// microseconds.
pub proof fn law_probe_line_fields(task: Seq<char>, target: Seq<char>, agent: Seq<char>, addr: Seq<char>, sent: u32, lost: u32, loss: Seq<char>, rtt: Duration, ts: u128)
    ensures
        exists|tags: Seq<(Seq<char>, Seq<char>)>, fields: Seq<(Seq<char>, Seq<char>)>|
            #[trigger] line("ksynth"@, tags, fields, ts) == probe_line(task, target, agent, addr, sent, lost, loss, rtt, ts) && {
                &&& tags.len() == 4 && distinct_keys(tags)
                &&& carries(tags, "agent"@, agent)
                &&& carries(tags, "task"@, task)
                &&& carries(tags, "target"@, target)
                &&& carries(tags, "addr"@, addr)
                &&& fields.len() == 4 && distinct_keys(fields)
                &&& carries(fields, "lost"@, int_text(lost as int))
                &&& carries(fields, "sent"@, int_text(sent as int))
                &&& carries(fields, "loss"@, loss)
                &&& carries(fields, "rtt"@, int_text(micros_i32(rtt) as int))
            },
{
    reveal_strlit("agent");
    reveal_strlit("task");
    reveal_strlit("target");
    reveal_strlit("addr");
    reveal_strlit("lost");
    reveal_strlit("sent");
    reveal_strlit("loss");
    reveal_strlit("rtt");
    let tags = seq![("agent"@, agent), ("task"@, task), ("target"@, target), ("addr"@, addr)];
    let fields = seq![("lost"@, int_text(lost as int)), ("sent"@, int_text(sent as int)), ("loss"@, loss), ("rtt"@, int_text(micros_i32(rtt) as int))];
    assert forall|i: int, j: int| 0 <= i < j < tags.len() implies #[trigger] tags[i].0 != #[trigger] tags[j].0 by {
        assert(tags[i].0.len() != tags[j].0.len() || tags[i].0[0] != tags[j].0[0] || tags[i].0[1] != tags[j].0[1]);
    }
    assert forall|i: int, j: int| 0 <= i < j < fields.len() implies #[trigger] fields[i].0 != #[trigger] fields[j].0 by {
        assert(fields[i].0.len() != fields[j].0.len() || fields[i].0[0] != fields[j].0[0] || fields[i].0[1] != fields[j].0[1] || fields[i].0[3] != fields[j].0[3]);
    }
    lemma_distinct_carries(tags, 0);
    lemma_distinct_carries(tags, 1);
    lemma_distinct_carries(tags, 2);
    lemma_distinct_carries(tags, 3);
    lemma_distinct_carries(fields, 0);
    lemma_distinct_carries(fields, 1);
    lemma_distinct_carries(fields, 2);
    lemma_distinct_carries(fields, 3);
    assert(line("ksynth"@, tags, fields, ts) == probe_line(task, target, agent, addr, sent, lost, loss, rtt, ts));
}

/// The line of an HTTP fetch carries each value under the key of its name:
/// the tags, the status, the size, and the round-trip, DNS, TCP and TLS
/// times in microseconds.
pub proof fn law_fetch_line_fields(d: Fetch, agent: Seq<char>, addr: Seq<char>, ts: u128)
    ensures
        exists|tags: Seq<(Seq<char>, Seq<char>)>, fields: Seq<(Seq<char>, Seq<char>)>|
            #[trigger] line("ksynth"@, tags, fields, ts) == fetch_line(d, agent, addr, ts) && {
                &&& tags.len() == 4 && distinct_keys(tags)
                &&& carries(tags, "agent"@, agent)
                &&& carries(tags, "task"@, "fetch"@)
                &&& carries(tags, "target"@, d.target@)
                &&& carries(tags, "addr"@, addr)
                &&& fields.len() == 6 && distinct_keys(fields)
                &&& carries(fields, "status"@, int_text(d.status as int))
                &&& carries(fields, "size"@, int_text(d.size as int))
                &&& carries(fields, "rtt"@, int_text(micros_i32(d.rtt) as int))
                &&& carries(fields, "dns"@, int_text(micros_i32(d.dns) as int))
                &&& carries(fields, "tcp"@, int_text(micros_i32(d.tcp) as int))
                &&& carries(fields, "tls"@, int_text(micros_i32(d.tls) as int))
            },
{
    reveal_strlit("agent");
    reveal_strlit("task");
    reveal_strlit("target");
    reveal_strlit("addr");
    reveal_strlit("status");
    reveal_strlit("size");
    reveal_strlit("rtt");
    reveal_strlit("dns");
    reveal_strlit("tcp");
    reveal_strlit("tls");
    let tags = seq![("agent"@, agent), ("task"@, "fetch"@), ("target"@, d.target@), ("addr"@, addr)];
    let fields = seq![("status"@, int_text(d.status as int)), ("size"@, int_text(d.size as int)), ("rtt"@, int_text(micros_i32(d.rtt) as int)), ("dns"@, int_text(micros_i32(d.dns) as int)), ("tcp"@, int_text(micros_i32(d.tcp) as int)), ("tls"@, int_text(micros_i32(d.tls) as int))];
    assert forall|i: int, j: int| 0 <= i < j < tags.len() implies #[trigger] tags[i].0 != #[trigger] tags[j].0 by {
        assert(tags[i].0.len() != tags[j].0.len() || tags[i].0[0] != tags[j].0[0] || tags[i].0[1] != tags[j].0[1]);
    }
    assert forall|i: int, j: int| 0 <= i < j < fields.len() implies #[trigger] fields[i].0 != #[trigger] fields[j].0 by {
        assert(fields[0].0.len() != fields[1].0.len());
        assert(fields[0].0.len() != fields[2].0.len());
        assert(fields[0].0.len() != fields[3].0.len());
        assert(fields[0].0.len() != fields[4].0.len());
        assert(fields[0].0.len() != fields[5].0.len());
        assert(fields[1].0.len() != fields[2].0.len());
        assert(fields[1].0.len() != fields[3].0.len());
        assert(fields[1].0.len() != fields[4].0.len());
        assert(fields[1].0.len() != fields[5].0.len());
        assert(fields[2].0[0] != fields[3].0[0]);
        assert(fields[2].0[0] != fields[4].0[0]);
        assert(fields[2].0[0] != fields[5].0[0]);
        assert(fields[3].0[0] != fields[4].0[0]);
        assert(fields[3].0[0] != fields[5].0[0]);
        assert(fields[4].0[1] != fields[5].0[1]);
    }
lemma_distinct_carries(tags, 0);
    lemma_distinct_carries(tags, 1);
    lemma_distinct_carries(tags, 2);
    lemma_distinct_carries(tags, 3);
    lemma_distinct_carries(fields, 0);
    lemma_distinct_carries(fields, 1);
    lemma_distinct_carries(fields, 2);
    lemma_distinct_carries(fields, 3);
    lemma_distinct_carries(fields, 4);
    lemma_distinct_carries(fields, 5);
    assert(line("ksynth"@, tags, fields, ts) == fetch_line(d, agent, addr, ts));
}

/// The line of a DNS query carries the agent and task tags, the response
/// code and the time in microseconds.
pub proof fn law_query_line_fields(d: Query, agent: Seq<char>, ts: u128)
    ensures
        exists|tags: Seq<(Seq<char>, Seq<char>)>, fields: Seq<(Seq<char>, Seq<char>)>|
            #[trigger] line("ksynth"@, tags, fields, ts) == query_line(d, agent, ts) && {
                &&& tags.len() == 2 && distinct_keys(tags)
                &&& carries(tags, "agent"@, agent)
                &&& carries(tags, "task"@, "query"@)
                &&& fields.len() == 2 && distinct_keys(fields)
                &&& carries(fields, "code"@, int_text(d.code as int))
                &&& carries(fields, "rtt"@, int_text(micros_i32(d.time) as int))
            },
{
    reveal_strlit("agent");
    reveal_strlit("task");
    reveal_strlit("code");
    reveal_strlit("rtt");
    let tags = seq![("agent"@, agent), ("task"@, "query"@)];
    let fields = seq![("code"@, int_text(d.code as int)), ("rtt"@, int_text(micros_i32(d.time) as int))];
    assert forall|i: int, j: int| 0 <= i < j < tags.len() implies #[trigger] tags[i].0 != #[trigger] tags[j].0 by {
        assert(tags[i].0.len() != tags[j].0.len() || tags[i].0[0] != tags[j].0[0] || tags[i].0[1] != tags[j].0[1]);
    }
    assert forall|i: int, j: int| 0 <= i < j < fields.len() implies #[trigger] fields[i].0 != #[trigger] fields[j].0 by {
        assert(fields[i].0.len() != fields[j].0.len() || fields[i].0[0] != fields[j].0[0] || fields[i].0[1] != fields[j].0[1] || fields[i].0[3] != fields[j].0[3]);
    }
    lemma_distinct_carries(tags, 0);
    lemma_distinct_carries(tags, 1);
    lemma_distinct_carries(fields, 0);
    lemma_distinct_carries(fields, 1);
    assert(line("ksynth"@, tags, fields, ts) == query_line(d, agent, ts));
}

/// The line of a TLS handshake carries the tags, the port as a tag, and the
/// time in microseconds.
pub proof fn law_shake_line_fields(d: Shake, agent: Seq<char>, addr: Seq<char>, ts: u128)
    ensures
        exists|tags: Seq<(Seq<char>, Seq<char>)>, fields: Seq<(Seq<char>, Seq<char>)>|
            #[trigger] line("ksynth"@, tags, fields, ts) == shake_line(d, agent, addr, ts) && {
                &&& tags.len() == 5 && distinct_keys(tags)
                &&& carries(tags, "agent"@, agent)
                &&& carries(tags, "task"@, "shake"@)
                &&& carries(tags, "target"@, d.target@)
                &&& carries(tags, "addr"@, addr)
                &&& carries(tags, "port"@, decimal(d.port as nat))
                &&& fields.len() == 1 && distinct_keys(fields)
                &&& carries(fields, "rtt"@, int_text(micros_i32(d.time) as int))
            },
{
    reveal_strlit("agent");
    reveal_strlit("task");
    reveal_strlit("target");
    reveal_strlit("addr");
    reveal_strlit("port");
    reveal_strlit("rtt");
    let tags = seq![("agent"@, agent), ("task"@, "shake"@), ("target"@, d.target@), ("addr"@, addr), ("port"@, decimal(d.port as nat))];
    let fields = seq![("rtt"@, int_text(micros_i32(d.time) as int))];
    assert forall|i: int, j: int| 0 <= i < j < tags.len() implies #[trigger] tags[i].0 != #[trigger] tags[j].0 by {
        assert(tags[i].0.len() != tags[j].0.len() || tags[i].0[0] != tags[j].0[0] || tags[i].0[1] != tags[j].0[1]);
    }
    assert forall|i: int, j: int| 0 <= i < j < fields.len() implies #[trigger] fields[i].0 != #[trigger] fields[j].0 by {
        assert(fields[i].0.len() != fields[j].0.len() || fields[i].0[0] != fields[j].0[0] || fields[i].0[1] != fields[j].0[1] || fields[i].0[3] != fields[j].0[3]);
    }
    lemma_distinct_carries(tags, 0);
    lemma_distinct_carries(tags, 1);
    lemma_distinct_carries(tags, 2);
    lemma_distinct_carries(tags, 3);
    lemma_distinct_carries(tags, 4);
    lemma_distinct_carries(fields, 0);
    assert(tags =~= record_tags(agent, "shake"@, d.target@, addr).push(("port"@, decimal(d.port as nat))));
    assert(line("ksynth"@, tags, fields, ts) == shake_line(d, agent, addr, ts));
}

/// The line of a route trace carries the tags, the highest hop number and
/// the time in microseconds.
pub proof fn law_trace_line_fields(d: Trace, agent: Seq<char>, addr: Seq<char>, ts: u128)
    ensures
        exists|tags: Seq<(Seq<char>, Seq<char>)>, fields: Seq<(Seq<char>, Seq<char>)>|
            #[trigger] line("ksynth"@, tags, fields, ts) == trace_line(d, agent, addr, ts) && {
                &&& tags.len() == 4 && distinct_keys(tags)
                &&& carries(tags, "agent"@, agent)
                &&& carries(tags, "task"@, "trace"@)
                &&& carries(tags, "target"@, d.target@)
                &&& carries(tags, "addr"@, addr)
                &&& fields.len() == 2 && distinct_keys(fields)
                &&& carries(fields, "hops"@, int_text(max_hop(d.hops@) as int))
                &&& carries(fields, "rtt"@, int_text(micros_i32(d.time) as int))
            },
{
    reveal_strlit("agent");
    reveal_strlit("task");
    reveal_strlit("target");
    reveal_strlit("addr");
    reveal_strlit("hops");
    reveal_strlit("rtt");
    let tags = seq![("agent"@, agent), ("task"@, "trace"@), ("target"@, d.target@), ("addr"@, addr)];
    let fields = seq![("hops"@, int_text(max_hop(d.hops@) as int)), ("rtt"@, int_text(micros_i32(d.time) as int))];
    assert forall|i: int, j: int| 0 <= i < j < tags.len() implies #[trigger] tags[i].0 != #[trigger] tags[j].0 by {
        assert(tags[i].0.len() != tags[j].0.len() || tags[i].0[0] != tags[j].0[0] || tags[i].0[1] != tags[j].0[1]);
    }
    assert forall|i: int, j: int| 0 <= i < j < fields.len() implies #[trigger] fields[i].0 != #[trigger] fields[j].0 by {
        assert(fields[i].0.len() != fields[j].0.len() || fields[i].0[0] != fields[j].0[0] || fields[i].0[1] != fields[j].0[1] || fields[i].0[3] != fields[j].0[3]);
    }
    lemma_distinct_carries(tags, 0);
    lemma_distinct_carries(tags, 1);
    lemma_distinct_carries(tags, 2);
    lemma_distinct_carries(tags, 3);
    lemma_distinct_carries(fields, 0);
    lemma_distinct_carries(fields, 1);
    assert(line("ksynth"@, tags, fields, ts) == trace_line(d, agent, addr, ts));
}

/// The lines written for a ping record are those of a series of probes
/// with the record's own counts: `sent` is the number of requests sent and
/// `lost` the number lost; counts that do not fit 32 signed bits give none.
pub proof fn law_ping_record_lines(d: Ping, t: Rendered, agent: Seq<char>, ts: u128)
    ensures
        d.sent <= i32::MAX && d.lost <= i32::MAX ==> record_text(Record::Ping(d), t, agent, ts) == Some(
            probe_lines("ping"@, d.target@, agent, t.addr@, d.sent, d.lost, t.loss@, d.result@, ts),
        ),
        !(d.sent <= i32::MAX && d.lost <= i32::MAX) ==> record_text(Record::Ping(d), t, agent, ts) is None,
{
}

/// The lines written for a knock record are those of a series of probes
/// with the record's own counts.
pub proof fn law_knock_record_lines(d: Knock, t: Rendered, agent: Seq<char>, ts: u128)
    ensures
        d.sent <= i32::MAX && d.lost <= i32::MAX ==> record_text(Record::Knock(d), t, agent, ts) == Some(
            probe_lines("knock"@, d.target@, agent, t.addr@, d.sent, d.lost, t.loss@, d.result@, ts),
        ),
        !(d.sent <= i32::MAX && d.lost <= i32::MAX) ==> record_text(Record::Knock(d), t, agent, ts) is None,
{
}

/// A series of probes gives one line per round trip, in order: the lines of
/// the earlier round trips, then the line of the last.
pub proof fn law_probe_lines_per_round_trip(task: Seq<char>, target: Seq<char>, agent: Seq<char>, addr: Seq<char>, sent: u32, lost: u32, loss: Seq<char>, rtts: Seq<Duration>, rtt: Duration, ts: u128)
    ensures
        probe_lines(task, target, agent, addr, sent, lost, loss, Seq::empty(), ts) == Seq::<char>::empty(),
        probe_lines(task, target, agent, addr, sent, lost, loss, rtts.push(rtt), ts) == probe_lines(
            task, target, agent, addr, sent, lost, loss, rtts, ts,
        ) + probe_line(task, target, agent, addr, sent, lost, loss, rtt, ts),
{
    assert(rtts.push(rtt).drop_last() =~= rtts);
}

/// The lines written for every other kind of record are those of its kind,
/// with the record's own address text; errors, timeouts and records of
/// tasks this agent does not run give no line.
pub proof fn law_other_record_lines(r: Record, t: Rendered, agent: Seq<char>, ts: u128)
    ensures
        r matches Record::Fetch(d) ==> record_text(r, t, agent, ts) == (if d.size <= i64::MAX {
            Some(fetch_line(d, agent, t.addr@, ts))
        } else {
            None
        }),
        r matches Record::Query(d) ==> record_text(r, t, agent, ts) == Some(query_line(d, agent, ts)),
        r matches Record::Shake(d) ==> record_text(r, t, agent, ts) == Some(shake_line(d, agent, t.addr@, ts)),
        r matches Record::Trace(d) ==> record_text(r, t, agent, ts) == (if max_hop(d.hops@) <= i64::MAX {
            Some(trace_line(d, agent, t.addr@, ts))
        } else {
            None
        }),
        (r is Error || r is Timeout || r is Opaque) ==> record_text(r, t, agent, ts) == Some(Seq::<char>::empty()),
{
}

} // verus!
