use vstd::prelude::*;
use vstd::string::{StrSliceExecFns, StringExecFns};
use crate::text::{decimal, format_u128, format_u64};
use crate::record::Record;
use crate::time::Duration;

verus! {

/// A lower-case hexadecimal digit.
pub open spec fn hex_digit(n: int) -> char {
    if n < 10 {
        ('0' as int + n) as char
    } else {
        ('a' as int + (n - 10)) as char
    }
}

/// How a character is written inside a JSON string literal: quote and
/// backslash escaped by a backslash, the control characters that have one
/// by their short escape, the other control characters as `\u00` and two
/// hexadecimal digits, everything else as it is.
pub open spec fn json_escape(c: char) -> Seq<char> {
    let n = c as int;
    if c == '"' {
        seq!['\\', '"']
    } else if c == '\\' {
        seq!['\\', '\\']
    } else if n == 8 {
        seq!['\\', 'b']
    } else if n == 9 {
        seq!['\\', 't']
    } else if n == 10 {
        seq!['\\', 'n']
    } else if n == 12 {
        seq!['\\', 'f']
    } else if n == 13 {
        seq!['\\', 'r']
    } else if n < 32 {
        seq!['\\', 'u', '0', '0', hex_digit(n / 16), hex_digit(n % 16)]
    } else {
        seq![c]
    }
}

/// The characters of a text, each written as inside a JSON string literal.
pub open spec fn json_escaped(s: Seq<char>) -> Seq<char>
    decreases s.len(),
{
    if s.len() == 0 {
        Seq::empty()
    } else {
        json_escaped(s.drop_last()) + json_escape(s.last())
    }
}

/// The JSON string literal of a text, as `serde_json` writes it.
pub open spec fn json_string(s: Seq<char>) -> Seq<char> {
    seq!['"'] + json_escaped(s) + seq!['"']
}

/// Serialises a string with `serde_json::to_string`, which cannot fail for
/// a `str`. Claimed: the result is `json_string` of the text.
#[verifier::external_body]
fn to_json_string(s: &str) -> (r: String)
    ensures
        r@ == json_string(s@),
{
    match serde_json::to_string(s) {
        Ok(t) => t,
        Err(_) => String::new(),
    }
}

/// An attribute of a metric or event: a name and a value.
#[derive(Clone, Debug)]
pub enum Attribute {
    String(String, String),
    Number(String, u64),
    Boolean(String, bool),
}

/// A set of attributes, written as one JSON object.
#[derive(Clone, Debug)]
pub struct Attributes(pub Vec<Attribute>);

/// The attributes common to the metrics of a payload.
#[derive(Clone, Debug)]
pub struct Common {
    pub attributes: Attributes,
}

/// `"name":value` for one attribute.
pub open spec fn attribute_text(a: Attribute) -> Seq<char> {
    match a {
        Attribute::String(n, v) => json_string(n@) + seq![':'] + json_string(v@),
        Attribute::Number(n, v) => json_string(n@) + seq![':'] + decimal(v as nat),
        Attribute::Boolean(n, v) => json_string(n@) + seq![':'] + if v {
            seq!['t', 'r', 'u', 'e']
        } else {
            seq!['f', 'a', 'l', 's', 'e']
        },
    }
}

/// The attributes, separated by commas.
pub open spec fn attribute_list(a: Seq<Attribute>) -> Seq<char>
    decreases a.len(),
{
    if a.len() == 0 {
        Seq::empty()
    } else if a.len() == 1 {
        attribute_text(a[0])
    } else {
        attribute_list(a.drop_last()) + seq![','] + attribute_text(a.last())
    }
}

/// The JSON object of a set of attributes.
pub open spec fn attributes_text(a: Seq<Attribute>) -> Seq<char> {
    seq!['{'] + attribute_list(a) + seq!['}']
}

fn literal(s: &mut String, t: &str)
    ensures
        final(s)@ == old(s)@ + t@,
{
    s.append(t);
}

proof fn lemma_prefix<T>(s: Seq<T>, i: int)
    requires
        0 <= i < s.len(),
    ensures
        s.subrange(0, i + 1).drop_last() == s.subrange(0, i),
        s.subrange(0, i + 1).last() == s[i],
{
    assert(s.subrange(0, i + 1).drop_last() =~= s.subrange(0, i));
}

impl Attribute {
    /// Appends `"name":value`.
    pub fn write(&self, s: &mut String)
        ensures
            final(s)@ == old(s)@ + attribute_text(*self),
    {
        let ghost start = s@;
        proof {
            reveal_strlit(":");
            reveal_strlit("true");
            reveal_strlit("false");
        }
        match self {
            Attribute::String(n, v) => {
                let name = to_json_string(n.as_str());
                s.append(name.as_str());
                literal(s, ":");
                let value = to_json_string(v.as_str());
                s.append(value.as_str());
            },
            Attribute::Number(n, v) => {
                let name = to_json_string(n.as_str());
                s.append(name.as_str());
                literal(s, ":");
                let value = format_u64(*v);
                s.append(value.as_str());
            },
            Attribute::Boolean(n, v) => {
                let name = to_json_string(n.as_str());
                s.append(name.as_str());
                literal(s, ":");
                if *v {
                    literal(s, "true");
                } else {
                    literal(s, "false");
                }
            },
        }
        assert(s@ =~= start + attribute_text(*self));
    }
}

impl Attributes {
    /// Appends the JSON object of the attributes.
    pub fn write(&self, s: &mut String)
        ensures
            final(s)@ == old(s)@ + attributes_text(self.0@),
    {
        proof {
            reveal_strlit("{");
            reveal_strlit("}");
            reveal_strlit(",");
        }
        let ghost start = s@;
        literal(s, "{");
        let mut i: usize = 0;
        while i < self.0.len()
            invariant
                i <= self.0@.len(),
                s@ == start + seq!['{'] + attribute_list(self.0@.subrange(0, i as int)),
            decreases self.0@.len() - i,
        {
            proof {
                reveal_strlit(",");
            }
            if i > 0 {
                literal(s, ",");
            }
            self.0[i].write(s);
            proof {
                lemma_prefix(self.0@, i as int);
                if i == 0 {
                    assert(self.0@.subrange(0, 1) =~= seq![self.0@[0]]);
                }
            }
            i = i + 1;
            assert(s@ =~= start + seq!['{'] + attribute_list(self.0@.subrange(0, i as int)));
        }
        assert(self.0@.subrange(0, self.0@.len() as int) =~= self.0@);
        literal(s, "}");
    }
}

impl Common {
    /// Appends `{"attributes":{...}}`.
    pub fn write(&self, s: &mut String)
        ensures
            final(s)@ == old(s)@ + seq!['{'] + json_string("attributes"@) + seq![':'] + attributes_text(
                self.attributes.0@,
            ) + seq!['}'],
    {
        proof {
            reveal_strlit("{");
            reveal_strlit("}");
            reveal_strlit(":");
        }
        let ghost start = s@;
        literal(s, "{");
        let key = to_json_string("attributes");
        s.append(key.as_str());
        literal(s, ":");
        self.attributes.write(s);
        literal(s, "}");
        assert(s@ =~= start + seq!['{'] + json_string("attributes"@) + seq![':'] + attributes_text(
            self.attributes.0@,
        ) + seq!['}']);
    }
}

/// A count metric: how many times something happened over an interval.
#[derive(Clone, Debug)]
pub struct Metric {
    pub name: String,
    pub value: u64,
    pub interval: Duration,
    pub timestamp: Duration,
    pub attributes: Attributes,
}

impl Metric {
    /// A count metric with no attributes.
    pub fn count(name: &str, value: u64, ts: Duration, interval: Duration) -> (m: Metric)
        ensures
            m.name@ == name@,
            m.value == value,
            m.timestamp == ts,
            m.interval == interval,
            m.attributes.0@.len() == 0,
    {
        Metric { name: String::from_str(name), value, interval, timestamp: ts, attributes: Attributes(Vec::new()) }
    }
}

/// `"key":` as JSON.
pub open spec fn json_key(k: Seq<char>) -> Seq<char> {
    json_string(k) + seq![':']
}

/// The JSON object of a count metric: name, type, value, interval in
/// milliseconds, timestamp in seconds and attributes.
pub open spec fn count_text(m: Metric) -> Seq<char> {
    seq!['{'] + json_key("name"@) + json_string(m.name@) + seq![','] + json_key("type"@) + json_string(
        "count"@,
    ) + seq![','] + json_key("value"@) + decimal(m.value as nat) + seq![','] + json_key("interval.ms"@)
        + decimal(m.interval.total_nanos() / 1_000_000) + seq![','] + json_key("timestamp"@) + decimal(
        m.timestamp.secs as nat,
    ) + seq![','] + json_key("attributes"@) + attributes_text(m.attributes.0@) + seq!['}']
}

fn key(s: &mut String, k: &str)
    ensures
        final(s)@ == old(s)@ + json_key(k@),
{
    proof {
        reveal_strlit(":");
    }
    let t = to_json_string(k);
    s.append(t.as_str());
    literal(s, ":");
}

impl Metric {
    /// Appends the JSON object of the metric.
    pub fn write(&self, s: &mut String)
        ensures
            final(s)@ == old(s)@ + count_text(*self),
    {
        proof {
            reveal_strlit("{");
            reveal_strlit("}");
            reveal_strlit(",");
        }
        let ghost start = s@;
        literal(s, "{");
        key(s, "name");
        let name = to_json_string(self.name.as_str());
        s.append(name.as_str());
        literal(s, ",");
        key(s, "type");
        let kind = to_json_string("count");
        s.append(kind.as_str());
        literal(s, ",");
        key(s, "value");
        let value = format_u64(self.value);
        s.append(value.as_str());
        literal(s, ",");
        key(s, "interval.ms");
        let ms = format_u128(self.interval.as_millis());
        s.append(ms.as_str());
        literal(s, ",");
        key(s, "timestamp");
        let secs = format_u64(self.timestamp.as_secs());
        s.append(secs.as_str());
        literal(s, ",");
        key(s, "attributes");
        self.attributes.write(s);
        literal(s, "}");
        assert(s@ =~= start + count_text(*self));
    }
}

/// The upper-case form of an ASCII letter; other characters as they are.
pub open spec fn ascii_upper(c: char) -> char {
    if 'a' <= c <= 'z' {
        ((c as u32) - 32) as char
    } else {
        c
    }
}

/// Whether `s`, upper-cased, is `t`.
pub open spec fn upper_is(s: Seq<char>, t: Seq<char>) -> bool {
    s.len() == t.len() && forall|i: int| 0 <= i < s.len() ==> ascii_upper(#[trigger] s[i]) == t[i]
}

fn upper_char(c: char) -> (r: char)
    ensures
        r == ascii_upper(c),
{
    if 'a' <= c && c <= 'z' {
        let b: u8 = c as u8;
        (b - 32) as char
    } else {
        c
    }
}

/// Whether `s` is `t` once upper-cased.
fn upper_equals(s: &str, t: &str) -> (r: bool)
    ensures
        r == upper_is(s@, t@),
{
    let n = s.unicode_len();
    if n != t.unicode_len() {
        return false;
    }
    let mut i: usize = 0;
    while i < n
        invariant
            n == s@.len(),
            n == t@.len(),
            i <= n,
            forall|j: int| 0 <= j < i ==> ascii_upper(#[trigger] s@[j]) == t@[j],
        decreases n - i,
    {
        if upper_char(s.get_char(i)) != t.get_char(i) {
            return false;
        }
        i = i + 1;
    }
    true
}

/// A region that is neither `US` nor `EU`.
#[derive(Clone, Debug)]
pub struct InvalidRegion(pub String);

/// The host that takes the events of an account in a region.
pub open spec fn region_host(region: Seq<char>) -> Option<Seq<char>> {
    if upper_is(region, "US"@) {
        Some("insights-collector.newrelic.com"@)
    } else if upper_is(region, "EU"@) {
        Some("insights-collector.eu01.nr-data.net"@)
    } else {
        None
    }
}

/// The URL events of `account` are sent to in `region` (`US` or `EU`, in
/// any case).
pub fn events_endpoint(region: &str, account: &str) -> (r: Result<String, InvalidRegion>)
    ensures
        match region_host(region@) {
            Some(host) => r matches Ok(u) && u@ == "https://"@ + host + "/v1/accounts/"@ + account@
                + "/events"@,
            None => r matches Err(InvalidRegion(e)) && e@ == region@,
        },
{
    let host = if upper_equals(region, "US") {
        "insights-collector.newrelic.com"
    } else if upper_equals(region, "EU") {
        "insights-collector.eu01.nr-data.net"
    } else {
        return Err(InvalidRegion(String::from_str(region)));
    };
    let mut url = String::from_str("https://");
    url.append(host);
    url.append("/v1/accounts/");
    url.append(account);
    url.append("/events");
    Ok(url)
}

/// The members of a JSON object, separated by commas.
pub open spec fn members(pairs: Seq<(Seq<char>, Seq<char>)>) -> Seq<char>
    decreases pairs.len(),
{
    if pairs.len() == 0 {
        Seq::empty()
    } else if pairs.len() == 1 {
        json_key(pairs[0].0) + pairs[0].1
    } else {
        members(pairs.drop_last()) + seq![','] + json_key(pairs.last().0) + pairs.last().1
    }
}

/// A JSON object with the given keys and value texts, in order.
pub open spec fn object(pairs: Seq<(Seq<char>, Seq<char>)>) -> Seq<char> {
    seq!['{'] + members(pairs) + seq!['}']
}

/// The key and value texts of `pairs`.
pub open spec fn pair_texts(pairs: Seq<(String, String)>) -> Seq<(Seq<char>, Seq<char>)> {
    Seq::new(pairs.len(), |i: int| (pairs[i].0@, pairs[i].1@))
}

fn write_object(pairs: &Vec<(String, String)>, s: &mut String)
    ensures
        final(s)@ == old(s)@ + object(pair_texts(pairs@)),
{
    let ghost start = s@;
    literal_brace_open(s);
    let mut i: usize = 0;
    while i < pairs.len()
        invariant
            i <= pairs@.len(),
            s@ == start + seq!['{'] + members(pair_texts(pairs@.subrange(0, i as int))),
        decreases pairs@.len() - i,
    {
        proof {
            reveal_strlit(",");
        }
        if i > 0 {
            literal(s, ",");
        }
        key(s, pairs[i].0.as_str());
        s.append(pairs[i].1.as_str());
        proof {
            lemma_prefix(pairs@, i as int);
            assert(pair_texts(pairs@.subrange(0, i + 1)).drop_last() =~= pair_texts(
                pairs@.subrange(0, i as int),
            ));
        }
        i = i + 1;
        assert(s@ =~= start + seq!['{'] + members(pair_texts(pairs@.subrange(0, i as int))));
    }
    assert(pairs@.subrange(0, pairs@.len() as int) =~= pairs@);
    proof {
        reveal_strlit("}");
    }
    literal(s, "}");
}

fn literal_brace_open(s: &mut String)
    ensures
        final(s)@ == old(s)@.push('{'),
{
    proof {
        reveal_strlit("{");
    }
    s.append("{");
}

fn own(s: &str) -> (r: String)
    ensures
        r@ == s@,
{
    String::from_str(s)
}

fn string_pair(k: &str, v: &str) -> (p: (String, String))
    ensures
        p.0@ == k@,
        p.1@ == json_string(v@),
{
    (own(k), to_json_string(v))
}

fn number_pair(k: &str, v: u128) -> (p: (String, String))
    ensures
        p.0@ == k@,
        p.1@ == decimal(v as nat),
{
    (own(k), format_u128(v))
}

/// The members every event starts with: its type and the agent.
pub open spec fn event_head(kind: Seq<char>, agent: Seq<char>) -> Seq<(Seq<char>, Seq<char>)> {
    seq![("eventType"@, json_string(kind)), ("agent"@, json_string(agent))]
}

/// Microseconds in a span.
pub open spec fn micros(d: Duration) -> nat {
    d.total_nanos() / 1000
}

/// The members of the event of a record, with `addr` the text of its
/// address; none for a record of a task this agent does not run.
pub open spec fn event_pairs(r: Record, agent: Seq<char>, addr: Seq<char>) -> Option<Seq<(Seq<char>, Seq<char>)>> {
    match r {
        Record::Fetch(d) => Some(event_head("fetch"@, agent) + seq![
            ("target"@, json_string(d.target@)),
            ("addr"@, json_string(addr)),
            ("status"@, decimal(d.status as nat)),
            ("dns"@, decimal(micros(d.dns))),
            ("tcp"@, decimal(micros(d.tcp))),
            ("tls"@, decimal(micros(d.tls))),
            ("rtt"@, decimal(micros(d.rtt))),
            ("size"@, decimal(d.size as nat))
        ]),
        Record::Knock(d) => Some(event_head("knock"@, agent) + seq![
            ("target"@, json_string(d.target@)),
            ("addr"@, json_string(addr)),
            ("port"@, decimal(d.port as nat)),
            ("sent"@, decimal(d.sent as nat)),
            ("lost"@, decimal(d.lost as nat))
        ]),
        Record::Ping(d) => Some(event_head("ping"@, agent) + seq![
            ("target"@, json_string(d.target@)),
            ("addr"@, json_string(addr)),
            ("sent"@, decimal(d.sent as nat)),
            ("lost"@, decimal(d.lost as nat))
        ]),
        Record::Query(d) => Some(event_head("query"@, agent) + seq![
            ("record"@, json_string(d.record@)),
            ("code"@, decimal(d.code as nat)),
            ("answers"@, json_string(d.answers@)),
            ("time"@, decimal(micros(d.time)))
        ]),
        Record::Shake(d) => Some(event_head("shake"@, agent) + seq![
            ("target"@, json_string(d.target@)),
            ("addr"@, json_string(addr)),
            ("port"@, decimal(d.port as nat)),
            ("time"@, decimal(micros(d.time)))
        ]),
        Record::Trace(d) => Some(event_head("trace"@, agent) + seq![
            ("target"@, json_string(d.target@)),
            ("addr"@, json_string(addr)),
            ("hops"@, decimal(d.hops@.len())),
            ("time"@, decimal(micros(d.time)))
        ]),
        Record::Error(d) => Some(event_head("error"@, agent) + seq![("cause"@, json_string(d.cause@))]),
        Record::Timeout(_) => Some(seq![("eventType"@, json_string("timeout"@))]),
        Record::Opaque(_) => None,
    }
}

fn head(kind: &str, agent: &str) -> (v: Vec<(String, String)>)
    ensures
        pair_texts(v@) == event_head(kind@, agent@),
{
    let mut v: Vec<(String, String)> = Vec::new();
    v.push(string_pair("eventType", kind));
    v.push(string_pair("agent", agent));
    assert(pair_texts(v@) =~= event_head(kind@, agent@));
    v
}

fn event(r: &Record, agent: &str, addr: &str) -> (res: Option<Vec<(String, String)>>)
    ensures
        match event_pairs(*r, agent@, addr@) {
            Some(p) => res matches Some(v) && pair_texts(v@) == p,
            None => res is None,
        },
{
    match r {
        Record::Fetch(d) => {
            let mut v = head("fetch", agent);
            v.push(string_pair("target", d.target.as_str()));
            v.push(string_pair("addr", addr));
            v.push(number_pair("status", d.status as u128));
            v.push(number_pair("dns", d.dns.as_micros()));
            v.push(number_pair("tcp", d.tcp.as_micros()));
            v.push(number_pair("tls", d.tls.as_micros()));
            v.push(number_pair("rtt", d.rtt.as_micros()));
            v.push(number_pair("size", d.size as u128));
            assert(pair_texts(v@) =~= event_pairs(*r, agent@, addr@)->0);
            Some(v)
        },
        Record::Knock(d) => {
            let mut v = head("knock", agent);
            v.push(string_pair("target", d.target.as_str()));
            v.push(string_pair("addr", addr));
            v.push(number_pair("port", d.port as u128));
            v.push(number_pair("sent", d.sent as u128));
            v.push(number_pair("lost", d.lost as u128));
            assert(pair_texts(v@) =~= event_pairs(*r, agent@, addr@)->0);
            Some(v)
        },
        Record::Ping(d) => {
            let mut v = head("ping", agent);
            v.push(string_pair("target", d.target.as_str()));
            v.push(string_pair("addr", addr));
            v.push(number_pair("sent", d.sent as u128));
            v.push(number_pair("lost", d.lost as u128));
            assert(pair_texts(v@) =~= event_pairs(*r, agent@, addr@)->0);
            Some(v)
        },
        Record::Query(d) => {
            let mut v = head("query", agent);
            v.push(string_pair("record", d.record.as_str()));
            v.push(number_pair("code", d.code as u128));
            v.push(string_pair("answers", d.answers.as_str()));
            v.push(number_pair("time", d.time.as_micros()));
            assert(pair_texts(v@) =~= event_pairs(*r, agent@, addr@)->0);
            Some(v)
        },
        Record::Shake(d) => {
            let mut v = head("shake", agent);
            v.push(string_pair("target", d.target.as_str()));
            v.push(string_pair("addr", addr));
            v.push(number_pair("port", d.port as u128));
            v.push(number_pair("time", d.time.as_micros()));
            assert(pair_texts(v@) =~= event_pairs(*r, agent@, addr@)->0);
            Some(v)
        },
        Record::Trace(d) => {
            let mut v = head("trace", agent);
            v.push(string_pair("target", d.target.as_str()));
            v.push(string_pair("addr", addr));
            v.push(number_pair("hops", d.hops.len() as u128));
            v.push(number_pair("time", d.time.as_micros()));
            assert(pair_texts(v@) =~= event_pairs(*r, agent@, addr@)->0);
            Some(v)
        },
        Record::Error(d) => {
            let mut v = head("error", agent);
            v.push(string_pair("cause", d.cause.as_str()));
            assert(pair_texts(v@) =~= event_pairs(*r, agent@, addr@)->0);
            Some(v)
        },
        Record::Timeout(_) => {
            let mut v: Vec<(String, String)> = Vec::new();
            v.push(string_pair("eventType", "timeout"));
            assert(pair_texts(v@) =~= event_pairs(*r, agent@, addr@)->0);
            Some(v)
        },
        Record::Opaque(_) => None,
    }
}

/// The JSON objects of the events of the records, comma-separated; records
/// with no event are left out.
pub open spec fn events_list(rs: Seq<(Record, String)>, agent: Seq<char>) -> Seq<char>
    decreases rs.len(),
{
    if rs.len() == 0 {
        Seq::empty()
    } else {
        let before = events_list(rs.drop_last(), agent);
        match event_pairs(rs.last().0, agent, rs.last().1@) {
            None => before,
            Some(p) => if before.len() == 0 {
                object(p)
            } else {
                before + seq![','] + object(p)
            },
        }
    }
}

/// The JSON array of the events of a batch of records, each given with the
/// text of its address.
pub fn encode_events(agent: &str, rs: &[(Record, String)]) -> (r: String)
    ensures
        r@ == seq!['['] + events_list(rs@, agent@) + seq![']'],
{
    proof {
        reveal_strlit("[");
        reveal_strlit("]");
        reveal_strlit(",");
    }
    let mut s = own("[");
    let mut list = String::new();
    let mut i: usize = 0;
    while i < rs.len()
        invariant
            i <= rs@.len(),
            list@ == events_list(rs@.subrange(0, i as int), agent@),
        decreases rs@.len() - i,
    {
        proof {
            lemma_prefix(rs@, i as int);
            reveal_strlit(",");
        }
        match event(&rs[i].0, agent, rs[i].1.as_str()) {
            Some(pairs) => {
                if list.as_str().unicode_len() > 0 {
                    literal(&mut list, ",");
                }
                write_object(&pairs, &mut list);
            },
            None => {},
        }
        i = i + 1;
    }
    assert(rs@.subrange(0, rs@.len() as int) =~= rs@);
    s.append(list.as_str());
    literal(&mut s, "]");
    s
}

/// Whether an object's members give `key` the value `value`: some member
/// has that key, and every member with that key has that value.
pub open spec fn carries(ps: Seq<(Seq<char>, Seq<char>)>, key: Seq<char>, value: Seq<char>) -> bool {
    &&& exists|i: int| 0 <= i < ps.len() && #[trigger] ps[i].0 == key
    &&& forall|i: int| 0 <= i < ps.len() && #[trigger] ps[i].0 == key ==> ps[i].1 == value
}

/// Whether no two members of an object have the same key.
pub open spec fn distinct_keys(ps: Seq<(Seq<char>, Seq<char>)>) -> bool {
    forall|i: int, j: int| 0 <= i < j < ps.len() ==> #[trigger] ps[i].0 != #[trigger] ps[j].0
}

pub proof fn lemma_distinct_carries(ps: Seq<(Seq<char>, Seq<char>)>, k: int)
    requires
        distinct_keys(ps),
        0 <= k < ps.len(),
    ensures
        carries(ps, ps[k].0, ps[k].1),
{
    assert forall|i: int| 0 <= i < ps.len() && #[trigger] ps[i].0 == ps[k].0 implies ps[i].1 == ps[k].1 by {
        if i < k {
            assert(ps[i].0 != ps[k].0);
        } else if k < i {
            assert(ps[k].0 != ps[i].0);
        }
    }
}

/// The event of an HTTP fetch record carries each of its fields under the key of
/// the same name, each key once: its kind, the agent, the target, the address, the status, the DNS, TCP, TLS and round-trip times in microseconds and the size.
pub proof fn law_fetch_event_fields(d: crate::record::Fetch, agent: Seq<char>, addr: Seq<char>)
    ensures
        event_pairs(Record::Fetch(d), agent, addr) matches Some(ps) && {
            &&& ps.len() == 10
            &&& distinct_keys(ps)
            &&& carries(ps, "eventType"@, json_string("fetch"@))
            &&& carries(ps, "agent"@, json_string(agent))
            &&& carries(ps, "target"@, json_string(d.target@))
            &&& carries(ps, "addr"@, json_string(addr))
            &&& carries(ps, "status"@, decimal(d.status as nat))
            &&& carries(ps, "dns"@, decimal(micros(d.dns)))
            &&& carries(ps, "tcp"@, decimal(micros(d.tcp)))
            &&& carries(ps, "tls"@, decimal(micros(d.tls)))
            &&& carries(ps, "rtt"@, decimal(micros(d.rtt)))
            &&& carries(ps, "size"@, decimal(d.size as nat))
        },
{
    reveal_strlit("eventType");
    reveal_strlit("agent");
    reveal_strlit("target");
    reveal_strlit("addr");
    reveal_strlit("status");
    reveal_strlit("dns");
    reveal_strlit("tcp");
    reveal_strlit("tls");
    reveal_strlit("rtt");
    reveal_strlit("size");
    let ps = event_pairs(Record::Fetch(d), agent, addr).unwrap();
    assert forall|i: int, j: int| 0 <= i < j < ps.len() implies #[trigger] ps[i].0 != #[trigger] ps[j].0 by {
        assert(ps[i].0.len() != ps[j].0.len() || ps[i].0[0] != ps[j].0[0] || ps[i].0[1] != ps[j].0[1]);
    }
    lemma_distinct_carries(ps, 0);
    lemma_distinct_carries(ps, 1);
    lemma_distinct_carries(ps, 2);
    lemma_distinct_carries(ps, 3);
    lemma_distinct_carries(ps, 4);
    lemma_distinct_carries(ps, 5);
    lemma_distinct_carries(ps, 6);
    lemma_distinct_carries(ps, 7);
    lemma_distinct_carries(ps, 8);
    lemma_distinct_carries(ps, 9);
}

/// The event of a TCP knock record carries each of its fields under the key of
/// the same name, each key once: its kind, the agent, the target, the address, the port, the number of probes sent and the number lost.
pub proof fn law_knock_event_fields(d: crate::record::Knock, agent: Seq<char>, addr: Seq<char>)
    ensures
        event_pairs(Record::Knock(d), agent, addr) matches Some(ps) && {
            &&& ps.len() == 7
            &&& distinct_keys(ps)
            &&& carries(ps, "eventType"@, json_string("knock"@))
            &&& carries(ps, "agent"@, json_string(agent))
            &&& carries(ps, "target"@, json_string(d.target@))
            &&& carries(ps, "addr"@, json_string(addr))
            &&& carries(ps, "port"@, decimal(d.port as nat))
            &&& carries(ps, "sent"@, decimal(d.sent as nat))
            &&& carries(ps, "lost"@, decimal(d.lost as nat))
        },
{
    reveal_strlit("eventType");
    reveal_strlit("agent");
    reveal_strlit("target");
    reveal_strlit("addr");
    reveal_strlit("port");
    reveal_strlit("sent");
    reveal_strlit("lost");
    let ps = event_pairs(Record::Knock(d), agent, addr).unwrap();
    assert forall|i: int, j: int| 0 <= i < j < ps.len() implies #[trigger] ps[i].0 != #[trigger] ps[j].0 by {
        assert(ps[i].0.len() != ps[j].0.len() || ps[i].0[0] != ps[j].0[0] || ps[i].0[1] != ps[j].0[1]);
    }
    lemma_distinct_carries(ps, 0);
    lemma_distinct_carries(ps, 1);
    lemma_distinct_carries(ps, 2);
    lemma_distinct_carries(ps, 3);
    lemma_distinct_carries(ps, 4);
    lemma_distinct_carries(ps, 5);
    lemma_distinct_carries(ps, 6);
}

/// The event of a ping record carries each of its fields under the key of
/// the same name, each key once: its kind, the agent, the target, the address, the number of requests sent and the number lost.
pub proof fn law_ping_event_fields(d: crate::record::Ping, agent: Seq<char>, addr: Seq<char>)
    ensures
        event_pairs(Record::Ping(d), agent, addr) matches Some(ps) && {
            &&& ps.len() == 6
            &&& distinct_keys(ps)
            &&& carries(ps, "eventType"@, json_string("ping"@))
            &&& carries(ps, "agent"@, json_string(agent))
            &&& carries(ps, "target"@, json_string(d.target@))
            &&& carries(ps, "addr"@, json_string(addr))
            &&& carries(ps, "sent"@, decimal(d.sent as nat))
            &&& carries(ps, "lost"@, decimal(d.lost as nat))
        },
{
    reveal_strlit("eventType");
    reveal_strlit("agent");
    reveal_strlit("target");
    reveal_strlit("addr");
    reveal_strlit("sent");
    reveal_strlit("lost");
    let ps = event_pairs(Record::Ping(d), agent, addr).unwrap();
    assert forall|i: int, j: int| 0 <= i < j < ps.len() implies #[trigger] ps[i].0 != #[trigger] ps[j].0 by {
        assert(ps[i].0.len() != ps[j].0.len() || ps[i].0[0] != ps[j].0[0] || ps[i].0[1] != ps[j].0[1]);
    }
    lemma_distinct_carries(ps, 0);
    lemma_distinct_carries(ps, 1);
    lemma_distinct_carries(ps, 2);
    lemma_distinct_carries(ps, 3);
    lemma_distinct_carries(ps, 4);
    lemma_distinct_carries(ps, 5);
}

/// The event of a DNS query record carries each of its fields under the key of
/// the same name, each key once: its kind, the agent, the record asked for, the response code, the answers and the time in microseconds.
pub proof fn law_query_event_fields(d: crate::record::Query, agent: Seq<char>, addr: Seq<char>)
    ensures
        event_pairs(Record::Query(d), agent, addr) matches Some(ps) && {
            &&& ps.len() == 6
            &&& distinct_keys(ps)
            &&& carries(ps, "eventType"@, json_string("query"@))
            &&& carries(ps, "agent"@, json_string(agent))
            &&& carries(ps, "record"@, json_string(d.record@))
            &&& carries(ps, "code"@, decimal(d.code as nat))
            &&& carries(ps, "answers"@, json_string(d.answers@))
            &&& carries(ps, "time"@, decimal(micros(d.time)))
        },
{
    reveal_strlit("eventType");
    reveal_strlit("agent");
    reveal_strlit("record");
    reveal_strlit("code");
    reveal_strlit("answers");
    reveal_strlit("time");
    let ps = event_pairs(Record::Query(d), agent, addr).unwrap();
    assert forall|i: int, j: int| 0 <= i < j < ps.len() implies #[trigger] ps[i].0 != #[trigger] ps[j].0 by {
        assert(ps[i].0.len() != ps[j].0.len() || ps[i].0[0] != ps[j].0[0] || ps[i].0[1] != ps[j].0[1]);
    }
    lemma_distinct_carries(ps, 0);
    lemma_distinct_carries(ps, 1);
    lemma_distinct_carries(ps, 2);
    lemma_distinct_carries(ps, 3);
    lemma_distinct_carries(ps, 4);
    lemma_distinct_carries(ps, 5);
}

/// The event of a TLS handshake record carries each of its fields under the key of
/// the same name, each key once: its kind, the agent, the target, the address, the port and the time in microseconds.
pub proof fn law_shake_event_fields(d: crate::record::Shake, agent: Seq<char>, addr: Seq<char>)
    ensures
        event_pairs(Record::Shake(d), agent, addr) matches Some(ps) && {
            &&& ps.len() == 6
            &&& distinct_keys(ps)
            &&& carries(ps, "eventType"@, json_string("shake"@))
            &&& carries(ps, "agent"@, json_string(agent))
            &&& carries(ps, "target"@, json_string(d.target@))
            &&& carries(ps, "addr"@, json_string(addr))
            &&& carries(ps, "port"@, decimal(d.port as nat))
            &&& carries(ps, "time"@, decimal(micros(d.time)))
        },
{
    reveal_strlit("eventType");
    reveal_strlit("agent");
    reveal_strlit("target");
    reveal_strlit("addr");
    reveal_strlit("port");
    reveal_strlit("time");
    let ps = event_pairs(Record::Shake(d), agent, addr).unwrap();
    assert forall|i: int, j: int| 0 <= i < j < ps.len() implies #[trigger] ps[i].0 != #[trigger] ps[j].0 by {
        assert(ps[i].0.len() != ps[j].0.len() || ps[i].0[0] != ps[j].0[0] || ps[i].0[1] != ps[j].0[1]);
    }
    lemma_distinct_carries(ps, 0);
    lemma_distinct_carries(ps, 1);
    lemma_distinct_carries(ps, 2);
    lemma_distinct_carries(ps, 3);
    lemma_distinct_carries(ps, 4);
    lemma_distinct_carries(ps, 5);
}

/// The event of a trace record carries each of its fields under the key of
/// the same name, each key once: its kind, the agent, the target, the address, the number of hops and the time in microseconds.
pub proof fn law_trace_event_fields(d: crate::record::Trace, agent: Seq<char>, addr: Seq<char>)
    ensures
        event_pairs(Record::Trace(d), agent, addr) matches Some(ps) && {
            &&& ps.len() == 6
            &&& distinct_keys(ps)
            &&& carries(ps, "eventType"@, json_string("trace"@))
            &&& carries(ps, "agent"@, json_string(agent))
            &&& carries(ps, "target"@, json_string(d.target@))
            &&& carries(ps, "addr"@, json_string(addr))
            &&& carries(ps, "hops"@, decimal(d.hops@.len()))
            &&& carries(ps, "time"@, decimal(micros(d.time)))
        },
{
    reveal_strlit("eventType");
    reveal_strlit("agent");
    reveal_strlit("target");
    reveal_strlit("addr");
    reveal_strlit("hops");
    reveal_strlit("time");
    let ps = event_pairs(Record::Trace(d), agent, addr).unwrap();
    assert forall|i: int, j: int| 0 <= i < j < ps.len() implies #[trigger] ps[i].0 != #[trigger] ps[j].0 by {
        assert(ps[i].0.len() != ps[j].0.len() || ps[i].0[0] != ps[j].0[0] || ps[i].0[1] != ps[j].0[1]);
    }
    lemma_distinct_carries(ps, 0);
    lemma_distinct_carries(ps, 1);
    lemma_distinct_carries(ps, 2);
    lemma_distinct_carries(ps, 3);
    lemma_distinct_carries(ps, 4);
    lemma_distinct_carries(ps, 5);
}

/// The event of an error record carries each of its fields under the key of
/// the same name, each key once: its kind, the agent, the cause.
pub proof fn law_error_event_fields(d: crate::record::Error, agent: Seq<char>, addr: Seq<char>)
    ensures
        event_pairs(Record::Error(d), agent, addr) matches Some(ps) && {
            &&& ps.len() == 3
            &&& distinct_keys(ps)
            &&& carries(ps, "eventType"@, json_string("error"@))
            &&& carries(ps, "agent"@, json_string(agent))
            &&& carries(ps, "cause"@, json_string(d.cause@))
        },
{
    reveal_strlit("eventType");
    reveal_strlit("agent");
    reveal_strlit("cause");
    let ps = event_pairs(Record::Error(d), agent, addr).unwrap();
    assert forall|i: int, j: int| 0 <= i < j < ps.len() implies #[trigger] ps[i].0 != #[trigger] ps[j].0 by {
        assert(ps[i].0.len() != ps[j].0.len() || ps[i].0[0] != ps[j].0[0] || ps[i].0[1] != ps[j].0[1]);
    }
    lemma_distinct_carries(ps, 0);
    lemma_distinct_carries(ps, 1);
    lemma_distinct_carries(ps, 2);
}

/// The event of a timeout record holds its kind alone.
pub proof fn law_timeout_event_fields(d: crate::record::Timeout, agent: Seq<char>, addr: Seq<char>)
    ensures
        event_pairs(Record::Timeout(d), agent, addr) matches Some(ps) && ps.len() == 1 && carries(
            ps,
            "eventType"@,
            json_string("timeout"@),
        ),
{
    let ps = event_pairs(Record::Timeout(d), agent, addr).unwrap();
    assert(ps[0].0 == "eventType"@);
}


} // verus!
