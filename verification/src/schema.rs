use vstd::prelude::*;
use crate::net::Network;
use crate::time::Duration;

verus! {

/// A span of time in a task file: a bare number of seconds, or a number
/// followed by one of the units `s`, `ms`, `us`, `ns`.
#[derive(Clone, Copy, Debug, PartialEq, Eq, Structural)]
pub struct Time(pub Duration);

/// A count in a task file.
#[derive(Clone, Copy, Debug, PartialEq, Eq, Structural)]
pub struct Count(pub u64);

/// Why a text is not a span of time.
#[derive(Clone, Copy, Debug, PartialEq, Eq, Structural)]
pub enum TimeError {
    /// The number before the unit is not an unsigned 64-bit integer.
    InvalidCount,
    /// The unit is none of `s`, `ms`, `us`, `ns`.
    InvalidUnit,
}

/// A span of time does not fit the unsigned 64-bit integer asked for.
#[derive(Clone, Copy, Debug, PartialEq, Eq, Structural)]
pub struct TimeOverflow;

/// Whether a character beyond ASCII has the Unicode `Alphabetic` property,
/// as `char::is_alphabetic` tells.
pub uninterp spec fn non_ascii_alphabetic(c: char) -> bool;

/// Whether `c` has the Unicode `Alphabetic` property: among ASCII
/// characters exactly the letters have it.
pub open spec fn alphabetic(c: char) -> bool {
    if (c as u32) < 128 {
        ('a' <= c <= 'z') || ('A' <= c <= 'Z')
    } else {
        non_ascii_alphabetic(c)
    }
}

/// Calls `char::is_alphabetic`. Claimed: the result is `alphabetic(c)`:
/// the ASCII letters are alphabetic, no other ASCII character is, and
/// beyond ASCII the answer is the name `non_ascii_alphabetic`.
#[verifier::external_body]
fn is_alphabetic(c: char) -> (r: bool)
    ensures
        (c as u32) < 128 ==> (r <==> (('a' <= c <= 'z') || ('A' <= c <= 'Z'))),
        (c as u32) >= 128 ==> r == non_ascii_alphabetic(c),
{
    c.is_alphabetic()
}

pub open spec fn is_digit(c: char) -> bool {
    '0' <= c <= '9'
}

pub open spec fn all_digits(s: Seq<char>) -> bool {
    forall|i: int| 0 <= i < s.len() ==> #[trigger] is_digit(s[i])
}

/// The value of a sequence of decimal digits.
pub open spec fn digits_value(s: Seq<char>) -> nat
    decreases s.len(),
{
    if s.len() == 0 {
        0
    } else {
        digits_value(s.drop_last()) * 10 + ((s.last() as u32) - ('0' as u32)) as nat
    }
}

/// What `u64::from_str` accepts: an optional `+`, then one or more decimal
/// digits whose value fits in 64 bits.
pub open spec fn spec_parse_u64(s: Seq<char>) -> Option<u64> {
    let d = if s.len() > 0 && s[0] == '+' {
        s.drop_first()
    } else {
        s
    };
    if d.len() > 0 && all_digits(d) && digits_value(d) <= u64::MAX {
        Some(digits_value(d) as u64)
    } else {
        None
    }
}

/// The span for `count` units of `unit`.
pub open spec fn spec_unit(count: u64, unit: Seq<char>) -> Option<nat> {
    if unit == seq!['s'] {
        Some((count * 1_000_000_000) as nat)
    } else if unit == seq!['m', 's'] {
        Some((count * 1_000_000) as nat)
    } else if unit == seq!['u', 's'] {
        Some((count * 1000) as nat)
    } else if unit == seq!['n', 's'] {
        Some(count as nat)
    } else {
        None
    }
}

/// The units of time scale by a thousand each: a count of nanoseconds is
/// that many nanoseconds, and a microsecond, a millisecond and a second are
/// each a thousand of the unit below; no other unit is read.
pub proof fn law_units_scale(n: u64, unit: Seq<char>)
    ensures
        spec_unit(n, seq!['n', 's']) == Some(n as nat),
        spec_unit(n, seq!['u', 's']) == Some(1000 * spec_unit(n, seq!['n', 's']).unwrap()),
        spec_unit(n, seq!['m', 's']) == Some(1000 * spec_unit(n, seq!['u', 's']).unwrap()),
        spec_unit(n, seq!['s']) == Some(1000 * spec_unit(n, seq!['m', 's']).unwrap()),
        spec_unit(n, unit) is Some ==> unit == seq!['s'] || unit == seq!['m', 's'] || unit == seq!['u', 's']
            || unit == seq!['n', 's'],
{
    assert(seq!['m', 's'] != seq!['s']);
    assert(seq!['u', 's'] != seq!['s'] && seq!['u', 's'] != seq!['m', 's']);
    assert(seq!['n', 's'] != seq!['s'] && seq!['n', 's'] != seq!['m', 's'] && seq!['n', 's'] != seq!['u', 's']);
}

/// The first position at or after `i` of an alphabetic character.
pub open spec fn scan_alphabetic(s: Seq<char>, i: int) -> Option<int>
    decreases s.len() - i,
{
    if i < 0 || i >= s.len() {
        None
    } else if alphabetic(s[i]) {
        Some(i)
    } else {
        scan_alphabetic(s, i + 1)
    }
}

/// What a text of time reads as, when it is split before position `split`
/// into count and unit (no split: all count, unit seconds). `Ok` holds the
/// span in nanoseconds.
pub open spec fn spec_time_at(s: Seq<char>, split: Option<int>) -> Result<nat, TimeError> {
    let (count, unit) = match split {
        Some(k) => (s.subrange(0, k), s.subrange(k, s.len() as int)),
        None => (s, seq!['s']),
    };
    match spec_parse_u64(count) {
        None => Err(TimeError::InvalidCount),
        Some(n) => match spec_unit(n, unit) {
            None => Err(TimeError::InvalidUnit),
            Some(ns) => Ok(ns),
        },
    }
}

/// What a text of time reads as: it is split before its first alphabetic
/// character.
pub open spec fn spec_time(s: Seq<char>) -> Result<nat, TimeError> {
    spec_time_at(s, scan_alphabetic(s, 0))
}

/// The span a parse yields, in nanoseconds.
pub open spec fn time_result(r: Result<Time, TimeError>) -> Result<nat, TimeError> {
    match r {
        Ok(t) => Ok(t.0.total_nanos()),
        Err(e) => Err(e),
    }
}

proof fn lemma_digits_prefix(s: Seq<char>, i: int)
    requires
        0 <= i < s.len(),
    ensures
        s.subrange(0, i + 1).drop_last() == s.subrange(0, i),
        s.subrange(0, i + 1).last() == s[i],
{
    assert(s.subrange(0, i + 1).drop_last() =~= s.subrange(0, i));
}

proof fn lemma_digits_monotone(s: Seq<char>, i: int, j: int)
    requires
        0 <= i <= j <= s.len(),
        all_digits(s),
    ensures
        digits_value(s.subrange(0, i)) <= digits_value(s.subrange(0, j)),
    decreases j - i,
{
    if i < j {
        lemma_digits_monotone(s, i, j - 1);
        lemma_digits_prefix(s, j - 1);
        assert(is_digit(s[j - 1]));
    }
}

/// The decimal value of `d`, when all of it are digits and it fits.
fn parse_digits(d: &[char]) -> (r: Option<u64>)
    ensures
        r == (if all_digits(d@) && digits_value(d@) <= u64::MAX {
            Some(digits_value(d@) as u64)
        } else {
            None
        }),
{
    let mut value: u64 = 0;
    let mut i: usize = 0;
    while i < d.len()
        invariant
            i <= d@.len(),
            forall|j: int| 0 <= j < i ==> #[trigger] is_digit(d@[j]),
            value == digits_value(d@.subrange(0, i as int)),
        decreases d@.len() - i,
    {
        let c = d[i];
        if !('0' <= c && c <= '9') {
            assert(!is_digit(d@[i as int]));
            return None;
        }
        proof {
            lemma_digits_prefix(d@, i as int);
        }
        let digit: u64 = ((c as u32) - ('0' as u32)) as u64;
        let next = match value.checked_mul(10) {
            Some(v) => v.checked_add(digit),
            None => None,
        };
        match next {
            Some(v) => {
                value = v;
            },
            None => {
                proof {
                    assert(digits_value(d@.subrange(0, i + 1)) > u64::MAX);
                    if all_digits(d@) {
                        lemma_digits_monotone(d@, i + 1, d@.len() as int);
                        assert(d@.subrange(0, d@.len() as int) =~= d@);
                    }
                }
                return None;
            },
        }
        i = i + 1;
    }
    assert(d@.subrange(0, d@.len() as int) =~= d@);
    Some(value)
}

/// Reads an unsigned 64-bit integer as `u64::from_str` does.
pub fn parse_u64(s: &[char]) -> (r: Option<u64>)
    ensures
        r == spec_parse_u64(s@),
{
    if s.len() == 0 {
        return None;
    }
    let d = if s[0] == '+' {
        vstd::slice::slice_subrange(s, 1, s.len())
    } else {
        s
    };
    assert(s@[0] == '+' ==> d@ =~= s@.drop_first());
    if d.len() == 0 {
        return None;
    }
    parse_digits(d)
}

fn eq_chars(a: &[char], b: &[char]) -> (r: bool)
    ensures
        r == (a@ == b@),
{
    if a.len() != b.len() {
        return false;
    }
    let mut i: usize = 0;
    while i < a.len()
        invariant
            a@.len() == b@.len(),
            i <= a@.len(),
            forall|j: int| 0 <= j < i ==> a@[j] == b@[j],
        decreases a@.len() - i,
    {
        if a[i] != b[i] {
            return false;
        }
        i = i + 1;
    }
    assert(a@ =~= b@);
    true
}

/// The span of `count` units of `unit`.
fn with_unit(count: u64, unit: &[char]) -> (r: Option<Duration>)
    ensures
        match r {
            Some(d) => d.wf() && spec_unit(count, unit@) == Some(d.total_nanos()),
            None => spec_unit(count, unit@) is None,
        },
{
    let s: [char; 1] = ['s'];
    let ms: [char; 2] = ['m', 's'];
    let us: [char; 2] = ['u', 's'];
    let ns: [char; 2] = ['n', 's'];
    assert(s@ == seq!['s']);
    assert(ms@ == seq!['m', 's']);
    assert(us@ == seq!['u', 's']);
    assert(ns@ == seq!['n', 's']);
    if eq_chars(unit, &s) {
        Some(Duration::from_secs(count))
    } else if eq_chars(unit, &ms) {
        Some(Duration::from_millis(count))
    } else if eq_chars(unit, &us) {
        Some(Duration::from_micros(count))
    } else if eq_chars(unit, &ns) {
        Some(Duration::from_nanos(count))
    } else {
        None
    }
}

/// Reads a text of time split before position `split` into count and unit,
/// or, with no split, as a count of seconds.
pub fn parse_time_at(s: &[char], split: Option<usize>) -> (r: Result<Time, TimeError>)
    requires
        split matches Some(k) ==> k <= s@.len(),
    ensures
        time_result(r) == spec_time_at(s@, match split {
            Some(k) => Some(k as int),
            None => None,
        }),
        r matches Ok(t) ==> t.0.wf(),
{
    let seconds: [char; 1] = ['s'];
    assert(seconds@ == seq!['s']);
    let (count, unit): (&[char], &[char]) = match split {
        Some(k) => (vstd::slice::slice_subrange(s, 0, k), vstd::slice::slice_subrange(s, k, s.len())),
        None => (s, &seconds),
    };
    let n = match parse_u64(count) {
        Some(n) => n,
        None => return Err(TimeError::InvalidCount),
    };
    match with_unit(n, unit) {
        Some(d) => Ok(Time(d)),
        None => Err(TimeError::InvalidUnit),
    }
}

/// The position of the first alphabetic character of `s`, if any.
fn find_alphabetic(s: &[char]) -> (r: Option<usize>)
    ensures
        match r {
            Some(k) => k < s@.len() && scan_alphabetic(s@, 0) == Some(k as int),
            None => scan_alphabetic(s@, 0) is None,
        },
{
    let mut i: usize = 0;
    while i < s.len()
        invariant
            i <= s@.len(),
            scan_alphabetic(s@, 0) == scan_alphabetic(s@, i as int),
        decreases s@.len() - i,
    {
        if is_alphabetic(s[i]) {
            return Some(i);
        }
        i = i + 1;
    }
    None
}

/// Reads a text of time: a count, then a unit from its first alphabetic
/// character on (`s`, `ms`, `us` or `ns`); a bare count is seconds.
pub fn parse_time(s: &[char]) -> (r: Result<Time, TimeError>)
    ensures
        time_result(r) == spec_time(s@),
        r matches Ok(t) ==> t.0.wf(),
{
    let split = find_alphabetic(s);
    parse_time_at(s, split)
}

impl Time {
    /// The span of a bare integer in a task file: that many seconds.
    pub fn from_secs(secs: u64) -> (t: Time)
        ensures
            t.0.wf(),
            t.0.total_nanos() == secs * 1_000_000_000,
    {
        Time(Duration::from_secs(secs))
    }

    /// Whole seconds.
    pub fn as_secs(&self) -> (r: u64)
        ensures
            r == self.0.secs,
    {
        self.0.as_secs()
    }

    /// Whole microseconds, when they fit in 64 bits.
    pub fn as_micros(&self) -> (r: Result<u64, TimeOverflow>)
        ensures
            r is Ok <==> self.0.total_nanos() / 1000 <= u64::MAX,
            r matches Ok(v) ==> v == self.0.total_nanos() / 1000,
    {
        let m = self.0.as_micros();
        if m <= 0xffff_ffff_ffff_ffffu128 {
            Ok(m as u64)
        } else {
            Err(TimeOverflow)
        }
    }

    /// Whole milliseconds, when they fit in 64 bits.
    pub fn as_millis(&self) -> (r: Result<u64, TimeOverflow>)
        ensures
            r is Ok <==> self.0.total_nanos() / 1_000_000 <= u64::MAX,
            r matches Ok(v) ==> v == self.0.total_nanos() / 1_000_000,
    {
        let m = self.0.as_millis();
        if m <= 0xffff_ffff_ffff_ffffu128 {
            Ok(m as u64)
        } else {
            Err(TimeOverflow)
        }
    }
}

/// An HTTP request to make.
#[derive(Clone, Debug)]
pub struct Fetch {
    pub target: String,
    pub method: String,
    pub body: Option<String>,
    pub headers: Option<Vec<(String, String)>>,
    pub insecure: bool,
    pub period: Time,
    pub expiry: Time,
}

/// TCP connections to open.
#[derive(Clone, Debug)]
pub struct Knock {
    pub target: String,
    pub port: u16,
    pub count: Count,
    pub period: Time,
    pub delay: Time,
    pub expiry: Time,
}

/// A task of a kind this agent does not run; its configuration is kept as
/// JSON text.
#[derive(Clone, Debug)]
pub struct Opaque {
    pub method: String,
    pub config: String,
    pub period: Time,
    pub expiry: Time,
}

/// ICMP echo requests to send.
#[derive(Clone, Debug)]
pub struct Ping {
    pub target: String,
    pub count: Count,
    pub period: Time,
    pub delay: Time,
    pub expiry: Time,
}

/// A DNS query to make.
#[derive(Clone, Debug)]
pub struct Query {
    pub target: String,
    pub server: String,
    pub port: u16,
    pub record: String,
    pub period: Time,
    pub expiry: Time,
}

/// A TLS handshake to make.
#[derive(Clone, Debug)]
pub struct Shake {
    pub target: String,
    pub port: u16,
    pub period: Time,
    pub expiry: Time,
}

/// A route to trace.
#[derive(Clone, Debug)]
pub struct Trace {
    pub target: String,
    pub protocol: String,
    pub port: u16,
    pub count: Count,
    pub limit: Count,
    pub period: Time,
    pub delay: Time,
    pub expiry: Time,
}

/// The configuration of a task, by kind.
#[derive(Clone, Debug)]
pub enum Config {
    Fetch(Fetch),
    Knock(Knock),
    Opaque(Opaque),
    Ping(Ping),
    Query(Query),
    Shake(Shake),
    Trace(Trace),
}

/// A task in a task file.
#[derive(Clone, Debug)]
pub struct Task {
    pub config: Config,
    pub network: Network,
}

/// A task file.
#[derive(Clone, Debug)]
pub struct Tasks {
    pub tasks: Vec<Task>,
}

} // verus!
