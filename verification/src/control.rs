use vstd::prelude::*;
use vstd::string::{StrSliceExecFns, StringExecFns};
use crate::net::{Network, SocketAddr};

verus! {

/// How much is logged.
#[derive(Clone, Copy, Debug, PartialEq, Eq, Structural)]
pub enum LevelFilter {
    Off,
    Error,
    Warn,
    Info,
    Debug,
    Trace,
}

/// A logging directive: the level for the events of one target, or for
/// all events when there is no target.
#[derive(Clone, Debug)]
pub struct Directive {
    pub target: Option<String>,
    pub level: LevelFilter,
}

/// Whether `d` is the directive for `target` (all events when `None`) at
/// `level`.
pub open spec fn is_directive(d: Directive, target: Option<Seq<char>>, level: LevelFilter) -> bool {
    &&& d.level == level
    &&& match (d.target, target) {
        (Some(t), Some(u)) => t@ == u,
        (None, None) => true,
        _ => false,
    }
}

/// A failure to change what is logged.
#[derive(Clone, Debug)]
pub struct HandleError(pub String);

/// Something that changes what is logged; implemented by the users of the
/// library for what they log through.
pub trait Handle<C> {
    fn modify(&self, c: C) -> Result<(), HandleError>;
}

/// The levels for the agent's own events and for those of the libraries it
/// uses, at verbosity `level`.
pub open spec fn spec_levels(level: u64) -> (LevelFilter, LevelFilter) {
    if level == 0 {
        (LevelFilter::Info, LevelFilter::Warn)
    } else if level == 1 {
        (LevelFilter::Debug, LevelFilter::Info)
    } else if level == 2 {
        (LevelFilter::Trace, LevelFilter::Info)
    } else if level == 3 {
        (LevelFilter::Trace, LevelFilter::Debug)
    } else {
        (LevelFilter::Trace, LevelFilter::Trace)
    }
}

/// The levels at verbosity `level`.
pub fn levels(level: u64) -> (r: (LevelFilter, LevelFilter))
    ensures
        r == spec_levels(level),
{
    match level {
        0 => (LevelFilter::Info, LevelFilter::Warn),
        1 => (LevelFilter::Debug, LevelFilter::Info),
        2 => (LevelFilter::Trace, LevelFilter::Info),
        3 => (LevelFilter::Trace, LevelFilter::Debug),
        _ => (LevelFilter::Trace, LevelFilter::Trace),
    }
}

/// How much a level lets through: more for a more verbose level.
pub open spec fn detail(l: LevelFilter) -> int {
    match l {
        LevelFilter::Off => 0,
        LevelFilter::Error => 1,
        LevelFilter::Warn => 2,
        LevelFilter::Info => 3,
        LevelFilter::Debug => 4,
        LevelFilter::Trace => 5,
    }
}

/// Raising the verbosity never logs less, of the agent's own events or of
/// the others, and each step logs more of one of them; the agent's own
/// events are always logged at least as much as the others. The quietest
/// verbosity logs the agent's information and the others' warnings, the
/// loudest traces everything.
pub proof fn law_levels_grow(level: u64)
    requires
        level < 4,
    ensures
        detail(spec_levels(level).0) <= detail(spec_levels((level + 1) as u64).0),
        detail(spec_levels(level).1) <= detail(spec_levels((level + 1) as u64).1),
        detail(spec_levels(level).0) + detail(spec_levels(level).1) < detail(spec_levels((level + 1) as u64).0)
            + detail(spec_levels((level + 1) as u64).1),
        detail(spec_levels(level).1) <= detail(spec_levels(level).0),
        spec_levels(0) == (LevelFilter::Info, LevelFilter::Warn),
        spec_levels(4) == (LevelFilter::Trace, LevelFilter::Trace),
{
}

/// The verbosity after `level`: the levels go round from 0 to 4.
pub open spec fn next_level(level: u64) -> u64 {
    if level == u64::MAX {
        0
    } else {
        ((level + 1) % 5) as u64
    }
}

/// Raising the verbosity five times from any of the five levels comes back
/// to it.
pub proof fn law_levels_cycle(level: u64)
    requires
        level < 5,
    ensures
        next_level(next_level(next_level(next_level(next_level(level))))) == level,
{
}

/// What applying verbosity `level` for the events of `root` hands over,
/// after `before`: the directive for `root`, then, unless the first was
/// refused, the level for all other events; `done` tells whether both were
/// handed.
pub open spec fn applied(before: Seq<Directive>, after: Seq<Directive>, root: Seq<char>, level: u64, done: bool) -> bool {
    let n = before.len() as int;
    &&& after.len() == (if done { n + 2 } else { n + 1 })
    &&& after.subrange(0, n) == before
    &&& is_directive(after[n], Some(root), spec_levels(level).0)
    &&& done ==> is_directive(after[n + 1], None, spec_levels(level).1)
}

/// How the handle answered the directives of one application, after the
/// answers `before` (`true` for an accepted directive): the first was
/// answered, the second was handed exactly when the first was accepted, and
/// the application succeeds (`ok`) exactly when both were accepted.
pub open spec fn answered(before: Seq<bool>, after: Seq<bool>, ok: bool) -> bool {
    let n = before.len() as int;
    &&& after.len() == n + 1 || after.len() == n + 2
    &&& after.subrange(0, n) == before
    &&& (after.len() == n + 2 <==> after[n])
    &&& (ok <==> (after.len() == n + 2 && after[n + 1]))
}

/// The verbosity of the log, which each request raises by one, round from
/// 0 to 4.
pub struct Filter<H> {
    handle: H,
    root: String,
    level: u64,
    handed: Ghost<Seq<Directive>>,
    accepted: Ghost<Seq<bool>>,
}

impl<H: Handle<Directive>> Filter<H> {
    /// The verbosity.
    pub closed spec fn level(&self) -> u64 {
        self.level
    }

    /// The target of the agent's own events.
    pub closed spec fn root(&self) -> Seq<char> {
        self.root@
    }

    /// Everything the filter has handed to its handle since it was made, in
    /// order.
    pub closed spec fn handed(&self) -> Seq<Directive> {
        self.handed@
    }

    /// How the handle answered each directive handed to it, in order:
    /// `true` where it accepted the directive.
    pub closed spec fn accepted(&self) -> Seq<bool> {
        self.accepted@
    }

    /// Hands `d` to the handle, and records its answer.
    fn hand(&mut self, d: Directive) -> (r: Result<(), HandleError>)
        ensures
            final(self).level() == old(self).level(),
            final(self).root() == old(self).root(),
            final(self).handed() == old(self).handed().push(d),
            final(self).accepted() == old(self).accepted().push(r is Ok),
    {
        let ghost given = d;
        let r = self.handle.modify(d);
        self.handed = Ghost(self.handed@.push(given));
        self.accepted = Ghost(self.accepted@.push(r is Ok));
        r
    }

    /// What the filter applies at its verbosity: a directive for the agent's
    /// own events, and one for all others.
    pub fn directives(&self) -> (r: (Directive, Directive))
        ensures
            is_directive(r.0, Some(self.root()), spec_levels(self.level()).0),
            is_directive(r.1, None, spec_levels(self.level()).1),
    {
        let (app, lib) = levels(self.level);
        let target = self.root.clone();
        (Directive { target: Some(target), level: app }, Directive { target: None, level: lib })
    }

    fn apply(&mut self) -> (r: Result<(), HandleError>)
        ensures
            final(self).level() == old(self).level(),
            final(self).root() == old(self).root(),
            answered(old(self).accepted(), final(self).accepted(), r is Ok),
            applied(
                old(self).handed(),
                final(self).handed(),
                old(self).root(),
                old(self).level(),
                final(self).accepted().len() == old(self).accepted().len() + 2,
            ),
    {
        let (app, lib) = self.directives();
        let ghost before = self.handed();
        let ghost answers = self.accepted();
        let first = self.hand(app);
        assert(self.handed().subrange(0, before.len() as int) =~= before);
        assert(self.accepted().subrange(0, answers.len() as int) =~= answers);
        match first {
            Ok(()) => {},
            Err(e) => return Err(e),
        }
        let ghost middle = self.handed();
        let ghost middle_answers = self.accepted();
        let r = self.hand(lib);
        assert(self.handed().subrange(0, before.len() as int) =~= before) by {
            assert(self.handed() == middle.push(lib));
            assert forall|i: int| 0 <= i < before.len() implies self.handed()[i] == before[i] by {
                assert(middle[i] == before[i]);
            }
        }
        assert(self.accepted().subrange(0, answers.len() as int) =~= answers) by {
            assert forall|i: int| 0 <= i < answers.len() implies self.accepted()[i] == answers[i] by {
                assert(middle_answers[i] == answers[i]);
            }
        }
        r
    }

    /// A filter at verbosity `level` for the events of `root`, applied
    /// through `handle`.
    pub fn new(handle: H, root: &str, level: u64) -> (r: Result<Filter<H>, HandleError>)
        ensures
            r matches Ok(f) ==> {
                &&& f.level() == level
                &&& f.root() == root@
                &&& applied(Seq::empty(), f.handed(), root@, level, true)
                &&& f.accepted() == seq![true, true]
            },
    {
        let mut f = Filter {
            handle,
            root: String::from_str(root),
            level,
            handed: Ghost(Seq::empty()),
            accepted: Ghost(Seq::empty()),
        };
        match f.apply() {
            Ok(()) => Ok(f),
            Err(e) => Err(e),
        }
    }

    /// Raises the verbosity by one, round from 4 to 0, applies it, and
    /// returns the verbosity before and after. The handle is handed the
    /// directives of the new verbosity; it succeeds exactly when the handle
    /// accepts both, and when the handle refuses one its error is returned
    /// and the verbosity stays raised.
    pub fn increment(&mut self) -> (r: Result<(u64, u64), HandleError>)
        ensures
            final(self).level() == next_level(old(self).level()),
            final(self).root() == old(self).root(),
            r matches Ok((a, b)) ==> a == old(self).level() && b == next_level(old(self).level()),
            answered(old(self).accepted(), final(self).accepted(), r is Ok),
            applied(
                old(self).handed(),
                final(self).handed(),
                old(self).root(),
                final(self).level(),
                final(self).accepted().len() == old(self).accepted().len() + 2,
            ),
    {
        let old_level = self.level;
        let new_level = old_level.wrapping_add(1) % 5;
        self.level = new_level;
        match self.apply() {
            Ok(()) => Ok((old_level, new_level)),
            Err(e) => Err(e),
        }
    }
}

/// The lower-case form of an ASCII letter; other characters as they are.
pub open spec fn ascii_lower(c: char) -> char {
    if 'A' <= c <= 'Z' {
        ((c as u32) + 32) as char
    } else {
        c
    }
}

/// Whether `s` equals `t` ignoring ASCII case (with `t` in lower case).
pub open spec fn lower_is(s: Seq<char>, t: Seq<char>) -> bool {
    s.len() == t.len() && forall|i: int| 0 <= i < s.len() ==> ascii_lower(#[trigger] s[i]) == t[i]
}

fn lower_char(c: char) -> (r: char)
    ensures
        r == ascii_lower(c),
{
    if 'A' <= c && c <= 'Z' {
        let b: u8 = c as u8;
        (b + 32) as char
    } else {
        c
    }
}

/// Whether an environment variable given for a flag sets it: when it is
/// empty or `true` in any case.
pub fn is_truthy(value: &str) -> (r: bool)
    ensures
        r == (value@.len() == 0 || lower_is(value@, "true"@)),
{
    proof {
        reveal_strlit("true");
    }
    let n = value.unicode_len();
    if n == 0 {
        return true;
    }
    if n != 4 {
        return false;
    }
    let t = "true";
    let mut i: usize = 0;
    while i < 4
        invariant
            n == value@.len(),
            n == 4,
            t@ == "true"@,
            t@.len() == 4,
            i <= 4,
            forall|j: int| 0 <= j < i ==> ascii_lower(#[trigger] value@[j]) == t@[j],
        decreases 4 - i,
    {
        if lower_char(value.get_char(i)) != t.get_char(i) {
            return false;
        }
        i = i + 1;
    }
    true
}

/// The text of an optional string.
pub open spec fn opt_text(v: Option<String>) -> Option<Seq<char>> {
    match v {
        Some(s) => Some(s@),
        None => None,
    }
}

/// The value the environment gives the argument `name`, from the arguments
/// in the order they are declared, each with the value of its environment
/// variable when it has one that is set: the last such value declared for
/// that name.
pub open spec fn env_lookup(found: Seq<(Seq<char>, Option<Seq<char>>)>, name: Seq<char>) -> Option<Seq<char>>
    decreases found.len(),
{
    if found.len() == 0 {
        None
    } else if found.last().0 == name && found.last().1 is Some {
        found.last().1
    } else {
        env_lookup(found.drop_last(), name)
    }
}

/// Whether the environment sets the flag `name`: its value is empty or
/// `true` in any case.
pub open spec fn env_sets(found: Seq<(Seq<char>, Option<Seq<char>>)>, name: Seq<char>) -> bool {
    match env_lookup(found, name) {
        Some(v) => v.len() == 0 || lower_is(v, "true"@),
        None => false,
    }
}

fn same_text(a: &str, b: &str) -> (r: bool)
    ensures
        r == (a@ == b@),
{
    let n = a.unicode_len();
    if n != b.unicode_len() {
        return false;
    }
    let mut i: usize = 0;
    while i < n
        invariant
            n == a@.len(),
            n == b@.len(),
            i <= n,
            forall|j: int| 0 <= j < i ==> a@[j] == b@[j],
        decreases n - i,
    {
        if a.get_char(i) != b.get_char(i) {
            return false;
        }
        i = i + 1;
    }
    assert(a@ =~= b@);
    true
}

/// The values that environment variables give the command's arguments.
pub struct EnvVars {
    found: Vec<(String, Option<String>)>,
}

impl EnvVars {
    /// The arguments in declaration order, each with the value of its
    /// environment variable, if any.
    pub closed spec fn view(&self) -> Seq<(Seq<char>, Option<Seq<char>>)> {
        Seq::new(self.found@.len(), |i: int| (self.found@[i].0@, opt_text(self.found@[i].1)))
    }

    /// The values found for the arguments, in the order the arguments are
    /// declared (those of the command first, then those of each
    /// subcommand): each name with the value of its environment variable,
    /// `None` when it has none or it is not set.
    pub fn new(found: Vec<(String, Option<String>)>) -> (r: EnvVars)
        ensures
            r@.len() == found@.len(),
            forall|i: int|
                0 <= i < found@.len() ==> #[trigger] r@[i] == (found@[i].0@, opt_text(found@[i].1)),
    {
        EnvVars { found }
    }

    /// The value the environment gives the argument `name`; when several
    /// arguments of that name have one, the last declared wins.
    pub fn get(&self, name: &str) -> (r: Option<String>)
        ensures
            opt_text(r) == env_lookup(self@, name@),
    {
        let mut i: usize = self.found.len();
        assert(self@.subrange(0, i as int) =~= self@);
        while i > 0
            invariant
                i <= self.found@.len(),
                self@.len() == self.found@.len(),
                env_lookup(self@.subrange(0, i as int), name@) == env_lookup(self@, name@),
            decreases i,
        {
            let ghost pre = self@.subrange(0, i as int);
            assert(pre.drop_last() =~= self@.subrange(0, i - 1));
            assert(pre.last() == self@[i - 1]);
            let (n, v) = &self.found[i - 1];
            if same_text(n.as_str(), name) {
                match v {
                    Some(text) => {
                        return Some(text.clone());
                    },
                    None => {},
                }
            }
            i = i - 1;
        }
        assert(self@.subrange(0, 0) =~= Seq::<(Seq<char>, Option<Seq<char>>)>::empty());
        None
    }

    /// Whether the environment sets the flag `name`.
    pub fn is_set(&self, name: &str) -> (r: bool)
        ensures
            r == env_sets(self@, name@),
    {
        match self.get(name) {
            Some(v) => is_truthy(v.as_str()),
            None => false,
        }
    }

    /// Whether the flag `name` is present: given on the command line
    /// (`given`) or set by the environment.
    pub fn is_present(&self, given: bool, name: &str) -> (r: bool)
        ensures
            r == (given || env_sets(self@, name@)),
    {
        given || self.is_set(name)
    }
}

/// A signal the agent handles.
#[derive(Clone, Copy, Debug, PartialEq, Eq, Structural)]
pub enum Signal {
    Interrupt,
    Terminate,
    User1,
    User2,
}

/// What the agent does on a signal.
#[derive(Clone, Copy, Debug, PartialEq, Eq, Structural)]
pub enum Command {
    /// Shut down.
    Stop,
    /// Log a report of the tasks and the export queue.
    Report,
    /// Raise the log verbosity.
    Toggle,
}

/// Interrupt and terminate stop the agent, the first user signal asks for a
/// report, the second raises the log verbosity.
pub fn command(signal: Signal) -> (r: Command)
    ensures
        (signal == Signal::Interrupt || signal == Signal::Terminate) <==> r == Command::Stop,
        signal == Signal::User1 <==> r == Command::Report,
        signal == Signal::User2 <==> r == Command::Toggle,
{
    match signal {
        Signal::Interrupt | Signal::Terminate => Command::Stop,
        Signal::User1 => Command::Report,
        Signal::User2 => Command::Toggle,
    }
}

/// The lower-case hex digit of `d`.
pub open spec fn hex_digit(d: nat) -> char {
    if d < 10 {
        (48 + d) as char
    } else {
        (87 + d) as char
    }
}

/// Two lower-case hex digits per byte.
pub open spec fn hex_text(bytes: Seq<u8>) -> Seq<char>
    decreases bytes.len(),
{
    if bytes.len() == 0 {
        Seq::empty()
    } else {
        hex_text(bytes.drop_last()) + seq![
            hex_digit((bytes.last() / 16) as nat),
            hex_digit((bytes.last() % 16) as nat)
        ]
    }
}

/// Encodes with `hex::encode`. Claimed, as its documentation says: two
/// lower-case hex digits for each byte, in order.
#[verifier::external_body]
fn hex_encode(bytes: &[u8]) -> (r: String)
    ensures
        r@ == hex_text(bytes@),
{
    hex::encode(bytes)
}

/// The identity the agent logs: the first six bytes of its public key, in
/// hex.
pub fn identity(public_key: &[u8]) -> (r: String)
    requires
        public_key@.len() >= 6,
    ensures
        r@ == hex_text(public_key@.subrange(0, 6)),
{
    let head = vstd::slice::slice_subrange(public_key, 0, 6);
    hex_encode(head)
}

/// The description of the machine: system name, node name, release,
/// version and machine, separated by spaces.
pub fn machine(sysname: &str, nodename: &str, release: &str, version: &str, hardware: &str) -> (r: String)
    ensures
        r@ == sysname@ + " "@ + nodename@ + " "@ + release@ + " "@ + version@ + " "@ + hardware@,
{
    let mut s = String::from_str(sysname);
    s.append(" ");
    s.append(nodename);
    s.append(" ");
    s.append(release);
    s.append(" ");
    s.append(version);
    s.append(" ");
    s.append(hardware);
    s
}

/// The address a name server is queried from: none for a server on the
/// loopback interface, else the bind address of its family.
pub fn resolver_bind(server: SocketAddr, sa4: SocketAddr, sa6: SocketAddr) -> (r: Option<SocketAddr>)
    ensures
        server.spec_ip().spec_is_loopback() ==> r is None,
        !server.spec_ip().spec_is_loopback() ==> r == (match server {
            SocketAddr::V4(_) => Some(sa4),
            SocketAddr::V6(_) => Some(sa6),
        }),
{
    if server.ip().is_loopback() {
        return None;
    }
    match server {
        SocketAddr::V4(_) => Some(sa4),
        SocketAddr::V6(_) => Some(sa6),
    }
}

/// Which addresses name lookups ask for.
#[derive(Clone, Copy, Debug, PartialEq, Eq, Structural)]
pub enum LookupStrategy {
    Ipv4Only,
    Ipv6Only,
    Ipv4AndIpv6,
}

/// The lookups for the families the agent is restricted to.
pub fn lookup_strategy(net: Option<Network>) -> (r: LookupStrategy)
    ensures
        net == Some(Network::IPv4) ==> r == LookupStrategy::Ipv4Only,
        net == Some(Network::IPv6) ==> r == LookupStrategy::Ipv6Only,
        (net == Some(Network::Dual) || net is None) ==> r == LookupStrategy::Ipv4AndIpv6,
{
    match net {
        Some(Network::IPv4) => LookupStrategy::Ipv4Only,
        Some(Network::IPv6) => LookupStrategy::Ipv6Only,
        _ => LookupStrategy::Ipv4AndIpv6,
    }
}

} // verus!
