use vstd::prelude::*;
use crate::net::Network;
use crate::schema::{self, Count as CountField, Time};
use std::collections::HashMap;
use crate::time::Duration;

verus! {

/// A number of probes.
#[derive(Clone, Copy, Debug, PartialEq, Eq, Structural)]
pub struct Count(pub usize);

/// A largest number of hops.
#[derive(Clone, Copy, Debug, PartialEq, Eq, Structural)]
pub struct Limit(pub usize);

/// The pause between probes.
#[derive(Clone, Copy, Debug, PartialEq, Eq, Structural)]
pub struct Delay(pub Duration);

/// How long to wait for an answer.
#[derive(Clone, Copy, Debug, PartialEq, Eq, Structural)]
pub struct Expiry(pub Duration);

/// How often a task runs.
#[derive(Clone, Copy, Debug, PartialEq, Eq, Structural)]
pub struct Period(pub Duration);

/// The address families a task uses.
#[derive(Clone, Copy, Debug, PartialEq, Eq, Structural)]
pub enum Net {
    IPv4,
    IPv6,
    Dual,
}

/// What became of a task since it was last sent.
#[derive(Clone, Copy, Debug, PartialEq, Eq, Structural)]
pub enum State {
    Created,
    Deleted,
    Updated,
}

#[derive(Clone, Debug)]
pub struct FetchConfig {
    pub target: String,
    pub method: String,
    pub body: Option<String>,
    pub headers: Option<Vec<(String, String)>>,
    pub insecure: bool,
    pub period: Period,
    pub expiry: Expiry,
}

#[derive(Clone, Debug)]
pub struct KnockConfig {
    pub target: String,
    pub period: Period,
    pub count: Count,
    pub expiry: Expiry,
    pub delay: Delay,
    pub port: u16,
}

#[derive(Clone, Debug)]
pub struct PingConfig {
    pub target: String,
    pub period: Period,
    pub count: Count,
    pub delay: Delay,
    pub expiry: Expiry,
}

#[derive(Clone, Debug)]
pub struct QueryConfig {
    pub target: String,
    pub period: Period,
    pub expiry: Expiry,
    pub server: String,
    pub port: u16,
    pub record: String,
}

#[derive(Clone, Debug)]
pub struct ShakeConfig {
    pub target: String,
    pub port: u16,
    pub period: Period,
    pub expiry: Expiry,
}

#[derive(Clone, Debug)]
pub struct TraceConfig {
    pub protocol: String,
    pub port: u16,
    pub target: String,
    pub period: Period,
    pub count: Count,
    pub limit: Limit,
    pub delay: Delay,
    pub expiry: Expiry,
}

/// The configuration of a task the agent runs.
#[derive(Clone, Debug)]
pub enum TaskConfig {
    Fetch(FetchConfig),
    Knock(KnockConfig),
    Ping(PingConfig),
    Query(QueryConfig),
    Shake(ShakeConfig),
    Trace(TraceConfig),
}

/// A task as the executor receives it.
#[derive(Clone, Debug)]
pub struct Task {
    pub task: u64,
    pub test: u64,
    pub config: TaskConfig,
    pub family: Net,
    pub state: State,
}

/// Why a task of a task file cannot run.
#[derive(Clone, Copy, Debug, PartialEq, Eq, Structural)]
pub enum ConfigError {
    /// A count does not fit in a `usize`.
    CountRange,
    /// The task is of a kind the agent does not run.
    Unsupported,
}

/// A count of a task file as a `usize`, when it fits.
pub open spec fn spec_usize(c: CountField) -> Result<usize, ConfigError> {
    if c.0 <= usize::MAX {
        Ok(c.0 as usize)
    } else {
        Err(ConfigError::CountRange)
    }
}

fn to_usize(c: CountField) -> (r: Result<usize, ConfigError>)
    ensures
        r == spec_usize(c),
{
    if c.0 <= usize::MAX as u64 {
        Ok(c.0 as usize)
    } else {
        Err(ConfigError::CountRange)
    }
}

impl Count {
    /// A count of a task file, when it fits in a `usize`.
    pub fn try_from(c: CountField) -> (r: Result<Count, ConfigError>)
        ensures
            match spec_usize(c) {
                Ok(n) => r == Ok::<Count, ConfigError>(Count(n)),
                Err(e) => r == Err::<Count, ConfigError>(e),
            },
    {
        match to_usize(c) {
            Ok(n) => Ok(Count(n)),
            Err(e) => Err(e),
        }
    }
}

impl Limit {
    /// A limit of a task file, when it fits in a `usize`.
    pub fn try_from(c: CountField) -> (r: Result<Limit, ConfigError>)
        ensures
            match spec_usize(c) {
                Ok(n) => r == Ok::<Limit, ConfigError>(Limit(n)),
                Err(e) => r == Err::<Limit, ConfigError>(e),
            },
    {
        match to_usize(c) {
            Ok(n) => Ok(Limit(n)),
            Err(e) => Err(e),
        }
    }
}

impl Delay {
    pub fn try_from(t: Time) -> (r: Result<Delay, ConfigError>)
        ensures
            r == Ok::<Delay, ConfigError>(Delay(t.0)),
    {
        Ok(Delay(t.0))
    }
}

impl Expiry {
    pub fn try_from(t: Time) -> (r: Result<Expiry, ConfigError>)
        ensures
            r == Ok::<Expiry, ConfigError>(Expiry(t.0)),
    {
        Ok(Expiry(t.0))
    }
}

impl Period {
    pub fn try_from(t: Time) -> (r: Result<Period, ConfigError>)
        ensures
            r == Ok::<Period, ConfigError>(Period(t.0)),
    {
        Ok(Period(t.0))
    }
}

impl Net {
    /// The families of a task file's `network`.
    pub fn from(n: Network) -> (r: Net)
        ensures
            r == spec_net(n),
    {
        match n {
            Network::IPv4 => Net::IPv4,
            Network::IPv6 => Net::IPv6,
            Network::Dual => Net::Dual,
        }
    }
}

pub open spec fn spec_net(n: Network) -> Net {
    match n {
        Network::IPv4 => Net::IPv4,
        Network::IPv6 => Net::IPv6,
        Network::Dual => Net::Dual,
    }
}

/// Whether every count of a task configuration fits in a `usize`, and the
/// kind is one the agent runs.
pub open spec fn convertible(c: schema::Config) -> Result<(), ConfigError> {
    match c {
        schema::Config::Fetch(_) => Ok(()),
        schema::Config::Knock(k) => match spec_usize(k.count) {
            Ok(_) => Ok(()),
            Err(e) => Err(e),
        },
        schema::Config::Opaque(_) => Err(ConfigError::Unsupported),
        schema::Config::Ping(p) => match spec_usize(p.count) {
            Ok(_) => Ok(()),
            Err(e) => Err(e),
        },
        schema::Config::Query(_) => Ok(()),
        schema::Config::Shake(_) => Ok(()),
        schema::Config::Trace(t) => match (spec_usize(t.count), spec_usize(t.limit)) {
            (Err(e), _) => Err(e),
            (Ok(_), Err(e)) => Err(e),
            (Ok(_), Ok(_)) => Ok(()),
        },
    }
}

/// Whether a converted configuration carries the fields of the task file's
/// configuration.
pub open spec fn converted(c: schema::Config, t: TaskConfig) -> bool {
    match (c, t) {
        (schema::Config::Fetch(a), TaskConfig::Fetch(b)) => {
            &&& b.target == a.target
            &&& b.method == a.method
            &&& b.body == a.body
            &&& b.headers == a.headers
            &&& b.insecure == a.insecure
            &&& b.period == Period(a.period.0)
            &&& b.expiry == Expiry(a.expiry.0)
        },
        (schema::Config::Knock(a), TaskConfig::Knock(b)) => {
            &&& b.target == a.target
            &&& b.port == a.port
            &&& Ok::<usize, ConfigError>(b.count.0) == spec_usize(a.count)
            &&& b.period == Period(a.period.0)
            &&& b.delay == Delay(a.delay.0)
            &&& b.expiry == Expiry(a.expiry.0)
        },
        (schema::Config::Ping(a), TaskConfig::Ping(b)) => {
            &&& b.target == a.target
            &&& Ok::<usize, ConfigError>(b.count.0) == spec_usize(a.count)
            &&& b.period == Period(a.period.0)
            &&& b.delay == Delay(a.delay.0)
            &&& b.expiry == Expiry(a.expiry.0)
        },
        (schema::Config::Query(a), TaskConfig::Query(b)) => {
            &&& b.target == a.target
            &&& b.server == a.server
            &&& b.port == a.port
            &&& b.record == a.record
            &&& b.period == Period(a.period.0)
            &&& b.expiry == Expiry(a.expiry.0)
        },
        (schema::Config::Shake(a), TaskConfig::Shake(b)) => {
            &&& b.target == a.target
            &&& b.port == a.port
            &&& b.period == Period(a.period.0)
            &&& b.expiry == Expiry(a.expiry.0)
        },
        (schema::Config::Trace(a), TaskConfig::Trace(b)) => {
            &&& b.target == a.target
            &&& b.protocol == a.protocol
            &&& b.port == a.port
            &&& Ok::<usize, ConfigError>(b.count.0) == spec_usize(a.count)
            &&& Ok::<usize, ConfigError>(b.limit.0) == spec_usize(a.limit)
            &&& b.period == Period(a.period.0)
            &&& b.delay == Delay(a.delay.0)
            &&& b.expiry == Expiry(a.expiry.0)
        },
        _ => false,
    }
}

impl TaskConfig {
    /// The configuration of a task of a task file, when the agent runs that
    /// kind of task and its counts fit.
    pub fn try_from(c: schema::Config) -> (r: Result<TaskConfig, ConfigError>)
        ensures
            match r {
                Ok(t) => convertible(c) is Ok && converted(c, t),
                Err(e) => convertible(c) == Err::<(), ConfigError>(e),
            },
    {
        match c {
            schema::Config::Fetch(f) => Ok(
                TaskConfig::Fetch(
                    FetchConfig {
                        target: f.target,
                        method: f.method,
                        body: f.body,
                        headers: f.headers,
                        insecure: f.insecure,
                        period: Period(f.period.0),
                        expiry: Expiry(f.expiry.0),
                    },
                ),
            ),
            schema::Config::Knock(k) => {
                let count = match Count::try_from(k.count) {
                    Ok(n) => n,
                    Err(e) => return Err(e),
                };
                Ok(
                    TaskConfig::Knock(
                        KnockConfig {
                            target: k.target,
                            period: Period(k.period.0),
                            count,
                            expiry: Expiry(k.expiry.0),
                            delay: Delay(k.delay.0),
                            port: k.port,
                        },
                    ),
                )
            },
            schema::Config::Opaque(_) => Err(ConfigError::Unsupported),
            schema::Config::Ping(p) => {
                let count = match Count::try_from(p.count) {
                    Ok(n) => n,
                    Err(e) => return Err(e),
                };
                Ok(
                    TaskConfig::Ping(
                        PingConfig {
                            target: p.target,
                            period: Period(p.period.0),
                            count,
                            delay: Delay(p.delay.0),
                            expiry: Expiry(p.expiry.0),
                        },
                    ),
                )
            },
            schema::Config::Query(q) => Ok(
                TaskConfig::Query(
                    QueryConfig {
                        target: q.target,
                        period: Period(q.period.0),
                        expiry: Expiry(q.expiry.0),
                        server: q.server,
                        port: q.port,
                        record: q.record,
                    },
                ),
            ),
            schema::Config::Shake(s) => Ok(
                TaskConfig::Shake(
                    ShakeConfig {
                        target: s.target,
                        port: s.port,
                        period: Period(s.period.0),
                        expiry: Expiry(s.expiry.0),
                    },
                ),
            ),
            schema::Config::Trace(t) => {
                let count = match Count::try_from(t.count) {
                    Ok(n) => n,
                    Err(e) => return Err(e),
                };
                let limit = match Limit::try_from(t.limit) {
                    Ok(n) => n,
                    Err(e) => return Err(e),
                };
                Ok(
                    TaskConfig::Trace(
                        TraceConfig {
                            protocol: t.protocol,
                            port: t.port,
                            target: t.target,
                            period: Period(t.period.0),
                            count,
                            limit,
                            delay: Delay(t.delay.0),
                            expiry: Expiry(t.expiry.0),
                        },
                    ),
                )
            },
        }
    }
}

/// The first task of a task file, from position `i` on, that cannot run.
pub open spec fn first_error(ts: Seq<schema::Task>, i: int) -> Option<ConfigError>
    decreases ts.len() - i,
{
    if i < 0 || i >= ts.len() {
        None
    } else {
        match convertible(ts[i].config) {
            Err(e) => Some(e),
            Ok(_) => first_error(ts, i + 1),
        }
    }
}

/// Whether `t` is the `i`th task of a task file as the executor gets it:
/// numbered by its position, test zero, newly created.
pub open spec fn loaded(s: schema::Task, i: int, t: Task) -> bool {
    &&& t.task == i
    &&& t.test == 0
    &&& t.state == State::Created
    &&& t.family == spec_net(s.network)
    &&& converted(s.config, t.config)
}

/// Tasks sent to the executor: the last set loaded from the task file.
pub struct Loader {
    tasks: Vec<Task>,
}

impl Loader {
    /// The tasks last loaded.
    pub closed spec fn tasks(&self) -> Seq<Task> {
        self.tasks@
    }

    /// No tasks loaded yet.
    pub fn new() -> (l: Loader)
        ensures
            l.tasks() == Seq::<Task>::empty(),
    {
        Loader { tasks: Vec::new() }
    }

    /// The tasks last loaded.
    pub fn current(&self) -> (r: &Vec<Task>)
        ensures
            r@ == self.tasks(),
    {
        &self.tasks
    }

    /// Loads a task file: its tasks become the tasks loaded, and the tasks
    /// of the previous load are returned, marked deleted. When a task cannot
    /// run, nothing changes and the first such error is returned.
    pub fn reload(&mut self, file: schema::Tasks) -> (r: Result<Vec<Task>, ConfigError>)
        requires
            file.tasks@.len() <= u64::MAX,
        ensures
            match r {
                Ok(outdated) => {
                    &&& first_error(file.tasks@, 0) is None
                    &&& outdated@.len() == old(self).tasks().len()
                    &&& forall|i: int|
                        0 <= i < outdated@.len() ==> #[trigger] outdated@[i] == (Task {
                            state: State::Deleted,
                            ..old(self).tasks()[i]
                        })
                    &&& final(self).tasks().len() == file.tasks@.len()
                    &&& forall|i: int|
                        0 <= i < file.tasks@.len() ==> #[trigger] loaded(
                            file.tasks@[i],
                            i,
                            final(self).tasks()[i],
                        )
                },
                Err(e) => {
                    &&& first_error(file.tasks@, 0) == Some(e)
                    &&& final(self).tasks() == old(self).tasks()
                },
            },
    {
        let ghost source = file.tasks@;
        let mut entries = file.tasks;
        let mut tasks: Vec<Task> = Vec::new();
        let mut i: usize = 0;
        let total: usize = entries.len();
        let mut failed: Option<ConfigError> = None;
        while entries.len() > 0 && failed.is_none()
            invariant
                source.len() == total,
                source.len() <= u64::MAX,
                i <= source.len(),
                failed is None ==> entries@ == source.subrange(i as int, source.len() as int),
                failed is None ==> entries@.len() == source.len() - i,
                tasks@.len() == i,
                failed is None ==> first_error(source, 0) == first_error(source, i as int),
                failed matches Some(e) ==> first_error(source, 0) == Some(e),
                forall|j: int| 0 <= j < i ==> #[trigger] loaded(source[j], j, tasks@[j]),
            decreases entries@.len(),
        {
            let entry = entries.remove(0);
            assert(entry == source[i as int]);
            match TaskConfig::try_from(entry.config) {
                Ok(config) => {
                    tasks.push(
                        Task {
                            task: i as u64,
                            test: 0,
                            config,
                            family: Net::from(entry.network),
                            state: State::Created,
                        },
                    );
                    i = i + 1;
                    assert(entries@ =~= source.subrange(i as int, source.len() as int));
                },
                Err(e) => {
                    assert(first_error(source, i as int) == Some(e));
                    failed = Some(e);
                },
            }
        }
        if let Some(e) = failed {
            return Err(e);
        }
        let mut previous = tasks;
        std::mem::swap(&mut previous, &mut self.tasks);
        let ghost before = previous@;
        let mut outdated: Vec<Task> = Vec::new();
        while previous.len() > 0
            invariant
                outdated@.len() + previous@.len() == before.len(),
                previous@ == before.subrange(outdated@.len() as int, before.len() as int),
                forall|j: int|
                    0 <= j < outdated@.len() ==> #[trigger] outdated@[j] == (Task {
                        state: State::Deleted,
                        ..before[j]
                    }),
            decreases previous@.len(),
        {
            let ghost n = outdated@.len();
            let mut t = previous.remove(0);
            assert(t == before[n as int]);
            t.state = State::Deleted;
            outdated.push(t);
            assert(previous@ =~= before.subrange(outdated@.len() as int, before.len() as int));
        }
        Ok(outdated)
    }
}

/// The address families a task runs with: those the agent is restricted to,
/// if any, else those of the task.
pub fn network(restriction: Option<Network>, family: Net) -> (r: Network)
    ensures
        r == match restriction {
            Some(n) => n,
            None => family_network(family),
        },
{
    match restriction {
        Some(n) => n,
        None => match family {
            Net::IPv4 => Network::IPv4,
            Net::IPv6 => Network::IPv6,
            Net::Dual => Network::Dual,
        },
    }
}

/// What runs a task.
#[derive(Clone, Copy, Debug, PartialEq, Eq, Structural)]
pub enum Runner {
    Fetch,
    Knock,
    Ping,
    Query,
    Shake,
    Trace,
}

/// What the executor does with a task it receives.
#[derive(Clone, Copy, Debug, PartialEq, Eq, Structural)]
pub enum Step {
    /// Start the task with the given runner, replacing any running task
    /// with the same id.
    Start(Runner),
    /// Stop the task with that id.
    Stop,
}

/// The network of a task's families.
pub open spec fn family_network(family: Net) -> Network {
    match family {
        Net::IPv4 => Network::IPv4,
        Net::IPv6 => Network::IPv6,
        Net::Dual => Network::Dual,
    }
}

/// A task loaded from a task file keeps the network its entry names: an
/// IPv4 entry gives an IPv4 task, an IPv6 entry an IPv6 task, a dual entry
/// a dual task.
pub proof fn law_loaded_family_is_entry_network(s: schema::Task, i: int, t: Task)
    requires
        loaded(s, i, t),
    ensures
        t.family == Net::IPv4 <==> s.network == Network::IPv4,
        t.family == Net::IPv6 <==> s.network == Network::IPv6,
        t.family == Net::Dual <==> s.network == Network::Dual,
{
}

/// With no restriction, the network a loaded task runs over is the one its
/// task file entry names.
pub proof fn law_family_round_trip(n: Network)
    ensures
        family_network(spec_net(n)) == n,
{
}

pub open spec fn runner_of(c: TaskConfig) -> Runner {
    match c {
        TaskConfig::Fetch(_) => Runner::Fetch,
        TaskConfig::Knock(_) => Runner::Knock,
        TaskConfig::Ping(_) => Runner::Ping,
        TaskConfig::Query(_) => Runner::Query,
        TaskConfig::Shake(_) => Runner::Shake,
        TaskConfig::Trace(_) => Runner::Trace,
    }
}

/// Each kind of task has a runner of its own: a task is started with the
/// runner of the same kind, and no two kinds share a runner.
pub proof fn law_runner_of_own_kind(c: TaskConfig)
    ensures
        c is Fetch <==> runner_of(c) == Runner::Fetch,
        c is Knock <==> runner_of(c) == Runner::Knock,
        c is Ping <==> runner_of(c) == Runner::Ping,
        c is Query <==> runner_of(c) == Runner::Query,
        c is Shake <==> runner_of(c) == Runner::Shake,
        c is Trace <==> runner_of(c) == Runner::Trace,
{
}

/// What to do with a task: created and updated tasks are started with the
/// runner of their kind, deleted ones stopped.
pub fn step(task: &Task) -> (r: Step)
    ensures
        task.state == State::Deleted ==> r == Step::Stop,
        task.state != State::Deleted ==> r == Step::Start(runner_of(task.config)),
{
    match task.state {
        State::Deleted => Step::Stop,
        _ => Step::Start(
            match &task.config {
                TaskConfig::Fetch(_) => Runner::Fetch,
                TaskConfig::Knock(_) => Runner::Knock,
                TaskConfig::Ping(_) => Runner::Ping,
                TaskConfig::Query(_) => Runner::Query,
                TaskConfig::Shake(_) => Runner::Shake,
                TaskConfig::Trace(_) => Runner::Trace,
            },
        ),
    }
}

/// The running tasks, by id, each with what controls it.
pub struct Running<H> {
    handles: HashMap<u64, H>,
}

impl<H> Running<H> {
    /// The running tasks.
    pub closed spec fn view(&self) -> Map<u64, H> {
        self.handles@
    }

    /// No task running.
    pub fn new() -> (r: Running<H>)
        ensures
            r@ == Map::<u64, H>::empty(),
    {
        Running { handles: HashMap::new() }
    }

    /// Records a started task; one that ran under the same id is replaced.
    pub fn insert(&mut self, id: u64, handle: H)
        ensures
            final(self)@ == old(self)@.insert(id, handle),
    {
        let _ = self.handles.insert(id, handle);
    }

    /// Forgets a stopped task.
    pub fn delete(&mut self, id: u64) -> (r: Option<H>)
        ensures
            final(self)@ == old(self)@.remove(id),
            r == (if old(self)@.contains_key(id) {
                Some(old(self)@[id])
            } else {
                None
            }),
    {
        self.handles.remove(&id)
    }

    /// Forgets every task.
    pub fn reset(&mut self)
        ensures
            final(self)@ == Map::<u64, H>::empty(),
    {
        self.handles.clear();
    }

    /// The number of running tasks.
    pub fn len(&self) -> (n: usize)
        ensures
            n == self@.len(),
    {
        self.handles.len()
    }
}

/// Whether the task file is to be loaded again: it changed after the last
/// load and has not changed for more than a second.
pub fn reload_due(modified: Duration, loaded: Duration, age: Duration) -> (r: bool)
    ensures
        r == (modified.total_nanos() > loaded.total_nanos() && age.total_nanos() > 1_000_000_000),
{
    modified.as_nanos() > loaded.as_nanos() && age.as_nanos() > 1_000_000_000u128
}

} // verus!
