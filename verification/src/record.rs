use vstd::prelude::*;
use crate::net::IpAddr;
use crate::time::Duration;

verus! {

/// Round-trip time statistics over a series of measurements.
#[derive(Clone, Copy, Debug, PartialEq, Eq, Structural)]
pub struct Summary {
    pub min: Duration,
    pub max: Duration,
    pub avg: Duration,
    pub std: Duration,
    pub jit: Duration,
}

/// The result of an HTTP request.
#[derive(Clone, Debug)]
pub struct Fetch {
    pub task: u64,
    pub test: u64,
    pub target: String,
    pub addr: IpAddr,
    pub status: u16,
    pub dns: Duration,
    pub tcp: Duration,
    pub tls: Duration,
    pub rtt: Duration,
    pub size: usize,
}

/// The result of a series of TCP connections.
#[derive(Clone, Debug)]
pub struct Knock {
    pub task: u64,
    pub test: u64,
    pub target: String,
    pub addr: IpAddr,
    pub port: u16,
    pub sent: u32,
    pub lost: u32,
    pub rtt: Summary,
    pub result: Vec<Duration>,
}

/// The output of a task of a kind this agent does not run, as JSON text.
#[derive(Clone, Debug)]
pub struct Opaque {
    pub task: u64,
    pub test: u64,
    pub output: String,
}

/// The result of a series of ICMP echo requests.
#[derive(Clone, Debug)]
pub struct Ping {
    pub task: u64,
    pub test: u64,
    pub target: String,
    pub addr: IpAddr,
    pub sent: u32,
    pub lost: u32,
    pub rtt: Summary,
    pub result: Vec<Duration>,
}

/// The result of a DNS query.
#[derive(Clone, Debug)]
pub struct Query {
    pub task: u64,
    pub test: u64,
    pub code: u16,
    pub record: String,
    pub answers: String,
    pub time: Duration,
}

/// The result of a TLS handshake.
#[derive(Clone, Debug)]
pub struct Shake {
    pub task: u64,
    pub test: u64,
    pub target: String,
    pub addr: IpAddr,
    pub port: u16,
    pub time: Duration,
}

/// One hop of a traced route: its number and, for each node that answered,
/// the round-trip times in microseconds.
#[derive(Clone, Debug)]
pub struct Hop {
    pub hop: usize,
    pub nodes: Vec<(IpAddr, Vec<u64>)>,
}

/// The result of a route trace.
#[derive(Clone, Debug)]
pub struct Trace {
    pub task: u64,
    pub test: u64,
    pub target: String,
    pub addr: IpAddr,
    pub hops: Vec<Hop>,
    pub route: String,
    pub time: Duration,
}

/// A task that failed.
#[derive(Clone, Debug)]
pub struct Error {
    pub task: u64,
    pub test: u64,
    pub cause: String,
}

/// A task that did not finish in time.
#[derive(Clone, Copy, Debug, PartialEq, Eq, Structural)]
pub struct Timeout {
    pub task: u64,
    pub test: u64,
}

/// A measurement to export.
#[derive(Clone, Debug)]
pub enum Record {
    Fetch(Fetch),
    Knock(Knock),
    Opaque(Opaque),
    Ping(Ping),
    Query(Query),
    Shake(Shake),
    Trace(Trace),
    Error(Error),
    Timeout(Timeout),
}

} // verus!
