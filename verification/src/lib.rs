//! Verified core of the ksynth synthetic monitoring agent: packet
//! construction and parsing for ping and traceroute, task configuration,
//! and the encodings used when exporting measurement records.

pub mod control;
pub mod export;
pub mod icmp;
pub mod influx;
pub mod kentik;
pub mod net;
pub mod newrelic;
pub mod notary;
pub mod ping;
pub mod probe;
pub mod record;
pub mod schema;
pub mod signing;
pub mod table;
pub mod tasks;
pub mod text;
pub mod time;
pub mod trace;
pub mod wire;
