# ksynth

The core of ksynth, a synthetic monitoring agent (ICMP ping, traceroute,
TCP knock, HTTP fetch, DNS query and TLS handshake tasks), written in Verus
with its behaviour stated as contracts and proved.

## Layout

- `src/` — the verified library:
  - `icmp`, `ping`, `probe`, `wire`, `trace`: ICMP echo packets and their
    checksum, echo-reply matching, UDP traceroute probes, the reading of ICMP
    answers, port reservation, the probes that await an answer, the end of a
    traced route and of a command-line trace, and the traceroute report
    layout.
  - `schema`, `tasks`: the task file (times such as `10ms`, counts) and its
    conversion into the tasks the executor runs; what the executor does with
    each task; the set of running tasks.
  - `record`, `kentik`, `influx`, `newrelic`, `export`: measurement records,
    the Kentik flow columns they fill, the InfluxDB line protocol, New Relic
    events and count metrics, and the per-device export queue.
  - `notary`: release versions, platforms and the notary's answers.
  - `control`: log verbosity, flags set by environment variables, signals,
    identity and name-server choices.
  - `net`, `time`, `table`, `text`: addresses, durations, a small map for
    keys that are not integers, and decimal text.
- `tests/` — tests of the library.
- `app/` — the `ksynth` command: command line, task file reading, log
  subscriber, signal handling, and raw-socket ping and traceroute.

## Limits of the command

- The agent's `--ip4` and `--ip6` flags can also be set by the environment
  variables `KSYNTH_IP4` and `KSYNTH_IP6` (empty or `true`).

- `ksynth trace` traces IPv4 routes with UDP probes only; there is no ICMP
  or TCP tracing.
- The agent keeps the set of tasks up to date but starts none of them: the
  task runners are not part of this code base.
- With Kentik output the records are turned into flows and only their number
  is logged: the packed Cap'n Proto encoding that sending needs is built
  from a schema that is not part of this code base.
