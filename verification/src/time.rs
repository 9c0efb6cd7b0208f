use vstd::prelude::*;

verus! {

/// Nanoseconds in one second.
pub const NANOS_PER_SEC: u32 = 1_000_000_000;

/// A span of time, kept as whole seconds and a sub-second nanosecond part,
/// with the same range and conversions as `std::time::Duration`.
#[derive(Clone, Copy, Debug, PartialEq, Eq, Structural)]
pub struct Duration {
    pub secs: u64,
    pub nanos: u32,
}

impl Duration {
    /// Well-formedness: the nanosecond part is below one second.
    pub open spec fn wf(self) -> bool {
        self.nanos < NANOS_PER_SEC
    }

    /// The length of the span in nanoseconds.
    pub open spec fn total_nanos(self) -> nat {
        (self.secs * 1_000_000_000 + self.nanos) as nat
    }

    /// The zero-length span.
    pub fn zero() -> (d: Duration)
        ensures
            d.wf(),
            d.total_nanos() == 0,
    {
        Duration { secs: 0, nanos: 0 }
    }

    /// A span of `secs` whole seconds.
    pub fn from_secs(secs: u64) -> (d: Duration)
        ensures
            d.wf(),
            d.secs == secs,
            d.nanos == 0,
            d.total_nanos() == secs * 1_000_000_000,
    {
        Duration { secs, nanos: 0 }
    }

    /// A span of `ms` milliseconds.
    pub fn from_millis(ms: u64) -> (d: Duration)
        ensures
            d.wf(),
            d.secs == ms / 1000,
            d.nanos == (ms % 1000) * 1_000_000,
            d.total_nanos() == ms * 1_000_000,
    {
        let nanos: u32 = ((ms % 1000) as u32) * 1_000_000;
        Duration { secs: ms / 1000, nanos }
    }

    /// A span of `us` microseconds.
    pub fn from_micros(us: u64) -> (d: Duration)
        ensures
            d.wf(),
            d.secs == us / 1_000_000,
            d.nanos == (us % 1_000_000) * 1000,
            d.total_nanos() == us * 1000,
    {
        let nanos: u32 = ((us % 1_000_000) as u32) * 1000;
        Duration { secs: us / 1_000_000, nanos }
    }

    /// A span of `ns` nanoseconds.
    pub fn from_nanos(ns: u64) -> (d: Duration)
        ensures
            d.wf(),
            d.secs == ns / 1_000_000_000,
            d.nanos == ns % 1_000_000_000,
            d.total_nanos() == ns,
    {
        let nanos: u32 = (ns % 1_000_000_000) as u32;
        Duration { secs: ns / 1_000_000_000, nanos }
    }

    /// Whole seconds in the span.
    pub fn as_secs(&self) -> (r: u64)
        ensures
            r == self.secs,
    {
        self.secs
    }

    /// Whole milliseconds in the span.
    pub fn as_millis(&self) -> (r: u128)
        ensures
            r == self.total_nanos() / 1_000_000,
    {
        let r: u128 = (self.secs as u128) * 1000 + ((self.nanos / 1_000_000) as u128);
        proof {
            let s = self.secs as int;
            let n = self.nanos as int;
            assert((s * 1_000_000_000 + n) / 1_000_000 == s * 1000 + n / 1_000_000) by (nonlinear_arith);
        }
        r
    }

    /// Whole microseconds in the span.
    pub fn as_micros(&self) -> (r: u128)
        ensures
            r == self.total_nanos() / 1000,
    {
        let r: u128 = (self.secs as u128) * 1_000_000 + ((self.nanos / 1000) as u128);
        proof {
            let s = self.secs as int;
            let n = self.nanos as int;
            assert((s * 1_000_000_000 + n) / 1000 == s * 1_000_000 + n / 1000) by (nonlinear_arith);
        }
        r
    }

    /// Nanoseconds in the span.
    pub fn as_nanos(&self) -> (r: u128)
        ensures
            r == self.total_nanos(),
    {
        let r: u128 = (self.secs as u128) * 1_000_000_000 + (self.nanos as u128);
        r
    }
}

/// A reading of a monotonic clock, in nanoseconds since an arbitrary origin.
#[derive(Clone, Copy, Debug, PartialEq, Eq, Structural)]
pub struct Instant {
    pub nanos: u64,
}

impl Instant {
    /// The time elapsed from `earlier` to `self`, or zero when `earlier` is
    /// later than `self`.
    pub fn saturating_duration_since(&self, earlier: Instant) -> (d: Duration)
        ensures
            d.wf(),
            self.nanos >= earlier.nanos ==> d.total_nanos() == self.nanos - earlier.nanos,
            self.nanos < earlier.nanos ==> d.total_nanos() == 0,
    {
        if self.nanos >= earlier.nanos {
            Duration::from_nanos(self.nanos - earlier.nanos)
        } else {
            Duration::zero()
        }
    }
}

} // verus!
