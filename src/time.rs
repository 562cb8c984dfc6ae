//! Spans of time and instants of a monotonic clock, as plain nanosecond counts.
use vstd::prelude::*;

verus! {

/// The nanoseconds in a second.
pub const NANOS_PER_SEC: u128 = 1_000_000_000;

/// The largest span a `Duration` holds: `u64::MAX` seconds and 999,999,999 nanoseconds.
pub const MAX_DURATION_NANOS: u128 = 18_446_744_073_709_551_615_999_999_999;

/// A span of time with nanosecond resolution.
#[derive(Clone, Copy, Debug, PartialEq, Eq)]
pub struct Duration {
    nanos: u128,
}

impl Duration {
    /// The span in nanoseconds.
    pub closed spec fn nanos_spec(&self) -> nat {
        self.nanos as nat
    }

    pub open spec fn wf(&self) -> bool {
        self.nanos_spec() <= MAX_DURATION_NANOS
    }

    /// The empty span.
    pub fn zero() -> (r: Duration)
        ensures
            r.wf(),
            r.nanos_spec() == 0,
    {
        Duration { nanos: 0 }
    }

    /// `secs` seconds.
    pub fn from_secs(secs: u64) -> (r: Duration)
        ensures
            r.wf(),
            r.nanos_spec() == secs * 1_000_000_000,
    {
        Duration { nanos: secs as u128 * 1_000_000_000 }
    }

    /// `millis` milliseconds.
    pub fn from_millis(millis: u64) -> (r: Duration)
        ensures
            r.wf(),
            r.nanos_spec() == millis * 1_000_000,
    {
        Duration { nanos: millis as u128 * 1_000_000 }
    }

    /// `micros` microseconds.
    pub fn from_micros(micros: u64) -> (r: Duration)
        ensures
            r.wf(),
            r.nanos_spec() == micros * 1_000,
    {
        Duration { nanos: micros as u128 * 1_000 }
    }

    /// `nanos` nanoseconds.
    pub fn from_nanos(nanos: u64) -> (r: Duration)
        ensures
            r.wf(),
            r.nanos_spec() == nanos,
    {
        Duration { nanos: nanos as u128 }
    }

    /// Whether the span is empty.
    pub fn is_zero(&self) -> (r: bool)
        ensures
            r == (self.nanos_spec() == 0),
    {
        self.nanos == 0
    }

    /// The whole seconds of the span.
    pub fn as_secs(&self) -> (r: u64)
        requires
            self.wf(),
        ensures
            r == self.nanos_spec() / 1_000_000_000,
    {
        (self.nanos / NANOS_PER_SEC) as u64
    }

    /// The whole milliseconds of the span.
    pub fn as_millis(&self) -> (r: u128)
        ensures
            r == self.nanos_spec() / 1_000_000,
    {
        self.nanos / 1_000_000
    }

    /// The whole microseconds of the span.
    pub fn as_micros(&self) -> (r: u128)
        ensures
            r == self.nanos_spec() / 1_000,
    {
        self.nanos / 1_000
    }

    /// The span in nanoseconds.
    pub fn as_nanos(&self) -> (r: u128)
        ensures
            r == self.nanos_spec(),
    {
        self.nanos
    }

    /// The nanoseconds beyond the whole seconds.
    pub fn subsec_nanos(&self) -> (r: u32)
        ensures
            r == self.nanos_spec() % 1_000_000_000,
    {
        (self.nanos % NANOS_PER_SEC) as u32
    }

    /// The sum of two spans, or `None` when it is too long for a `Duration`.
    pub fn checked_add(&self, other: Duration) -> (r: Option<Duration>)
        requires
            self.wf(),
            other.wf(),
        ensures
            r is Some <==> self.nanos_spec() + other.nanos_spec() <= MAX_DURATION_NANOS,
            r matches Some(d) ==> d.wf() && d.nanos_spec() == self.nanos_spec()
                + other.nanos_spec(),
    {
        if self.nanos <= MAX_DURATION_NANOS - other.nanos {
            Some(Duration { nanos: self.nanos + other.nanos })
        } else {
            None
        }
    }
}

/// A point in time of a monotonic clock: nanoseconds since the clock's origin.
#[derive(Clone, Copy, Debug, PartialEq, Eq)]
pub struct Instant {
    /// Nanoseconds since the clock's origin.
    pub nanos: u64,
}

impl Instant {
    /// Nanoseconds since the clock's origin.
    pub open spec fn nanos_spec(&self) -> nat {
        self.nanos as nat
    }

    /// The instant `nanos` nanoseconds after the clock's origin.
    pub fn from_nanos(nanos: u64) -> (r: Instant)
        ensures
            r.nanos_spec() == nanos,
    {
        Instant { nanos }
    }

    /// Nanoseconds since the clock's origin.
    pub fn as_nanos(&self) -> (r: u64)
        ensures
            r == self.nanos_spec(),
    {
        self.nanos
    }

    /// Whether this instant comes strictly before `other`.
    pub fn is_before(&self, other: &Instant) -> (r: bool)
        ensures
            r == (self.nanos_spec() < other.nanos_spec()),
    {
        self.nanos < other.nanos
    }

    /// The instant `d` later, or `None` when the clock cannot represent it.
    pub fn checked_add(&self, d: Duration) -> (r: Option<Instant>)
        ensures
            r is Some <==> self.nanos_spec() + d.nanos_spec() <= u64::MAX,
            r matches Some(i) ==> i.nanos_spec() == self.nanos_spec() + d.nanos_spec(),
    {
        let total = d.as_nanos();
        if total <= (u64::MAX - self.nanos) as u128 {
            Some(Instant { nanos: self.nanos + total as u64 })
        } else {
            None
        }
    }

    /// The time from `earlier` to this instant, or zero when `earlier` is later.
    pub fn duration_since(&self, earlier: Instant) -> (r: Duration)
        ensures
            r.wf(),
            r.nanos_spec() == if self.nanos_spec() >= earlier.nanos_spec() {
                self.nanos_spec() - earlier.nanos_spec()
            } else {
                0
            },
    {
        if self.nanos >= earlier.nanos {
            Duration::from_nanos(self.nanos - earlier.nanos)
        } else {
            Duration::zero()
        }
    }
}

/// The first end of window at or after `end`, a whole number of intervals
/// later, that lies strictly after `now`.
pub open spec fn aligned_end(end: nat, interval: nat, now: nat) -> nat
    recommends
        interval > 0,
{
    if end > now {
        end
    } else {
        end + ((now - end) as nat / interval + 1) * interval
    }
}

/// Advances the end of a window `end` by whole `interval`s until it lies
/// after `now`; `None` when the result is past the clock's last instant.
pub fn next_window_end(end: Instant, interval: Duration, now: Instant) -> (r: Option<Instant>)
    requires
        interval.nanos_spec() > 0,
    ensures
        r is Some <==> aligned_end(end.nanos_spec(), interval.nanos_spec(), now.nanos_spec())
            <= u64::MAX,
        r matches Some(i) ==> i.nanos_spec() == aligned_end(
            end.nanos_spec(),
            interval.nanos_spec(),
            now.nanos_spec(),
        ),
{
    let interval = interval.as_nanos();
    let end = end.as_nanos();
    let now = now.as_nanos();
    if end > now {
        return Some(Instant::from_nanos(end));
    }
    if interval > u64::MAX as u128 {
        proof {
            let q = ((now - end) as nat / interval as nat + 1) as nat;
            assert(q * interval >= interval) by (nonlinear_arith)
                requires
                    q >= 1,
            ;
        }
        return None;
    }
    let steps: u128 = ((now - end) as u128) / interval + 1;
    proof {
        assert(steps * interval <= (u64::MAX as nat + 1) * u64::MAX) by (nonlinear_arith)
            requires
                steps <= u64::MAX as nat + 1,
                interval <= u64::MAX,
        ;
    }
    let advance: u128 = steps * interval;
    if advance > (u64::MAX - end) as u128 {
        return None;
    }
    Some(Instant::from_nanos(end + advance as u64))
}

} // verus!
