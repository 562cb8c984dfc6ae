//! A byte rate: an amount of bytes over an interval of time.
use crate::time::Duration;
use vstd::prelude::*;

verus! {

/// Bytes per second from `bytes` over `units` units of time, with `scale` units
/// in a second: `None` when there are no whole units, when the units do not fit
/// in `usize`, or when `bytes * scale` overflows.
pub open spec fn per_second(bytes: usize, units: nat, scale: nat) -> Option<usize> {
    if units == 0 || units > usize::MAX || bytes as nat * scale > usize::MAX {
        None
    } else {
        Some(((bytes as nat * scale) / units) as usize)
    }
}

/// Bytes per second counted in whole seconds.
pub open spec fn per_second_sec(bytes: usize, nanos: nat) -> Option<usize> {
    per_second(bytes, nanos / 1_000_000_000, 1)
}

/// Bytes per second counted in whole milliseconds.
pub open spec fn per_second_ms(bytes: usize, nanos: nat) -> Option<usize> {
    per_second(bytes, nanos / 1_000_000, 1_000)
}

/// Bytes per second counted in whole microseconds.
pub open spec fn per_second_us(bytes: usize, nanos: nat) -> Option<usize> {
    per_second(bytes, nanos / 1_000, 1_000_000)
}

/// Bytes per second counted in nanoseconds.
pub open spec fn per_second_ns(bytes: usize, nanos: nat) -> Option<usize> {
    per_second(bytes, nanos, 1_000_000_000)
}

/// Bytes per second at the finest precision that neither overflows nor has no
/// whole unit: nanoseconds, then microseconds, milliseconds and seconds.
pub open spec fn per_second_auto(bytes: usize, nanos: nat) -> Option<usize> {
    if nanos == 0 {
        None
    } else if per_second_ns(bytes, nanos) is Some {
        per_second_ns(bytes, nanos)
    } else if per_second_us(bytes, nanos) is Some {
        per_second_us(bytes, nanos)
    } else if per_second_ms(bytes, nanos) is Some {
        per_second_ms(bytes, nanos)
    } else {
        per_second_sec(bytes, nanos)
    }
}

/// `bytes * scale / units`, with the checks of `per_second`.
fn per_second_exec(bytes: usize, units: u128, scale: usize) -> (r: Option<usize>)
    requires
        scale > 0,
    ensures
        r == per_second(bytes, units as nat, scale as nat),
{
    if units == 0 || units > usize::MAX as u128 {
        return None;
    }
    let units = units as usize;
    match bytes.checked_mul(scale) {
        Some(scaled) => Some(scaled / units),
        None => None,
    }
}

/// An amount of bytes passed over an interval.
#[derive(Clone, Copy, Debug)]
pub struct ByteRate {
    bytes: usize,
    interval: Duration,
}

impl ByteRate {
    pub closed spec fn bytes_spec(&self) -> usize {
        self.bytes
    }

    pub closed spec fn interval_spec(&self) -> Duration {
        self.interval
    }

    pub open spec fn wf(&self) -> bool {
        self.interval_spec().wf()
    }

    /// The same rate with `bytes` bytes.
    pub closed spec fn with_bytes(self, bytes: usize) -> ByteRate {
        ByteRate { bytes, ..self }
    }

    pub proof fn lemma_with_bytes(self, bytes: usize)
        ensures
            self.with_bytes(bytes).bytes_spec() == bytes,
            self.with_bytes(bytes).interval_spec() == self.interval_spec(),
    {
    }

    /// The amount of bytes and the interval in nanoseconds.
    pub open spec fn parts(&self) -> (usize, nat) {
        (self.bytes_spec(), self.interval_spec().nanos_spec())
    }

    /// `bytes` bytes over `interval`.
    pub fn new(bytes: usize, interval: Duration) -> (r: ByteRate)
        ensures
            r.bytes_spec() == bytes,
            r.interval_spec() == interval,
    {
        ByteRate { bytes, interval }
    }

    /// The amount of bytes.
    pub fn bytes(&self) -> (r: usize)
        ensures
            r == self.bytes_spec(),
    {
        self.bytes
    }

    /// Sets the amount of bytes.
    pub fn set_bytes(&mut self, bytes: usize)
        ensures
            *final(self) == old(self).with_bytes(bytes),
            final(self).bytes_spec() == bytes,
            final(self).interval_spec() == old(self).interval_spec(),
    {
        self.bytes = bytes;
    }

    /// Adds one byte.
    pub fn incr_bytes(&mut self)
        requires
            old(self).bytes_spec() < usize::MAX,
        ensures
            final(self).bytes_spec() == old(self).bytes_spec() + 1,
            final(self).interval_spec() == old(self).interval_spec(),
    {
        self.bytes = self.bytes + 1;
    }

    /// The interval.
    pub fn interval(&self) -> (r: &Duration)
        ensures
            *r == self.interval_spec(),
    {
        &self.interval
    }

    /// Sets the interval.
    pub fn set_interval(&mut self, interval: Duration)
        ensures
            final(self).interval_spec() == interval,
            final(self).bytes_spec() == old(self).bytes_spec(),
    {
        self.interval = interval;
    }

    /// Bytes per second, rounded down, at the finest precision that does not
    /// overflow; `None` when the interval is zero.
    pub fn bytes_per_second(&self) -> (r: Option<usize>)
        ensures
            r == per_second_auto(self.bytes_spec(), self.interval_spec().nanos_spec()),
    {
        if self.interval.is_zero() {
            return None;
        }
        let ns = self.bytes_per_second_ns_accuracy();
        if ns.is_some() {
            return ns;
        }
        let us = self.bytes_per_second_us_accuracy();
        if us.is_some() {
            return us;
        }
        let ms = self.bytes_per_second_ms_accuracy();
        if ms.is_some() {
            return ms;
        }
        self.bytes_per_second_sec_accuracy()
    }

    /// Bytes per second over the whole seconds of the interval, rounded down;
    /// `None` below one second.
    pub fn bytes_per_second_sec_accuracy(&self) -> (r: Option<usize>)
        ensures
            r == per_second_sec(self.bytes_spec(), self.interval_spec().nanos_spec()),
    {
        per_second_exec(self.bytes, self.interval.as_nanos() / 1_000_000_000, 1)
    }

    /// Bytes per second over the whole milliseconds of the interval, rounded
    /// down; `None` below one millisecond or on overflow.
    pub fn bytes_per_second_ms_accuracy(&self) -> (r: Option<usize>)
        ensures
            r == per_second_ms(self.bytes_spec(), self.interval_spec().nanos_spec()),
    {
        per_second_exec(self.bytes, self.interval.as_millis(), 1_000)
    }

    /// Bytes per second over the whole microseconds of the interval, rounded
    /// down; `None` below one microsecond or on overflow.
    pub fn bytes_per_second_us_accuracy(&self) -> (r: Option<usize>)
        ensures
            r == per_second_us(self.bytes_spec(), self.interval_spec().nanos_spec()),
    {
        per_second_exec(self.bytes, self.interval.as_micros(), 1_000_000)
    }

    /// Bytes per second over the nanoseconds of the interval, rounded down;
    /// `None` for a zero interval or on overflow.
    pub fn bytes_per_second_ns_accuracy(&self) -> (r: Option<usize>)
        ensures
            r == per_second_ns(self.bytes_spec(), self.interval_spec().nanos_spec()),
    {
        per_second_exec(self.bytes, self.interval.as_nanos(), 1_000_000_000)
    }
}

impl Default for ByteRate {
    /// No bytes over one second.
    fn default() -> (r: ByteRate)
        ensures
            r.bytes_spec() == 0,
            r.interval_spec().nanos_spec() == 1_000_000_000,
    {
        ByteRate { bytes: 0, interval: Duration::from_secs(1) }
    }
}

} // verus!
