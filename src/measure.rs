//! Byte-rate measurement: an average since the start, and a rate published
//! once per fixed interval.
use crate::rate::ByteRate;
use crate::statistics::saturating_sum;
use crate::time::{aligned_end, next_window_end, Duration, Instant};
use vstd::prelude::*;

verus! {

/// The bytes counted and the nanoseconds from the start to `now` (zero when
/// `now` is earlier), for a measurer in the state `measuring`.
pub open spec fn elapsed_rate(measuring: Option<(nat, usize)>, now: nat) -> Option<(usize, nat)> {
    match measuring {
        Some((t, n)) => Some(
            (
                n,
                if now >= t {
                    (now - t) as nat
                } else {
                    0
                },
            ),
        ),
        None => None,
    }
}

/// Where the interval that `restart` opens lies, as (anchor, deadline): with a
/// zero interval it ends at `now`; otherwise at the aligned end after `now`;
/// nothing moves when that end is past the clock's last instant.
pub open spec fn restart_window(anchor: nat, interval: nat, now: nat, deadline: Option<nat>) -> (
    nat,
    Option<nat>,
) {
    if interval == 0 {
        (now, Some(now))
    } else {
        let e = aligned_end(anchor, interval, now);
        if e <= u64::MAX {
            (e, Some(e))
        } else {
            (anchor, deadline)
        }
    }
}

/// Measures the average byte rate from the moment it starts; the first bytes
/// start it.
#[derive(Clone, Copy, Debug)]
pub struct AverageByteRateMeasurer {
    start: Option<(Instant, usize)>,
}

impl AverageByteRateMeasurer {
    /// The start instant and the bytes counted since, while measuring.
    pub closed spec fn measuring(&self) -> Option<(nat, usize)> {
        match self.start {
            Some((t, n)) => Some((t.nanos_spec(), n)),
            None => None,
        }
    }

    /// A measurer started at `now` with no bytes counted.
    pub closed spec fn started_at(now: Instant) -> AverageByteRateMeasurer {
        AverageByteRateMeasurer { start: Some((now, 0usize)) }
    }

    /// The measurer after `amount` bytes at `now`.
    pub closed spec fn after_byte(self, amount: usize, now: Instant) -> AverageByteRateMeasurer {
        match self.start {
            Some((t, n)) => AverageByteRateMeasurer { start: Some((t, saturating_sum(n, amount))) },
            None => AverageByteRateMeasurer { start: Some((now, amount)) },
        }
    }

    pub proof fn lemma_after_byte(self, amount: usize, now: Instant)
        ensures
            self.after_byte(amount, now).measuring() == match self.measuring() {
                Some((t, n)) => Some((t, saturating_sum(n, amount))),
                None => Some((now.nanos_spec(), amount)),
            },
            Self::started_at(now).measuring() == Some((now.nanos_spec(), 0usize)),
    {
    }

    /// A measurer that has not started.
    pub fn new() -> (r: AverageByteRateMeasurer)
        ensures
            r.measuring() is None,
    {
        AverageByteRateMeasurer { start: None }
    }

    /// Starts, or starts again, at `now` with no bytes counted.
    pub fn start(&mut self, now: Instant)
        ensures
            *final(self) == Self::started_at(now),
            final(self).measuring() == Some((now.nanos_spec(), 0usize)),
    {
        self.start = Some((now, 0));
    }

    /// Whether the measurer has started.
    pub fn is_started(&self) -> (r: bool)
        ensures
            r == self.measuring() is Some,
    {
        self.start.is_some()
    }

    /// Counts `amount` bytes at `now`, starting the measurer if needed; the
    /// count saturates at `usize::MAX`.
    pub fn on_byte(&mut self, amount: usize, now: Instant)
        ensures
            *final(self) == old(self).after_byte(amount, now),
            final(self).measuring() == match old(self).measuring() {
                Some((t, n)) => Some((t, saturating_sum(n, amount))),
                None => Some((now.nanos_spec(), amount)),
            },
    {
        match self.start {
            Some((t, n)) => {
                self.start = Some((t, n.saturating_add(amount)));
            },
            None => {
                self.start = Some((now, amount));
            },
        }
    }

    /// The bytes counted over the time from the start to `now`, while measuring.
    pub fn byte_rate(&self, now: Instant) -> (r: Option<ByteRate>)
        ensures
            match r {
                Some(rate) => rate.wf() && elapsed_rate(self.measuring(), now.nanos_spec()) == Some(
                    rate.parts(),
                ),
                None => elapsed_rate(self.measuring(), now.nanos_spec()) is None,
            },
    {
        match self.start {
            Some((t, n)) => Some(ByteRate::new(n, now.duration_since(t))),
            None => None,
        }
    }
}

/// Counts bytes over fixed intervals and publishes the count of each interval
/// when the next one begins.
#[derive(Clone, Copy, Debug)]
pub struct IntervalByteRateMeasurer {
    current_rate: ByteRate,
    output_rate: ByteRate,
    deadline: Option<Instant>,
    anchor: Instant,
}

impl IntervalByteRateMeasurer {
    /// The rate being counted in the current interval.
    pub closed spec fn current_spec(&self) -> ByteRate {
        self.current_rate
    }

    /// The rate published for the last complete interval.
    pub closed spec fn output_spec(&self) -> ByteRate {
        self.output_rate
    }

    /// When the current interval ends; `None` when no interval is running.
    pub closed spec fn deadline_spec(&self) -> Option<nat> {
        match self.deadline {
            Some(d) => Some(d.nanos_spec()),
            None => None,
        }
    }

    /// The instant from which intervals are counted.
    pub closed spec fn anchor_spec(&self) -> nat {
        self.anchor.nanos_spec()
    }

    pub open spec fn wf(&self) -> bool {
        &&& self.current_spec().wf()
        &&& self.output_spec().interval_spec() == self.current_spec().interval_spec()
    }

    /// Whether the current interval is over at `now`.
    pub open spec fn expired(&self, now: nat) -> bool {
        match self.deadline_spec() {
            Some(d) => now >= d,
            None => true,
        }
    }

    /// The measurer after `restart` at `now`.
    pub closed spec fn after_restart(self, now: Instant) -> IntervalByteRateMeasurer {
        let interval = self.current_rate.interval_spec().nanos_spec();
        if interval == 0 {
            IntervalByteRateMeasurer { anchor: now, deadline: Some(now), ..self }
        } else {
            let e = aligned_end(self.anchor.nanos_spec(), interval, now.nanos_spec());
            if e <= u64::MAX {
                let i = Instant { nanos: e as u64 };
                IntervalByteRateMeasurer { anchor: i, deadline: Some(i), ..self }
            } else {
                self
            }
        }
    }

    /// The measurer after `amount` bytes at `now`.
    pub closed spec fn after_byte(self, amount: usize, now: Instant) -> IntervalByteRateMeasurer {
        if self.expired(now.nanos_spec()) {
            let m = IntervalByteRateMeasurer {
                output_rate: self.current_rate,
                current_rate: self.current_rate.with_bytes(0),
                ..self
            }.after_restart(now);
            IntervalByteRateMeasurer {
                current_rate: m.current_rate.with_bytes(saturating_sum(0, amount)),
                ..m
            }
        } else {
            IntervalByteRateMeasurer {
                current_rate: self.current_rate.with_bytes(
                    saturating_sum(self.current_rate.bytes_spec(), amount),
                ),
                ..self
            }
        }
    }

    /// The measurer after `reset` at `now`.
    pub closed spec fn after_reset(self, now: Instant) -> IntervalByteRateMeasurer {
        let c = self.current_rate.with_bytes(0);
        IntervalByteRateMeasurer { current_rate: c, output_rate: c, anchor: now, ..self }
    }

    /// A measurer of intervals of `interval`, whose first interval starts at `now`.
    pub fn new(interval: Duration, now: Instant) -> (r: IntervalByteRateMeasurer)
        requires
            interval.wf(),
        ensures
            r.wf(),
            r.current_spec().bytes_spec() == 0,
            r.output_spec().bytes_spec() == 0,
            r.current_spec().interval_spec() == interval,
            r.anchor_spec() == now.nanos_spec(),
            r.deadline_spec() == if now.nanos_spec() + interval.nanos_spec() <= u64::MAX {
                Some(now.nanos_spec() + interval.nanos_spec())
            } else {
                None::<nat>
            },
    {
        let rate = ByteRate::new(0, interval);
        IntervalByteRateMeasurer {
            current_rate: rate,
            output_rate: rate,
            deadline: now.checked_add(interval),
            anchor: now,
        }
    }

    /// Zeros both counts and counts intervals from `now`.
    pub fn reset(&mut self, now: Instant)
        ensures
            *final(self) == old(self).after_reset(now),
            old(self).wf() ==> final(self).wf(),
            final(self).current_spec().bytes_spec() == 0,
            final(self).output_spec().bytes_spec() == 0,
            final(self).current_spec().interval_spec() == old(self).current_spec().interval_spec(),
            final(self).anchor_spec() == now.nanos_spec(),
            final(self).deadline_spec() == old(self).deadline_spec(),
    {
        self.current_rate.set_bytes(0);
        self.output_rate = self.current_rate;
        self.anchor = now;
    }

    /// Counts `amount` bytes at `now`. When the current interval is over, its
    /// count is published first and a new interval is aligned to `now`. The
    /// count saturates at `usize::MAX`.
    pub fn on_byte(&mut self, amount: usize, now: Instant)
        ensures
            *final(self) == old(self).after_byte(amount, now),
            old(self).wf() ==> final(self).wf(),
            final(self).current_spec().interval_spec() == old(self).current_spec().interval_spec(),
            if old(self).expired(now.nanos_spec()) {
                &&& final(self).output_spec() == old(self).current_spec()
                &&& final(self).current_spec().bytes_spec() == amount
                &&& (final(self).anchor_spec(), final(self).deadline_spec()) == restart_window(
                    old(self).anchor_spec(),
                    old(self).current_spec().interval_spec().nanos_spec(),
                    now.nanos_spec(),
                    old(self).deadline_spec(),
                )
            } else {
                &&& final(self).output_spec() == old(self).output_spec()
                &&& final(self).anchor_spec() == old(self).anchor_spec()
                &&& final(self).deadline_spec() == old(self).deadline_spec()
                &&& final(self).current_spec().bytes_spec() == saturating_sum(
                    old(self).current_spec().bytes_spec(),
                    amount,
                )
            },
    {
        let expired = match self.deadline {
            Some(d) => !now.is_before(&d),
            None => true,
        };
        if expired {
            self.output_rate = self.current_rate;
            self.current_rate.set_bytes(0);
            let _ = self.restart(now);
        }
        let current = self.current_rate.bytes();
        self.current_rate.set_bytes(current.saturating_add(amount));
    }

    /// The count published for the last complete interval.
    pub fn byte_rate(&self) -> (r: &ByteRate)
        ensures
            *r == self.output_spec(),
    {
        &self.output_rate
    }

    /// Starts a new interval that ends a whole number of intervals after the
    /// anchor, strictly after `now`; with a zero interval it ends at `now`.
    pub fn restart(&mut self, now: Instant) -> (r: Result<(), crate::limiter::TimerError>)
        ensures
            *final(self) == old(self).after_restart(now),
            old(self).wf() ==> final(self).wf(),
            final(self).current_spec() == old(self).current_spec(),
            final(self).output_spec() == old(self).output_spec(),
            (final(self).anchor_spec(), final(self).deadline_spec()) == restart_window(
                old(self).anchor_spec(),
                old(self).current_spec().interval_spec().nanos_spec(),
                now.nanos_spec(),
                old(self).deadline_spec(),
            ),
            ({
                let interval = old(self).current_spec().interval_spec().nanos_spec();
                let e = aligned_end(old(self).anchor_spec(), interval, now.nanos_spec());
                if interval == 0 {
                    r is Ok && final(self).anchor_spec() == now.nanos_spec()
                        && final(self).deadline_spec() == Some(now.nanos_spec())
                } else if e <= u64::MAX {
                    r is Ok && final(self).anchor_spec() == e && final(self).deadline_spec()
                        == Some(e)
                } else {
                    r == Err::<(), crate::limiter::TimerError>(
                        crate::limiter::TimerError::Overflow,
                    ) && final(self).anchor_spec() == old(self).anchor_spec()
                        && final(self).deadline_spec() == old(self).deadline_spec()
                }
            }),
    {
        let interval = *self.current_rate.interval();
        if interval.is_zero() {
            self.anchor = now;
            self.deadline = Some(now);
            return Ok(());
        }
        match next_window_end(self.anchor, interval, now) {
            Some(e) => {
                self.anchor = e;
                self.deadline = Some(e);
                Ok(())
            },
            None => Err(crate::limiter::TimerError::Overflow),
        }
    }
}

} // verus!
