//! Statistics of a transmit or receive path: how much succeeded and how much failed.
use crate::measure::{elapsed_rate, AverageByteRateMeasurer, IntervalByteRateMeasurer};
use crate::rate::ByteRate;
use crate::time::{Duration, Instant};
use vstd::prelude::*;

verus! {

/// A sink for success and failure counts. Each call carries the current
/// instant, for statistics that measure rates.
pub trait Statistics: Sized {
    /// The statistics after `count` successful items at `now`.
    spec fn with_successful(self, count: usize, now: Instant) -> Self;

    /// The statistics after `count` failed items at `now`.
    spec fn with_failed(self, count: usize, now: Instant) -> Self;

    /// The statistics after a reset at `now`.
    spec fn reset_at(self, now: Instant) -> Self;

    /// Adds `count` successful items at `now`.
    fn add_successful(&mut self, count: usize, now: Instant)
        ensures
            *final(self) == old(self).with_successful(count, now),
    ;

    /// Adds `count` failed items at `now`.
    fn add_failed(&mut self, count: usize, now: Instant)
        ensures
            *final(self) == old(self).with_failed(count, now),
    ;

    /// Forgets everything recorded so far.
    fn reset(&mut self, now: Instant)
        ensures
            *final(self) == old(self).reset_at(now),
    ;
}

/// Statistics that record nothing, for paths whose statistics are not wanted.
#[derive(Debug, Default, Clone, Copy)]
pub struct DummyStatistics;

impl Statistics for DummyStatistics {
    open spec fn with_successful(self, count: usize, now: Instant) -> Self {
        self
    }

    open spec fn with_failed(self, count: usize, now: Instant) -> Self {
        self
    }

    open spec fn reset_at(self, now: Instant) -> Self {
        self
    }

    fn add_successful(&mut self, count: usize, now: Instant) {
    }

    fn add_failed(&mut self, count: usize, now: Instant) {
    }

    fn reset(&mut self, now: Instant) {
    }
}

/// `a + b`, or `usize::MAX` when the sum does not fit.
pub open spec fn saturating_sum(a: usize, b: usize) -> usize {
    if a + b > usize::MAX {
        usize::MAX
    } else {
        (a + b) as usize
    }
}

/// `x`, or `usize::MAX` when it does not fit.
pub open spec fn clamp(x: int) -> usize {
    if x > usize::MAX {
        usize::MAX
    } else {
        x as usize
    }
}

/// Adding to a clamped total clamps the sum.
pub proof fn lemma_saturating_clamp(x: nat, c: usize)
    ensures
        saturating_sum(clamp(x as int), c) == clamp(x + c),
{
}

/// Counts of successful and failed items; both saturate at `usize::MAX`.
#[derive(Debug, Clone, Copy)]
pub struct CountingStatistics {
    successful: usize,
    failed: usize,
}

impl CountingStatistics {
    pub closed spec fn successful_spec(&self) -> usize {
        self.successful
    }

    pub closed spec fn failed_spec(&self) -> usize {
        self.failed
    }

    /// Statistics with nothing recorded.
    pub fn new() -> (r: CountingStatistics)
        ensures
            r.successful_spec() == 0,
            r.failed_spec() == 0,
    {
        CountingStatistics { successful: 0, failed: 0 }
    }

    /// The number of items recorded, successful and failed together.
    pub fn total(&self) -> (r: usize)
        ensures
            r == saturating_sum(self.successful_spec(), self.failed_spec()),
    {
        self.successful.saturating_add(self.failed)
    }

    /// The number of successful items.
    pub fn successful(&self) -> (r: usize)
        ensures
            r == self.successful_spec(),
    {
        self.successful
    }

    /// The number of failed items.
    pub fn failed(&self) -> (r: usize)
        ensures
            r == self.failed_spec(),
    {
        self.failed
    }
}

/// What the spec functions of `Statistics` do to counting statistics.
pub proof fn lemma_counting_statistics(s: CountingStatistics, count: usize, now: Instant)
    ensures
        s.with_successful(count, now).successful_spec() == saturating_sum(
            s.successful_spec(),
            count,
        ),
        s.with_successful(count, now).failed_spec() == s.failed_spec(),
        s.with_failed(count, now).failed_spec() == saturating_sum(s.failed_spec(), count),
        s.with_failed(count, now).successful_spec() == s.successful_spec(),
        s.reset_at(now).successful_spec() == 0,
        s.reset_at(now).failed_spec() == 0,
{
}

impl Default for CountingStatistics {
    fn default() -> (r: CountingStatistics)
        ensures
            r.successful_spec() == 0,
            r.failed_spec() == 0,
    {
        CountingStatistics::new()
    }
}

impl Statistics for CountingStatistics {
    closed spec fn with_successful(self, count: usize, now: Instant) -> Self {
        CountingStatistics { successful: saturating_sum(self.successful, count), ..self }
    }

    closed spec fn with_failed(self, count: usize, now: Instant) -> Self {
        CountingStatistics { failed: saturating_sum(self.failed, count), ..self }
    }

    closed spec fn reset_at(self, now: Instant) -> Self {
        CountingStatistics { successful: 0, failed: 0 }
    }

    fn add_successful(&mut self, count: usize, now: Instant)
        ensures
            final(self).successful_spec() == saturating_sum(old(self).successful_spec(), count),
            final(self).failed_spec() == old(self).failed_spec(),
    {
        self.successful = self.successful.saturating_add(count);
    }

    fn add_failed(&mut self, count: usize, now: Instant)
        ensures
            final(self).failed_spec() == saturating_sum(old(self).failed_spec(), count),
            final(self).successful_spec() == old(self).successful_spec(),
    {
        self.failed = self.failed.saturating_add(count);
    }

    fn reset(&mut self, now: Instant)
        ensures
            final(self).successful_spec() == 0,
            final(self).failed_spec() == 0,
    {
        self.successful = 0;
        self.failed = 0;
    }
}

/// Average rates of successful and failed bytes since the first byte. Both
/// measurers start together, so the two rates share one start.
#[derive(Clone, Copy, Debug)]
pub struct AvgRateStatistics {
    successful_rate: AverageByteRateMeasurer,
    failed_rate: AverageByteRateMeasurer,
}

impl AvgRateStatistics {
    pub closed spec fn successful_spec(&self) -> AverageByteRateMeasurer {
        self.successful_rate
    }

    pub closed spec fn failed_spec(&self) -> AverageByteRateMeasurer {
        self.failed_rate
    }

    /// Statistics that have not started.
    pub fn new() -> (r: AvgRateStatistics)
        ensures
            r.successful_spec().measuring() is None,
            r.failed_spec().measuring() is None,
    {
        AvgRateStatistics {
            successful_rate: AverageByteRateMeasurer::new(),
            failed_rate: AverageByteRateMeasurer::new(),
        }
    }

    /// The rate of successful bytes up to `now`, once started.
    pub fn success_rate(&self, now: Instant) -> (r: Option<ByteRate>)
        ensures
            match r {
                Some(rate) => rate.wf() && elapsed_rate(self.successful_spec().measuring(), now.nanos_spec())
                    == Some(rate.parts()),
                None => elapsed_rate(self.successful_spec().measuring(), now.nanos_spec()) is None,
            },
    {
        self.successful_rate.byte_rate(now)
    }

    /// The rate of failed bytes up to `now`, once started.
    pub fn failed_rate(&self, now: Instant) -> (r: Option<ByteRate>)
        ensures
            match r {
                Some(rate) => rate.wf() && elapsed_rate(self.failed_spec().measuring(), now.nanos_spec())
                    == Some(rate.parts()),
                None => elapsed_rate(self.failed_spec().measuring(), now.nanos_spec()) is None,
            },
    {
        self.failed_rate.byte_rate(now)
    }
}

impl Statistics for AvgRateStatistics {
    closed spec fn with_successful(self, count: usize, now: Instant) -> Self {
        AvgRateStatistics {
            successful_rate: self.successful_rate.after_byte(count, now),
            failed_rate: if self.failed_rate.measuring() is Some {
                self.failed_rate
            } else {
                AverageByteRateMeasurer::started_at(now)
            },
        }
    }

    closed spec fn with_failed(self, count: usize, now: Instant) -> Self {
        AvgRateStatistics {
            failed_rate: self.failed_rate.after_byte(count, now),
            successful_rate: if self.successful_rate.measuring() is Some {
                self.successful_rate
            } else {
                AverageByteRateMeasurer::started_at(now)
            },
        }
    }

    closed spec fn reset_at(self, now: Instant) -> Self {
        AvgRateStatistics {
            successful_rate: AverageByteRateMeasurer::started_at(now),
            failed_rate: AverageByteRateMeasurer::started_at(now),
        }
    }

    fn add_successful(&mut self, count: usize, now: Instant)
        ensures
            final(self).successful_spec().measuring() == match old(
                self,
            ).successful_spec().measuring() {
                Some((t, n)) => Some((t, saturating_sum(n, count))),
                None => Some((now.nanos_spec(), count)),
            },
            final(self).failed_spec().measuring() == match old(self).failed_spec().measuring() {
                Some(m) => Some(m),
                None => Some((now.nanos_spec(), 0usize)),
            },
    {
        self.successful_rate.on_byte(count, now);
        if !self.failed_rate.is_started() {
            self.failed_rate.start(now);
        }
    }

    fn add_failed(&mut self, count: usize, now: Instant)
        ensures
            final(self).failed_spec().measuring() == match old(self).failed_spec().measuring() {
                Some((t, n)) => Some((t, saturating_sum(n, count))),
                None => Some((now.nanos_spec(), count)),
            },
            final(self).successful_spec().measuring() == match old(
                self,
            ).successful_spec().measuring() {
                Some(m) => Some(m),
                None => Some((now.nanos_spec(), 0usize)),
            },
    {
        self.failed_rate.on_byte(count, now);
        if !self.successful_rate.is_started() {
            self.successful_rate.start(now);
        }
    }

    fn reset(&mut self, now: Instant)
        ensures
            final(self).successful_spec().measuring() == Some((now.nanos_spec(), 0usize)),
            final(self).failed_spec().measuring() == Some((now.nanos_spec(), 0usize)),
    {
        self.successful_rate.start(now);
        self.failed_rate.start(now);
    }
}

/// Rates of successful and failed bytes, each published once per interval.
#[derive(Clone, Copy, Debug)]
pub struct IntervalRateStatistics {
    successful_rate: IntervalByteRateMeasurer,
    failed_rate: IntervalByteRateMeasurer,
}

impl IntervalRateStatistics {
    pub closed spec fn successful_spec(&self) -> IntervalByteRateMeasurer {
        self.successful_rate
    }

    pub closed spec fn failed_spec(&self) -> IntervalByteRateMeasurer {
        self.failed_rate
    }

    pub open spec fn wf(&self) -> bool {
        self.successful_spec().wf() && self.failed_spec().wf()
    }

    /// Statistics over intervals of `interval`, the first starting at `now`.
    pub fn new(interval: Duration, now: Instant) -> (r: IntervalRateStatistics)
        requires
            interval.wf(),
        ensures
            r.wf(),
            r.successful_spec().output_spec().bytes_spec() == 0,
            r.failed_spec().output_spec().bytes_spec() == 0,
            r.successful_spec().current_spec().interval_spec() == interval,
            r.failed_spec().current_spec().interval_spec() == interval,
    {
        IntervalRateStatistics {
            successful_rate: IntervalByteRateMeasurer::new(interval, now),
            failed_rate: IntervalByteRateMeasurer::new(interval, now),
        }
    }

    /// The successful bytes of the last complete interval.
    pub fn success_rate(&self) -> (r: &ByteRate)
        ensures
            *r == self.successful_spec().output_spec(),
    {
        self.successful_rate.byte_rate()
    }

    /// The failed bytes of the last complete interval.
    pub fn failed_rate(&self) -> (r: &ByteRate)
        ensures
            *r == self.failed_spec().output_spec(),
    {
        self.failed_rate.byte_rate()
    }
}

impl Statistics for IntervalRateStatistics {
    closed spec fn with_successful(self, count: usize, now: Instant) -> Self {
        IntervalRateStatistics {
            successful_rate: self.successful_rate.after_byte(count, now),
            ..self
        }
    }

    closed spec fn with_failed(self, count: usize, now: Instant) -> Self {
        IntervalRateStatistics { failed_rate: self.failed_rate.after_byte(count, now), ..self }
    }

    closed spec fn reset_at(self, now: Instant) -> Self {
        IntervalRateStatistics {
            successful_rate: self.successful_rate.after_reset(now),
            failed_rate: self.failed_rate.after_reset(now),
        }
    }

    fn add_successful(&mut self, count: usize, now: Instant)
        ensures
            final(self).failed_spec() == old(self).failed_spec(),
            old(self).wf() ==> final(self).wf() && if old(
                self,
            ).successful_spec().expired(now.nanos_spec()) {
                &&& final(self).successful_spec().output_spec() == old(
                    self,
                ).successful_spec().current_spec()
                &&& final(self).successful_spec().current_spec().bytes_spec() == count
            } else {
                &&& final(self).successful_spec().output_spec() == old(
                    self,
                ).successful_spec().output_spec()
                &&& final(self).successful_spec().current_spec().bytes_spec() == saturating_sum(
                    old(self).successful_spec().current_spec().bytes_spec(),
                    count,
                )
            },
    {
        self.successful_rate.on_byte(count, now);
    }

    fn add_failed(&mut self, count: usize, now: Instant)
        ensures
            final(self).successful_spec() == old(self).successful_spec(),
            old(self).wf() ==> final(self).wf() && if old(self).failed_spec().expired(
                now.nanos_spec(),
            ) {
                &&& final(self).failed_spec().output_spec() == old(
                    self,
                ).failed_spec().current_spec()
                &&& final(self).failed_spec().current_spec().bytes_spec() == count
            } else {
                &&& final(self).failed_spec().output_spec() == old(self).failed_spec().output_spec()
                &&& final(self).failed_spec().current_spec().bytes_spec() == saturating_sum(
                    old(self).failed_spec().current_spec().bytes_spec(),
                    count,
                )
            },
    {
        self.failed_rate.on_byte(count, now);
    }

    fn reset(&mut self, now: Instant)
        ensures
            old(self).wf() ==> final(self).wf()
                && final(self).successful_spec().current_spec().bytes_spec() == 0
                && final(self).successful_spec().output_spec().bytes_spec() == 0
                && final(self).failed_spec().current_spec().bytes_spec() == 0
                && final(self).failed_spec().output_spec().bytes_spec() == 0,
    {
        self.successful_rate.reset(now);
        self.failed_rate.reset(now);
    }
}

} // verus!
