//! A polling byte-rate limiter: at most `bytes` sends in each window of
//! length `interval`, with windows aligned to whole intervals.
use crate::outcome::Outcome;
use crate::rate::ByteRate;
use crate::time::{aligned_end, next_window_end, Duration, Instant};
use vstd::arithmetic::div_mod::lemma_fundamental_div_mod;
use vstd::prelude::*;

verus! {

/// Errors of the limiter's timer.
#[derive(Clone, Copy, Debug, PartialEq, Eq)]
pub enum TimerError {
    /// The timer has not been started.
    NotRunning,
    /// A deadline does not fit in the clock's instants.
    Overflow,
}

/// The phase of a limiter.
#[derive(Clone, Copy, Debug, PartialEq, Eq)]
pub enum LimiterState {
    /// No send yet; the first send opens a window.
    Idle,
    /// A window is open with this many sends left.
    Running(usize),
    /// The window's budget is spent.
    Limiting,
    /// No limit: the interval is zero.
    Unlimited,
}

/// A limiter as a mathematical value.
pub struct LimiterModel {
    /// Sends allowed in each window.
    pub bytes: nat,
    /// Length of a window in nanoseconds.
    pub interval: nat,
    pub state: LimiterState,
    /// Whether a window has been opened.
    pub timer_running: bool,
    /// End of the current window, in nanoseconds of the clock.
    pub window_end: nat,
}

/// The phase a limiter starts in for a budget of `bytes` per `interval` nanoseconds.
pub open spec fn initial_state(bytes: nat, interval: nat) -> LimiterState {
    if interval == 0 {
        LimiterState::Unlimited
    } else if bytes == 0 {
        LimiterState::Limiting
    } else {
        LimiterState::Idle
    }
}

/// Whether the current window is over at `now`.
pub open spec fn expired(m: LimiterModel, now: nat) -> bool {
    m.timer_running && now >= m.window_end
}

/// Whether a send would be recorded within the budget at `now`.
pub open spec fn can_send_spec(m: LimiterModel, now: nat) -> bool {
    match m.state {
        LimiterState::Idle => true,
        LimiterState::Unlimited => true,
        LimiterState::Running(n) => n > 0 || expired(m, now),
        LimiterState::Limiting => m.bytes > 0 && expired(m, now),
    }
}

/// The limiter with a fresh window aligned to `now`, or `None` on overflow.
/// Without a limit nothing changes.
pub open spec fn restarted(m: LimiterModel, now: nat) -> Option<LimiterModel> {
    if m.interval == 0 {
        Some(m)
    } else {
        let e = aligned_end(m.window_end, m.interval, now);
        if e > u64::MAX {
            None
        } else {
            Some(
                LimiterModel {
                    state: LimiterState::Running(m.bytes as usize),
                    timer_running: true,
                    window_end: e,
                    ..m
                },
            )
        }
    }
}

/// One send recorded against `remaining` sends left in the window.
pub open spec fn consume(m: LimiterModel, remaining: usize) -> (LimiterModel, Result<bool, TimerError>) {
    if remaining > 1 {
        (LimiterModel { state: LimiterState::Running((remaining - 1) as usize), ..m }, Ok(true))
    } else {
        (LimiterModel { state: LimiterState::Limiting, ..m }, Ok(false))
    }
}

/// One send at `now` after the window has ended: a new window, then the send.
pub open spec fn send_after_expiry(m: LimiterModel, now: nat) -> (LimiterModel, Result<bool, TimerError>) {
    match restarted(m, now) {
        Some(m2) => consume(m2, m.bytes as usize),
        None => (m, Err(TimerError::Overflow)),
    }
}

/// The limiter after one send at `now`, and what the send returns: `true`
/// while more sends remain in the window.
pub open spec fn send_spec(m: LimiterModel, now: nat) -> (LimiterModel, Result<bool, TimerError>) {
    match m.state {
        LimiterState::Unlimited => (m, Ok(true)),
        LimiterState::Idle => {
            if now + m.interval > u64::MAX {
                (m, Err(TimerError::Overflow))
            } else {
                consume(
                    LimiterModel { timer_running: true, window_end: now + m.interval, ..m },
                    m.bytes as usize,
                )
            }
        },
        LimiterState::Running(r) => {
            if expired(m, now) {
                send_after_expiry(m, now)
            } else {
                consume(m, r)
            }
        },
        LimiterState::Limiting => {
            if m.bytes > 0 && expired(m, now) {
                send_after_expiry(m, now)
            } else {
                (m, Ok(false))
            }
        },
    }
}

/// Sends recorded in the current window.
pub open spec fn spent(m: LimiterModel) -> nat {
    match m.state {
        LimiterState::Running(r) => (m.bytes - r) as nat,
        LimiterState::Limiting => m.bytes,
        _ => 0,
    }
}

/// The invariant of a limiter's model.
pub open spec fn model_wf(m: LimiterModel) -> bool {
    &&& m.bytes <= usize::MAX
    &&& m.interval == 0 <==> m.state == LimiterState::Unlimited
    &&& m.state matches LimiterState::Running(r) ==> r <= m.bytes && m.timer_running
    &&& m.state == LimiterState::Limiting && m.bytes > 0 ==> m.timer_running
}

/// Within a window the limiter grants fewer than `bytes` sends: a send that
/// returns `true` is counted either in the window that was open, which it
/// leaves open, or as the first send of a new window that ends after `now`;
/// and no send takes the count of a window beyond `bytes`.
pub proof fn lemma_window_budget(m: LimiterModel, now: nat)
    requires
        model_wf(m),
        m.interval > 0,
    ensures
        ({
            let (m2, r) = send_spec(m, now);
            &&& model_wf(m2)
            &&& m2.bytes == m.bytes && m2.interval == m.interval
            &&& spent(m2) <= m2.bytes
            &&& r == Ok::<bool, TimerError>(true) ==> spent(m2) < m2.bytes
            &&& r == Ok::<bool, TimerError>(true) ==> {
                ||| m2.window_end == m.window_end && m.state != LimiterState::Idle && spent(m2)
                    == spent(m) + 1
                ||| m2.window_end > now && spent(m2) == 1
            }
        }),
{
    if m.interval > 0 && m.window_end <= now {
        let q = (now - m.window_end) as nat / m.interval;
        lemma_fundamental_div_mod((now - m.window_end) as int, m.interval as int);
        assert((q + 1) * m.interval == q * m.interval + m.interval) by (nonlinear_arith);
        assert(m.interval * q == q * m.interval) by (nonlinear_arith);
    }
}

/// A polling limiter of the bytes sent per interval. The caller hands in the
/// current instant of a monotonic clock.
pub struct PollingByteRateLimiter {
    max_rate: ByteRate,
    state: LimiterState,
    timer_running: bool,
    window_end: Instant,
}

impl PollingByteRateLimiter {
    pub closed spec fn model(&self) -> LimiterModel {
        LimiterModel {
            bytes: self.max_rate.bytes_spec() as nat,
            interval: self.max_rate.interval_spec().nanos_spec(),
            state: self.state,
            timer_running: self.timer_running,
            window_end: self.window_end.nanos_spec(),
        }
    }

    pub closed spec fn max_rate_spec(&self) -> ByteRate {
        self.max_rate
    }

    pub open spec fn wf(&self) -> bool {
        &&& model_wf(self.model())
        &&& self.max_rate_spec().wf()
    }

    /// A limiter to `max_rate`, created at `now`.
    pub fn new(max_rate: ByteRate, now: Instant) -> (r: PollingByteRateLimiter)
        requires
            max_rate.wf(),
        ensures
            r.wf(),
            r.max_rate_spec() == max_rate,
            r.model().bytes == max_rate.bytes_spec(),
            r.model().interval == max_rate.interval_spec().nanos_spec(),
            r.model().state == initial_state(
                max_rate.bytes_spec() as nat,
                max_rate.interval_spec().nanos_spec(),
            ),
            !r.model().timer_running,
            r.model().window_end == now.nanos_spec(),
    {
        let mut out = PollingByteRateLimiter {
            max_rate: ByteRate::new(0, Duration::zero()),
            state: LimiterState::Unlimited,
            timer_running: false,
            window_end: now,
        };
        out.set_byte_rate(max_rate, now);
        out
    }

    /// Sets a new rate and puts the limiter back in its initial phase.
    pub fn set_byte_rate(&mut self, max_rate: ByteRate, now: Instant)
        requires
            max_rate.wf(),
        ensures
            final(self).wf(),
            final(self).max_rate_spec() == max_rate,
            final(self).model().bytes == max_rate.bytes_spec(),
            final(self).model().interval == max_rate.interval_spec().nanos_spec(),
            final(self).model().state == initial_state(
                max_rate.bytes_spec() as nat,
                max_rate.interval_spec().nanos_spec(),
            ),
            !final(self).model().timer_running,
            final(self).model().window_end == now.nanos_spec(),
    {
        self.state = if max_rate.interval().is_zero() {
            LimiterState::Unlimited
        } else if max_rate.bytes() == 0 {
            LimiterState::Limiting
        } else {
            LimiterState::Idle
        };
        self.max_rate = max_rate;
        self.timer_running = false;
        self.window_end = now;
    }

    /// The rate the limiter enforces.
    pub fn max_rate(&self) -> (r: &ByteRate)
        ensures
            *r == self.max_rate_spec(),
    {
        &self.max_rate
    }

    /// The phase of the limiter.
    pub fn state(&self) -> (r: LimiterState)
        ensures
            r == self.model().state,
    {
        self.state
    }

    fn timer_expired(&self, now: Instant) -> (r: bool)
        ensures
            r == expired(self.model(), now.nanos_spec()),
    {
        self.timer_running && !now.is_before(&self.window_end)
    }

    /// Whether a send at `now` would be recorded within the budget.
    pub fn can_send(&self, now: Instant) -> (r: bool)
        ensures
            r == can_send_spec(self.model(), now.nanos_spec()),
    {
        match self.state {
            LimiterState::Idle => true,
            LimiterState::Unlimited => true,
            LimiterState::Running(n) => n > 0 || self.timer_expired(now),
            LimiterState::Limiting => self.max_rate.bytes() > 0 && self.timer_expired(now),
        }
    }

    /// Opens a fresh window aligned to `now`: the end of the window advances by
    /// whole intervals until it lies after `now`. Without a limit nothing changes.
    pub fn restart(&mut self, now: Instant) -> (r: Result<(), TimerError>)
        requires
            old(self).wf(),
        ensures
            final(self).wf(),
            final(self).max_rate_spec() == old(self).max_rate_spec(),
            match restarted(old(self).model(), now.nanos_spec()) {
                Some(m) => r is Ok && final(self).model() == m,
                None => r == Err::<(), TimerError>(TimerError::Overflow) && final(self).model()
                    == old(self).model(),
            },
    {
        let interval = self.max_rate.interval().as_nanos();
        if interval == 0 {
            return Ok(());
        }
        let new_end = match next_window_end(self.window_end, *self.max_rate.interval(), now) {
            Some(e) => e,
            None => return Err(TimerError::Overflow),
        };
        self.window_end = new_end;
        self.timer_running = true;
        self.state = LimiterState::Running(self.max_rate.bytes());
        Ok(())
    }

    /// Records `remaining` sends left before this send.
    fn consume(&mut self, remaining: usize) -> (r: Result<bool, TimerError>)
        requires
            old(self).wf(),
            remaining <= old(self).max_rate_spec().bytes_spec(),
            old(self).model().timer_running,
            old(self).model().state != LimiterState::Unlimited,
        ensures
            final(self).wf(),
            final(self).max_rate_spec() == old(self).max_rate_spec(),
            (final(self).model(), r) == consume(old(self).model(), remaining),
    {
        if remaining > 1 {
            self.state = LimiterState::Running(remaining - 1);
            Ok(true)
        } else {
            self.state = LimiterState::Limiting;
            Ok(false)
        }
    }

    fn send_after_expiry(&mut self, now: Instant) -> (r: Result<bool, TimerError>)
        requires
            old(self).wf(),
            old(self).model().state != LimiterState::Unlimited,
        ensures
            final(self).wf(),
            final(self).max_rate_spec() == old(self).max_rate_spec(),
            (final(self).model(), r) == send_after_expiry(old(self).model(), now.nanos_spec()),
    {
        match self.restart(now) {
            Ok(()) => {
                let bytes = self.max_rate.bytes();
                self.consume(bytes)
            },
            Err(e) => Err(e),
        }
    }

    /// Records one byte sent at `now`. Returns `true` while more sends remain
    /// in the window, `false` on the send that spends it or when the budget is
    /// spent.
    pub fn send(&mut self, now: Instant) -> (r: Result<bool, TimerError>)
        requires
            old(self).wf(),
        ensures
            final(self).wf(),
            final(self).max_rate_spec() == old(self).max_rate_spec(),
            (final(self).model(), r) == send_spec(old(self).model(), now.nanos_spec()),
    {
        match self.state {
            LimiterState::Unlimited => Ok(true),
            LimiterState::Idle => {
                match now.checked_add(*self.max_rate.interval()) {
                    Some(end) => {
                        self.window_end = end;
                        self.timer_running = true;
                        let bytes = self.max_rate.bytes();
                        self.consume(bytes)
                    },
                    None => Err(TimerError::Overflow),
                }
            },
            LimiterState::Running(remaining) => {
                if self.timer_expired(now) {
                    self.send_after_expiry(now)
                } else {
                    self.consume(remaining)
                }
            },
            LimiterState::Limiting => {
                if self.max_rate.bytes() > 0 && self.timer_expired(now) {
                    self.send_after_expiry(now)
                } else {
                    Ok(false)
                }
            },
        }
    }

    /// Records the outcome of a write made at `now` after `can_send` allowed it:
    /// a completed write is one send against the budget, and a blocked or failed
    /// write uses none. The outcome is handed back unless the send fails.
    pub fn record_write<E>(&mut self, write: Outcome<E>, now: Instant) -> (r: Result<
        Outcome<E>,
        TimerError,
    >)
        requires
            old(self).wf(),
        ensures
            final(self).wf(),
            final(self).max_rate_spec() == old(self).max_rate_spec(),
            match write {
                Outcome::Done => {
                    let (m, res) = send_spec(old(self).model(), now.nanos_spec());
                    &&& final(self).model() == m
                    &&& r == match res {
                        Ok(_) => Ok(Outcome::Done),
                        Err(e) => Err::<Outcome<E>, TimerError>(e),
                    }
                },
                _ => final(self).model() == old(self).model() && r == Ok::<Outcome<E>, TimerError>(
                    write,
                ),
            },
    {
        match write {
            Outcome::Done => match self.send(now) {
                Ok(_) => Ok(Outcome::Done),
                Err(e) => Err(e),
            },
            other => Ok(other),
        }
    }

    /// Time from `now` to the end of the current window; `None` without a
    /// limit or before the first window opens.
    pub fn duration_until_reset(&self, now: Instant) -> (r: Option<Duration>)
        ensures
            r is Some <==> self.model().state != LimiterState::Unlimited
                && self.model().timer_running,
            r matches Some(d) ==> d.wf() && d.nanos_spec() == if self.model().window_end
                >= now.nanos_spec() {
                self.model().window_end - now.nanos_spec()
            } else {
                0
            },
    {
        if let LimiterState::Unlimited = self.state {
            return None;
        }
        if !self.timer_running {
            return None;
        }
        Some(self.window_end.duration_since(now))
    }
}

} // verus!
