//! The counting test: numbered packets out, loss measured on the way in.
use crate::counter::valid_width;
use crate::rx::{rx_fresh, rx_report, rx_step, RxModel, RxState};
use crate::statistics::{CountingStatistics, Statistics};
use crate::time::Instant;
use crate::tx::{tx_fresh, tx_ready, TxModel, TxState};
use vstd::prelude::*;

verus! {

/// The decisions of a counting endpoint: it hands out the bytes of
/// consecutive packets to send, and consumes received bytes, measuring bytes
/// sent and received and packets lost.
pub struct Counting<
    TxStats = CountingStatistics,
    RxStats = CountingStatistics,
    LossStats = CountingStatistics,
> {
    tx_state: TxState,
    rx_state: RxState<LossStats>,
    tx_stats: TxStats,
    rx_stats: RxStats,
}

impl<TxStats: Statistics, RxStats: Statistics, LossStats: Statistics> Counting<
    TxStats,
    RxStats,
    LossStats,
> {
    pub closed spec fn tx_model(&self) -> TxModel {
        self.tx_state.model()
    }

    pub closed spec fn rx_model(&self) -> RxModel {
        self.rx_state.model()
    }

    pub closed spec fn wf(&self) -> bool {
        self.tx_state.wf() && self.rx_state.wf()
    }

    pub closed spec fn tx_stats_spec(&self) -> TxStats {
        self.tx_stats
    }

    pub closed spec fn rx_stats_spec(&self) -> RxStats {
        self.rx_stats
    }

    pub closed spec fn loss_stats_spec(&self) -> LossStats {
        self.rx_state.loss_stats_spec()
    }

    /// A counting endpoint for counters of `width` bytes, with checksums.
    pub fn new(width: usize, tx_stats: TxStats, rx_stats: RxStats, loss_stats: LossStats) -> (r:
        Self)
        requires
            valid_width(width as nat),
        ensures
            r.wf(),
            r.tx_model() == tx_fresh(width as nat, true),
            r.rx_model() == rx_fresh(width as nat, true),
            r.tx_stats_spec() == tx_stats,
            r.rx_stats_spec() == rx_stats,
            r.loss_stats_spec() == loss_stats,
    {
        Counting {
            tx_state: TxState::new(width),
            rx_state: RxState::new(width, loss_stats),
            tx_stats,
            rx_stats,
        }
    }

    /// A counting endpoint for counters of `width` bytes, without checksums.
    pub fn new_without_checksum(
        width: usize,
        tx_stats: TxStats,
        rx_stats: RxStats,
        loss_stats: LossStats,
    ) -> (r: Self)
        requires
            valid_width(width as nat),
        ensures
            r.wf(),
            r.tx_model() == tx_fresh(width as nat, false),
            r.rx_model() == rx_fresh(width as nat, false),
            r.tx_stats_spec() == tx_stats,
            r.rx_stats_spec() == rx_stats,
            r.loss_stats_spec() == loss_stats,
    {
        Counting {
            tx_state: TxState::new_without_checksum(width),
            rx_state: RxState::new_without_checksum(width, loss_stats),
            tx_stats,
            rx_stats,
        }
    }

    /// Statistics of the bytes sent.
    pub fn tx_stats(&self) -> (r: &TxStats)
        ensures
            *r == self.tx_stats_spec(),
    {
        &self.tx_stats
    }

    /// Statistics of the bytes received.
    pub fn rx_stats(&self) -> (r: &RxStats)
        ensures
            *r == self.rx_stats_spec(),
    {
        &self.rx_stats
    }

    /// Statistics of the packets received and lost.
    pub fn loss_stats(&self) -> (r: &LossStats)
        ensures
            *r == self.loss_stats_spec(),
    {
        self.rx_state.loss_stats()
    }

    /// Starts over: both state machines and all three statistics.
    pub fn reset(&mut self, now: Instant)
        requires
            old(self).wf(),
        ensures
            final(self).wf(),
            final(self).tx_model() == tx_fresh(
                old(self).tx_model().width,
                old(self).tx_model().checksum_enabled,
            ),
            final(self).rx_model() == rx_fresh(
                old(self).rx_model().width,
                old(self).rx_model().checksum_enabled,
            ),
            final(self).tx_stats_spec() == old(self).tx_stats_spec().reset_at(now),
            final(self).rx_stats_spec() == old(self).rx_stats_spec().reset_at(now),
            final(self).loss_stats_spec() == old(self).loss_stats_spec().reset_at(now),
    {
        self.tx_state.reset();
        self.rx_state.reset(now);
        self.tx_stats.reset(now);
        self.rx_stats.reset(now);
    }

    /// The next byte to send. It stays next until `on_byte_sent`.
    pub fn byte_to_send(&mut self) -> (r: u8)
        requires
            old(self).wf(),
        ensures
            final(self).wf(),
            final(self).tx_model() == tx_ready(old(self).tx_model()),
            r == final(self).tx_model().pending[0],
            final(self).rx_model() == old(self).rx_model(),
            final(self).tx_stats_spec() == old(self).tx_stats_spec(),
            final(self).rx_stats_spec() == old(self).rx_stats_spec(),
            final(self).loss_stats_spec() == old(self).loss_stats_spec(),
    {
        self.tx_state.peek()
    }

    /// Records that the next byte was sent.
    pub fn on_byte_sent(&mut self, now: Instant)
        requires
            old(self).wf(),
        ensures
            final(self).wf(),
            final(self).tx_model() == (TxModel {
                pending: tx_ready(old(self).tx_model()).pending.drop_first(),
                ..tx_ready(old(self).tx_model())
            }),
            final(self).rx_model() == old(self).rx_model(),
            final(self).tx_stats_spec() == old(self).tx_stats_spec().with_successful(1, now),
            final(self).rx_stats_spec() == old(self).rx_stats_spec(),
            final(self).loss_stats_spec() == old(self).loss_stats_spec(),
    {
        self.tx_state.take();
        self.tx_stats.add_successful(1, now);
    }

    /// Consumes a received byte.
    pub fn on_byte_received(&mut self, byte: u8, now: Instant)
        requires
            old(self).wf(),
        ensures
            final(self).wf(),
            final(self).rx_model() == rx_step(old(self).rx_model(), byte),
            final(self).tx_model() == old(self).tx_model(),
            final(self).rx_stats_spec() == old(self).rx_stats_spec().with_successful(1, now),
            final(self).loss_stats_spec() == rx_report(
                old(self).loss_stats_spec(),
                old(self).rx_model(),
                byte,
                now,
            ),
            final(self).tx_stats_spec() == old(self).tx_stats_spec(),
    {
        self.rx_state.on_byte_received(byte, now);
        self.rx_stats.add_successful(1, now);
    }

    /// Records a failed send; the byte stays next.
    pub fn on_send_error(&mut self, now: Instant)
        requires
            old(self).wf(),
        ensures
            final(self).wf(),
            final(self).tx_model() == old(self).tx_model(),
            final(self).rx_model() == old(self).rx_model(),
            final(self).tx_stats_spec() == old(self).tx_stats_spec().with_failed(1, now),
            final(self).rx_stats_spec() == old(self).rx_stats_spec(),
            final(self).loss_stats_spec() == old(self).loss_stats_spec(),
    {
        self.tx_stats.add_failed(1, now);
    }

    /// Records a failed receive.
    pub fn on_receive_error(&mut self, now: Instant)
        requires
            old(self).wf(),
        ensures
            final(self).wf(),
            final(self).tx_model() == old(self).tx_model(),
            final(self).rx_model() == old(self).rx_model(),
            final(self).rx_stats_spec() == old(self).rx_stats_spec().with_failed(1, now),
            final(self).tx_stats_spec() == old(self).tx_stats_spec(),
            final(self).loss_stats_spec() == old(self).loss_stats_spec(),
    {
        self.rx_stats.add_failed(1, now);
    }
}

} // verus!
