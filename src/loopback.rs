//! Loopback: every byte received is sent back.
use crate::statistics::{CountingStatistics, Statistics};
use crate::time::Instant;
use vstd::prelude::*;

verus! {

/// The decisions of a loopback endpoint: it holds at most one received byte
/// until it is sent back. A byte received while another is held replaces it,
/// and the replaced byte counts as a failed send.
pub struct Loopback<TxStats = CountingStatistics, RxStats = CountingStatistics> {
    holding: Option<u8>,
    tx_stats: TxStats,
    rx_stats: RxStats,
}

impl<TxStats: Statistics, RxStats: Statistics> Loopback<TxStats, RxStats> {
    /// The byte waiting to be sent back.
    pub closed spec fn holding_spec(&self) -> Option<u8> {
        self.holding
    }

    pub closed spec fn tx_stats_spec(&self) -> TxStats {
        self.tx_stats
    }

    pub closed spec fn rx_stats_spec(&self) -> RxStats {
        self.rx_stats
    }

    /// A loopback that holds no byte. The statistics are taken as they are.
    pub fn new(tx_stats: TxStats, rx_stats: RxStats) -> (r: Self)
        ensures
            r.holding_spec() is None,
            r.tx_stats_spec() == tx_stats,
            r.rx_stats_spec() == rx_stats,
    {
        Loopback { holding: None, tx_stats, rx_stats }
    }

    /// Statistics of the bytes sent back.
    pub fn tx_stats(&self) -> (r: &TxStats)
        ensures
            *r == self.tx_stats_spec(),
    {
        &self.tx_stats
    }

    /// Statistics of the bytes received.
    pub fn rx_stats(&self) -> (r: &RxStats)
        ensures
            *r == self.rx_stats_spec(),
    {
        &self.rx_stats
    }

    /// Resets both statistics.
    pub fn reset_stats(&mut self, now: Instant)
        ensures
            final(self).holding_spec() == old(self).holding_spec(),
            final(self).tx_stats_spec() == old(self).tx_stats_spec().reset_at(now),
            final(self).rx_stats_spec() == old(self).rx_stats_spec().reset_at(now),
    {
        self.tx_stats.reset(now);
        self.rx_stats.reset(now);
    }

    /// Takes a received byte; a byte still held is lost.
    pub fn on_byte_received(&mut self, byte: u8, now: Instant)
        ensures
            final(self).holding_spec() == Some(byte),
            final(self).rx_stats_spec() == old(self).rx_stats_spec().with_successful(1, now),
            final(self).tx_stats_spec() == if old(self).holding_spec() is Some {
                old(self).tx_stats_spec().with_failed(1, now)
            } else {
                old(self).tx_stats_spec()
            },
    {
        if self.holding.is_some() {
            self.tx_stats.add_failed(1, now);
        }
        self.holding = Some(byte);
        self.rx_stats.add_successful(1, now);
    }

    /// Records that the held byte was sent back.
    pub fn on_byte_sent(&mut self, now: Instant)
        ensures
            final(self).holding_spec() is None,
            final(self).tx_stats_spec() == old(self).tx_stats_spec().with_successful(1, now),
            final(self).rx_stats_spec() == old(self).rx_stats_spec(),
    {
        self.holding = None;
        self.tx_stats.add_successful(1, now);
    }

    /// Records a failed receive.
    pub fn on_receive_error(&mut self, now: Instant)
        ensures
            final(self).holding_spec() == old(self).holding_spec(),
            final(self).rx_stats_spec() == old(self).rx_stats_spec().with_failed(1, now),
            final(self).tx_stats_spec() == old(self).tx_stats_spec(),
    {
        self.rx_stats.add_failed(1, now);
    }

    /// Records a failed send; the byte stays held.
    pub fn on_send_error(&mut self, now: Instant)
        ensures
            final(self).holding_spec() == old(self).holding_spec(),
            final(self).tx_stats_spec() == old(self).tx_stats_spec().with_failed(1, now),
            final(self).rx_stats_spec() == old(self).rx_stats_spec(),
    {
        self.tx_stats.add_failed(1, now);
    }

    /// The byte to send back, if one is held.
    pub fn byte_to_send(&self) -> (r: Option<u8>)
        ensures
            r == self.holding_spec(),
    {
        self.holding
    }
}

} // verus!
