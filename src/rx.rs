//! The receive state machine: it consumes bytes, frames packets at the zero
//! sentinel, checks and decodes them, and infers lost packets.
use crate::counter::{
    all_nonzero, bytes_of_index, index_distance, index_of_bytes, lemma_bytes_nonzero,
    lemma_distance_to_next, lemma_index_of_bytes_of_index, lemma_next_iter, lemma_pow255_positive, lemma_pow255_values,
    next_index, next_iter, pow255, valid_width, Counter,
};
use crate::packet::{
    buf_as_slice, buf_clear, buf_contents, buf_new, buf_push, crc_field, decode_packet, decodes,
    packet_of, PacketBuf,
};
use vstd::arithmetic::div_mod::{lemma_fundamental_div_mod_converse, lemma_sub_mod_noop};
use crate::statistics::{
    clamp, lemma_counting_statistics, lemma_saturating_clamp, CountingStatistics, Statistics,
};
use crate::time::Instant;
use vstd::prelude::*;

verus! {

/// The receive state, as a mathematical value.
pub struct RxModel {
    /// Width of the counters, in bytes.
    pub width: nat,
    /// Whether the CRC field is checked.
    pub checksum_enabled: bool,
    /// Index of the last counter decoded.
    pub last: Option<nat>,
    /// The counter bytes gathered since the last frame.
    pub buffer: Seq<u8>,
    /// Whether the sentinel was seen and the CRC field comes next.
    pub awaiting_crc: bool,
    /// Packets decoded so far.
    pub received: nat,
    /// Packets inferred lost so far.
    pub lost: nat,
}

/// Packets lost between consecutive received counters `a` and `b`: one less
/// than the distance, and none for a repeated counter.
pub open spec fn gap(width: nat, a: nat, b: nat) -> nat {
    let d = index_distance(width, a, b);
    if d <= 0 {
        0
    } else {
        (d - 1) as nat
    }
}

/// The lost packets as handed to the loss statistics: the gap, saturated to `usize`.
pub open spec fn reported_gap(width: nat, a: nat, b: nat) -> usize {
    if gap(width, a, b) > usize::MAX {
        usize::MAX
    } else {
        gap(width, a, b) as usize
    }
}

/// The CRC field the receiver checks: the byte itself with checksums, none without.
pub open spec fn crc_check(m: RxModel, b: u8) -> Option<u8> {
    if m.checksum_enabled {
        Some(b)
    } else {
        None
    }
}

/// The receive state after one more byte.
pub open spec fn rx_step(m: RxModel, b: u8) -> RxModel {
    if !m.awaiting_crc {
        if b == 0 {
            RxModel { awaiting_crc: true, ..m }
        } else if m.buffer.len() >= m.width {
            RxModel { buffer: seq![b], ..m }
        } else {
            RxModel { buffer: m.buffer.push(b), ..m }
        }
    } else {
        let cleared = RxModel { buffer: Seq::empty(), awaiting_crc: false, ..m };
        if decodes(m.width, m.buffer, crc_check(m, b)) {
            let k = index_of_bytes(m.buffer) as nat;
            let lost: nat = match m.last {
                Some(l) => reported_gap(m.width, l, k) as nat,
                None => 0,
            };
            RxModel { last: Some(k), received: m.received + 1, lost: m.lost + lost, ..cleared }
        } else {
            cleared
        }
    }
}

/// The receive state after the bytes `s`, in order.
pub open spec fn rx_feed(m: RxModel, s: Seq<u8>) -> RxModel
    decreases s.len(),
{
    if s.len() == 0 {
        m
    } else {
        rx_feed(rx_step(m, s[0]), s.drop_first())
    }
}

/// The loss statistics `s` after the receiver in state `m` takes byte `b` at
/// `now`: a decoded packet adds the packets lost since the last one as failed
/// items (when there was a last one), then one successful item; any other
/// byte leaves them alone.
pub open spec fn rx_report<L: Statistics>(s: L, m: RxModel, b: u8, now: Instant) -> L {
    if m.awaiting_crc && decodes(m.width, m.buffer, crc_check(m, b)) {
        let k = index_of_bytes(m.buffer) as nat;
        match m.last {
            Some(l) => s.with_failed(reported_gap(m.width, l, k), now).with_successful(1, now),
            None => s.with_successful(1, now),
        }
    } else {
        s
    }
}

/// The loss statistics `s` after the receiver in state `m` takes the bytes
/// `bytes` at `now`.
pub open spec fn rx_feed_report<L: Statistics>(s: L, m: RxModel, bytes: Seq<u8>, now: Instant) -> L
    decreases bytes.len(),
{
    if bytes.len() == 0 {
        s
    } else {
        rx_feed_report(rx_report(s, m, bytes[0], now), rx_step(m, bytes[0]), bytes.drop_first(), now)
    }
}

/// A fresh receive state.
pub open spec fn rx_fresh(width: nat, checksum_enabled: bool) -> RxModel {
    RxModel {
        width,
        checksum_enabled,
        last: None,
        buffer: Seq::empty(),
        awaiting_crc: false,
        received: 0,
        lost: 0,
    }
}

/// The bytes of the packets of the counters with indices `ks`, in order.
pub open spec fn packet_stream(width: nat, checksum_enabled: bool, ks: Seq<nat>) -> Seq<u8>
    decreases ks.len(),
{
    if ks.len() == 0 {
        Seq::empty()
    } else {
        packet_stream(width, checksum_enabled, ks.drop_last()) + packet_of(
            bytes_of_index(width, ks.last()),
            checksum_enabled,
        )
    }
}

/// The packets lost between consecutive counters of `ks`, all together.
pub open spec fn total_gap(width: nat, ks: Seq<nat>) -> nat
    decreases ks.len(),
{
    if ks.len() <= 1 {
        0
    } else {
        total_gap(width, ks.drop_last()) + reported_gap(width, ks[ks.len() - 2], ks.last()) as nat
    }
}

/// Whether the receiver sits between packets: no partial packet, no sentinel pending.
pub open spec fn between_packets(m: RxModel) -> bool {
    !m.awaiting_crc && m.buffer.len() == 0
}

proof fn lemma_feed_concat(m: RxModel, a: Seq<u8>, b: Seq<u8>)
    ensures
        rx_feed(m, a + b) == rx_feed(rx_feed(m, a), b),
    decreases a.len(),
{
    if a.len() == 0 {
        assert(a + b =~= b);
    } else {
        assert((a + b)[0] == a[0]);
        assert((a + b).drop_first() =~= a.drop_first() + b);
        lemma_feed_concat(rx_step(m, a[0]), a.drop_first(), b);
    }
}

proof fn lemma_feed_counter_bytes(m: RxModel, bytes: Seq<u8>)
    requires
        !m.awaiting_crc,
        m.buffer.len() + bytes.len() <= m.width,
        all_nonzero(bytes),
    ensures
        rx_feed(m, bytes) == (RxModel { buffer: m.buffer + bytes, ..m }),
    decreases bytes.len(),
{
    if bytes.len() == 0 {
        assert(m.buffer + bytes =~= m.buffer);
    } else {
        let m1 = rx_step(m, bytes[0]);
        assert(m1 == (RxModel { buffer: m.buffer.push(bytes[0]), ..m }));
        let rest = bytes.drop_first();
        assert(all_nonzero(rest)) by {
            assert forall|i: int| 0 <= i < rest.len() implies rest[i] != 0 by {
                assert(rest[i] == bytes[i + 1]);
            }
        }
        lemma_feed_counter_bytes(m1, rest);
        assert(m.buffer.push(bytes[0]) + rest =~= m.buffer + bytes);
    }
}

/// Feeding the packet of counter `k` between packets decodes it.
proof fn lemma_feed_packet(m: RxModel, k: nat)
    requires
        between_packets(m),
        valid_width(m.width),
        k < pow255(m.width),
    ensures
        rx_feed(m, packet_of(bytes_of_index(m.width, k), m.checksum_enabled)) == (RxModel {
            last: Some(k),
            received: m.received + 1,
            lost: m.lost + match m.last {
                Some(l) => reported_gap(m.width, l, k) as nat,
                None => 0,
            },
            ..m
        }),
{
    let bytes = bytes_of_index(m.width, k);
    let crc = crc_field(bytes, m.checksum_enabled);
    lemma_bytes_nonzero(m.width, k);
    lemma_index_of_bytes_of_index(m.width, k);
    lemma_feed_concat(m, bytes, seq![0u8, crc]);
    assert(packet_of(bytes, m.checksum_enabled) =~= bytes + seq![0u8, crc]);
    lemma_feed_counter_bytes(m, bytes);
    let m1 = RxModel { buffer: m.buffer + bytes, ..m };
    assert(m.buffer + bytes =~= bytes);
    let m2 = rx_step(m1, 0);
    let m3 = rx_step(m2, crc);
    assert(seq![0u8, crc].drop_first() =~= seq![crc]);
    assert(seq![crc].drop_first() =~= Seq::<u8>::empty());
    assert(rx_feed(m1, seq![0u8, crc]) == rx_feed(m2, seq![crc]));
    assert(rx_feed(m2, seq![crc]) == rx_feed(m3, Seq::<u8>::empty()));
    assert(m2.buffer == bytes);
    assert(m2.awaiting_crc);
    assert(decodes(m.width, bytes, if m.checksum_enabled { Some(crc) } else { None }));
    assert(m3.buffer =~= Seq::<u8>::empty());
    assert(m3.last == Some(k));
    assert(m.buffer =~= Seq::<u8>::empty());
    assert(rx_feed(m3, Seq::<u8>::empty()) == m3);
}

/// Feeding the packets of any valid counters to a fresh receiver decodes every
/// one of them and counts the gaps between them as lost.
pub proof fn lemma_feed_stream(width: nat, checksum_enabled: bool, ks: Seq<nat>)
    requires
        valid_width(width),
        forall|i: int| 0 <= i < ks.len() ==> #[trigger] ks[i] < pow255(width),
    ensures
        ({
            let r = rx_feed(rx_fresh(width, checksum_enabled), packet_stream(width, checksum_enabled, ks));
            &&& between_packets(r)
            &&& r.received == ks.len()
            &&& r.lost == total_gap(width, ks)
            &&& r.last == (if ks.len() == 0 {
                None
            } else {
                Some(ks.last())
            })
            &&& r.width == width
            &&& r.checksum_enabled == checksum_enabled
        }),
    decreases ks.len(),
{
    let fresh = rx_fresh(width, checksum_enabled);
    if ks.len() == 0 {
        assert(fresh.buffer.len() == 0);
    } else {
        let init = ks.drop_last();
        lemma_feed_stream(width, checksum_enabled, init);
        let before = rx_feed(fresh, packet_stream(width, checksum_enabled, init));
        lemma_feed_concat(
            fresh,
            packet_stream(width, checksum_enabled, init),
            packet_of(bytes_of_index(width, ks.last()), checksum_enabled),
        );
        assert(ks.last() < pow255(width)) by {
            assert(ks[ks.len() - 1] < pow255(width));
        }
        lemma_feed_packet(before, ks.last());
        if init.len() > 0 {
            assert(init.last() == ks[ks.len() - 2]);
        }
    }
}

/// A fresh receiver fed the packets of `n` consecutive counters records `n`
/// received packets and none lost.
pub proof fn lemma_unbroken_chain_loses_nothing(width: nat, checksum_enabled: bool, k0: nat, n: nat)
    requires
        valid_width(width),
        k0 < pow255(width),
    ensures
        ({
            let ks = Seq::new(n, |j: int| next_iter(width, k0, j as nat));
            let r = rx_feed(rx_fresh(width, checksum_enabled), packet_stream(width, checksum_enabled, ks));
            r.received == n && r.lost == 0
        }),
{
    let ks = Seq::new(n, |j: int| next_iter(width, k0, j as nat));
    assert forall|i: int| 0 <= i < ks.len() implies #[trigger] ks[i] < pow255(width) by {
        lemma_next_iter(width, k0, i as nat);
        lemma_pow255_positive(width);
    }
    lemma_feed_stream(width, checksum_enabled, ks);
    lemma_total_gap_unbroken(width, k0, n);
}

proof fn lemma_total_gap_unbroken(width: nat, k0: nat, n: nat)
    requires
        valid_width(width),
        k0 < pow255(width),
    ensures
        total_gap(width, Seq::new(n, |j: int| next_iter(width, k0, j as nat))) == 0,
    decreases n,
{
    let ks = Seq::new(n, |j: int| next_iter(width, k0, j as nat));
    if n > 1 {
        lemma_total_gap_unbroken(width, k0, (n - 1) as nat);
        assert(ks.drop_last() =~= Seq::new((n - 1) as nat, |j: int| next_iter(width, k0, j as nat)));
        let a = next_iter(width, k0, (n - 2) as nat);
        lemma_next_iter(width, k0, (n - 2) as nat);
        lemma_pow255_positive(width);
        assert(ks.last() == next_index(width, a));
        lemma_distance_to_next(width, a);
    }
}

/// The counters at positions `pos` of a chain of `n` consecutive counters that
/// starts at `k0`.
pub open spec fn chain_subset(width: nat, k0: nat, pos: Seq<nat>) -> Seq<nat> {
    Seq::new(pos.len(), |j: int| next_iter(width, k0, pos[j]))
}

proof fn lemma_total_gap_of_subset(width: nat, k0: nat, n: nat, pos: Seq<nat>)
    requires
        valid_width(width),
        k0 < pow255(width),
        n <= pow255(width),
        n <= usize::MAX,
        pos.len() > 0,
        forall|i: int, j: int| 0 <= i < j < pos.len() ==> pos[i] < pos[j],
        forall|i: int| 0 <= i < pos.len() ==> #[trigger] pos[i] < n,
    ensures
        total_gap(width, chain_subset(width, k0, pos)) == pos.last() - pos[0] - (pos.len() - 1),
    decreases pos.len(),
{
    let ks = chain_subset(width, k0, pos);
    if pos.len() > 1 {
        let init = pos.drop_last();
        lemma_total_gap_of_subset(width, k0, n, init);
        assert(ks.drop_last() =~= chain_subset(width, k0, init));
        let a = pos[pos.len() - 2];
        let b = pos.last();
        let p = pow255(width) as int;
        assert(a < b);
        assert(b < n) by {
            assert(pos[pos.len() - 1] < n);
        }
        lemma_next_iter(width, k0, a);
        lemma_next_iter(width, k0, b);
        lemma_sub_mod_noop((k0 + b) as int, (k0 + a) as int, p);
        lemma_fundamental_div_mod_converse((b - a) as int, p, 0, (b - a) as int);
        assert(index_distance(width, ks[ks.len() - 2], ks.last()) == b - a);
    }
}

/// A fresh receiver fed the packets of a chain of `n` consecutive counters,
/// with the packets at all positions but `pos` removed between the first and
/// the last, records `pos.len()` received packets and `n - pos.len()` lost.
pub proof fn lemma_chain_with_gaps(
    width: nat,
    checksum_enabled: bool,
    k0: nat,
    n: nat,
    pos: Seq<nat>,
)
    requires
        valid_width(width),
        k0 < pow255(width),
        0 < n <= pow255(width),
        n <= usize::MAX,
        pos.len() > 0,
        pos[0] == 0,
        pos.last() == n - 1,
        forall|i: int, j: int| 0 <= i < j < pos.len() ==> pos[i] < pos[j],
    ensures
        ({
            let ks = chain_subset(width, k0, pos);
            let r = rx_feed(rx_fresh(width, checksum_enabled), packet_stream(width, checksum_enabled, ks));
            r.received == pos.len() && r.lost == n - pos.len()
        }),
{
    let ks = chain_subset(width, k0, pos);
    assert forall|i: int| 0 <= i < pos.len() implies #[trigger] pos[i] < n by {
        if i < pos.len() - 1 {
            assert(pos[i] < pos[pos.len() - 1]);
        }
    }
    assert forall|i: int| 0 <= i < ks.len() implies #[trigger] ks[i] < pow255(width) by {
        lemma_next_iter(width, k0, pos[i]);
        lemma_pow255_positive(width);
    }
    lemma_feed_stream(width, checksum_enabled, ks);
    lemma_total_gap_of_subset(width, k0, n, pos);
}

/// Counting loss statistics fed by the receiver count what the receiver model
/// counts: the packets decoded as successful items and the packets inferred
/// lost as failed items, each total saturating at `usize::MAX`.
pub proof fn lemma_counting_loss_statistics(
    s: CountingStatistics,
    m: RxModel,
    bytes: Seq<u8>,
    now: Instant,
    a: nat,
    b: nat,
)
    requires
        s.successful_spec() == clamp(a as int),
        s.failed_spec() == clamp(b as int),
    ensures
        ({
            let r = rx_feed(m, bytes);
            let t = rx_feed_report(s, m, bytes, now);
            &&& r.received >= m.received
            &&& r.lost >= m.lost
            &&& t.successful_spec() == clamp(a + r.received - m.received)
            &&& t.failed_spec() == clamp(b + r.lost - m.lost)
        }),
    decreases bytes.len(),
{
    if bytes.len() > 0 {
        let b0 = bytes[0];
        let m1 = rx_step(m, b0);
        let s1 = rx_report(s, m, b0, now);
        let a1 = (a + m1.received - m.received) as nat;
        let b1 = (b + m1.lost - m.lost) as nat;
        if m.awaiting_crc && decodes(m.width, m.buffer, crc_check(m, b0)) {
            let k = index_of_bytes(m.buffer) as nat;
            match m.last {
                Some(l) => {
                    let g = reported_gap(m.width, l, k);
                    let f = s.with_failed(g, now);
                    lemma_counting_statistics(s, g, now);
                    lemma_counting_statistics(f, 1, now);
                    lemma_saturating_clamp(b, g);
                    lemma_saturating_clamp(a, 1);
                },
                None => {
                    lemma_counting_statistics(s, 1, now);
                    lemma_saturating_clamp(a, 1);
                },
            }
        }
        assert(s1.successful_spec() == clamp(a1 as int) && s1.failed_spec() == clamp(b1 as int));
        lemma_counting_loss_statistics(s1, m1, bytes.drop_first(), now, a1, b1);
    }
}

/// Counting loss statistics at zero, fed the packets of `n` consecutive
/// counters by a fresh receiver, count `n` received packets and none lost.
pub proof fn lemma_unbroken_chain_statistics(
    s: CountingStatistics,
    width: nat,
    checksum_enabled: bool,
    k0: nat,
    n: nat,
    now: Instant,
)
    requires
        s.successful_spec() == 0,
        s.failed_spec() == 0,
        valid_width(width),
        k0 < pow255(width),
        n <= usize::MAX,
    ensures
        ({
            let ks = Seq::new(n, |j: int| next_iter(width, k0, j as nat));
            let t = rx_feed_report(
                s,
                rx_fresh(width, checksum_enabled),
                packet_stream(width, checksum_enabled, ks),
                now,
            );
            t.successful_spec() == n && t.failed_spec() == 0
        }),
{
    let ks = Seq::new(n, |j: int| next_iter(width, k0, j as nat));
    lemma_unbroken_chain_loses_nothing(width, checksum_enabled, k0, n);
    lemma_counting_loss_statistics(
        s,
        rx_fresh(width, checksum_enabled),
        packet_stream(width, checksum_enabled, ks),
        now,
        0,
        0,
    );
}

/// Counting loss statistics at zero, fed by a fresh receiver the packets of a
/// chain of `n` consecutive counters with all packets but those at positions
/// `pos` removed between the first and the last, count `pos.len()` received
/// packets and `n - pos.len()` lost.
pub proof fn lemma_chain_with_gaps_statistics(
    s: CountingStatistics,
    width: nat,
    checksum_enabled: bool,
    k0: nat,
    n: nat,
    pos: Seq<nat>,
    now: Instant,
)
    requires
        s.successful_spec() == 0,
        s.failed_spec() == 0,
        valid_width(width),
        k0 < pow255(width),
        0 < n <= pow255(width),
        n <= usize::MAX,
        pos.len() > 0,
        pos[0] == 0,
        pos.last() == n - 1,
        forall|i: int, j: int| 0 <= i < j < pos.len() ==> pos[i] < pos[j],
    ensures
        ({
            let ks = chain_subset(width, k0, pos);
            let t = rx_feed_report(
                s,
                rx_fresh(width, checksum_enabled),
                packet_stream(width, checksum_enabled, ks),
                now,
            );
            t.successful_spec() == pos.len() && t.failed_spec() == n - pos.len()
        }),
{
    let ks = chain_subset(width, k0, pos);
    lemma_chain_with_gaps(width, checksum_enabled, k0, n, pos);
    lemma_counting_loss_statistics(
        s,
        rx_fresh(width, checksum_enabled),
        packet_stream(width, checksum_enabled, ks),
        now,
        0,
        0,
    );
    assert(pos.len() <= n) by {
        assert forall|i: int| 0 <= i < pos.len() implies #[trigger] pos[i] >= i by {
            lemma_positions_grow(pos, i);
        }
        assert(pos[pos.len() - 1] >= pos.len() - 1);
    }
}

proof fn lemma_positions_grow(pos: Seq<nat>, i: int)
    requires
        0 <= i < pos.len(),
        forall|x: int, y: int| 0 <= x < y < pos.len() ==> pos[x] < pos[y],
    ensures
        pos[i] >= i,
    decreases i,
{
    if i > 0 {
        lemma_positions_grow(pos, i - 1);
        assert(pos[i - 1] < pos[i]);
    }
}

/// The receive state machine of the counting test, reporting to `LossStats`:
/// one successful item per decoded packet, and the packets inferred lost
/// between two decoded packets as failed items.
pub struct RxState<LossStats> {
    width: usize,
    checksum_enabled: bool,
    last: Option<Counter>,
    buffer: PacketBuf,
    awaiting_crc: bool,
    loss_stats: LossStats,
    received: Ghost<nat>,
    lost: Ghost<nat>,
}

impl<LossStats: Statistics> RxState<LossStats> {
    pub closed spec fn model(&self) -> RxModel {
        RxModel {
            width: self.width as nat,
            checksum_enabled: self.checksum_enabled,
            last: match self.last {
                Some(c) => Some(c.index_spec()),
                None => None,
            },
            buffer: buf_contents(self.buffer),
            awaiting_crc: self.awaiting_crc,
            received: self.received@,
            lost: self.lost@,
        }
    }

    pub closed spec fn wf(&self) -> bool {
        &&& valid_width(self.width as nat)
        &&& buf_contents(self.buffer).len() <= self.width
        &&& all_nonzero(buf_contents(self.buffer))
        &&& self.last matches Some(c) ==> c.wf() && c.width_spec() == self.width
    }

    pub closed spec fn loss_stats_spec(&self) -> LossStats {
        self.loss_stats
    }

    fn with_checksum(width: usize, loss_stats: LossStats, checksum_enabled: bool) -> (r: Self)
        requires
            valid_width(width as nat),
        ensures
            r.wf(),
            r.model() == rx_fresh(width as nat, checksum_enabled),
            r.loss_stats_spec() == loss_stats,
    {
        RxState {
            width,
            checksum_enabled,
            last: None,
            buffer: buf_new(),
            awaiting_crc: false,
            loss_stats,
            received: Ghost(0),
            lost: Ghost(0),
        }
    }

    /// A receiver of counters of `width` bytes that checks the CRC field.
    pub fn new(width: usize, loss_stats: LossStats) -> (r: Self)
        requires
            valid_width(width as nat),
        ensures
            r.wf(),
            r.model() == rx_fresh(width as nat, true),
            r.loss_stats_spec() == loss_stats,
    {
        Self::with_checksum(width, loss_stats, true)
    }

    /// A receiver of counters of `width` bytes that ignores the CRC field.
    pub fn new_without_checksum(width: usize, loss_stats: LossStats) -> (r: Self)
        requires
            valid_width(width as nat),
        ensures
            r.wf(),
            r.model() == rx_fresh(width as nat, false),
            r.loss_stats_spec() == loss_stats,
    {
        Self::with_checksum(width, loss_stats, false)
    }

    /// Forgets the last counter and any partial packet, and resets the loss statistics.
    pub fn reset(&mut self, now: Instant)
        requires
            old(self).wf(),
        ensures
            final(self).wf(),
            final(self).model() == rx_fresh(
                old(self).model().width,
                old(self).model().checksum_enabled,
            ),
            final(self).loss_stats_spec() == old(self).loss_stats_spec().reset_at(now),
    {
        self.last = None;
        buf_clear(&mut self.buffer);
        self.awaiting_crc = false;
        self.loss_stats.reset(now);
        self.received = Ghost(0);
        self.lost = Ghost(0);
    }

    /// The loss statistics.
    pub fn loss_stats(&self) -> (r: &LossStats)
        ensures
            *r == self.loss_stats_spec(),
    {
        &self.loss_stats
    }

    /// Records a decoded counter.
    fn on_new_number(&mut self, counter: Counter, now: Instant)
        requires
            old(self).wf(),
            counter.wf(),
            counter.width_spec() == old(self).width,
        ensures
            final(self).wf(),
            final(self).model() == (RxModel {
                last: Some(counter.index_spec()),
                received: old(self).model().received + 1,
                lost: old(self).model().lost + match old(self).model().last {
                    Some(l) => reported_gap(old(self).model().width, l, counter.index_spec()) as nat,
                    None => 0,
                },
                ..old(self).model()
            }),
            final(self).loss_stats_spec() == match old(self).model().last {
                Some(l) => old(self).loss_stats_spec().with_failed(
                    reported_gap(old(self).model().width, l, counter.index_spec()),
                    now,
                ).with_successful(1, now),
                None => old(self).loss_stats_spec().with_successful(1, now),
            },
    {
        if let Some(previous) = self.last {
            let d = previous.distance(&counter);
            let lost: u64 = if d == 0 {
                0
            } else {
                d - 1
            };
            let reported: usize = if lost > usize::MAX as u64 {
                usize::MAX
            } else {
                lost as usize
            };
            self.loss_stats.add_failed(reported, now);
            self.lost = Ghost(self.lost@ + reported as nat);
        }
        self.last = Some(counter);
        self.loss_stats.add_successful(1, now);
        self.received = Ghost(self.received@ + 1nat);
    }

    /// Consumes one received byte.
    pub fn on_byte_received(&mut self, byte: u8, now: Instant)
        requires
            old(self).wf(),
        ensures
            final(self).wf(),
            final(self).model() == rx_step(old(self).model(), byte),
            final(self).loss_stats_spec() == rx_report(
                old(self).loss_stats_spec(),
                old(self).model(),
                byte,
                now,
            ),
    {
        if !self.awaiting_crc {
            if byte == 0 {
                self.awaiting_crc = true;
                return;
            }
            if buf_as_slice(&self.buffer).len() >= self.width {
                buf_clear(&mut self.buffer);
            }
            let _ = buf_push(&mut self.buffer, byte);
            assert(self.model().buffer =~= rx_step(old(self).model(), byte).buffer);
            assert(all_nonzero(buf_contents(self.buffer))) by {
                let b = buf_contents(self.buffer);
                assert forall|i: int| 0 <= i < b.len() implies b[i] != 0 by {
                    if i < b.len() - 1 {
                        assert(b[i] == buf_contents(old(self).buffer)[i]);
                    }
                }
            }
        } else {
            let crc = if self.checksum_enabled {
                Some(byte)
            } else {
                None
            };
            let decoded = decode_packet(self.width, buf_as_slice(&self.buffer), crc);
            if let Some(bytes) = decoded {
                if let Some(counter) = Counter::from_le_bytes(self.width, buf_as_slice(&bytes)) {
                    self.on_new_number(counter, now);
                }
            }
            buf_clear(&mut self.buffer);
            self.awaiting_crc = false;
        }
    }

    /// Consumes the received bytes `bytes`, in order, all at `now`.
    pub fn on_bytes_received(&mut self, bytes: &[u8], now: Instant)
        requires
            old(self).wf(),
        ensures
            final(self).wf(),
            final(self).model() == rx_feed(old(self).model(), bytes@),
            final(self).loss_stats_spec() == rx_feed_report(
                old(self).loss_stats_spec(),
                old(self).model(),
                bytes@,
                now,
            ),
    {
        let mut i: usize = 0;
        assert(bytes@.subrange(0, bytes@.len() as int) =~= bytes@);
        while i < bytes.len()
            invariant
                i <= bytes@.len(),
                self.wf(),
                rx_feed(old(self).model(), bytes@) == rx_feed(
                    self.model(),
                    bytes@.subrange(i as int, bytes@.len() as int),
                ),
                rx_feed_report(old(self).loss_stats_spec(), old(self).model(), bytes@, now)
                    == rx_feed_report(
                    self.loss_stats_spec(),
                    self.model(),
                    bytes@.subrange(i as int, bytes@.len() as int),
                    now,
                ),
            decreases bytes@.len() - i,
        {
            let ghost rest = bytes@.subrange(i as int, bytes@.len() as int);
            assert(rest[0] == bytes@[i as int]);
            assert(rest.drop_first() =~= bytes@.subrange(i + 1, bytes@.len() as int));
            self.on_byte_received(bytes[i], now);
            i = i + 1;
        }
        assert(bytes@.subrange(i as int, bytes@.len() as int) =~= Seq::<u8>::empty());
    }
}

} // verus!
