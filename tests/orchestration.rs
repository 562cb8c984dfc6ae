use serial_perf::{
    encode_packet, loop_outcome, AverageByteRateMeasurer, AvgRateStatistics, Counter, Counting,
    CountingStatistics, DummyStatistics, Duration, Instant, IntervalByteRateMeasurer,
    IntervalRateStatistics, Loopback, Outcome, Statistics,
};

fn at(nanos: u64) -> Instant {
    Instant::from_nanos(nanos)
}

#[test]
fn loop_outcome_table() {
    assert_eq!(loop_outcome::<u8>(Outcome::Done, Outcome::Done), Outcome::Done);
    assert_eq!(loop_outcome::<u8>(Outcome::WouldBlock, Outcome::WouldBlock), Outcome::WouldBlock);
    assert_eq!(loop_outcome::<u8>(Outcome::WouldBlock, Outcome::Done), Outcome::Done);
    assert_eq!(loop_outcome::<u8>(Outcome::Done, Outcome::WouldBlock), Outcome::Done);
    assert_eq!(loop_outcome(Outcome::Failed(1u8), Outcome::Done), Outcome::Failed(1));
    assert_eq!(loop_outcome(Outcome::Failed(1u8), Outcome::Failed(2)), Outcome::Failed(1));
    assert_eq!(loop_outcome(Outcome::WouldBlock, Outcome::Failed(2u8)), Outcome::Failed(2));
    assert_eq!(loop_outcome(Outcome::Done, Outcome::Failed(2u8)), Outcome::Failed(2));
}

#[test]
fn counting_endpoints_talk_to_each_other() {
    let mut a = Counting::new(
        2,
        CountingStatistics::new(),
        CountingStatistics::new(),
        CountingStatistics::new(),
    );
    let mut b = Counting::new(
        2,
        CountingStatistics::new(),
        CountingStatistics::new(),
        CountingStatistics::new(),
    );
    for i in 0..40u64 {
        let byte = a.byte_to_send();
        a.on_byte_sent(at(i));
        // Bytes 9 to 12 form the third packet; it is lost on the way.
        if !(8..12).contains(&i) {
            b.on_byte_received(byte, at(i));
        }
    }
    assert_eq!(a.tx_stats().successful(), 40);
    assert_eq!(b.rx_stats().successful(), 36);
    assert_eq!(b.loss_stats().successful(), 9);
    assert_eq!(b.loss_stats().failed(), 1);
    a.on_send_error(at(50));
    b.on_receive_error(at(50));
    assert_eq!(a.tx_stats().failed(), 1);
    assert_eq!(b.rx_stats().failed(), 1);
    b.reset(at(60));
    assert_eq!(b.loss_stats().successful(), 0);
    assert_eq!(b.rx_stats().total(), 0);
}

#[test]
fn counting_send_error_keeps_byte() {
    let mut c = Counting::new_without_checksum(
        1,
        CountingStatistics::new(),
        DummyStatistics,
        CountingStatistics::new(),
    );
    let first = c.byte_to_send();
    c.on_send_error(at(0));
    assert_eq!(c.byte_to_send(), first);
    c.on_byte_sent(at(1));
    assert_eq!(c.byte_to_send(), 0x00);
    c.on_byte_sent(at(2));
    assert_eq!(c.byte_to_send(), first);
    c.on_byte_sent(at(3));
    assert_eq!(c.byte_to_send(), encode_packet(&Counter::min_counter(1).next(), false)[0]);
}

#[test]
fn loopback_echoes_and_counts_overwrites() {
    let mut lb = Loopback::new(CountingStatistics::new(), CountingStatistics::new());
    assert_eq!(lb.byte_to_send(), None);
    lb.on_byte_received(7, at(0));
    assert_eq!(lb.byte_to_send(), Some(7));
    lb.on_byte_received(8, at(1));
    assert_eq!(lb.byte_to_send(), Some(8));
    assert_eq!(lb.tx_stats().failed(), 1);
    lb.on_byte_sent(at(2));
    assert_eq!(lb.byte_to_send(), None);
    assert_eq!(lb.tx_stats().successful(), 1);
    assert_eq!(lb.rx_stats().successful(), 2);
    lb.on_receive_error(at(3));
    lb.on_send_error(at(3));
    assert_eq!(lb.rx_stats().failed(), 1);
    assert_eq!(lb.tx_stats().failed(), 2);
    lb.reset_stats(at(4));
    assert_eq!(lb.tx_stats().total(), 0);
    assert_eq!(lb.rx_stats().total(), 0);
}

#[test]
fn average_measurer() {
    let mut m = AverageByteRateMeasurer::new();
    assert!(m.byte_rate(at(0)).is_none());
    assert!(!m.is_started());
    m.on_byte(10, at(1_000_000_000));
    m.on_byte(30, at(1_500_000_000));
    let rate = m.byte_rate(at(3_000_000_000)).unwrap();
    assert_eq!(rate.bytes(), 40);
    assert_eq!(rate.interval().as_secs(), 2);
    assert_eq!(rate.bytes_per_second(), Some(20));
    m.start(at(4_000_000_000));
    assert_eq!(m.byte_rate(at(4_000_000_000)).unwrap().bytes(), 0);
}

#[test]
fn interval_measurer_publishes_each_interval() {
    let second = 1_000_000_000u64;
    let mut m = IntervalByteRateMeasurer::new(Duration::from_secs(1), at(0));
    m.on_byte(5, at(100));
    m.on_byte(5, at(200));
    assert_eq!(m.byte_rate().bytes(), 0);
    m.on_byte(1, at(second + 10));
    assert_eq!(m.byte_rate().bytes(), 10);
    m.on_byte(2, at(second + 20));
    assert_eq!(m.byte_rate().bytes(), 10);
    // Intervals stay aligned to whole seconds: 3.9 s lies in the interval ending at 4 s.
    m.on_byte(4, at(3 * second + 900_000_000));
    assert_eq!(m.byte_rate().bytes(), 3);
    m.on_byte(4, at(4 * second - 1));
    assert_eq!(m.byte_rate().bytes(), 3);
    m.on_byte(1, at(4 * second));
    assert_eq!(m.byte_rate().bytes(), 8);
    m.reset(at(4 * second + 5));
    assert_eq!(m.byte_rate().bytes(), 0);
    assert_eq!(m.byte_rate().interval().as_secs(), 1);
}

#[test]
fn avg_rate_statistics_share_start() {
    let mut s = AvgRateStatistics::new();
    assert!(s.success_rate(at(0)).is_none());
    s.add_successful(10, at(1_000_000_000));
    let failed = s.failed_rate(at(3_000_000_000)).unwrap();
    assert_eq!(failed.bytes(), 0);
    assert_eq!(failed.interval().as_secs(), 2);
    s.add_failed(4, at(2_000_000_000));
    assert_eq!(s.failed_rate(at(3_000_000_000)).unwrap().bytes(), 4);
    assert_eq!(s.success_rate(at(3_000_000_000)).unwrap().bytes_per_second(), Some(5));
    s.reset(at(5_000_000_000));
    assert_eq!(s.success_rate(at(6_000_000_000)).unwrap().bytes(), 0);
}

#[test]
fn interval_rate_statistics() {
    let mut s = IntervalRateStatistics::new(Duration::from_millis(100), at(0));
    s.add_successful(3, at(10));
    s.add_failed(1, at(20));
    s.add_successful(1, at(100_000_001));
    s.add_failed(1, at(100_000_002));
    assert_eq!(s.success_rate().bytes(), 3);
    assert_eq!(s.failed_rate().bytes(), 1);
    s.reset(at(100_000_003));
    assert_eq!(s.success_rate().bytes(), 0);
    assert_eq!(s.failed_rate().bytes(), 0);
}

#[test]
fn dummy_statistics_accept_anything() {
    let mut d = DummyStatistics;
    d.add_successful(usize::MAX, at(0));
    d.add_failed(usize::MAX, at(0));
    d.reset(at(0));
}
