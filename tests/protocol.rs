use serial_perf::{
    crc8, decode_packet, encode_bytes, encode_packet, Counter, CountingStatistics, Instant, RxState, Statistics,
    TxState,
};

fn counter(bytes: &[u8]) -> Counter {
    Counter::from_le_bytes(bytes.len(), bytes).unwrap()
}

fn t0() -> Instant {
    Instant::from_nanos(0)
}

fn feed(rx: &mut RxState<CountingStatistics>, bytes: &[u8]) {
    for &b in bytes {
        rx.on_byte_received(b, t0());
    }
}

fn stream(counters: &[Counter], checksum: bool) -> Vec<u8> {
    let mut out = Vec::new();
    for c in counters {
        out.extend_from_slice(&encode_packet(c, checksum));
    }
    out
}

#[test]
fn crc_check_value() {
    assert_eq!(crc8(b"123456789"), 0xDF);
    assert_eq!(crc8(&[0x01, 0x01]), 0x81);
    assert_eq!(crc8(&[0x01, 0x02]), 0xF0);
}

#[test]
fn encode_minimum() {
    let packet = encode_packet(&counter(&[0x01, 0x01]), true);
    assert_eq!(packet.as_slice(), &[0x01, 0x01, 0x00, 0x81]);
}

#[test]
fn encode_second_byte_counter() {
    let packet = encode_packet(&counter(&[0x01, 0x02]), true);
    assert_eq!(packet.as_slice(), &[0x01, 0x02, 0x00, 0xF0]);
    let next_of_min = encode_packet(&Counter::min_counter(2).next(), true);
    assert_eq!(&next_of_min[..3], &[0x02, 0x01, 0x00]);
}

#[test]
fn encode_without_checksum_repeats_first_byte() {
    let packet = encode_packet(&counter(&[0x05, 0x01]), false);
    assert_eq!(packet.as_slice(), &[0x05, 0x01, 0x00, 0x05]);
    assert_eq!(encode_bytes(&[0x05, 0x01], true).as_slice(), encode_packet(&counter(&[0x05, 0x01]), true).as_slice());
}

#[test]
fn double_conversion() {
    let test_counter = 5_u16;
    let as_le_bytes = test_counter.to_le_bytes();
    let packet = encode_bytes(&as_le_bytes, true);
    assert_eq!(packet.len(), 2 + 1 + 1);
    let crc = packet[3];
    let recv_bytes = decode_packet(2, &packet[..2], Some(crc)).expect("failed to create from slice");
    assert_eq!(recv_bytes.as_slice(), &as_le_bytes);
    let recv_value = u16::from_le_bytes([recv_bytes[0], recv_bytes[1]]);
    assert_eq!(recv_value, test_counter);
}

#[test]
fn double_conversion_no_checksum() {
    let test_counter = 5_u16;
    let as_le_bytes = test_counter.to_le_bytes();
    let packet = encode_bytes(&as_le_bytes, false);
    assert_eq!(packet.len(), 2 + 1 + 1);
    let _crc = packet[3];
    let recv_bytes = decode_packet(2, &packet[..2], None).expect("failed to create from slice");
    assert_eq!(recv_bytes.as_slice(), &as_le_bytes);
    let recv_value = u16::from_le_bytes([recv_bytes[0], recv_bytes[1]]);
    assert_eq!(recv_value, test_counter);
}

#[test]
fn decode_rejects_bad_input() {
    assert!(decode_packet(2, &[0x01, 0x01], Some(0x80)).is_none());
    assert!(decode_packet(2, &[0x01], None).is_none());
    assert_eq!(decode_packet(2, &[0x01, 0x00], None).unwrap().as_slice(), &[0x01, 0x00]);
    assert_eq!(decode_packet(2, &[0x01, 0x01], Some(0x81)).unwrap().as_slice(), &[0x01, 0x01]);
    assert!(Counter::from_le_bytes(2, &[0x01, 0x00]).is_none());
}

#[test]
fn round_trip_every_width() {
    for width in [1usize, 2, 4, 8] {
        let mut c = Counter::min_counter(width);
        for _ in 0..600 {
            let p = encode_packet(&c, true);
            assert_eq!(p.len(), width + 2);
            assert_eq!(p[width], 0);
            assert!(p[..width].iter().all(|&b| b != 0));
            let bytes = decode_packet(width, &p[..width], Some(p[width + 1])).unwrap();
            assert_eq!(Counter::from_le_bytes(width, &bytes), Some(c));
            c = c.next();
        }
    }
}

#[test]
fn single_bit_flip_is_detected() {
    for width in [1usize, 2, 4, 8] {
        let mut c = Counter::min_counter(width);
        for _ in 0..300 {
            let p = encode_packet(&c, true);
            for byte in 0..width {
                for bit in 0..8 {
                    let mut bytes = p[..width].to_vec();
                    bytes[byte] ^= 1 << bit;
                    assert!(decode_packet(width, &bytes, Some(p[width + 1])).is_none());
                }
            }
            c = c.next();
        }
    }
}

#[test]
fn transmitter_emits_consecutive_packets() {
    let mut tx = TxState::new(2);
    let mut out = Vec::new();
    assert_eq!(tx.peek(), 0x01);
    assert_eq!(tx.peek(), 0x01);
    for _ in 0..12 {
        out.push(tx.take());
    }
    let min = Counter::min_counter(2);
    assert_eq!(out, stream(&[min, min.next(), min.next().next()], true));
    tx.reset();
    assert_eq!(tx.take(), 0x01);
    let mut plain = TxState::new_without_checksum(1);
    let bytes: Vec<u8> = (0..6).map(|_| plain.take()).collect();
    assert_eq!(bytes, vec![0x01, 0x00, 0x01, 0x02, 0x00, 0x02]);
}

#[test]
fn receiver_counts_unbroken_chain() {
    let mut rx = RxState::new(2, CountingStatistics::new());
    let mut chain = vec![Counter::min_counter(2).prev().prev()];
    for _ in 0..20 {
        let last = *chain.last().unwrap();
        chain.push(last.next());
    }
    feed(&mut rx, &stream(&chain, true));
    assert_eq!(rx.loss_stats().successful(), 21);
    assert_eq!(rx.loss_stats().failed(), 0);
}

#[test]
fn receiver_counts_removed_packets() {
    let mut chain = vec![Counter::min_counter(4)];
    for _ in 0..29 {
        let last = *chain.last().unwrap();
        chain.push(last.next());
    }
    let kept: Vec<Counter> =
        chain.iter().enumerate().filter(|(i, _)| ![3, 4, 10, 17, 28].contains(i)).map(|(_, c)| *c).collect();
    let mut rx = RxState::new(4, CountingStatistics::new());
    feed(&mut rx, &stream(&kept, true));
    assert_eq!(rx.loss_stats().successful(), 25);
    assert_eq!(rx.loss_stats().failed(), 5);
}

#[test]
fn loss_counting_one_skipped() {
    let min = Counter::min_counter(2);
    let third = min.next().next();
    let fourth = third.next();
    let mut rx = RxState::new(2, CountingStatistics::new());
    feed(&mut rx, &stream(&[min, third, fourth], true));
    assert_eq!(rx.loss_stats().successful(), 3);
    assert_eq!(rx.loss_stats().failed(), 1);
}

#[test]
fn loss_counting_by_second_byte() {
    let mut rx = RxState::new(2, CountingStatistics::new());
    let counters = [counter(&[0x01, 0x01]), counter(&[0x01, 0x03]), counter(&[0x01, 0x04])];
    feed(&mut rx, &stream(&counters, true));
    assert_eq!(rx.loss_stats().successful(), 3);
    assert_eq!(rx.loss_stats().failed(), 509 + 254);
}

#[test]
fn desync_recovery() {
    let mut rx = RxState::new(2, CountingStatistics::new());
    feed(&mut rx, &[0xAA, 0xBB, 0xCC, 0x00, 0x00]);
    assert_eq!(rx.loss_stats().successful(), 0);
    feed(&mut rx, &[0x01, 0x02, 0x00, 0xF0]);
    assert_eq!(rx.loss_stats().successful(), 1);
    assert_eq!(rx.loss_stats().failed(), 0);
    feed(&mut rx, &encode_packet(&counter(&[0x02, 0x02]), true));
    assert_eq!(rx.loss_stats().successful(), 2);
    assert_eq!(rx.loss_stats().failed(), 0);
}

#[test]
fn bad_crc_is_dropped_without_checksum_it_is_ignored() {
    let mut rx = RxState::new(1, CountingStatistics::new());
    feed(&mut rx, &[0x05, 0x00, 0x77]);
    assert_eq!(rx.loss_stats().successful(), 0);
    let mut plain = RxState::new_without_checksum(1, CountingStatistics::new());
    feed(&mut plain, &[0x05, 0x00, 0x77, 0x07, 0x00, 0x01]);
    assert_eq!(plain.loss_stats().successful(), 2);
    assert_eq!(plain.loss_stats().failed(), 1);
    plain.reset(t0());
    assert_eq!(plain.loss_stats().successful(), 0);
    feed(&mut plain, &[0x09, 0x00, 0x00]);
    assert_eq!(plain.loss_stats().successful(), 1);
    assert_eq!(plain.loss_stats().failed(), 0);
}

#[test]
fn repeated_counter_loses_nothing() {
    let c = counter(&[0x03]);
    let mut rx = RxState::new(1, CountingStatistics::new());
    feed(&mut rx, &stream(&[c, c], true));
    assert_eq!(rx.loss_stats().successful(), 2);
    assert_eq!(rx.loss_stats().failed(), 0);
}

#[test]
fn wrap_around_loses_nothing() {
    let max = Counter::max_counter(1);
    let mut rx = RxState::new(1, CountingStatistics::new());
    feed(&mut rx, &stream(&[max, max.next()], true));
    assert_eq!(rx.loss_stats().failed(), 0);
    let mut stats = CountingStatistics::default();
    stats.add_failed(usize::MAX, t0());
    stats.add_failed(3, t0());
    stats.add_successful(2, t0());
    assert_eq!(stats.failed(), usize::MAX);
    assert_eq!(stats.total(), usize::MAX);
}

#[test]
fn bulk_receive_matches_byte_by_byte() {
    let min = Counter::min_counter(1);
    let bytes = stream(&[min, min.next().next(), min.next().next().next()], false);
    let mut bulk = RxState::new_without_checksum(1, CountingStatistics::new());
    bulk.on_bytes_received(&bytes, t0());
    assert_eq!(bulk.loss_stats().successful(), 3);
    assert_eq!(bulk.loss_stats().failed(), 1);
}
