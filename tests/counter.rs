use serial_perf::Counter;

fn counter(bytes: &[u8]) -> Counter {
    Counter::from_le_bytes(bytes.len(), bytes).unwrap()
}

#[test]
fn push_pop() {
    // The bytes of 5_u16 hold a zero, so they are no counter.
    assert!(Counter::from_le_bytes(2, &5_u16.to_le_bytes()).is_none());
    let mut test_counter = Counter::min_counter(2);
    let pop_value = test_counter.pop();
    assert_eq!(pop_value, Counter::min_counter(2));
    assert_eq!(test_counter, counter(&[0x02, 0x01]));

    test_counter.push();
    assert_eq!(test_counter, Counter::min_counter(2));
}

#[test]
fn distance() {
    let mut test_counter = counter(&[0x01, 0x01]);
    let pop_value = test_counter.pop();
    assert_eq!(pop_value.distance(&test_counter), 1);
}

#[test]
fn distance_overflow() {
    let mut test_counter = counter(&[0xFF, 0xFF]);
    let pop_value = test_counter.pop();
    assert_eq!(pop_value.distance(&test_counter), 1);
}

#[test]
fn interval_u8() {
    let max_counter = counter(&[0xFF]);
    let min_counter = counter(&[0x01]);
    assert_eq!(min_counter.distance(&max_counter), Counter::max_normalized(1));
}

#[test]
fn interval_u16() {
    let max_counter = counter(&[0xFF, 0xFF]);
    let min_counter = counter(&[0x01, 0x01]);
    assert_eq!(min_counter.distance(&max_counter), Counter::max_normalized(2));
}

#[test]
fn interval_u32() {
    let max_counter = counter(&[0xFF; 4]);
    let min_counter = counter(&[0x01; 4]);
    assert_eq!(min_counter.distance(&max_counter), Counter::max_normalized(4));
}

#[test]
fn interval_u64() {
    let max_counter = counter(&[0xFF; 8]);
    let min_counter = counter(&[0x01; 8]);
    assert_eq!(min_counter.distance(&max_counter), Counter::max_normalized(8));
    assert_eq!(Counter::max_normalized(8), 17_878_103_347_812_890_624);
    assert_eq!(Counter::max_counter(8).index(), Counter::max_normalized(8));
}

#[test]
fn distance_u8() {
    let mut test_counter = counter(&[0x01]);
    for _ in 0..255 {
        let pop_value = test_counter.pop();
        assert_eq!(pop_value.distance(&test_counter), 1);
        assert_eq!(test_counter.distance(&pop_value), 254);
        test_counter = pop_value;
    }
}

#[test]
fn distance_u16() {
    let mut test_counter = counter(&[0x01, 0x01]);
    for _ in 0..65025 {
        let pop_value = test_counter.pop();
        assert_eq!(pop_value.distance(&test_counter), 1);
    }
}

#[test]
fn distance_u16_big_diff() {
    let small = counter(&[0x01, 0x01]);
    let big = counter(&[0x01, 0x02]);

    assert_eq!(small.distance(&big), 255);
}

#[test]
fn distance_overflow_u8() {
    let mut test_counter = counter(&[0xFF]);
    let pop_value = test_counter.pop();
    assert_eq!(pop_value.distance(&test_counter), 1);
    assert_eq!(test_counter.distance(&pop_value), 254);
}

#[test]
fn next_and_prev_are_inverse() {
    for width in [1usize, 2, 4, 8] {
        for index in [0u64, 1, 254, 255, 256, 1000] {
            if let Some(c) = Counter::from_index(width, index) {
                assert_eq!(c.next().prev(), c);
                assert_eq!(c.prev().next(), c);
                assert_eq!(c.distance(&c.next()), 1);
            }
        }
        let max = Counter::max_counter(width);
        let min = Counter::min_counter(width);
        assert_eq!(max.next(), min);
        assert_eq!(min.prev(), max);
        assert_eq!(max.distance(&min), 1);
    }
}

#[test]
fn carry_runs_through_bytes() {
    assert_eq!(counter(&[0xFF, 0x01]).next(), counter(&[0x01, 0x02]));
    assert_eq!(counter(&[0x01, 0x02]).prev(), counter(&[0xFF, 0x01]));
    assert_eq!(counter(&[0xFF, 0xFF, 0x07, 0x01]).next(), counter(&[0x01, 0x01, 0x08, 0x01]));
    assert_eq!(counter(&[0x01, 0x02]).index(), 255);
}

#[test]
fn full_cycle_width_one() {
    let start = counter(&[0x01]);
    let mut c = start;
    let mut seen = [false; 256];
    for _ in 0..255 {
        let bytes = serial_perf::encode_packet(&c, false);
        assert_ne!(bytes[0], 0);
        assert!(!seen[bytes[0] as usize]);
        seen[bytes[0] as usize] = true;
        c = c.next();
    }
    assert_eq!(c, start);
    assert!(seen[1..].iter().all(|&s| s));
    assert_eq!(counter(&[0x01]).distance(&counter(&[0xFF])), 254);
    assert_eq!(counter(&[0xFF]).distance(&counter(&[0x01])), 1);
}

#[test]
fn from_le_bytes_rejects_zero_and_wrong_width() {
    assert!(Counter::from_le_bytes(2, &[0x05, 0x00]).is_none());
    assert!(Counter::from_le_bytes(2, &[0x05]).is_none());
    assert!(Counter::from_le_bytes(2, &[0x05, 0x01, 0x01]).is_none());
    assert_eq!(Counter::from_le_bytes(2, &[0x05, 0x01]).unwrap().index(), 4);
    assert!(Counter::from_index(1, 255).is_none());
    assert_eq!(Counter::from_index(1, 254).unwrap(), counter(&[0xFF]));
}
