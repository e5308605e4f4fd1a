use botnet_tracker::connection::Connection;

/// Multiply a little-endian decimal digit vector by a small constant,
/// mirroring the exact weight arithmetic, for expected values.
fn mul_digits(v: &[u8], m: u32) -> Vec<u8> {
    let mut r: Vec<u8> = Vec::new();
    let mut carry: u32 = 0;
    for &d in v {
        let t = d as u32 * m + carry;
        r.push((t % 10) as u8);
        carry = t / 10;
    }
    while carry > 0 {
        r.push((carry % 10) as u8);
        carry /= 10;
    }
    r
}

#[test]
fn fresh_entry_has_weight_100() {
    let c = Connection::new(1000);
    assert_eq!(c.last, 1000);
    assert_eq!(c.current, 1000);
    assert_eq!(c.num, vec![0, 0, 1]);
    assert_eq!(c.den, vec![1]);
}

#[test]
fn timestamps_rotate_and_stay_ordered() {
    let mut c = Connection::new(1000);
    let mut t = 1000u64;
    for i in 0..50u64 {
        t += 100 + 37 * (i % 7);
        c.update(t);
        assert!(c.last <= c.current);
        assert_eq!(c.current, t);
    }
}

#[test]
fn burst_update_scales_by_nine_tenths() {
    let mut c = Connection::new(0);
    let alarm = c.update(499);
    // weight 100 * 0.9 = 90
    assert_eq!(c.num, mul_digits(&[0, 0, 1], 9));
    assert_eq!(c.den, vec![0, 1]);
    assert!(!alarm);
}

#[test]
fn gap_of_exactly_500_ms_is_not_a_burst() {
    let mut c = Connection::new(0);
    let alarm = c.update(500);
    // weight 100 * 20.2 = 2020
    assert_eq!(c.num, mul_digits(&[0, 0, 1], 202));
    assert_eq!(c.den, vec![0, 1]);
    assert!(!alarm);
}

#[test]
fn burst_decay_crosses_one_at_forty_four_updates() {
    let mut c = Connection::new(0);
    let mut expected_num: Vec<u8> = vec![0, 0, 1];
    let mut expected_den: Vec<u8> = vec![1];
    let mut t = 0u64;
    for n in 1..=44u32 {
        t += 100;
        let alarm = c.update(t);
        expected_num = mul_digits(&expected_num, 9);
        expected_den = mul_digits(&expected_den, 10);
        // the weight is exactly 100 * 0.9^n
        assert_eq!(c.num, expected_num, "numerator after {} updates", n);
        assert_eq!(c.den, expected_den, "denominator after {} updates", n);
        if n <= 43 {
            assert!(!alarm, "weight still at or above one after {} updates", n);
        } else {
            assert!(alarm, "weight below one after {} updates", n);
        }
    }
}

#[test]
fn two_slow_updates_recover_from_deep_decay() {
    let mut c = Connection::new(0);
    let mut t = 0u64;
    // decay far below one: 100 burst arrivals
    for _ in 0..100 {
        t += 100;
        c.update(t);
    }
    // two arrivals with 500 ms gaps multiply the weight by 20.2 twice
    t += 500;
    c.update(t);
    t += 500;
    let alarm = c.update(t);
    assert!(!alarm, "two slow updates bring the weight back to one or above");
}
