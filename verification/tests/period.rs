use tradebot::strategy::lending::period::{period_by_rate, MAX_PERIOD, MIN_PERIOD};

#[test]
fn period_at_band_boundaries() {
    assert_eq!(period_by_rate(350_000), 5);
    assert_eq!(period_by_rate(400_000), 7);
    assert_eq!(period_by_rate(500_000), 15);
    assert_eq!(period_by_rate(600_000), 30);
    assert_eq!(period_by_rate(700_000), 70);
    assert_eq!(period_by_rate(800_000), 95);
    assert_eq!(period_by_rate(900_000), 2);
    assert_eq!(period_by_rate(1_000_000), 120);
}

#[test]
fn period_just_below_band_boundaries() {
    assert_eq!(period_by_rate(349_999), 2);
    assert_eq!(period_by_rate(399_999), 6);
    assert_eq!(period_by_rate(499_999), 14);
    assert_eq!(period_by_rate(599_999), 29);
    assert_eq!(period_by_rate(699_999), 69);
    assert_eq!(period_by_rate(799_999), 94);
    assert_eq!(period_by_rate(899_999), 114);
    assert_eq!(period_by_rate(999_999), 2);
}

#[test]
fn period_inside_bands_truncates() {
    // 4 * 3.75 - 9 = 6
    assert_eq!(period_by_rate(375_000), 6);
    // 8 * 4.3 - 25 = 9.4
    assert_eq!(period_by_rate(430_000), 9);
    // 15 * 5.5 - 60 = 22.5
    assert_eq!(period_by_rate(550_000), 22);
    // 40 * 6.33 - 210 = 43.2
    assert_eq!(period_by_rate(633_000), 43);
    // 25 * 7.77 - 105 = 89.25
    assert_eq!(period_by_rate(777_000), 89);
    // 20 * 8.2 - 65 = 99
    assert_eq!(period_by_rate(820_000), 99);
}

#[test]
fn period_outside_the_bands() {
    assert_eq!(period_by_rate(0), MIN_PERIOD);
    assert_eq!(period_by_rate(300_000), 2);
    assert_eq!(period_by_rate(1_000_001), MAX_PERIOD);
    assert_eq!(period_by_rate(u64::MAX), 120);
}

#[test]
fn period_stays_in_range_and_rises_below_the_last_band() {
    let mut previous = period_by_rate(0);
    let mut rate: u64 = 0;
    while rate < 900_000 {
        let days = period_by_rate(rate);
        assert!(days >= 2 && days <= 120);
        assert!(days >= previous, "period fell at rate {}", rate);
        previous = days;
        rate += 250;
    }
    let mut rate: u64 = 900_000;
    while rate < 1_200_000 {
        let days = period_by_rate(rate);
        assert!(days >= 2 && days <= 120);
        rate += 250;
    }
}

#[test]
fn period_falls_into_the_last_band() {
    assert!(period_by_rate(899_999) > period_by_rate(900_000));
    assert_eq!(period_by_rate(950_000), 2);
}
