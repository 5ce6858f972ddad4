use tradebot::strategy::lending::allocate::{allocate, fair_offer_pairs, OfferRequest};
use tradebot::strategy::lending::period::period_by_rate;
use tradebot::strategy::lending::{Book, Config, Limits};

fn config() -> Config {
    Config {
        symbol: "fUSD".to_string(),
        lending_size: Some(20_000),
        min_apy: Some(300_000),
        max_apy: Some(820_000),
        reserved_amount_1: Some(100_000),
        reserved_amount_2: Some(150_000),
    }
}

fn ask(rate: u64, period: u32) -> Book {
    Book { amount: -50_000, rate, period }
}

fn offer(rate: u64, period: u32) -> OfferRequest {
    OfferRequest { amount: 20_000, rate, period }
}

#[test]
fn config_defaults() {
    let limits = Config::new("fUSD".to_string()).limits();
    assert_eq!(
        limits,
        Limits {
            lending_size: 20_000,
            min_apy: 300_000,
            max_apy: 820_000,
            reserved_1: 100_000,
            reserved_2: 150_000,
        }
    );
    let limits = config().limits();
    assert_eq!(limits.reserved_2, 150_000);
    let mut custom = Config::new("fUSD".to_string());
    custom.lending_size = Some(5);
    custom.reserved_amount_2 = Some(7);
    assert_eq!(custom.limits().lending_size, 5);
    assert_eq!(custom.limits().reserved_1, 100_000);
    assert_eq!(custom.limits().reserved_2, 7);
}

#[test]
fn allocate_nothing_below_one_lending_size() {
    let books = vec![ask(950_000, 2), ask(400_000, 2)];
    assert_eq!(allocate(19_999, 400_000, &books, &config()), vec![]);
    assert_eq!(allocate(0, 900_000, &books, &config()), vec![]);
}

#[test]
fn allocate_one_offer_from_a_small_balance() {
    // balance 250, lending size 200, fair rate above the minimum
    let books = vec![ask(950_000, 2), ask(400_000, 2), ask(410_000, 30)];
    let fair = 400_000;
    let offers = allocate(25_000, fair, &books, &config());
    assert_eq!(offers, vec![offer(fair, period_by_rate(fair))]);
    assert_eq!(offers[0].period, 7);
}

#[test]
fn allocate_exactly_one_lending_size() {
    let books = vec![ask(950_000, 2)];
    assert_eq!(allocate(20_000, 400_000, &books, &config()), vec![offer(400_000, 7)]);
}

#[test]
fn allocate_tiers_above_the_maximum_in_descending_order() {
    // balance 1500, floors 1000 and 1500, lending size 200
    let books = vec![ask(900_000, 2), ask(850_000, 30), ask(950_000, 2)];
    let fair = 400_000;
    let offers = allocate(150_000, fair, &books, &config());
    assert_eq!(
        offers,
        vec![offer(400_000, 7), offer(950_000, 2), offer(900_000, 2), offer(850_000, 105)]
    );
}

#[test]
fn allocate_stops_when_one_lending_size_is_left() {
    let books = vec![ask(900_000, 2), ask(850_000, 30), ask(950_000, 2)];
    // 600 - 200 (fair) - 200 (first tier) leaves 200, which is not more
    // than one lending size.
    let offers = allocate(60_000, 400_000, &books, &config());
    assert_eq!(offers, vec![offer(400_000, 7), offer(950_000, 2)]);
}

#[test]
fn allocate_skips_the_fair_offer_when_rate_and_balance_are_low() {
    let books = vec![ask(950_000, 2)];
    // fair below the minimum, balance not above the first floor
    let offers = allocate(100_000, 200_000, &books, &config());
    assert_eq!(offers, vec![offer(950_000, 2)]);
    // balance above the first floor: the fair offer is placed
    let offers = allocate(100_001, 200_000, &books, &config());
    assert_eq!(offers, vec![offer(200_000, 2), offer(950_000, 2)]);
}

#[test]
fn allocate_modest_tier_needs_the_first_floor() {
    // 0.0005 is near the fair rate; its rate justifies 15 days.
    let books = vec![ask(500_000, 10)];
    let offers = allocate(120_001, 500_000, &books, &config());
    // after the fair offer 100_001 is left, above the first floor
    assert_eq!(offers, vec![offer(500_000, 15), offer(500_000, 15)]);
    let offers = allocate(120_000, 500_000, &books, &config());
    assert_eq!(offers, vec![offer(500_000, 15)]);
}

#[test]
fn allocate_short_loan_above_the_second_floor() {
    // Near the fair rate, but the tier asks for more days than its rate
    // justifies: only the short-loan rule can take it.
    let books = vec![ask(330_000, 4)];
    let fair = 320_000;
    let offers = allocate(200_000, fair, &books, &config());
    assert_eq!(offers, vec![offer(320_000, 2), offer(330_000, 4)]);
    // 170_000 - 20_000 is not above the second floor
    let offers = allocate(170_000, fair, &books, &config());
    assert_eq!(offers, vec![offer(320_000, 2)]);
    // six days is not short
    let books = vec![ask(330_000, 6)];
    let offers = allocate(200_000, fair, &books, &config());
    assert_eq!(offers, vec![offer(320_000, 2)]);
}

#[test]
fn allocate_short_loan_may_overdraw_under_a_low_second_floor() {
    let mut low = config();
    low.reserved_amount_2 = Some(0);
    let books = vec![ask(330_000, 4)];
    // 250 - 200 leaves 50, above a floor of zero
    let offers = allocate(25_000, 320_000, &books, &low);
    assert_eq!(offers, vec![offer(320_000, 2), offer(330_000, 4)]);
}

#[test]
fn allocate_never_exceeds_the_balance_with_default_floors() {
    let mut books = Vec::new();
    for i in 0..40u64 {
        books.push(ask(300_000 + i * 20_000, (i % 7) as u32 + 1));
    }
    let defaults = Config::new("fUSD".to_string());
    for balance in [0u64, 19_999, 20_000, 45_000, 100_000, 100_001, 150_001, 333_333, 900_000] {
        for fair in [0u64, 250_000, 400_000, 700_000, 990_000] {
            let offers = allocate(balance, fair, &books, &defaults);
            assert!(offers.len() as u64 * 20_000 <= balance);
            for o in &offers {
                assert_eq!(o.amount, 20_000);
            }
            let skip = if !offers.is_empty() && offers[0].rate == fair { 1 } else { 0 };
            for pair in offers[skip..].windows(2) {
                assert!(pair[0].rate >= pair[1].rate);
            }
        }
    }
}

#[test]
fn pairs_hold_asks_near_fair_or_short_enough() {
    let fair = 500_000;
    let books = vec![
        // bid side
        Book { amount: 50_000, rate: 500_000, period: 2 },
        // nothing offered
        Book { amount: 0, rate: 500_000, period: 2 },
        // near fair, far longer than justified
        ask(510_000, 120),
        // far from fair, as long as justified (95 days)
        ask(800_000, 95),
        // far from fair, longer than justified
        ask(800_000, 96),
        // 5% below fair exactly
        ask(475_000, 120),
        // just beyond 5%
        ask(474_999, 120),
    ];
    assert_eq!(
        fair_offer_pairs(&books, fair),
        vec![(800_000, 95), (510_000, 120), (475_000, 120)]
    );
}

#[test]
fn pairs_of_equal_rate_keep_their_order() {
    let books = vec![ask(400_000, 3), ask(600_000, 5), ask(400_000, 1), ask(600_000, 4), ask(400_000, 2)];
    assert_eq!(
        fair_offer_pairs(&books, 400_000),
        vec![(600_000, 5), (600_000, 4), (400_000, 3), (400_000, 1), (400_000, 2)]
    );
}

#[test]
fn pairs_with_a_fair_rate_of_zero() {
    // Nothing is near a fair rate of zero; the duration still qualifies.
    let books = vec![ask(0, 2), ask(0, 3)];
    assert_eq!(fair_offer_pairs(&books, 0), vec![(0, 2)]);
}
