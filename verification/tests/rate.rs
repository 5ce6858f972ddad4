use tradebot::error::Error;
use tradebot::strategy::lending::rate::{estimate_rate, funding_symbol, WINDOW_MS};
use tradebot::strategy::lending::Trade;

const NOW: i64 = 1_700_000_000_000;

fn trade(mts: i64, rate: u64) -> Trade {
    Trade { mts, amount: -10_000, rate, period: 2 }
}

#[test]
fn estimate_blends_highest_and_mean_of_the_window() {
    let trades = vec![
        trade(NOW - 1_000, 300_000),
        trade(NOW - 4 * 3_600_000, 900_000),
        trade(NOW - 2_000, 500_000),
        trade(NOW - 3_000, 400_000),
    ];
    // 0.8 * 500_000 + 0.2 * 400_000
    assert_eq!(estimate_rate(&trades, NOW), Ok(480_000));
}

#[test]
fn estimate_rounds_mean_and_blend_down() {
    let trades = vec![trade(NOW, 1), trade(NOW, 2)];
    // mean 1, (4 * 2 + 1) / 5 = 1
    assert_eq!(estimate_rate(&trades, NOW), Ok(1));
    let trades = vec![trade(NOW, 7), trade(NOW, 8), trade(NOW, 10)];
    // mean 8, (40 + 8) / 5 = 9
    assert_eq!(estimate_rate(&trades, NOW), Ok(9));
}

#[test]
fn estimate_of_a_single_trade_is_its_rate() {
    let trades = vec![trade(NOW - 5, 123_456)];
    assert_eq!(estimate_rate(&trades, NOW), Ok(123_456));
}

#[test]
fn estimate_falls_back_when_all_trades_are_old() {
    let trades = vec![
        trade(NOW - 5 * 3_600_000, 200_000),
        trade(NOW - 4 * 3_600_000, 600_000),
        trade(NOW - 6 * 3_600_000, 400_000),
    ];
    // 0.8 * 600_000 + 0.2 * 400_000
    assert_eq!(estimate_rate(&trades, NOW), Ok(560_000));
}

#[test]
fn estimate_window_is_open_at_three_hours() {
    // A trade exactly three hours old is outside the window; one a
    // millisecond younger is inside.
    let old = vec![trade(NOW - WINDOW_MS, 100_000), trade(NOW - WINDOW_MS - 1, 900_000)];
    // fallback over both: (4 * 900_000 + 500_000) / 5
    assert_eq!(estimate_rate(&old, NOW), Ok(820_000));
    let fresh = vec![trade(NOW - WINDOW_MS + 1, 100_000), trade(NOW - WINDOW_MS - 1, 900_000)];
    assert_eq!(estimate_rate(&fresh, NOW), Ok(100_000));
}

#[test]
fn estimate_fallback_takes_the_hundred_most_recent() {
    let base = NOW - 10 * 3_600_000;
    let mut trades = Vec::new();
    for i in 0..150i64 {
        let rate = if i < 50 { 1_000_000 } else { 200_000 };
        trades.push(trade(base + i, rate));
    }
    assert_eq!(estimate_rate(&trades, NOW), Ok(200_000));
    // One of the old ones moves into the hundred.
    trades[0].mts = base + 1_000;
    // highest 1_000_000, mean (99 * 200_000 + 1_000_000) / 100 = 208_000
    assert_eq!(estimate_rate(&trades, NOW), Ok(841_600));
}

#[test]
fn estimate_fallback_ignores_the_order_of_the_record() {
    let base = NOW - 10 * 3_600_000;
    let mut trades = Vec::new();
    // Most recent first.
    for i in 0..150i64 {
        let rate = if i < 100 { 300_000 } else { 900_000 };
        trades.push(trade(base - i, rate));
    }
    assert_eq!(estimate_rate(&trades, NOW), Ok(300_000));
}

#[test]
fn estimate_fallback_breaks_ties_by_position() {
    let at = NOW - 10 * 3_600_000;
    let mut trades = vec![trade(at, 1_000_000)];
    for _ in 0..100 {
        trades.push(trade(at, 100_000));
    }
    // Of equal instants the later records count as the more recent.
    assert_eq!(estimate_rate(&trades, NOW), Ok(100_000));
}

#[test]
fn estimate_without_trades_is_unavailable() {
    let trades: Vec<Trade> = Vec::new();
    assert_eq!(estimate_rate(&trades, NOW), Err(Error::DataUnavailable));
}

#[test]
fn estimate_takes_extreme_values() {
    let trades = vec![trade(i64::MAX, u64::MAX), trade(i64::MIN, u64::MAX)];
    assert_eq!(estimate_rate(&trades, i64::MIN), Ok(u64::MAX));
    assert_eq!(estimate_rate(&trades, i64::MAX), Ok(u64::MAX));
}

#[test]
fn funding_symbol_qualifies_the_symbol() {
    assert_eq!(funding_symbol("USD"), "fUSD");
    assert_eq!(funding_symbol(""), "f");
}
