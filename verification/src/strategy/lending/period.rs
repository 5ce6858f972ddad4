//! Loan duration as a function of the daily rate.
//!
//! The schedule is a staircase over the rate bands between 0.00035 and
//! 0.001, each with its own linear formula; the outcome is kept within the
//! durations the market accepts.

use vstd::prelude::*;

use crate::strategy::lending::Rate;

verus! {

/// Number of `Rate` units in a rate of one ten-thousandth.
pub const RATE_PER_TEN_THOUSANDTH: u64 = 100_000;

/// Shortest loan the market accepts, in days.
pub const MIN_PERIOD: u32 = 2;

/// Longest loan the market accepts, in days.
pub const MAX_PERIOD: u32 = 120;

/// Start of the lowest band: 0.00035.
pub const BAND_FLOOR: u64 = 350_000;

/// Start of the topmost band, whose formula falls below the shortest
/// loan: 0.0009.
pub const LAST_BAND_START: u64 = 900_000;

/// From this rate on the longest loan is chosen: 0.001.
pub const BAND_CEILING: u64 = 1_000_000;

/// Quotient of `a` by a positive `b`, rounded toward zero.
pub open spec fn trunc_div(a: int, b: int) -> int
    recommends
        b > 0,
{
    if a >= 0 {
        a / b
    } else {
        -((-a) / b)
    }
}

/// `slope * rate * 10000 - offset` for a rate given in billionths,
/// truncated toward zero.
pub open spec fn band_line(slope: int, offset: int, rate: int) -> int {
    trunc_div(slope * rate - offset * 100_000, 100_000)
}

/// The unclamped schedule: each band's own formula, the longest loan above
/// the bands and the shortest below them.
pub open spec fn band_period(rate: int) -> int {
    if rate >= 1_000_000 {
        120
    } else if rate >= 900_000 {
        band_line(5, 70, rate)
    } else if rate >= 800_000 {
        band_line(20, 65, rate)
    } else if rate >= 700_000 {
        band_line(25, 105, rate)
    } else if rate >= 600_000 {
        band_line(40, 210, rate)
    } else if rate >= 500_000 {
        band_line(15, 60, rate)
    } else if rate >= 400_000 {
        band_line(8, 25, rate)
    } else if rate >= 350_000 {
        band_line(4, 9, rate)
    } else {
        2
    }
}

/// `value` brought into `[2, 120]`.
pub open spec fn clamp_period(value: int) -> int {
    if value < 2 {
        2
    } else if value > 120 {
        120
    } else {
        value
    }
}

/// The loan duration, in days, that a rate justifies.
pub open spec fn period_of(rate: int) -> int {
    clamp_period(band_period(rate))
}

/// Evaluates one band's formula and clamps it.
fn band(slope: u64, offset: u64, rate: u64) -> (days: u32)
    requires
        slope <= 40,
        offset <= 210,
        rate < 1_000_000,
    ensures
        days as int == clamp_period(band_line(slope as int, offset as int, rate as int)),
{
    assert(slope * rate <= 40 * 1_000_000) by (nonlinear_arith)
        requires
            slope <= 40,
            rate < 1_000_000,
    ;
    let scaled: u64 = slope * rate;
    let shift: u64 = offset * RATE_PER_TEN_THOUSANDTH;
    if scaled < shift {
        // A negative value truncates to a number not above zero.
        MIN_PERIOD
    } else {
        let days: u64 = (scaled - shift) / RATE_PER_TEN_THOUSANDTH;
        if days < 2 {
            MIN_PERIOD
        } else if days > 120 {
            MAX_PERIOD
        } else {
            days as u32
        }
    }
}

/// Maps a rate to the loan duration offered at it.
pub fn period_by_rate(rate: Rate) -> (days: u32)
    ensures
        days as int == period_of(rate as int),
        MIN_PERIOD <= days <= MAX_PERIOD,
{
    if rate >= BAND_CEILING {
        MAX_PERIOD
    } else if rate >= LAST_BAND_START {
        band(5, 70, rate)
    } else if rate >= 800_000 {
        band(20, 65, rate)
    } else if rate >= 700_000 {
        band(25, 105, rate)
    } else if rate >= 600_000 {
        band(40, 210, rate)
    } else if rate >= 500_000 {
        band(15, 60, rate)
    } else if rate >= 400_000 {
        band(8, 25, rate)
    } else if rate >= BAND_FLOOR {
        band(4, 9, rate)
    } else {
        MIN_PERIOD
    }
}

/// The duration never leaves `[2, 120]`.
pub proof fn lemma_period_in_range(rate: int)
    ensures
        2 <= period_of(rate) <= 120,
{
}

/// Below the topmost band the schedule never shortens the loan as the
/// rate rises. A rate inside the topmost band maps to the shortest loan,
/// so the claim leaves out the pairs that climb into it from a band below.
pub proof fn lemma_period_monotonic(low: int, high: int)
    requires
        low <= high,
        !(350_000 <= low < 900_000 && 900_000 <= high < 1_000_000),
    ensures
        period_of(low) <= period_of(high),
{
}

/// The durations at the rates where one band ends and the next begins.
pub proof fn lemma_period_at_band_starts()
    ensures
        period_of(349_999) == 2,
        period_of(350_000) == 5,
        period_of(400_000) == 7,
        period_of(500_000) == 15,
        period_of(600_000) == 30,
        period_of(700_000) == 70,
        period_of(800_000) == 95,
        period_of(900_000) == 2,
        period_of(999_999) == 2,
        period_of(1_000_000) == 120,
{
}

} // verus!
