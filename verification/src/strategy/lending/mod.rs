//! The funding-market lending strategy: its data model, the rate model,
//! the duration schedule, offer reconciliation, capital allocation and the
//! tick that strings them together.

pub mod allocate;
pub mod period;
pub mod rate;
pub mod reconcile;
pub mod tick;

use vstd::prelude::*;

verus! {

/// A daily lending rate in billionths: `300_000` is 0.03% per day.
pub type Rate = u64;

/// A quantity of the lent currency in hundredths of its unit.
pub type Amount = u64;

/// An instant in milliseconds since the Unix epoch, UTC.
pub type Millis = i64;

/// Offer size used when the configuration names none: 200.00.
pub const DEFAULT_LENDING_SIZE: Amount = 20_000;

/// Lowest acceptable rate when the configuration names none: 0.0003.
pub const DEFAULT_MIN_APY: Rate = 300_000;

/// Rate above which any tier is taken when the configuration names none:
/// 0.00082.
pub const DEFAULT_MAX_APY: Rate = 820_000;

/// First balance floor when the configuration names none: 1000.00.
pub const DEFAULT_RESERVED_1: Amount = 100_000;

/// Second balance floor when the configuration names none: 1500.00.
pub const DEFAULT_RESERVED_2: Amount = 150_000;

/// A snapshot of the funding market as the exchange reports it.
#[derive(Clone, Copy, Debug, PartialEq, Eq, Structural)]
pub struct Info {
    /// Current market yield for lenders.
    pub yield_lend: Rate,
    /// Average duration of the loans lent, in hundredths of a day.
    pub duration_lend: u64,
}

/// A lending offer of this account that nobody has taken yet.
#[derive(Clone, Debug)]
pub struct Offer {
    pub id: u32,
    pub symbol: String,
    pub rate: Rate,
    pub mts_created: Millis,
}

/// One level of the funding order book. A negative amount is on the ask
/// (lending) side, a positive one on the bid (borrowing) side.
#[derive(Clone, Copy, Debug, PartialEq, Eq, Structural)]
pub struct Book {
    pub amount: i64,
    pub rate: Rate,
    pub period: u32,
}

/// A funding trade that took place on the market.
#[derive(Clone, Copy, Debug, PartialEq, Eq, Structural)]
pub struct Trade {
    pub mts: Millis,
    pub amount: i64,
    pub rate: Rate,
    pub period: u32,
}

/// Parameters of one lending strategy. A field left out takes its default.
#[derive(Clone, Debug)]
pub struct Config {
    pub symbol: String,
    pub lending_size: Option<Amount>,
    pub min_apy: Option<Rate>,
    pub max_apy: Option<Rate>,
    pub reserved_amount_1: Option<Amount>,
    pub reserved_amount_2: Option<Amount>,
}

/// The thresholds of a configuration with every default filled in.
#[derive(Clone, Copy, Debug, PartialEq, Eq, Structural)]
pub struct Limits {
    /// Amount of every offer.
    pub lending_size: Amount,
    /// Rate from which an offer is acceptable.
    pub min_apy: Rate,
    /// Rate above which a tier is taken whatever its duration.
    pub max_apy: Rate,
    /// Balance above which offers at modest rates are placed.
    pub reserved_1: Amount,
    /// Balance above which short loans are placed.
    pub reserved_2: Amount,
}

/// `value` if present, else `fallback`.
pub open spec fn or_default(value: Option<u64>, fallback: u64) -> u64 {
    match value {
        Some(v) => v,
        None => fallback,
    }
}

fn unwrap_or(value: Option<u64>, fallback: u64) -> (r: u64)
    ensures
        r == or_default(value, fallback),
{
    match value {
        Some(v) => v,
        None => fallback,
    }
}

impl Config {
    /// The thresholds this configuration stands for.
    pub open spec fn spec_limits(&self) -> Limits {
        Limits {
            lending_size: or_default(self.lending_size, DEFAULT_LENDING_SIZE),
            min_apy: or_default(self.min_apy, DEFAULT_MIN_APY),
            max_apy: or_default(self.max_apy, DEFAULT_MAX_APY),
            reserved_1: or_default(self.reserved_amount_1, DEFAULT_RESERVED_1),
            reserved_2: or_default(self.reserved_amount_2, DEFAULT_RESERVED_2),
        }
    }

    /// A configuration for `symbol` with every threshold at its default.
    pub fn new(symbol: String) -> (config: Config)
        ensures
            config.symbol == symbol,
            config.lending_size.is_none(),
            config.min_apy.is_none(),
            config.max_apy.is_none(),
            config.reserved_amount_1.is_none(),
            config.reserved_amount_2.is_none(),
    {
        Config {
            symbol,
            lending_size: None,
            min_apy: None,
            max_apy: None,
            reserved_amount_1: None,
            reserved_amount_2: None,
        }
    }

    /// Fills in the defaults.
    pub fn limits(&self) -> (limits: Limits)
        ensures
            limits == self.spec_limits(),
    {
        Limits {
            lending_size: unwrap_or(self.lending_size, DEFAULT_LENDING_SIZE),
            min_apy: unwrap_or(self.min_apy, DEFAULT_MIN_APY),
            max_apy: unwrap_or(self.max_apy, DEFAULT_MAX_APY),
            reserved_1: unwrap_or(self.reserved_amount_1, DEFAULT_RESERVED_1),
            reserved_2: unwrap_or(self.reserved_amount_2, DEFAULT_RESERVED_2),
        }
    }
}

/// Distance between two rates.
pub open spec fn deviation(a: int, b: int) -> int {
    if a >= b {
        a - b
    } else {
        b - a
    }
}

/// Whether `rate` lies more than 5% of `fair` away from `fair`.
pub open spec fn off_fair(fair: int, rate: int) -> bool {
    20 * deviation(fair, rate) > fair
}

/// Whether `rate` lies within 5% of `fair`. Nothing is near a fair rate of
/// zero, which has no relative deviation.
pub open spec fn near_fair(fair: int, rate: int) -> bool {
    fair > 0 && 20 * deviation(fair, rate) <= fair
}

/// Twenty times the distance between two rates.
fn scaled_deviation(fair: Rate, rate: Rate) -> (d: u128)
    ensures
        d as int == 20 * deviation(fair as int, rate as int),
{
    let gap: u64 = if fair >= rate {
        fair - rate
    } else {
        rate - fair
    };
    20u128 * (gap as u128)
}

/// Decides `off_fair`.
pub fn is_off_fair(fair: Rate, rate: Rate) -> (off: bool)
    ensures
        off == off_fair(fair as int, rate as int),
{
    scaled_deviation(fair, rate) > fair as u128
}

/// Decides `near_fair`.
pub fn is_near_fair(fair: Rate, rate: Rate) -> (near: bool)
    ensures
        near == near_fair(fair as int, rate as int),
{
    fair > 0 && scaled_deviation(fair, rate) <= fair as u128
}

} // verus!
