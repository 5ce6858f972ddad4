//! Decision engine for automated lending on a funding market.
//!
//! Every quantity is a fixed-point integer: rates in billionths per day,
//! amounts in hundredths of the currency unit, instants in milliseconds
//! since the Unix epoch. The crate performs no input or output; the
//! embedding program fetches and persists, and hands plain values in.

pub mod error;
pub mod exchange;
pub mod strategy;
