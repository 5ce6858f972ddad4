//! Trading strategies and their per-pair configuration.

pub mod lending;

use vstd::prelude::*;

verus! {

/// The configuration of one strategy, by the strategy's name.
#[derive(Clone, Debug)]
pub enum Config {
    Lending(lending::Config),
}

} // verus!
