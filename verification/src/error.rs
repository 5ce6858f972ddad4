//! The failures a lending tick can end with.

use vstd::prelude::*;

verus! {

/// Why a tick, or one stage of it, could not complete.
#[derive(Clone, Copy, Debug, PartialEq, Eq, Structural)]
pub enum Error {
    /// No trade history exists from which a rate could be estimated.
    DataUnavailable,
    /// A request to the exchange failed.
    Transport,
    /// The store could not be read or written.
    Persistence,
}

} // verus!
