//! CEX.IO. The exchange can be configured; no strategy runs against it.

use vstd::prelude::*;

use crate::exchange::Params;

verus! {

/// A client for CEX.IO. It carries no credentials and offers no operation.
#[derive(Clone, Copy, Debug, PartialEq, Eq, Structural)]
pub struct Client {}

impl From<Params> for Client {
    fn from(_item: Params) -> (client: Client) {
        Client {  }
    }
}

impl vstd::std_specs::convert::FromSpecImpl<Params> for Client {
    open spec fn obeys_from_spec() -> bool {
        true
    }

    open spec fn from_spec(_item: Params) -> Client {
        Client {  }
    }
}

} // verus!
