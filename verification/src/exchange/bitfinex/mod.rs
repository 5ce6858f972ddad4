//! Bitfinex: the account, the requests its funding endpoints take, their
//! signature, and the lenient booleans of its replies.

pub mod api;
pub mod decimal;
pub mod deserializer;
pub mod sign;

use vstd::prelude::*;

use crate::exchange::Params;

verus! {

/// The credentials of one Bitfinex account.
#[derive(Clone)]
pub struct Client {
    pub api_key: String,
    pub api_secret: String,
}

impl From<Params> for Client {
    fn from(item: Params) -> (client: Client) {
        Client { api_key: item.api_key, api_secret: item.api_secret }
    }
}

impl vstd::std_specs::convert::FromSpecImpl<Params> for Client {
    open spec fn obeys_from_spec() -> bool {
        true
    }

    open spec fn from_spec(item: Params) -> Client {
        Client { api_key: item.api_key, api_secret: item.api_secret }
    }
}

} // verus!
