//! The exchanges a strategy can run against, and the account each one is
//! reached with.

pub mod bitfinex;
pub mod cex;

use std::sync::Arc;
use vstd::prelude::*;

use crate::strategy::Config;

verus! {

/// The account on an exchange and the strategies to run with it.
#[derive(Clone)]
pub struct Params {
    pub api_key: String,
    pub api_secret: String,
    pub strategies: Vec<Config>,
}

/// A configured exchange.
#[derive(Clone)]
pub enum Exchange {
    Cex(Params),
    Bitfinex(Params),
}

/// The client that speaks to a configured exchange.
pub enum ExchangeApiClient {
    Cex(Arc<cex::Client>),
    Bitfinex(Arc<bitfinex::Client>),
}

impl Exchange {
    /// The account parameters, whichever the exchange.
    pub open spec fn params(self) -> Params {
        match self {
            Exchange::Cex(params) => params,
            Exchange::Bitfinex(params) => params,
        }
    }

    /// The strategies configured for this exchange, in the order given.
    pub fn get_strategies(self) -> (strategies: Vec<Config>)
        ensures
            strategies == self.params().strategies,
    {
        match self {
            Exchange::Cex(params) => params.strategies,
            Exchange::Bitfinex(params) => params.strategies,
        }
    }
}

impl From<Exchange> for ExchangeApiClient {
    fn from(config: Exchange) -> (client: ExchangeApiClient) {
        match config {
            Exchange::Cex(params) => ExchangeApiClient::Cex(Arc::new(cex::Client::from(params))),
            Exchange::Bitfinex(params) => ExchangeApiClient::Bitfinex(
                Arc::new(bitfinex::Client::from(params)),
            ),
        }
    }
}

impl vstd::std_specs::convert::FromSpecImpl<Exchange> for ExchangeApiClient {
    open spec fn obeys_from_spec() -> bool {
        true
    }

    open spec fn from_spec(config: Exchange) -> ExchangeApiClient {
        match config {
            Exchange::Cex(params) => ExchangeApiClient::Cex(Arc::new(cex::Client {  })),
            Exchange::Bitfinex(params) => ExchangeApiClient::Bitfinex(
                Arc::new(
                    bitfinex::Client { api_key: params.api_key, api_secret: params.api_secret },
                ),
            ),
        }
    }
}

} // verus!
