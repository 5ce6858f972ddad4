use tradebot::exchange::bitfinex::api::{nonce, url, Field, Method, Payload};
use tradebot::exchange::bitfinex::decimal::{amount_text, rate_text, to_decimal};
use tradebot::exchange::bitfinex::sign::sign;
use tradebot::exchange::bitfinex::Client;
use tradebot::exchange::{cex, Exchange, ExchangeApiClient, Params};
use tradebot::strategy::lending;
use tradebot::strategy::Config;

fn client() -> Client {
    Client { api_key: "key".to_string(), api_secret: "Jefe".to_string() }
}

fn params() -> Params {
    Params {
        api_key: "key".to_string(),
        api_secret: "secret".to_string(),
        strategies: vec![
            Config::Lending(lending::Config::new("USD".to_string())),
            Config::Lending(lending::Config::new("UST".to_string())),
        ],
    }
}

fn pair(name: &str, value: &str) -> (String, String) {
    (name.to_string(), value.to_string())
}

#[test]
fn sign_matches_the_published_vector() {
    // RFC 4231, the vector keyed with "Jefe"
    assert_eq!(
        sign("Jefe", "what do ya want for nothing?"),
        "af45d2e376484031617f78d2b58a6b1b9c7ef464f5a01b47e42ec3736322445e\
         8e2240ca5e69e2c78b3239ecfab21649"
    );
}

#[test]
fn sign_takes_an_empty_secret_and_message() {
    let signature = sign("", "");
    assert_eq!(signature.len(), 96);
    assert!(signature.chars().all(|c| c.is_ascii_digit() || ('a'..='f').contains(&c)));
    assert_ne!(signature, sign("", "a"));
    assert_ne!(signature, sign("a", ""));
}

#[test]
fn nonce_counts_microseconds_off_by_a_constant() {
    assert_eq!(nonce(0), 524_287);
    assert_eq!(nonce(1), 1_524_287);
    assert_eq!(nonce(1_700_000_000), 1_700_000_000_524_287);
    assert_eq!(nonce(u64::MAX), u64::MAX as u128 * 1_000_000 + 524_287);
}

#[test]
fn decimal_writes_numbers_without_padding() {
    assert_eq!(to_decimal(0), "0");
    assert_eq!(to_decimal(7), "7");
    assert_eq!(to_decimal(10), "10");
    assert_eq!(to_decimal(1_700_000_000_524_287), "1700000000524287");
    assert_eq!(to_decimal(u128::MAX), u128::MAX.to_string());
}

#[test]
fn url_prefixes_the_host() {
    assert_eq!(url("v2/book/fUSD/P3"), "https://api.bitfinex.com/v2/book/fUSD/P3");
    assert_eq!(client().get(""), "https://api.bitfinex.com/");
}

#[test]
fn trades_call_asks_for_whole_seconds() {
    let call = client().trades("fUSD", 1_700_000_000_999, 1_700_000_060_001);
    assert_eq!(call.method, Method::Get);
    assert_eq!(call.path, "v2/trades/fUSD/hist");
    assert_eq!(call.query, vec![pair("start", "1700000000000"), pair("end", "1700000060000")]);
    let call = client().trades("fUSD", -1, 0);
    assert_eq!(call.query, vec![pair("start", "-1000"), pair("end", "0")]);
    let call = client().trades("fUSD", -1000, i64::MIN);
    assert_eq!(call.query, vec![pair("start", "-1000"), pair("end", "-9223372036854776000")]);
}

#[test]
fn books_call() {
    let call = client().books("fUSD");
    assert_eq!(call.method, Method::Get);
    assert_eq!(call.path, "v2/book/fUSD/P3");
    assert_eq!(call.query, vec![pair("", "")]);
}

#[test]
fn account_calls_go_to_their_paths() {
    let c = client();
    let call = c.funding_info("fUSD");
    assert_eq!(call.method, Method::Post);
    assert_eq!(call.path, "v2/auth/r/info/funding/fUSD");
    assert!(matches!(call.payload, Payload::Empty));
    assert!(call.query.is_empty());
    assert_eq!(c.active_funding_offers("fUSD").path, "v2/auth/r/funding/offers/fUSD");
    assert_eq!(c.funding_credits("fUSD").path, "v2/auth/r/funding/credits/fUSD");
    assert_eq!(c.funding_credit_history("fUSD").path, "v2/auth/r/funding/credits/fUSD/hist");
    let call = c.funding_balance_available("fUSD");
    assert_eq!(call.path, "v2/auth/calc/order/avail");
    assert!(matches!(call.payload, Payload::Available { ref symbol } if symbol == "fUSD"));
}

#[test]
fn order_calls_carry_the_order() {
    let c = client();
    let call = c.submit_funding_offer("fUSD", 20_000, 300_000, 2);
    assert_eq!(call.method, Method::Post);
    assert_eq!(call.path, "v2/auth/w/funding/offer/submit");
    assert!(matches!(
        call.payload,
        Payload::Submit { ref symbol, amount: 20_000, rate: 300_000, period: 2 } if symbol == "fUSD"
    ));
    let call = c.cancel_funding_offer(77);
    assert_eq!(call.path, "v2/auth/w/funding/offer/cancel");
    assert!(matches!(call.payload, Payload::Cancel { id: 77 }));
}

#[test]
fn post_signs_path_nonce_and_payload() {
    let c = client();
    let request = c.post("v2/auth/r/funding/offers/fUSD", "{}", 1_700_000_000);
    assert_eq!(request.url, "https://api.bitfinex.com/v2/auth/r/funding/offers/fUSD");
    assert_eq!(request.body, "{}");
    let expected = sign("Jefe", "/api/v2/auth/r/funding/offers/fUSD1700000000524287{}");
    assert_eq!(
        request.headers,
        vec![
            pair("Accept", "application/json"),
            pair("Content-Type", "application/json"),
            pair("bfx-nonce", "1700000000524287"),
            pair("bfx-apikey", "key"),
            pair("bfx-signature", &expected),
        ]
    );
}

#[test]
fn exchange_hands_out_its_strategies() {
    let strategies = Exchange::Bitfinex(params()).get_strategies();
    assert_eq!(strategies.len(), 2);
    assert!(matches!(&strategies[0], Config::Lending(c) if c.symbol == "USD"));
    assert!(matches!(&strategies[1], Config::Lending(c) if c.symbol == "UST"));
    assert_eq!(Exchange::Cex(params()).get_strategies().len(), 2);
}

#[test]
fn client_is_made_for_the_configured_exchange() {
    match ExchangeApiClient::from(Exchange::Bitfinex(params())) {
        ExchangeApiClient::Bitfinex(client) => {
            assert_eq!(client.api_key, "key");
            assert_eq!(client.api_secret, "secret");
        }
        ExchangeApiClient::Cex(_) => panic!("wrong exchange"),
    }
    match ExchangeApiClient::from(Exchange::Cex(params())) {
        ExchangeApiClient::Cex(client) => assert_eq!(*client, cex::Client {}),
        ExchangeApiClient::Bitfinex(_) => panic!("wrong exchange"),
    }
}

fn shown(fields: Vec<(String, Field)>) -> Vec<(String, String)> {
    fields
        .into_iter()
        .map(|(name, field)| match field {
            Field::Text(text) => (name, format!("\"{}\"", text)),
            Field::Number(n) => (name, n.to_string()),
        })
        .collect()
}

#[test]
fn amounts_are_written_in_units() {
    assert_eq!(amount_text(20_000), "200");
    assert_eq!(amount_text(20_050), "200.5");
    assert_eq!(amount_text(20_005), "200.05");
    assert_eq!(amount_text(5), "0.05");
    assert_eq!(amount_text(0), "0");
    assert_eq!(amount_text(u64::MAX), "184467440737095516.15");
}

#[test]
fn rates_are_written_as_fractions() {
    assert_eq!(rate_text(300_000), "0.0003");
    assert_eq!(rate_text(820_000), "0.00082");
    assert_eq!(rate_text(1), "0.000000001");
    assert_eq!(rate_text(1_000_000_000), "1");
    assert_eq!(rate_text(1_500_000_000), "1.5");
    assert_eq!(rate_text(123_456_789), "0.123456789");
    assert_eq!(rate_text(0), "0");
}

#[test]
fn payloads_lay_out_their_members() {
    assert_eq!(shown(Payload::Empty.fields()), vec![]);
    assert_eq!(
        shown(Payload::Available { symbol: "fUSD".to_string() }.fields()),
        vec![pair("symbol", "\"fUSD\""), pair("type", "\"FUNDING\"")]
    );
    let submit =
        Payload::Submit { symbol: "fUSD".to_string(), amount: 20_000, rate: 412_500, period: 7 };
    assert_eq!(
        shown(submit.fields()),
        vec![
            pair("type", "\"LIMIT\""),
            pair("symbol", "\"fUSD\""),
            pair("amount", "\"200\""),
            pair("rate", "\"0.0004125\""),
            pair("period", "7"),
        ]
    );
    assert_eq!(shown(Payload::Cancel { id: 4_000_000_000 }.fields()), vec![pair("id", "4000000000")]);
}
