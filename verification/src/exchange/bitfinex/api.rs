//! The calls of the Bitfinex funding interface: where each one goes, what
//! it carries, and how an authenticated call is signed. Sending a call and
//! reading its reply is left to the embedding program.

use vstd::prelude::*;

use crate::exchange::bitfinex::decimal::{
    amount_text, decimal, fixed_decimal, push_decimal, rate_text, signed_decimal, to_decimal,
};
use crate::exchange::bitfinex::sign::{sign, signature_of};
use crate::exchange::bitfinex::Client;
use crate::strategy::lending::{Amount, Millis, Rate};

verus! {

/// How a call is sent.
#[derive(Clone, Copy, Debug, PartialEq, Eq, Structural)]
pub enum Method {
    /// Public data, unsigned.
    Get,
    /// Account data or an order, signed.
    Post,
}

/// What an authenticated call carries.
#[derive(Clone, Debug)]
pub enum Payload {
    /// Nothing: an empty object.
    Empty,
    /// The question how much of `symbol` is available for funding.
    Available { symbol: String },
    /// A limit offer to lend.
    Submit { symbol: String, amount: Amount, rate: Rate, period: u32 },
    /// The withdrawal of an offer.
    Cancel { id: u32 },
}

/// The value of one member of a body.
#[derive(Clone, Debug)]
pub enum Field {
    Text(String),
    Number(u64),
}

/// What a `Field` holds.
pub enum FieldView {
    Text(Seq<char>),
    Number(u64),
}

/// One call to the exchange, before it is signed and sent.
#[derive(Clone, Debug)]
pub struct Call {
    pub method: Method,
    /// Path below the host.
    pub path: String,
    /// Query parameters, for a `Get`.
    pub query: Vec<(String, String)>,
    /// Body, for a `Post`.
    pub payload: Payload,
}

/// An authenticated call, ready to be sent.
#[derive(Clone)]
pub struct SignedPost {
    pub url: String,
    /// Header names and values, in the order to set them.
    pub headers: Vec<(String, String)>,
    /// The body: the payload as it was signed.
    pub body: String,
}

/// The start of the second that the instant `at` lies in, in milliseconds.
pub open spec fn whole_second(at: Millis) -> int {
    (at / 1000) * 1000
}

/// The nonce of a call signed `secs` seconds after the epoch.
pub open spec fn nonce_of(secs: u64) -> nat {
    (secs * 1_000_000 + 524_287) as nat
}

/// The address a path is reached at.
pub open spec fn url_of(path: Seq<char>) -> Seq<char> {
    "https://api.bitfinex.com/"@ + path
}

/// The text that the signature of an authenticated call covers.
pub open spec fn signed_text(path: Seq<char>, nonce: nat, payload: Seq<char>) -> Seq<char> {
    "/api/"@ + path + decimal(nonce) + payload
}

/// Writes the start of the second of `at`, as the exchange takes it.
fn second_text(at: Millis) -> (text: String)
    ensures
        text@ == signed_decimal(whole_second(at)),
{
    if at >= 0 {
        let whole: u128 = (at as u128 / 1000) * 1000;
        to_decimal(whole)
    } else {
        let below: u128 = (-(at + 1)) as u128;
        let magnitude: u128 = (below / 1000 + 1) * 1000;
        let mut text = String::from_str("-");
        proof {
            reveal_strlit("-");
            assert(whole_second(at) == -(magnitude as int));
        }
        push_decimal(&mut text, magnitude);
        proof {
            assert(text@ =~= seq!['-'] + decimal(magnitude as nat));
        }
        text
    }
}

fn join(head: &str, middle: &str, tail: &str) -> (text: String)
    ensures
        text@ == head@ + middle@ + tail@,
{
    let mut text = String::from_str(head);
    text.append(middle);
    text.append(tail);
    text
}

fn pair(name: &str, value: String) -> (entry: (String, String))
    ensures
        entry.0@ == name@,
        entry.1 == value,
{
    (String::from_str(name), value)
}

/// The nonce of a call signed `secs` seconds after the epoch.
pub fn nonce(secs: u64) -> (n: u128)
    ensures
        n == nonce_of(secs),
{
    secs as u128 * 1_000_000 + 524_287
}

/// The address of a path.
pub fn url(path: &str) -> (address: String)
    ensures
        address@ == url_of(path@),
{
    let mut address = String::from_str("https://api.bitfinex.com/");
    address.append(path);
    address
}

/// What a member of a body holds: its name and its value.
pub open spec fn member(entry: (String, Field)) -> (Seq<char>, FieldView) {
    (
        entry.0@,
        match entry.1 {
            Field::Text(text) => FieldView::Text(text@),
            Field::Number(n) => FieldView::Number(n),
        },
    )
}

/// What the members of a body hold, in their order.
pub open spec fn members(fields: Seq<(String, Field)>) -> Seq<(Seq<char>, FieldView)> {
    fields.map_values(|entry: (String, Field)| member(entry))
}

fn text_member(name: &str, value: String) -> (entry: (String, Field))
    ensures
        member(entry) == (name@, FieldView::Text(value@)),
{
    (String::from_str(name), Field::Text(value))
}

fn number_member(name: &str, value: u64) -> (entry: (String, Field))
    ensures
        member(entry) == (name@, FieldView::Number(value)),
{
    (String::from_str(name), Field::Number(value))
}

impl Payload {
    /// The members of the body that carries this payload.
    pub open spec fn spec_fields(self) -> Seq<(Seq<char>, FieldView)> {
        match self {
            Payload::Empty => Seq::empty(),
            Payload::Available { symbol } => seq![
                ("symbol"@, FieldView::Text(symbol@)),
                ("type"@, FieldView::Text("FUNDING"@)),
            ],
            Payload::Submit { symbol, amount, rate, period } => seq![
                ("type"@, FieldView::Text("LIMIT"@)),
                ("symbol"@, FieldView::Text(symbol@)),
                ("amount"@, FieldView::Text(fixed_decimal(amount as nat, 2))),
                ("rate"@, FieldView::Text(fixed_decimal(rate as nat, 9))),
                ("period"@, FieldView::Number(period as u64)),
            ],
            Payload::Cancel { id } => seq![("id"@, FieldView::Number(id as u64))],
        }
    }

    /// Lays the payload out as the members of a body: amounts and rates
    /// in decimal text, counts as numbers.
    pub fn fields(&self) -> (fields: Vec<(String, Field)>)
        ensures
            members(fields@) == self.spec_fields(),
    {
        let mut fields: Vec<(String, Field)> = Vec::new();
        match self {
            Payload::Empty => {},
            Payload::Available { symbol } => {
                fields.push(text_member("symbol", symbol.clone()));
                fields.push(text_member("type", String::from_str("FUNDING")));
            },
            Payload::Submit { symbol, amount, rate, period } => {
                fields.push(text_member("type", String::from_str("LIMIT")));
                fields.push(text_member("symbol", symbol.clone()));
                fields.push(text_member("amount", amount_text(*amount)));
                fields.push(text_member("rate", rate_text(*rate)));
                fields.push(number_member("period", *period as u64));
            },
            Payload::Cancel { id } => {
                fields.push(number_member("id", *id as u64));
            },
        }
        assert(members(fields@) =~= self.spec_fields());
        fields
    }
}

impl Client {
    /// The trades of `symbol` from the second of `start` to that of `end`.
    pub fn trades(&self, symbol: &str, start: Millis, end: Millis) -> (call: Call)
        ensures
            call.method == Method::Get,
            call.path@ == "v2/trades/"@ + symbol@ + "/hist"@,
            call.query@.len() == 2,
            call.query@[0].0@ == "start"@,
            call.query@[0].1@ == signed_decimal(whole_second(start)),
            call.query@[1].0@ == "end"@,
            call.query@[1].1@ == signed_decimal(whole_second(end)),
            call.payload == Payload::Empty,
    {
        let mut query: Vec<(String, String)> = Vec::new();
        query.push(pair("start", second_text(start)));
        query.push(pair("end", second_text(end)));
        Call {
            method: Method::Get,
            path: join("v2/trades/", symbol, "/hist"),
            query,
            payload: Payload::Empty,
        }
    }

    /// The order book of `symbol`, at full depth and coarse precision.
    pub fn books(&self, symbol: &str) -> (call: Call)
        ensures
            call.method == Method::Get,
            call.path@ == "v2/book/"@ + symbol@ + "/P3"@,
            call.query@.len() == 1,
            call.query@[0].0@ == ""@,
            call.query@[0].1@ == ""@,
            call.payload == Payload::Empty,
    {
        let mut query: Vec<(String, String)> = Vec::new();
        query.push(pair("", String::from_str("")));
        Call {
            method: Method::Get,
            path: join("v2/book/", symbol, "/P3"),
            query,
            payload: Payload::Empty,
        }
    }

    /// The funding figures of `symbol`.
    pub fn funding_info(&self, symbol: &str) -> (call: Call)
        ensures
            call.method == Method::Post,
            call.path@ == "v2/auth/r/info/funding/"@ + symbol@,
            call.query@.len() == 0,
            call.payload == Payload::Empty,
    {
        proof {
            reveal_strlit("");
            assert("v2/auth/r/info/funding/"@ + symbol@ + ""@ =~= "v2/auth/r/info/funding/"@
                + symbol@);
        }
        Call {
            method: Method::Post,
            path: join("v2/auth/r/info/funding/", symbol, ""),
            query: Vec::new(),
            payload: Payload::Empty,
        }
    }

    /// How much of `symbol` is available for funding.
    pub fn funding_balance_available(&self, symbol: &str) -> (call: Call)
        ensures
            call.method == Method::Post,
            call.path@ == "v2/auth/calc/order/avail"@,
            call.query@.len() == 0,
            call.payload matches Payload::Available { symbol: asked } && asked@ == symbol@,
    {
        Call {
            method: Method::Post,
            path: String::from_str("v2/auth/calc/order/avail"),
            query: Vec::new(),
            payload: Payload::Available { symbol: String::from_str(symbol) },
        }
    }

    /// The open offers of `symbol`.
    pub fn active_funding_offers(&self, symbol: &str) -> (call: Call)
        ensures
            call.method == Method::Post,
            call.path@ == "v2/auth/r/funding/offers/"@ + symbol@,
            call.query@.len() == 0,
            call.payload == Payload::Empty,
    {
        proof {
            reveal_strlit("");
            assert("v2/auth/r/funding/offers/"@ + symbol@ + ""@ =~= "v2/auth/r/funding/offers/"@
                + symbol@);
        }
        Call {
            method: Method::Post,
            path: join("v2/auth/r/funding/offers/", symbol, ""),
            query: Vec::new(),
            payload: Payload::Empty,
        }
    }

    /// A limit offer to lend `amount` of `symbol` at `rate` for `period`
    /// days.
    pub fn submit_funding_offer(
        &self,
        symbol: &str,
        amount: Amount,
        rate: Rate,
        period: u32,
    ) -> (call: Call)
        ensures
            call.method == Method::Post,
            call.path@ == "v2/auth/w/funding/offer/submit"@,
            call.query@.len() == 0,
            call.payload matches Payload::Submit { symbol: lent, amount: a, rate: r, period: p }
                && lent@ == symbol@ && a == amount && r == rate && p == period,
    {
        Call {
            method: Method::Post,
            path: String::from_str("v2/auth/w/funding/offer/submit"),
            query: Vec::new(),
            payload: Payload::Submit {
                symbol: String::from_str(symbol),
                amount,
                rate,
                period,
            },
        }
    }

    /// The withdrawal of the offer `id`.
    pub fn cancel_funding_offer(&self, id: u32) -> (call: Call)
        ensures
            call.method == Method::Post,
            call.path@ == "v2/auth/w/funding/offer/cancel"@,
            call.query@.len() == 0,
            call.payload == (Payload::Cancel { id }),
    {
        Call {
            method: Method::Post,
            path: String::from_str("v2/auth/w/funding/offer/cancel"),
            query: Vec::new(),
            payload: Payload::Cancel { id },
        }
    }

    /// The open credits of `symbol`.
    pub fn funding_credits(&self, symbol: &str) -> (call: Call)
        ensures
            call.method == Method::Post,
            call.path@ == "v2/auth/r/funding/credits/"@ + symbol@,
            call.query@.len() == 0,
            call.payload == Payload::Empty,
    {
        proof {
            reveal_strlit("");
            assert("v2/auth/r/funding/credits/"@ + symbol@ + ""@ =~= "v2/auth/r/funding/credits/"@
                + symbol@);
        }
        Call {
            method: Method::Post,
            path: join("v2/auth/r/funding/credits/", symbol, ""),
            query: Vec::new(),
            payload: Payload::Empty,
        }
    }

    /// The closed credits of `symbol`.
    pub fn funding_credit_history(&self, symbol: &str) -> (call: Call)
        ensures
            call.method == Method::Post,
            call.path@ == "v2/auth/r/funding/credits/"@ + symbol@ + "/hist"@,
            call.query@.len() == 0,
            call.payload == Payload::Empty,
    {
        Call {
            method: Method::Post,
            path: join("v2/auth/r/funding/credits/", symbol, "/hist"),
            query: Vec::new(),
            payload: Payload::Empty,
        }
    }

    /// The address an unsigned call goes to.
    pub fn get(&self, path: &str) -> (address: String)
        ensures
            address@ == url_of(path@),
    {
        url(path)
    }

    /// Signs a call for this account: `payload` is the body as it will be
    /// sent, `secs` the time of signing in seconds since the epoch.
    pub fn post(&self, path: &str, payload: &str, secs: u64) -> (request: SignedPost)
        ensures
            request.url@ == url_of(path@),
            request.body@ == payload@,
            request.headers@.len() == 5,
            request.headers@[0].0@ == "Accept"@,
            request.headers@[0].1@ == "application/json"@,
            request.headers@[1].0@ == "Content-Type"@,
            request.headers@[1].1@ == "application/json"@,
            request.headers@[2].0@ == "bfx-nonce"@,
            request.headers@[2].1@ == decimal(nonce_of(secs)),
            request.headers@[3].0@ == "bfx-apikey"@,
            request.headers@[3].1@ == self.api_key@,
            request.headers@[4].0@ == "bfx-signature"@,
            request.headers@[4].1@ == signature_of(
                self.api_secret@,
                signed_text(path@, nonce_of(secs), payload@),
            ),
    {
        let stamp = to_decimal(nonce(secs));
        let mut text = join("/api/", path, stamp.as_str());
        text.append(payload);
        let signature = sign(self.api_secret.as_str(), text.as_str());
        let mut headers: Vec<(String, String)> = Vec::new();
        headers.push(pair("Accept", String::from_str("application/json")));
        headers.push(pair("Content-Type", String::from_str("application/json")));
        headers.push(pair("bfx-nonce", stamp));
        headers.push(pair("bfx-apikey", self.api_key.clone()));
        headers.push(pair("bfx-signature", signature));
        SignedPost { url: url(path), headers, body: String::from_str(payload) }
    }
}

} // verus!
