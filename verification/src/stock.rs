//! The exchange: what a request to it is made of, and how it is signed.
//!
//! A request names an end point and carries parameters. It is signed with
//! the HMAC-SHA256 of the timestamp, the public key, the receive window and
//! the parameters, keyed with the private key and written in hexadecimal.
//! Sending the request and reading the answer is left to whoever holds the
//! connection.
use vstd::prelude::*;
use vstd::string::StringExecFns;
use vstd::utf8::encode_utf8;
use crate::dto::StockError;
use crate::text::{fixed_chars, fixed_text, integer_chars, integer_text};

verus! {

/// How long after its timestamp the exchange accepts a request, in
/// milliseconds.
pub const RECV_WINDOW: &'static str = "5000";

/// The address of the exchange.
pub const API: &'static str = "https://api.bybit.com/v5";

/// The side of an order.
#[derive(Clone, Copy, Debug, PartialEq, Eq, Structural)]
pub enum Side {
    Buy,
    Sell,
}

/// How a request is sent.
#[derive(Clone, Copy, Debug, PartialEq, Eq, Structural)]
pub enum Method {
    Get,
    Post,
}

/// A request: the end point and the parameters, in the order in which they
/// are written.
#[derive(Debug)]
pub struct ApiCall {
    pub method: Method,
    pub point: String,
    pub params: Vec<(String, String)>,
}

/// The keys of an account on the exchange.
#[derive(Debug)]
pub struct Stock {
    pub public_key: String,
    pub private_key: String,
}

/// The error that `new_from_slice` of the `digest` crate returns for a key
/// of a length that a keyed algorithm does not take. Nothing is known of its
/// inside.
#[verifier::external_type_specification]
#[verifier::external_body]
pub struct ExInvalidLength(hmac::digest::InvalidLength);

/// The HMAC-SHA256 authentication code of `message` under `key`.
pub uninterp spec fn hmac_sha256_code(key: Seq<u8>, message: Seq<u8>) -> Seq<u8>;

/// Computes an authentication code with `hmac::Hmac<sha2::Sha256>`: the
/// state is made by `new_from_slice`, fed by one `update`, and read by
/// `finalize` and `into_bytes`. Trusted: the call succeeds, since the key
/// of an HMAC may have any length, and the result is the code that
/// `hmac_sha256_code` names.
#[verifier::external_body]
fn hmac_sha256(key: &[u8], message: &[u8]) -> (code: Result<Vec<u8>, hmac::digest::InvalidLength>)
    ensures
        code is Ok,
        code->Ok_0@ == hmac_sha256_code(key@, message@),
{
    let mut mac = <hmac::Hmac<sha2::Sha256> as hmac::KeyInit>::new_from_slice(key)?;
    hmac::Mac::update(&mut mac, message);
    Ok(hmac::Mac::finalize(mac).into_bytes().to_vec())
}

/// The character of a hexadecimal digit, in lower case.
pub open spec fn hex_digit(n: int) -> char {
    if n < 10 {
        ((48 + n) as u8) as char
    } else {
        ((87 + n) as u8) as char
    }
}

/// Bytes written in hexadecimal: two lower-case digits for each byte, the
/// high one first.
pub open spec fn hex_chars(data: Seq<u8>) -> Seq<char> {
    Seq::new(
        2 * data.len(),
        |i: int|
            if i % 2 == 0 {
                hex_digit(data[i / 2] as int / 16)
            } else {
                hex_digit(data[i / 2] as int % 16)
            },
    )
}

/// Writes bytes in hexadecimal with `hex::encode`. Trusted: the result has
/// two lower-case digits for each byte, the high one first.
#[verifier::external_body]
fn hex_encode(data: &Vec<u8>) -> (r: String)
    ensures
        r@ == hex_chars(data@),
{
    hex::encode(data)
}

/// The text that is signed: the timestamp, the public key, the receive
/// window and the parameters, one after the other.
pub open spec fn payload_spec(public_key: Seq<char>, timestamp: i64, params: Seq<char>) -> Seq<
    char,
> {
    integer_chars(timestamp as int) + public_key + RECV_WINDOW@ + params
}

/// The signature of a request: the authentication code of the signed text
/// under the private key, in hexadecimal.
pub open spec fn signature_spec(
    private_key: Seq<char>,
    public_key: Seq<char>,
    timestamp: i64,
    params: Seq<char>,
) -> Seq<char> {
    hex_chars(
        hmac_sha256_code(
            encode_utf8(private_key),
            encode_utf8(payload_spec(public_key, timestamp, params)),
        ),
    )
}

/// The texts of a list of pairs.
pub open spec fn pairs_view(pairs: Seq<(String, String)>) -> Seq<(Seq<char>, Seq<char>)> {
    Seq::new(pairs.len(), |i: int| (pairs[i].0@, pairs[i].1@))
}

/// Parameters written as a query: each as `key=value`, with `&` between
/// two of them.
pub open spec fn query_spec(params: Seq<(Seq<char>, Seq<char>)>) -> Seq<char>
    decreases params.len(),
{
    if params.len() == 0 {
        Seq::empty()
    } else if params.len() == 1 {
        params[0].0 + seq!['='] + params[0].1
    } else {
        query_spec(params.drop_last()) + seq!['&'] + params.last().0 + seq!['='] + params.last().1
    }
}

fn pair(key: &str, value: &str) -> (r: (String, String))
    ensures
        r.0@ == key@,
        r.1@ == value@,
{
    (String::from_str(key), String::from_str(value))
}

/// Parameters written as a query: see `query_spec`.
pub fn generate_query_str(params: &Vec<(String, String)>) -> (r: String)
    ensures
        r@ == query_spec(pairs_view(params@)),
{
    let mut out = String::new();
    let mut i: usize = 0;
    let ghost all = pairs_view(params@);
    proof {
        reveal_strlit("=");
        reveal_strlit("&");
        assert(all.take(0) =~= Seq::<(Seq<char>, Seq<char>)>::empty());
    }
    while i < params.len()
        invariant
            i <= params.len(),
            all == pairs_view(params@),
            out@ == query_spec(all.take(i as int)),
            "="@ == seq!['='],
            "&"@ == seq!['&'],
        decreases params.len() - i,
    {
        proof {
            assert(all.take(i + 1).drop_last() =~= all.take(i as int));
            assert(all.take(i + 1).last() == (params@[i as int].0@, params@[i as int].1@));
            assert(all.take(i + 1)[0] == all[0]);
        }
        let ghost before = out@;
        if i > 0 {
            out.append("&");
        }
        out.append(params[i].0.as_str());
        out.append("=");
        out.append(params[i].1.as_str());
        proof {
            if i > 0 {
                assert(out@ =~= before + seq!['&'] + params@[i as int].0@ + seq!['=']
                    + params@[i as int].1@);
            } else {
                assert(out@ =~= params@[i as int].0@ + seq!['='] + params@[i as int].1@);
            }
        }
        i = i + 1;
    }
    proof {
        assert(all.take(params.len() as int) =~= all);
    }
    out
}

impl Side {
    /// The name of the side as the exchange writes it.
    pub open spec fn name_spec(self) -> Seq<char> {
        match self {
            Side::Buy => "Buy"@,
            Side::Sell => "Sell"@,
        }
    }

    /// The name of the side as the exchange writes it.
    pub fn name(&self) -> (r: &'static str)
        ensures
            r@ == self.name_spec(),
    {
        match self {
            Side::Buy => "Buy",
            Side::Sell => "Sell",
        }
    }
}

impl Stock {
    /// An account with the given keys.
    pub fn new(public_key: String, private_key: String) -> (r: Self)
        ensures
            r.public_key == public_key,
            r.private_key == private_key,
    {
        Self { public_key, private_key }
    }

    /// The signature of a request made at `timestamp` with the parameters
    /// `params`: see `signature_spec`.
    pub fn generate_signature(&self, timestamp: i64, params: &str) -> (r: Result<
        String,
        StockError,
    >)
        ensures
            r matches Ok(signature) && signature@ == signature_spec(
                self.private_key@,
                self.public_key@,
                timestamp,
                params@,
            ),
    {
        let mut payload = integer_text(timestamp);
        payload.append(self.public_key.as_str());
        payload.append(RECV_WINDOW);
        payload.append(params);
        proof {
            assert(payload@ =~= payload_spec(self.public_key@, timestamp, params@));
        }
        match hmac_sha256(self.private_key.as_str().as_bytes(), payload.as_str().as_bytes()) {
            Ok(code_bytes) => Ok(hex_encode(&code_bytes)),
            Err(_) => Err(StockError::Signature),
        }
    }

    /// The headers that carry the key, the signature and the timestamp of
    /// a request.
    pub fn inject_api_headers(&self, signature: &String, timestamp: i64) -> (r: Vec<
        (String, String),
    >)
        ensures
            pairs_view(r@) == seq![
                ("X-BAPI-API-KEY"@, self.public_key@),
                ("X-BAPI-SIGN"@, signature@),
                ("X-BAPI-SIGN-TYPE"@, "2"@),
                ("X-BAPI-TIMESTAMP"@, integer_chars(timestamp as int)),
                ("X-BAPI-RECV-WINDOW"@, RECV_WINDOW@),
            ],
    {
        let mut headers: Vec<(String, String)> = Vec::new();
        headers.push(pair("X-BAPI-API-KEY", self.public_key.as_str()));
        headers.push(pair("X-BAPI-SIGN", signature.as_str()));
        headers.push(pair("X-BAPI-SIGN-TYPE", "2"));
        headers.push(pair("X-BAPI-TIMESTAMP", integer_text(timestamp).as_str()));
        headers.push(pair("X-BAPI-RECV-WINDOW", RECV_WINDOW));
        proof {
            assert(pairs_view(headers@) =~= seq![
                ("X-BAPI-API-KEY"@, self.public_key@),
                ("X-BAPI-SIGN"@, signature@),
                ("X-BAPI-SIGN-TYPE"@, "2"@),
                ("X-BAPI-TIMESTAMP"@, integer_chars(timestamp as int)),
                ("X-BAPI-RECV-WINDOW"@, RECV_WINDOW@),
            ]);
        }
        headers
    }

    /// The request for the ten latest bars of `ticker`, each `candle_size`
    /// long.
    pub fn get_candles(ticker: &str, candle_size: i64) -> (r: ApiCall)
        ensures
            r.method == Method::Get,
            r.point@ == "market/kline"@,
            pairs_view(r.params@) == seq![
                ("category"@, "linear"@),
                ("symbol"@, ticker@),
                ("interval"@, integer_chars(candle_size as int)),
                ("limit"@, "10"@),
            ],
    {
        let mut params: Vec<(String, String)> = Vec::new();
        params.push(pair("category", "linear"));
        params.push(pair("symbol", ticker));
        params.push(pair("interval", integer_text(candle_size).as_str()));
        params.push(pair("limit", "10"));
        proof {
            assert(pairs_view(params@) =~= seq![
                ("category"@, "linear"@),
                ("symbol"@, ticker@),
                ("interval"@, integer_chars(candle_size as int)),
                ("limit"@, "10"@),
            ]);
        }
        ApiCall { method: Method::Get, point: String::from_str("market/kline"), params }
    }

    /// The request for up to a thousand bars of `ticker` from `from` on.
    pub fn get_candles_from(from: i64, ticker: &str, candle_size: i64) -> (r: ApiCall)
        ensures
            r.method == Method::Get,
            r.point@ == "market/kline"@,
            pairs_view(r.params@) == seq![
                ("category"@, "linear"@),
                ("symbol"@, ticker@),
                ("interval"@, integer_chars(candle_size as int)),
                ("start"@, integer_chars(from as int)),
                ("limit"@, "1000"@),
            ],
    {
        let mut params: Vec<(String, String)> = Vec::new();
        params.push(pair("category", "linear"));
        params.push(pair("symbol", ticker));
        params.push(pair("interval", integer_text(candle_size).as_str()));
        params.push(pair("start", integer_text(from).as_str()));
        params.push(pair("limit", "1000"));
        proof {
            assert(pairs_view(params@) =~= seq![
                ("category"@, "linear"@),
                ("symbol"@, ticker@),
                ("interval"@, integer_chars(candle_size as int)),
                ("start"@, integer_chars(from as int)),
                ("limit"@, "1000"@),
            ]);
        }
        ApiCall { method: Method::Get, point: String::from_str("market/kline"), params }
    }

    /// The request for the balance of the account.
    pub fn get_balance() -> (r: ApiCall)
        ensures
            r.method == Method::Get,
            r.point@ == "account/wallet-balance"@,
            pairs_view(r.params@) == seq![("accountType"@, "UNIFIED"@)],
    {
        let mut params: Vec<(String, String)> = Vec::new();
        params.push(pair("accountType", "UNIFIED"));
        proof {
            assert(pairs_view(params@) =~= seq![("accountType"@, "UNIFIED"@)]);
        }
        ApiCall { method: Method::Get, point: String::from_str("account/wallet-balance"), params }
    }

    /// The request for one page of the resting orders of `ticker`; `cursor`
    /// is empty for the first page and else the cursor of the page before.
    pub fn get_orders(ticker: &str, cursor: &str) -> (r: ApiCall)
        ensures
            r.method == Method::Get,
            r.point@ == "order/realtime"@,
            pairs_view(r.params@) == seq![
                ("category"@, "linear"@),
                ("symbol"@, ticker@),
                ("openOnly"@, "0"@),
                ("orderFilter"@, "Order"@),
                ("cursor"@, cursor@),
                ("limit"@, "50"@),
            ],
    {
        let mut params: Vec<(String, String)> = Vec::new();
        params.push(pair("category", "linear"));
        params.push(pair("symbol", ticker));
        params.push(pair("openOnly", "0"));
        params.push(pair("orderFilter", "Order"));
        params.push(pair("cursor", cursor));
        params.push(pair("limit", "50"));
        proof {
            assert(pairs_view(params@) =~= seq![
                ("category"@, "linear"@),
                ("symbol"@, ticker@),
                ("openOnly"@, "0"@),
                ("orderFilter"@, "Order"@),
                ("cursor"@, cursor@),
                ("limit"@, "50"@),
            ]);
        }
        ApiCall { method: Method::Get, point: String::from_str("order/realtime"), params }
    }

    /// The request that places a limit order; the quantity is written with
    /// `order_decimals` decimal places and the price with `price_decimals`.
    pub fn place_order(
        ticker: &str,
        side: Side,
        price: i64,
        order_decimals: usize,
        price_decimals: usize,
        qty: i64,
    ) -> (r: ApiCall)
        ensures
            r.method == Method::Post,
            r.point@ == "order/create"@,
            pairs_view(r.params@) == seq![
                ("category"@, "linear"@),
                ("symbol"@, ticker@),
                ("side"@, side.name_spec()),
                ("orderType"@, "Limit"@),
                ("qty"@, fixed_chars(qty as int, order_decimals as nat)),
                ("price"@, fixed_chars(price as int, price_decimals as nat)),
            ],
    {
        let mut params: Vec<(String, String)> = Vec::new();
        params.push(pair("category", "linear"));
        params.push(pair("symbol", ticker));
        params.push(pair("side", side.name()));
        params.push(pair("orderType", "Limit"));
        params.push(pair("qty", fixed_text(qty, order_decimals).as_str()));
        params.push(pair("price", fixed_text(price, price_decimals).as_str()));
        proof {
            assert(pairs_view(params@) =~= seq![
                ("category"@, "linear"@),
                ("symbol"@, ticker@),
                ("side"@, side.name_spec()),
                ("orderType"@, "Limit"@),
                ("qty"@, fixed_chars(qty as int, order_decimals as nat)),
                ("price"@, fixed_chars(price as int, price_decimals as nat)),
            ]);
        }
        ApiCall { method: Method::Post, point: String::from_str("order/create"), params }
    }

    /// The request that closes `qty` at the market: a market buy order.
    pub fn liquidate(ticker: &str, order_decimals: usize, qty: i64) -> (r: ApiCall)
        ensures
            r.method == Method::Post,
            r.point@ == "order/create"@,
            pairs_view(r.params@) == seq![
                ("category"@, "linear"@),
                ("symbol"@, ticker@),
                ("side"@, Side::Buy.name_spec()),
                ("orderType"@, "Market"@),
                ("qty"@, fixed_chars(qty as int, order_decimals as nat)),
            ],
    {
        let mut params: Vec<(String, String)> = Vec::new();
        params.push(pair("category", "linear"));
        params.push(pair("symbol", ticker));
        params.push(pair("side", Side::Buy.name()));
        params.push(pair("orderType", "Market"));
        params.push(pair("qty", fixed_text(qty, order_decimals).as_str()));
        proof {
            assert(pairs_view(params@) =~= seq![
                ("category"@, "linear"@),
                ("symbol"@, ticker@),
                ("side"@, Side::Buy.name_spec()),
                ("orderType"@, "Market"@),
                ("qty"@, fixed_chars(qty as int, order_decimals as nat)),
            ]);
        }
        ApiCall { method: Method::Post, point: String::from_str("order/create"), params }
    }

    /// The request that cancels the order `order_id`.
    pub fn cancel_order(ticker: &str, order_id: &str) -> (r: ApiCall)
        ensures
            r.method == Method::Post,
            r.point@ == "order/cancel"@,
            pairs_view(r.params@) == seq![
                ("category"@, "linear"@),
                ("symbol"@, ticker@),
                ("orderId"@, order_id@),
            ],
    {
        let mut params: Vec<(String, String)> = Vec::new();
        params.push(pair("category", "linear"));
        params.push(pair("symbol", ticker));
        params.push(pair("orderId", order_id));
        proof {
            assert(pairs_view(params@) =~= seq![
                ("category"@, "linear"@),
                ("symbol"@, ticker@),
                ("orderId"@, order_id@),
            ]);
        }
        ApiCall { method: Method::Post, point: String::from_str("order/cancel"), params }
    }
}

} // verus!
