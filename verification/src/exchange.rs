//! The BTC/USD price lookup: the request for the exchange's one-minute
//! candle of an hour ago, and the reading of its reply. The HTTP outcall
//! and the JSON decoding of the candle numbers are made by the canister.

use vstd::prelude::*;
use vstd::utf8::{valid_utf8, decode_utf8};
use crate::decimal::{decimal, decimal_string};

verus! {

/// The exchange's host.
pub open spec fn host() -> Seq<char> {
    "api.pro.coinbase.com"@
}

/// Seconds in a nanosecond count.
pub const NANOS_PER_SECOND: u64 = 1_000_000_000;

/// The length of a candle, in seconds.
pub const GRANULARITY: u64 = 60;

/// How far back the candle starts, in seconds.
pub const LOOKBACK: u64 = 3600;

/// The start and the end (Unix seconds) of the candle asked for at
/// `now_nanos`: from an hour ago, for one granularity.
pub open spec fn window_of(now_nanos: u64) -> (int, int) {
    let now = now_nanos / NANOS_PER_SECOND;
    (now - LOOKBACK, now - LOOKBACK + GRANULARITY)
}

/// The start and the end (Unix seconds) of the candle to ask for at time
/// `now_nanos` (nanoseconds since the epoch).
pub fn candle_window(now_nanos: u64) -> (res: (u64, u64))
    requires
        now_nanos / NANOS_PER_SECOND >= LOOKBACK,
    ensures
        res.0 == window_of(now_nanos).0,
        res.1 == window_of(now_nanos).1,
        res.1 == res.0 + GRANULARITY,
        res.0 == now_nanos / 1_000_000_000 - 3600,
        res.1 == now_nanos / 1_000_000_000 - 3600 + 60,
{
    let now = now_nanos / NANOS_PER_SECOND;
    let start = now - LOOKBACK;
    let end = now - LOOKBACK + GRANULARITY;
    (start, end)
}

/// The URL of the candles from `start` to `end`.
pub open spec fn candles_url_text(start: nat, end: nat) -> Seq<char> {
    "https://"@ + host() + "/products/BTC-USD/candles?start="@ + decimal(start) + "&end="@
        + decimal(end) + "&granularity="@ + decimal(GRANULARITY as nat)
}

/// The URL that asks, at time `now_nanos`, for the candle of an hour ago.
pub fn candles_url(now_nanos: u64) -> (res: String)
    requires
        now_nanos / NANOS_PER_SECOND >= LOOKBACK,
    ensures
        res@ == candles_url_text(window_of(now_nanos).0 as nat, window_of(now_nanos).1 as nat),
        res@ == "https://api.pro.coinbase.com/products/BTC-USD/candles?start="@ + decimal(
            (now_nanos / 1_000_000_000 - 3600) as nat,
        ) + "&end="@ + decimal((now_nanos / 1_000_000_000 - 3600 + 60) as nat)
            + "&granularity=60"@,
{
    let (start, end) = candle_window(now_nanos);
    let mut url = String::from_str("https://");
    url.append("api.pro.coinbase.com");
    url.append("/products/BTC-USD/candles?start=");
    let s = decimal_string(start as u128);
    url.append(s.as_str());
    url.append("&end=");
    let e = decimal_string(end as u128);
    url.append(e.as_str());
    url.append("&granularity=");
    let g = decimal_string(GRANULARITY as u128);
    url.append(g.as_str());
    proof {
        lemma_candles_url(now_nanos);
    }
    url
}

/// The candle asked for starts an hour before the current second and ends
/// one minute later.
pub proof fn lemma_window(now_nanos: u64)
    ensures
        window_of(now_nanos).0 == now_nanos / 1_000_000_000 - 3600,
        window_of(now_nanos).1 == window_of(now_nanos).0 + 60,
{
}

/// The URL names the exchange's BTC-USD candles, the start and end of the
/// window (an hour ago, one minute long) in decimal, and a granularity of
/// sixty seconds.
pub proof fn lemma_candles_url(now_nanos: u64)
    requires
        now_nanos / 1_000_000_000 >= 3600,
    ensures
        candles_url_text(window_of(now_nanos).0 as nat, window_of(now_nanos).1 as nat)
            == "https://api.pro.coinbase.com/products/BTC-USD/candles?start="@ + decimal(
            (now_nanos / 1_000_000_000 - 3600) as nat,
        ) + "&end="@ + decimal((now_nanos / 1_000_000_000 - 3600 + 60) as nat)
            + "&granularity=60"@,
{
    reveal_strlit("https://");
    reveal_strlit("api.pro.coinbase.com");
    reveal_strlit("/products/BTC-USD/candles?start=");
    reveal_strlit("https://api.pro.coinbase.com/products/BTC-USD/candles?start=");
    reveal_strlit("&granularity=");
    reveal_strlit("&granularity=60");
    reveal_with_fuel(decimal, 2);
    assert(decimal(60) =~= seq!['6', '0']);
    assert("https://"@ + "api.pro.coinbase.com"@ + "/products/BTC-USD/candles?start="@
        =~= "https://api.pro.coinbase.com/products/BTC-USD/candles?start="@);
    assert("&granularity="@ + decimal(60) =~= "&granularity=60"@);
    let s = (now_nanos / 1_000_000_000 - 3600) as nat;
    let e = (now_nanos / 1_000_000_000 - 3600 + 60) as nat;
    let p = "https://api.pro.coinbase.com/products/BTC-USD/candles?start="@;
    assert(candles_url_text(s, e) =~= p + decimal(s) + "&end="@ + decimal(e) + "&granularity=60"@);
}

/// An HTTP header.
pub struct Header {
    pub name: String,
    pub value: String,
}

/// The headers of the request: the host, on port 443, and the user agent.
pub fn request_headers() -> (res: Vec<Header>)
    ensures
        res@.len() == 2,
        res@[0].name@ == "Host"@,
        res@[0].value@ == host() + ":443"@,
        res@[0].value@ == "api.pro.coinbase.com:443"@,
        res@[1].name@ == "User-Agent"@,
        res@[1].value@ == "exchange_rate_canister"@,
{
    let mut host_value = String::from_str("api.pro.coinbase.com");
    host_value.append(":443");
    proof {
        reveal_strlit("api.pro.coinbase.com");
        reveal_strlit(":443");
        reveal_strlit("api.pro.coinbase.com:443");
        assert("api.pro.coinbase.com"@ + ":443"@ =~= "api.pro.coinbase.com:443"@);
    }
    let mut headers: Vec<Header> = Vec::new();
    headers.push(Header { name: String::from_str("Host"), value: host_value });
    headers.push(
        Header {
            name: String::from_str("User-Agent"),
            value: String::from_str("exchange_rate_canister"),
        },
    );
    headers
}

/// Calls `String::from_utf8`, telling its two outcomes apart: claims, as its
/// documentation says, that it succeeds exactly on valid UTF-8 and then gives
/// the text that the bytes encode.
#[verifier::external_body]
fn string_from_utf8(bytes: Vec<u8>) -> (res: Option<String>)
    ensures
        res is Some <==> valid_utf8(bytes@),
        res matches Some(s) ==> s@ == decode_utf8(bytes@),
{
    match String::from_utf8(bytes) {
        Ok(s) => Some(s),
        Err(_) => None,
    }
}

/// The text of the exchange's reply `body`, or the error given where it is
/// not UTF-8.
pub fn decode_body(body: Vec<u8>) -> (res: Result<String, String>)
    ensures
        valid_utf8(body@) ==> (res matches Ok(s) && s@ == decode_utf8(body@)),
        !valid_utf8(body@) ==> (res matches Err(m) && m@
            == "Transformed response is not UTF-8 encoded."@),
{
    match string_from_utf8(body) {
        Some(s) => Ok(s),
        None => Err(String::from_str("Transformed response is not UTF-8 encoded.")),
    }
}

/// The closing price of the first candle of the reply (each candle lists
/// time, low, high, open, close, volume), or the error given where there is
/// none.
pub fn closing_price(candles: &Vec<Vec<u64>>) -> (res: Result<u64, String>)
    ensures
        candles@.len() > 0 && candles@[0]@.len() > 4 ==> res == Ok::<u64, String>(candles@[0]@[4]),
        !(candles@.len() > 0 && candles@[0]@.len() > 4) ==> (res matches Err(m) && m@
            == "Failed to retrieve the closing price from the response."@),
{
    if candles.len() > 0 {
        let record = &candles[0];
        if record.len() > 4 {
            return Ok(record[4]);
        }
    }
    Err(String::from_str("Failed to retrieve the closing price from the response."))
}

/// The error given where the HTTP outcall was rejected with `code` (the
/// rejection code's name) and `message`.
pub fn outcall_error(code: &str, message: &str) -> (res: String)
    ensures
        res@ == "The http_request resulted into error. RejectionCode: "@ + code@ + ", Error: "@
            + message@,
{
    let mut m = String::from_str("The http_request resulted into error. RejectionCode: ");
    m.append(code);
    m.append(", Error: ");
    m.append(message);
    m
}

} // verus!
