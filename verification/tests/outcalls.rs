use btc_iter2_backend::exchange::{
    candle_window, candles_url, closing_price, decode_body, outcall_error, request_headers,
};
use btc_iter2_backend::price::get_btc_price;

#[test]
fn window_is_one_minute_an_hour_ago() {
    let now = 1_700_000_000_123_456_789u64;
    assert_eq!(candle_window(now), (1_699_996_400, 1_699_996_460));
    assert_eq!(candle_window(3_600_000_000_000), (0, 60));
}

#[test]
fn url_names_window_and_granularity() {
    let now = 1_700_000_000_123_456_789u64;
    assert_eq!(
        candles_url(now),
        "https://api.pro.coinbase.com/products/BTC-USD/candles?start=1699996400&end=1699996460&granularity=60"
    );
}

#[test]
fn headers_name_host_and_agent() {
    let h = request_headers();
    assert_eq!(h.len(), 2);
    assert_eq!(h[0].name, "Host");
    assert_eq!(h[0].value, "api.pro.coinbase.com:443");
    assert_eq!(h[1].name, "User-Agent");
    assert_eq!(h[1].value, "exchange_rate_canister");
}

#[test]
fn body_must_be_utf8() {
    assert_eq!(decode_body(vec![0x5b, 0x5d]), Ok("[]".to_string()));
    assert_eq!(decode_body("é\u{1F600}".as_bytes().to_vec()), Ok("é\u{1F600}".to_string()));
    assert_eq!(
        decode_body(vec![0xff, 0xfe]),
        Err("Transformed response is not UTF-8 encoded.".to_string())
    );
}

#[test]
fn closing_price_is_fifth_number_of_first_candle() {
    assert_eq!(closing_price(&vec![vec![1, 2, 3, 4, 37000, 6], vec![9, 9, 9, 9, 9]]), Ok(37000));
    let missing = Err("Failed to retrieve the closing price from the response.".to_string());
    assert_eq!(closing_price(&vec![]), missing);
    assert_eq!(closing_price(&vec![vec![1, 2, 3, 4]]), missing);
}

#[test]
fn outcall_error_text() {
    assert_eq!(
        outcall_error("SysTransient", "timeout"),
        "The http_request resulted into error. RejectionCode: SysTransient, Error: timeout"
    );
}

#[test]
fn fixed_price_is_20000() {
    assert_eq!(get_btc_price().price, 20000);
}
