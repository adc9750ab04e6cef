use xau_tray::quote::{
    build_batch_body, build_quote_url, endpoint_url, new_trace_id, parse_batch_response,
};
use xau_tray::settings::ApiType;

#[test]
fn endpoints_per_category() {
    assert_eq!(endpoint_url(ApiType::Commodity), "https://quote.alltick.io/quote-b-api/batch-kline");
    assert_eq!(
        endpoint_url(ApiType::Stock),
        "https://quote.alltick.io/quote-stock-b-api/batch-kline"
    );
}

#[test]
fn url_carries_the_encoded_credential() {
    assert_eq!(
        build_quote_url(ApiType::Commodity, "abc123"),
        "https://quote.alltick.io/quote-b-api/batch-kline?token=abc123"
    );
    assert_eq!(
        build_quote_url(ApiType::Stock, "a b+c/d"),
        "https://quote.alltick.io/quote-stock-b-api/batch-kline?token=a+b%2Bc%2Fd"
    );
}

#[test]
fn batch_body_lists_each_code_in_order() {
    let codes = vec!["XAUUSD".to_string(), "Silver".to_string()];
    let body = build_batch_body("trace-1", &codes);
    let expected = "{\"trace\":\"trace-1\",\"data\":{\"data_list\":[{\"code\":\"XAUUSD\",\"kline_type\":1,\"kline_timestamp_end\":0,\"query_kline_num\":1,\"adjust_type\":0},{\"code\":\"Silver\",\"kline_type\":1,\"kline_timestamp_end\":0,\"query_kline_num\":1,\"adjust_type\":0}]}}";
    assert_eq!(body, expected);
    // The body parses back as JSON with the same fields.
    let v: serde_json::Value = serde_json::from_str(&body).unwrap();
    assert_eq!(v["trace"], "trace-1");
    assert_eq!(v["data"]["data_list"][1]["code"], "Silver");
    assert_eq!(v["data"]["data_list"][0]["query_kline_num"], 1);
}

#[test]
fn batch_body_escapes_code_text() {
    let codes = vec!["A\"B\\C\n".to_string()];
    let body = build_batch_body("t", &codes);
    let v: serde_json::Value = serde_json::from_str(&body).unwrap();
    assert_eq!(v["data"]["data_list"][0]["code"], "A\"B\\C\n");
}

#[test]
fn trace_ids_have_the_hyphenated_length() {
    let t = new_trace_id();
    assert_eq!(t.len(), 36);
    assert_ne!(new_trace_id(), t);
}

#[test]
fn response_maps_each_code_to_its_candle() {
    let text = "{\"ret\":200,\"data\":{\"kline_list\":[{\"code\":\"XAUUSD\",\"kline_data\":[{\"timestamp\":\"1700000000\",\"open_price\":\"1945.00\",\"close_price\":\"1950.00\"}]},{\"code\":\"Silver\",\"kline_data\":[]}]}}";
    let map = parse_batch_response(text).expect("parses");
    let q = map.get(&"XAUUSD".to_string()).expect("mapped");
    assert_eq!(q.close, 195000);
    assert_eq!(q.open, 194500);
    assert_eq!(q.timestamp, 1700000000);
    assert!(map.get(&"Silver".to_string()).is_none());
}

#[test]
fn response_skips_unparsable_numeric_fields() {
    let text = "{\"ret\":200,\"data\":{\"kline_list\":[{\"code\":\"XAUUSD\",\"kline_data\":[{\"timestamp\":\"soon\",\"open_price\":\"1945.00\",\"close_price\":\"1950.00\"}]}]}}";
    let map = parse_batch_response(text).expect("parses");
    assert!(map.get(&"XAUUSD".to_string()).is_none());
}

#[test]
fn response_with_error_status_keeps_the_message() {
    let text = "{\"ret\":400,\"msg\":\"bad token\",\"data\":{\"kline_list\":[]}}";
    match parse_batch_response(text) {
        Err(err) => {
            assert_eq!(err.detail, "api ret=400");
            assert_eq!(err.msg, Some("bad token".to_string()));
        },
        Ok(_) => panic!("expected an application error"),
    }

    let text = "{\"ret\":500,\"msg\":null,\"data\":{\"kline_list\":[]}}";
    match parse_batch_response(text) {
        Err(err) => {
            assert_eq!(err.detail, "api ret=500");
            assert_eq!(err.msg, None);
        },
        Ok(_) => panic!("expected an application error"),
    }
}

#[test]
fn response_of_the_wrong_shape_is_an_error() {
    match parse_batch_response("not json") {
        Err(e) => assert_eq!(e.detail, "decode error: invalid response body"),
        Ok(_) => panic!("expected a decode error"),
    }
    match parse_batch_response("{\"ret\":200}") {
        Err(e) => assert_eq!(e.detail, "decode error: unexpected response shape"),
        Ok(_) => panic!("expected a decode error"),
    }
    assert!(parse_batch_response("{\"ret\":\"200\",\"data\":{\"kline_list\":[]}}").is_err());
    assert!(parse_batch_response("{\"ret\":200,\"data\":{\"kline_list\":[{}]}}").is_err());
}
