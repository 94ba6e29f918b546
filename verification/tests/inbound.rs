use api_client::error::RequestError;
use api_client::json::{read_json, JsonNumber, JsonValue};
use api_client::response::{
    body_from_parse, decode_header_value, decode_text, elapsed_millis, finish_request,
    normalize_body, normalize_headers, normalize_response, RawResponse, TransportOutcome,
};

fn pairs(items: &[(&str, &str)]) -> Vec<(String, String)> {
    items.iter().map(|(k, v)| (k.to_string(), v.to_string())).collect()
}

fn raw(body: &[u8]) -> RawResponse {
    RawResponse { status: 200, headers: Vec::new(), body: body.to_vec() }
}

#[test]
fn size_is_the_length_of_the_payload() {
    for body in [&b""[..], b"42", b"not json", b"\xff\xfe", b"{\"a\": [1, 2, 3]}  "] {
        let response = normalize_response(raw(body), 0, 0);
        assert_eq!(response.size_bytes, body.len());
    }
}

#[test]
fn empty_payload_gives_no_body() {
    let response = normalize_response(raw(b""), 0, 0);
    assert_eq!(response.body, None);
    assert_eq!(response.size_bytes, 0);
}

#[test]
fn json_number_payload_is_a_number() {
    let response = normalize_response(raw(b"42"), 0, 0);
    assert_eq!(response.body, Some(JsonValue::Number(JsonNumber::PosInt(42))));
    assert_eq!(response.size_bytes, 2);
}

#[test]
fn text_payload_is_a_json_string() {
    let response = normalize_response(raw(b"not json"), 0, 0);
    assert_eq!(response.body, Some(JsonValue::String("not json".to_string())));
    assert_eq!(response.size_bytes, 8);
}

#[test]
fn payload_that_is_neither_json_nor_utf8_gives_no_body() {
    let response = normalize_response(raw(b"\xff\xfe\x00"), 0, 0);
    assert_eq!(response.body, None);
    assert_eq!(response.size_bytes, 3);
}

#[test]
fn json_string_payload_is_its_text() {
    assert_eq!(normalize_body(b"\"hello\""), Some(JsonValue::String("hello".to_string())));
    assert_eq!(normalize_body(b"\"42\""), Some(JsonValue::String("42".to_string())));
}

#[test]
fn whitespace_payload_is_text() {
    assert_eq!(normalize_body(b" "), Some(JsonValue::String(" ".to_string())));
}

#[test]
fn json_with_trailing_text_is_text() {
    assert_eq!(normalize_body(b"42 abc"), Some(JsonValue::String("42 abc".to_string())));
    assert_eq!(normalize_body(b"{\"a\":1}x"), Some(JsonValue::String("{\"a\":1}x".to_string())));
}

#[test]
fn text_payload_beyond_ascii() {
    assert_eq!(
        normalize_body("grüße".as_bytes()),
        Some(JsonValue::String("grüße".to_string()))
    );
}

#[test]
fn read_json_scalars() {
    assert_eq!(read_json(b"null"), Some(JsonValue::Null));
    assert_eq!(read_json(b"true"), Some(JsonValue::Bool(true)));
    assert_eq!(read_json(b"false"), Some(JsonValue::Bool(false)));
    assert_eq!(read_json(b" 0 "), Some(JsonValue::Number(JsonNumber::PosInt(0))));
    assert_eq!(
        read_json(b"18446744073709551615"),
        Some(JsonValue::Number(JsonNumber::PosInt(u64::MAX)))
    );
    assert_eq!(read_json(b"-1"), Some(JsonValue::Number(JsonNumber::NegInt(-1))));
    assert_eq!(
        read_json(b"-9223372036854775808"),
        Some(JsonValue::Number(JsonNumber::NegInt(i64::MIN)))
    );
    assert_eq!(read_json(b"\"a\\nb\""), Some(JsonValue::String("a\nb".to_string())));
}

#[test]
fn read_json_numbers_with_fraction_or_exponent() {
    assert_eq!(read_json(b"1.5"), Some(JsonValue::Number(JsonNumber::Float(1.5f64.to_bits()))));
    assert_eq!(
        read_json(b"-0.25"),
        Some(JsonValue::Number(JsonNumber::Float((-0.25f64).to_bits())))
    );
    assert_eq!(read_json(b"1e3"), Some(JsonValue::Number(JsonNumber::Float(1000f64.to_bits()))));
    assert_eq!(
        read_json(b"18446744073709551616"),
        Some(JsonValue::Number(JsonNumber::Float(18446744073709551616f64.to_bits())))
    );
}

#[test]
fn read_json_arrays_and_objects() {
    assert_eq!(read_json(b"[]"), Some(JsonValue::Array(Vec::new())));
    assert_eq!(read_json(b"{}"), Some(JsonValue::Object(Vec::new())));
    assert_eq!(
        read_json(b"[1, \"two\", [null], {\"k\": false}]"),
        Some(JsonValue::Array(vec![
            JsonValue::Number(JsonNumber::PosInt(1)),
            JsonValue::String("two".to_string()),
            JsonValue::Array(vec![JsonValue::Null]),
            JsonValue::Object(vec![("k".to_string(), JsonValue::Bool(false))]),
        ]))
    );
    assert_eq!(
        read_json(b"{\"a\": 1, \"b\": {\"c\": []}}"),
        Some(JsonValue::Object(vec![
            ("a".to_string(), JsonValue::Number(JsonNumber::PosInt(1))),
            (
                "b".to_string(),
                JsonValue::Object(vec![("c".to_string(), JsonValue::Array(Vec::new()))])
            ),
        ]))
    );
}

#[test]
fn read_json_refuses_what_is_no_json() {
    for bytes in [&b""[..], b"not json", b"{", b"[1,]", b"01", b"'a'", b"1 2", b"\xff", b"nul"] {
        assert_eq!(read_json(bytes), None, "{:?}", bytes);
    }
}

#[test]
fn json_values_can_be_cloned() {
    let value = read_json(b"{\"a\": [1, {\"b\": \"c\"}], \"d\": null}").unwrap();
    assert_eq!(value.clone(), value);
}

#[test]
fn as_text_is_for_strings_only() {
    assert_eq!(JsonValue::String("x".to_string()).as_text(), Some(&"x".to_string()));
    assert_eq!(JsonValue::Null.as_text(), None);
    assert_eq!(JsonValue::Array(vec![JsonValue::String("x".to_string())]).as_text(), None);
}

#[test]
fn body_from_parse_prefers_the_parsed_value() {
    assert_eq!(body_from_parse(b"42", Some(JsonValue::Null)), Some(JsonValue::Null));
    assert_eq!(body_from_parse(b"42", None), Some(JsonValue::String("42".to_string())));
    assert_eq!(body_from_parse(b"", Some(JsonValue::Null)), None);
    assert_eq!(body_from_parse(b"", None), None);
    assert_eq!(body_from_parse(b"\x80", None), None);
}

#[test]
fn decode_text_takes_well_formed_utf8_only() {
    assert_eq!(decode_text(b""), Some(String::new()));
    assert_eq!(decode_text(b"abc"), Some("abc".to_string()));
    assert_eq!(decode_text("ü€😀".as_bytes()), Some("ü€😀".to_string()));
    assert_eq!(decode_text(b"\xc3"), None);
    assert_eq!(decode_text(b"\xc0\x80"), None);
    assert_eq!(decode_text(b"\xed\xa0\x80"), None);
    assert_eq!(decode_text(b"\xf4\x90\x80\x80"), None);
}

#[test]
fn header_values_that_are_text() {
    assert_eq!(
        decode_header_value(b"text/html; charset=utf-8"),
        Some("text/html; charset=utf-8".to_string())
    );
    assert_eq!(decode_header_value(b""), Some(String::new()));
    assert_eq!(decode_header_value(b"a\tb ~"), Some("a\tb ~".to_string()));
}

#[test]
fn header_values_that_are_no_text() {
    assert_eq!(decode_header_value(b"caf\xc3\xa9"), None);
    assert_eq!(decode_header_value(b"\x7f"), None);
    assert_eq!(decode_header_value(b"a\x1fb"), None);
    assert_eq!(decode_header_value(b"\xff"), None);
    assert_eq!(decode_header_value(b"a\nb"), None);
}

#[test]
fn headers_without_text_value_are_dropped() {
    let lines = vec![
        ("content-type".to_string(), b"application/json".to_vec()),
        ("x-binary".to_string(), b"\xff\xfe".to_vec()),
        ("x-id".to_string(), b"7".to_vec()),
    ];
    let headers = normalize_headers(&lines);
    assert_eq!(headers.pairs(), &pairs(&[("content-type", "application/json"), ("x-id", "7")]));
}

#[test]
fn repeated_header_keeps_its_last_text_value() {
    let lines = vec![
        ("set-cookie".to_string(), b"a=1".to_vec()),
        ("x".to_string(), b"y".to_vec()),
        ("set-cookie".to_string(), b"b=2".to_vec()),
        ("set-cookie".to_string(), b"\x80".to_vec()),
    ];
    let headers = normalize_headers(&lines);
    assert_eq!(headers.pairs(), &pairs(&[("set-cookie", "b=2"), ("x", "y")]));
}

#[test]
fn whole_milliseconds_are_cut_not_rounded() {
    assert_eq!(elapsed_millis(0, 0), 0);
    assert_eq!(elapsed_millis(0, 999_999), 0);
    assert_eq!(elapsed_millis(0, 1_000_000), 1);
    assert_eq!(elapsed_millis(0, 1_999_999), 1);
    assert_eq!(elapsed_millis(1, 999_999_999), 1999);
    assert_eq!(elapsed_millis(2, 500_000_000), 2500);
}

#[test]
fn milliseconds_are_cut_to_64_bits() {
    assert_eq!(elapsed_millis(18_446_744_073_709_551, 615_000_000), u64::MAX);
    assert_eq!(elapsed_millis(18_446_744_073_709_551, 616_000_000), 0);
    assert_eq!(elapsed_millis(u64::MAX, 0), u64::MAX.wrapping_mul(1000));
}

#[test]
fn response_is_normalised_as_a_whole() {
    let raw = RawResponse {
        status: 404,
        headers: vec![("content-type".to_string(), b"application/json".to_vec())],
        body: b"{\"error\": \"not found\"}".to_vec(),
    };
    let response = normalize_response(raw, 1, 234_567_890);
    assert_eq!(response.status, 404);
    assert_eq!(response.headers.pairs(), &pairs(&[("content-type", "application/json")]));
    assert_eq!(
        response.body,
        Some(JsonValue::Object(vec![(
            "error".to_string(),
            JsonValue::String("not found".to_string())
        )]))
    );
    assert_eq!(response.duration_ms, 1234);
    assert_eq!(response.size_bytes, 22);
}

#[test]
fn status_is_taken_as_it_is() {
    for status in [0u16, 100, 200, 599, 999, 65535] {
        let response = normalize_response(
            RawResponse { status, headers: Vec::new(), body: Vec::new() },
            0,
            0,
        );
        assert_eq!(response.status, status);
    }
}

#[test]
fn received_response_finishes_the_request() {
    let result = finish_request(TransportOutcome::Received(raw(b"true")), 0, 5_000_000);
    let response = result.ok().unwrap();
    assert_eq!(response.status, 200);
    assert_eq!(response.body, Some(JsonValue::Bool(true)));
    assert_eq!(response.duration_ms, 5);
    assert_eq!(response.size_bytes, 4);
}

#[test]
fn timeout_is_reported_as_timeout() {
    let result = finish_request(TransportOutcome::TimedOut, 0, 1_000_000);
    assert_eq!(result.err(), Some(RequestError::Timeout));
}

#[test]
fn transport_failure_is_reported_as_network_error() {
    let result = finish_request(TransportOutcome::Failed, 0, 0);
    assert_eq!(result.err(), Some(RequestError::NetworkError));
}

#[test]
fn abandoned_exchange_is_reported_as_cancelled() {
    let result = finish_request(TransportOutcome::Cancelled, 0, 0);
    assert_eq!(result.err(), Some(RequestError::Cancelled));
}

#[test]
fn header_text_takes_exactly_visible_ascii_space_and_tab() {
    for b in 0u8..=255 {
        let expected = if (32..=126).contains(&b) || b == 9 {
            Some((b as char).to_string())
        } else {
            None
        };
        assert_eq!(decode_header_value(&[b]), expected, "{}", b);
    }
}
