use api_client::error::RequestError;
use api_client::headers::{build_headers, header_name, header_value};
use api_client::json::{JsonNumber, JsonValue};
use api_client::request::{make_request, prepare_request, ApiRequest, HttpMethod};
use api_client::string_map::StringMap;
use api_client::target::{append_params, build_url};

fn pairs(items: &[(&str, &str)]) -> Vec<(String, String)> {
    items.iter().map(|(k, v)| (k.to_string(), v.to_string())).collect()
}

fn map(items: &[(&str, &str)]) -> StringMap {
    StringMap::from_pairs(pairs(items))
}

fn request(url: &str) -> ApiRequest {
    ApiRequest {
        url: url.to_string(),
        method: HttpMethod::GET,
        headers: StringMap::new(),
        params: StringMap::new(),
        body: None,
        timeout_ms: None,
    }
}

#[test]
fn method_tokens() {
    assert_eq!(HttpMethod::GET.as_str(), "GET");
    assert_eq!(HttpMethod::POST.as_str(), "POST");
    assert_eq!(HttpMethod::PUT.as_str(), "PUT");
    assert_eq!(HttpMethod::DELETE.as_str(), "DELETE");
    assert_eq!(HttpMethod::PATCH.as_str(), "PATCH");
    assert_eq!(HttpMethod::HEAD.as_str(), "HEAD");
    assert_eq!(HttpMethod::OPTIONS.as_str(), "OPTIONS");
}

#[test]
fn error_messages() {
    assert_eq!(RequestError::InvalidUrl.message(), "invalid URL");
    assert_eq!(RequestError::InvalidHeader.message(), "invalid header");
    assert_eq!(RequestError::Timeout.message(), "request timed out");
    assert_eq!(RequestError::NetworkError.message(), "network error");
    assert_eq!(RequestError::Cancelled.message(), "request cancelled");
}

#[test]
fn url_without_params_keeps_its_query() {
    let none = StringMap::new();
    assert_eq!(
        build_url("https://example.com/path?a=1&b=two", &none),
        Ok("https://example.com/path?a=1&b=two".to_string())
    );
    assert_eq!(
        build_url("https://example.com/path", &none),
        Ok("https://example.com/path".to_string())
    );
    assert_eq!(
        build_url("https://example.com/path?", &none),
        Ok("https://example.com/path?".to_string())
    );
    assert_eq!(
        build_url("https://example.com/p?x=1#top", &none),
        Ok("https://example.com/p?x=1#top".to_string())
    );
}

#[test]
fn url_is_given_back_as_parsed() {
    let none = StringMap::new();
    assert_eq!(build_url("HTTP://EXAMPLE.com", &none), Ok("http://example.com/".to_string()));
    assert_eq!(
        build_url("https://example.com/a b", &none),
        Ok("https://example.com/a%20b".to_string())
    );
}

#[test]
fn params_are_appended_to_the_query() {
    assert_eq!(
        build_url("https://example.com/search", &map(&[("q", "rust"), ("page", "2")])),
        Ok("https://example.com/search?q=rust&page=2".to_string())
    );
}

#[test]
fn params_follow_an_existing_query() {
    assert_eq!(
        build_url("https://example.com/search?q=1", &map(&[("lang", "en")])),
        Ok("https://example.com/search?q=1&lang=en".to_string())
    );
}

#[test]
fn params_do_not_replace_existing_ones_of_the_same_name() {
    assert_eq!(
        build_url("https://example.com/?a=1", &map(&[("a", "2")])),
        Ok("https://example.com/?a=1&a=2".to_string())
    );
}

#[test]
fn params_are_encoded() {
    assert_eq!(
        build_url("https://example.com/", &map(&[("q", "a b&c=d"), ("ü", "é/?#")])),
        Ok("https://example.com/?q=a+b%26c%3Dd&%C3%BC=%C3%A9%2F%3F%23".to_string())
    );
}

#[test]
fn params_may_be_empty_texts() {
    assert_eq!(
        build_url("https://example.com/", &map(&[("", "")])),
        Ok("https://example.com/?=".to_string())
    );
}

#[test]
fn params_go_before_the_fragment() {
    assert_eq!(
        build_url("https://example.com/p#frag", &map(&[("a", "1")])),
        Ok("https://example.com/p?a=1#frag".to_string())
    );
}

#[test]
fn append_params_to_a_parsed_url() {
    assert_eq!(
        append_params("https://example.com/".to_string(), &map(&[("a", "1"), ("b", "2")])),
        Ok("https://example.com/?a=1&b=2".to_string())
    );
    assert_eq!(
        append_params("https://example.com/".to_string(), &StringMap::new()),
        Ok("https://example.com/".to_string())
    );
}

#[test]
fn append_params_to_what_is_no_url() {
    assert_eq!(
        append_params("no url".to_string(), &map(&[("a", "1")])),
        Err(RequestError::InvalidUrl)
    );
}

#[test]
fn text_that_is_no_absolute_url_is_invalid() {
    let none = StringMap::new();
    for text in ["", "not a url", "/relative/path", "example.com/path", "http://", "://x"] {
        assert_eq!(build_url(text, &none), Err(RequestError::InvalidUrl), "{:?}", text);
    }
}

#[test]
fn url_over_the_limit_takes_no_params() {
    let long = format!("https://example.com/{}", "a".repeat(0x100_0000));
    assert_eq!(build_url(&long, &map(&[("a", "1")])), Err(RequestError::InvalidUrl));
    assert_eq!(build_url(&long, &StringMap::new()), Ok(long.clone()));
}

#[test]
fn param_over_the_limit_is_refused() {
    let long = "a".repeat(0x100_0001);
    assert_eq!(
        build_url("https://example.com/", &map(&[("k", &long)])),
        Err(RequestError::InvalidUrl)
    );
    assert_eq!(
        build_url("https://example.com/", &map(&[(&long, "v")])),
        Err(RequestError::InvalidUrl)
    );
}

#[test]
fn header_names_go_to_lower_case() {
    assert_eq!(header_name("Content-Type"), Ok("content-type".to_string()));
    assert_eq!(header_name("X-REQUEST-ID"), Ok("x-request-id".to_string()));
    assert_eq!(header_name("accept"), Ok("accept".to_string()));
    assert_eq!(header_name("!#$%&'*+-.^_`|~09AZaz"), Ok("!#$%&'*+-.^_`|~09azaz".to_string()));
}

#[test]
fn header_names_are_tokens() {
    for name in ["", "a b", "a:b", "a\nb", "héader", "a/b", "a(b)", "a\"b", "a=b", "a{b}", "a@b"] {
        assert_eq!(header_name(name), Err(RequestError::InvalidHeader), "{:?}", name);
    }
}

#[test]
fn header_name_length_is_bounded() {
    assert_eq!(header_name(&"a".repeat(65535)), Ok("a".repeat(65535)));
    assert_eq!(header_name(&"a".repeat(65536)), Err(RequestError::InvalidHeader));
    assert_eq!(header_name(&"A".repeat(65)), Ok("a".repeat(65)));
}

#[test]
fn header_values_are_visible_ascii_spaces_and_tabs() {
    for value in ["", "text/plain", "a b\tc", "~!@#$%^&*()_+{}|:\"<>?`-=[]\\;',./"] {
        assert_eq!(header_value(value), Ok(()), "{:?}", value);
    }
}

#[test]
fn header_values_take_no_control_characters() {
    for value in ["a\nb", "a\rb", "\u{0}", "a\u{7f}", "\u{1f}"] {
        assert_eq!(header_value(value), Err(RequestError::InvalidHeader), "{:?}", value);
    }
}

#[test]
fn header_values_take_no_characters_beyond_ascii() {
    for value in ["café", "日本", "\u{80}", "a\u{ff}"] {
        assert_eq!(header_value(value), Err(RequestError::InvalidHeader), "{:?}", value);
    }
}

#[test]
fn headers_in_wire_format() {
    let wire = build_headers(&map(&[("Accept", "*/*"), ("X-Trace", "a b")])).unwrap();
    assert_eq!(wire.pairs(), &pairs(&[("accept", "*/*"), ("x-trace", "a b")]));
}

#[test]
fn headers_that_differ_in_case_only_keep_the_last_value() {
    let wire = build_headers(&map(&[("Accept", "a"), ("X", "1"), ("ACCEPT", "b")])).unwrap();
    assert_eq!(wire.pairs(), &pairs(&[("accept", "b"), ("x", "1")]));
}

#[test]
fn one_bad_header_fails_all() {
    assert_eq!(
        build_headers(&map(&[("Accept", "*/*"), ("Bad Name", "x")])).err(),
        Some(RequestError::InvalidHeader)
    );
    assert_eq!(
        build_headers(&map(&[("Accept", "line\nbreak")])).err(),
        Some(RequestError::InvalidHeader)
    );
    assert!(build_headers(&StringMap::new()).unwrap().is_empty());
}

#[test]
fn make_request_hands_on_method_body_and_time_limit() {
    let mut req = request("https://example.com/items");
    req.method = HttpMethod::PATCH;
    req.headers = map(&[("Content-Type", "application/json")]);
    req.params = map(&[("dry", "1")]);
    req.body = Some(JsonValue::Object(vec![(
        "n".to_string(),
        JsonValue::Number(JsonNumber::NegInt(-3)),
    )]));
    req.timeout_ms = Some(1500);
    let out = make_request(req).unwrap();
    assert_eq!(out.url, "https://example.com/items?dry=1");
    assert_eq!(out.method, HttpMethod::PATCH);
    assert_eq!(out.headers.pairs(), &pairs(&[("content-type", "application/json")]));
    assert_eq!(
        out.body,
        Some(JsonValue::Object(vec![(
            "n".to_string(),
            JsonValue::Number(JsonNumber::NegInt(-3)),
        )]))
    );
    assert_eq!(out.timeout_ms, Some(1500));
}

#[test]
fn make_request_without_time_limit_or_body() {
    let out = make_request(request("https://example.com/")).unwrap();
    assert_eq!(out.timeout_ms, None);
    assert_eq!(out.body, None);
    assert!(out.headers.is_empty());
}

#[test]
fn make_request_reports_an_invalid_url() {
    assert_eq!(make_request(request("nonsense")).err(), Some(RequestError::InvalidUrl));
}

#[test]
fn make_request_reports_an_invalid_header() {
    let mut req = request("https://example.com/");
    req.headers = map(&[("X Bad", "v")]);
    assert_eq!(make_request(req).err(), Some(RequestError::InvalidHeader));
}

#[test]
fn invalid_url_is_reported_before_an_invalid_header() {
    let mut req = request("nonsense");
    req.headers = map(&[("X Bad", "v")]);
    assert_eq!(make_request(req).err(), Some(RequestError::InvalidUrl));
}

#[test]
fn header_made_invalid_by_substitution_is_reported() {
    let mut req = request("https://example.com/");
    req.headers = map(&[("X-Note", "{{note}}")]);
    let env = map(&[("note", "two\nlines")]);
    assert_eq!(prepare_request(req, &env).err(), Some(RequestError::InvalidHeader));
}

#[test]
fn header_names_are_not_substituted() {
    let mut req = request("https://example.com/");
    req.headers = map(&[("{{name}}", "v")]);
    let env = map(&[("name", "x-ok")]);
    assert_eq!(prepare_request(req, &env).err(), Some(RequestError::InvalidHeader));
}

#[test]
fn header_name_takes_exactly_the_token_characters() {
    let token = "!#$%&'*+-.^_`|~0123456789ABCDEFGHIJKLMNOPQRSTUVWXYZabcdefghijklmnopqrstuvwxyz";
    for code in 0u32..=0x2ff {
        let c = char::from_u32(code).unwrap();
        let expected = if token.contains(c) {
            Ok(c.to_ascii_lowercase().to_string())
        } else {
            Err(RequestError::InvalidHeader)
        };
        assert_eq!(header_name(&c.to_string()), expected, "{:?}", c);
        let inside = format!("x{}y", c);
        let expected = if token.contains(c) {
            Ok(inside.to_ascii_lowercase())
        } else {
            Err(RequestError::InvalidHeader)
        };
        assert_eq!(header_name(&inside), expected, "{:?}", inside);
    }
}

#[test]
fn header_value_takes_exactly_visible_ascii_space_and_tab() {
    for code in 0u32..=0x2ff {
        let c = char::from_u32(code).unwrap();
        let expected = if (32..=126).contains(&code) || code == 9 {
            Ok(())
        } else {
            Err(RequestError::InvalidHeader)
        };
        assert_eq!(header_value(&c.to_string()), expected, "{:?}", c);
        assert_eq!(header_value(&format!("a{}b", c)), expected, "{:?}", c);
    }
}
