//! Turning what came back from the network into a response description.

use vstd::prelude::*;
use vstd::string::*;
use vstd::utf8::*;
use crate::error::RequestError;
use crate::json::{json_parse, model_of, read_json, JsonModel, JsonValue};
use crate::string_map::{put, StringMap};

verus! {

/// The error of `core::str::from_utf8`, carried as it is.
#[verifier::external_type_specification]
#[verifier::external_body]
pub struct ExUtf8Error(core::str::Utf8Error);

/// `core::str::from_utf8` succeeds exactly on well-formed UTF-8, and the
/// text it gives is made of the very bytes it was given.
pub assume_specification[ core::str::from_utf8 ](bytes: &[u8]) -> (text: Result<
    &str,
    core::str::Utf8Error,
>)
    ensures
        text is Ok <==> valid_utf8(bytes@),
        text matches Ok(s) ==> s.spec_bytes() == bytes@,
;

/// A response as the transport delivered it.
#[derive(Debug)]
pub struct RawResponse {
    /// The status code.
    pub status: u16,
    /// The header lines in the order they came, each a name and the bytes
    /// of its value. A name may come more than once.
    pub headers: Vec<(String, Vec<u8>)>,
    /// The whole payload.
    pub body: Vec<u8>,
}

/// How an exchange with the server ended.
#[derive(Debug)]
pub enum TransportOutcome {
    /// A complete response arrived.
    Received(RawResponse),
    /// The time limit of the request ran out first.
    TimedOut,
    /// The transport failed.
    Failed,
    /// The exchange was abandoned.
    Cancelled,
}

/// A normalised response.
#[derive(Debug)]
pub struct ApiResponse {
    /// The status code as received.
    pub status: u16,
    /// The headers whose values are text, by name.
    pub headers: StringMap,
    /// The payload as a JSON value, where it can be given as one.
    pub body: Option<JsonValue>,
    /// The time the exchange took, in whole milliseconds.
    pub duration_ms: u64,
    /// The length of the payload in bytes, as received.
    pub size_bytes: usize,
}

/// A byte that may stand in a header value that is given out as text: a
/// visible ASCII character, a space or a tab.
pub open spec fn is_text_byte(b: u8) -> bool {
    (32 <= b < 127) || b == 9
}

/// The text of a header value: its bytes read as ASCII characters.
pub open spec fn ascii_text(bytes: Seq<u8>) -> Seq<char> {
    Seq::new(bytes.len(), |i: int| bytes[i] as char)
}

/// The text of a header value, if all of its bytes may stand in a text.
pub open spec fn header_text(bytes: Seq<u8>) -> Option<Seq<char>> {
    if forall|i: int| 0 <= i < bytes.len() ==> is_text_byte(#[trigger] bytes[i]) {
        Some(ascii_text(bytes))
    } else {
        None
    }
}

/// The header lines of a response as plain sequences.
pub open spec fn raw_headers(headers: Seq<(String, Vec<u8>)>) -> Seq<(Seq<char>, Seq<u8>)> {
    Seq::new(headers.len(), |i: int| (headers[i].0@, headers[i].1@))
}

/// The headers a response description holds for the given header lines:
/// lines whose value is no text are left out, and of several lines with
/// one name the last one stays.
pub open spec fn collect_headers(lines: Seq<(Seq<char>, Seq<u8>)>) -> Seq<(Seq<char>, Seq<char>)>
    decreases lines.len(),
{
    if lines.len() == 0 {
        Seq::empty()
    } else {
        let before = collect_headers(lines.drop_last());
        match header_text(lines.last().1) {
            Some(text) => put(before, lines.last().0, text),
            None => before,
        }
    }
}

/// The body of a response description, given the payload and what a JSON
/// parse of the payload gave: nothing for an empty payload; else the
/// parsed value; else the payload as a JSON string, if it is UTF-8; else
/// nothing.
pub open spec fn body_model(bytes: Seq<u8>, parsed: Option<JsonModel>) -> Option<JsonModel> {
    if bytes.len() == 0 {
        None
    } else if parsed is Some {
        parsed
    } else if valid_utf8(bytes) {
        Some(JsonModel::String(decode_utf8(bytes)))
    } else {
        None
    }
}

/// Whole milliseconds in a duration of `secs` seconds and `subsec_nanos`
/// nanoseconds, cut to 64 bits.
pub open spec fn millis_of(secs: u64, subsec_nanos: u32) -> int {
    (secs * 1000 + subsec_nanos / 1_000_000) % 0x1_0000_0000_0000_0000
}

/// Text made of ASCII bytes is well-formed UTF-8 and decodes to itself.
proof fn lemma_ascii_text(bytes: Seq<u8>)
    requires
        forall|i: int| 0 <= i < bytes.len() ==> #[trigger] bytes[i] < 128,
    ensures
        valid_utf8(bytes),
        decode_utf8(bytes) == ascii_text(bytes),
{
    let chars = ascii_text(bytes);
    assert(is_ascii_chars(chars));
    is_ascii_chars_encode_utf8(chars);
    assert forall|i: int| 0 <= i < bytes.len() implies encode_utf8(chars)[i] == bytes[i] by {
        assert(chars[i] as u8 == bytes[i]);
    }
    assert(encode_utf8(chars) =~= bytes);
    encode_utf8_valid_utf8(chars);
    encode_utf8_decode_utf8(chars);
}

/// Decodes `bytes` as UTF-8.
pub fn decode_text(bytes: &[u8]) -> (text: Option<String>)
    ensures
        text is Some <==> valid_utf8(bytes@),
        text matches Some(s) ==> s@ == decode_utf8(bytes@),
{
    match core::str::from_utf8(bytes) {
        Ok(s) => {
            proof {
                encode_utf8_decode_utf8(s@);
            }
            Some(s.to_owned())
        },
        Err(_) => None,
    }
}

/// The value of a header as text, where all of its bytes are visible
/// ASCII characters, spaces or tabs.
pub fn decode_header_value(bytes: &[u8]) -> (text: Option<String>)
    ensures
        text is Some <==> header_text(bytes@) is Some,
        text matches Some(s) ==> Some(s@) == header_text(bytes@),
{
    let mut i: usize = 0;
    while i < bytes.len()
        invariant
            i <= bytes.len(),
            forall|k: int| 0 <= k < i ==> is_text_byte(#[trigger] bytes@[k]),
        decreases bytes.len() - i,
    {
        let b = bytes[i];
        if !((32 <= b && b < 127) || b == 9) {
            return None;
        }
        i += 1;
    }
    proof {
        lemma_ascii_text(bytes@);
    }
    decode_text(bytes)
}

/// The body of a response description for the payload `bytes`, where
/// `parsed` is what a JSON parse of the payload gave.
pub fn body_from_parse(bytes: &[u8], parsed: Option<JsonValue>) -> (body: Option<JsonValue>)
    ensures
        model_of(body) == body_model(bytes@, model_of(parsed)),
{
    if bytes.len() == 0 {
        return None;
    }
    match parsed {
        Some(value) => Some(value),
        None => match decode_text(bytes) {
            Some(text) => Some(JsonValue::String(text)),
            None => None,
        },
    }
}

/// The body of a response description for the payload `bytes`: JSON is
/// tried first, then text.
pub fn normalize_body(bytes: &[u8]) -> (body: Option<JsonValue>)
    ensures
        model_of(body) == body_model(bytes@, json_parse(bytes@)),
        bytes@.len() == 0 ==> body is None,
{
    if bytes.len() == 0 {
        None
    } else {
        let parsed = read_json(bytes);
        body_from_parse(bytes, parsed)
    }
}

/// The headers of a response description for the given header lines.
pub fn normalize_headers(lines: &Vec<(String, Vec<u8>)>) -> (headers: StringMap)
    ensures
        headers.entries() == collect_headers(raw_headers(lines@)),
{
    let ghost all = raw_headers(lines@);
    let mut headers = StringMap::new();
    let mut i: usize = 0;
    while i < lines.len()
        invariant
            i <= lines.len(),
            all == raw_headers(lines@),
            headers.entries() == collect_headers(all.take(i as int)),
        decreases lines.len() - i,
    {
        assert(all.take(i + 1).drop_last() =~= all.take(i as int));
        assert(all.take(i + 1).last() == all[i as int]);
        match decode_header_value(lines[i].1.as_slice()) {
            Some(text) => {
                headers.insert(lines[i].0.clone(), text);
            },
            None => {},
        }
        i += 1;
    }
    assert(all.take(i as int) =~= all);
    headers
}

/// Whole milliseconds in a duration given as seconds and nanoseconds of
/// the last second. The fraction of a millisecond is dropped.
pub fn elapsed_millis(secs: u64, subsec_nanos: u32) -> (millis: u64)
    ensures
        millis == millis_of(secs, subsec_nanos),
{
    let whole: u128 = secs as u128 * 1000;
    let part: u128 = (subsec_nanos / 1_000_000) as u128;
    let total: u128 = whole + part;
    let millis = #[verifier::truncate] (total as u64);
    assert(millis == total % 0x1_0000_0000_0000_0000) by (bit_vector)
        requires
            millis == total as u64,
    ;
    millis
}

/// The response description for a response that arrived complete, after
/// an exchange that took `secs` seconds and `subsec_nanos` nanoseconds.
pub fn normalize_response(raw: RawResponse, secs: u64, subsec_nanos: u32) -> (response: ApiResponse)
    ensures
        response.status == raw.status,
        response.headers.entries() == collect_headers(raw_headers(raw.headers@)),
        model_of(response.body) == body_model(raw.body@, json_parse(raw.body@)),
        raw.body@.len() == 0 ==> response.body is None,
        response.size_bytes == raw.body@.len(),
        response.duration_ms == millis_of(secs, subsec_nanos),
{
    let size_bytes = raw.body.len();
    let headers = normalize_headers(&raw.headers);
    let body = normalize_body(raw.body.as_slice());
    ApiResponse {
        status: raw.status,
        headers,
        body,
        duration_ms: elapsed_millis(secs, subsec_nanos),
        size_bytes,
    }
}

/// The result of a request, given how the exchange ended and how long it
/// took.
pub fn finish_request(outcome: TransportOutcome, secs: u64, subsec_nanos: u32) -> (result: Result<
    ApiResponse,
    RequestError,
>)
    ensures
        match outcome {
            TransportOutcome::Received(raw) => result matches Ok(response) && {
                &&& response.status == raw.status
                &&& response.headers.entries() == collect_headers(raw_headers(raw.headers@))
                &&& model_of(response.body) == body_model(raw.body@, json_parse(raw.body@))
                &&& response.size_bytes == raw.body@.len()
                &&& response.duration_ms == millis_of(secs, subsec_nanos)
            },
            TransportOutcome::TimedOut => result == Err::<ApiResponse, RequestError>(
                RequestError::Timeout,
            ),
            TransportOutcome::Failed => result == Err::<ApiResponse, RequestError>(
                RequestError::NetworkError,
            ),
            TransportOutcome::Cancelled => result == Err::<ApiResponse, RequestError>(
                RequestError::Cancelled,
            ),
        },
{
    match outcome {
        TransportOutcome::Received(raw) => Ok(normalize_response(raw, secs, subsec_nanos)),
        TransportOutcome::TimedOut => Err(RequestError::Timeout),
        TransportOutcome::Failed => Err(RequestError::NetworkError),
        TransportOutcome::Cancelled => Err(RequestError::Cancelled),
    }
}

} // verus!
