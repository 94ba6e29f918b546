//! Request descriptions, substitution of variables, and the request as
//! it is handed to the transport.

use vstd::prelude::*;
use vstd::string::*;
use crate::error::RequestError;
use crate::headers::{build_headers, valid_headers, wire_headers};
use crate::json::{model_of, JsonModel, JsonValue};
use crate::string_map::StringMap;
use crate::target::{build_url, target_url};
use crate::text::{substitute, substitute_text};

verus! {

/// The request methods.
#[derive(Clone, Copy, Debug, PartialEq, Eq, Structural)]
pub enum HttpMethod {
    GET,
    POST,
    PUT,
    DELETE,
    PATCH,
    HEAD,
    OPTIONS,
}

impl HttpMethod {
    /// The method as it is written on the wire.
    pub fn as_str(&self) -> (token: &'static str)
        ensures
            token@ == match *self {
                HttpMethod::GET => "GET"@,
                HttpMethod::POST => "POST"@,
                HttpMethod::PUT => "PUT"@,
                HttpMethod::DELETE => "DELETE"@,
                HttpMethod::PATCH => "PATCH"@,
                HttpMethod::HEAD => "HEAD"@,
                HttpMethod::OPTIONS => "OPTIONS"@,
            },
    {
        match self {
            HttpMethod::GET => "GET",
            HttpMethod::POST => "POST",
            HttpMethod::PUT => "PUT",
            HttpMethod::DELETE => "DELETE",
            HttpMethod::PATCH => "PATCH",
            HttpMethod::HEAD => "HEAD",
            HttpMethod::OPTIONS => "OPTIONS",
        }
    }
}

/// A request as its author describes it.
#[derive(Clone, Debug)]
pub struct ApiRequest {
    /// The URL, which may hold placeholders and need not parse yet.
    pub url: String,
    /// The method.
    pub method: HttpMethod,
    /// The headers by name. Values may hold placeholders.
    pub headers: StringMap,
    /// The query parameters that are appended to the URL.
    pub params: StringMap,
    /// The body, if there is one.
    pub body: Option<JsonValue>,
    /// The time limit for the whole exchange in milliseconds, if any.
    pub timeout_ms: Option<u64>,
}

/// A request as it is handed to the transport.
#[derive(Debug)]
pub struct OutboundRequest {
    /// The absolute URL, query parameters included.
    pub url: String,
    /// The method.
    pub method: HttpMethod,
    /// The headers in wire format.
    pub headers: StringMap,
    /// The body, to be sent as JSON, if there is one.
    pub body: Option<JsonValue>,
    /// The time limit for the whole exchange in milliseconds, if any.
    pub timeout_ms: Option<u64>,
}

/// The headers with the variables of `env` filled in in every value.
/// Names are left as they are.
pub open spec fn substituted_headers(
    headers: Seq<(Seq<char>, Seq<char>)>,
    env: Seq<(Seq<char>, Seq<char>)>,
) -> Seq<(Seq<char>, Seq<char>)> {
    Seq::new(headers.len(), |i: int| (headers[i].0, substitute(headers[i].1, env)))
}

/// The body with the variables of `env` filled in: a body that is one
/// JSON string has them filled in in its text, any other body is
/// left as it is.
pub open spec fn substituted_body(
    body: Option<JsonModel>,
    env: Seq<(Seq<char>, Seq<char>)>,
) -> Option<JsonModel> {
    match body {
        Some(JsonModel::String(text)) => Some(JsonModel::String(substitute(text, env))),
        _ => body,
    }
}

/// Fills in the variables of `env` in the headers' values.
fn substitute_headers(headers: StringMap, env: &StringMap) -> (out: StringMap)
    ensures
        out.entries() == substituted_headers(headers.entries(), env.entries()),
{
    let ghost before = headers.entries();
    let ghost vars = env.entries();
    let mut out = headers;
    let n = out.len();
    let mut i: usize = 0;
    while i < n
        invariant
            i <= n,
            n == before.len(),
            vars == env.entries(),
            out.entries().len() == n,
            forall|k: int|
                0 <= k < i ==> #[trigger] out.entries()[k] == (
                    before[k].0,
                    substitute(before[k].1, vars),
                ),
            forall|k: int| i <= k < n ==> #[trigger] out.entries()[k] == before[k],
        decreases n - i,
    {
        let pairs = out.pairs();
        assert(out.entries()[i as int] == (pairs@[i as int].0@, pairs@[i as int].1@));
        let value = substitute_text(pairs[i].1.as_str(), env);
        out.replace_value(i, value);
        i += 1;
    }
    assert(out.entries() =~= substituted_headers(before, vars));
    out
}

/// Fills in the variables of `env` in the body, if the body is a string.
fn substitute_body(body: Option<JsonValue>, env: &StringMap) -> (out: Option<JsonValue>)
    ensures
        model_of(out) == substituted_body(model_of(body), env.entries()),
        !(model_of(body) matches Some(JsonModel::String(_))) ==> out == body,
{
    match body {
        Some(JsonValue::String(text)) => {
            let filled = substitute_text(text.as_str(), env);
            Some(JsonValue::String(filled))
        },
        other => other,
    }
}

/// Fills in the variables of `env` in a request: in its URL, in the
/// value of each header, and in its body where the body is one JSON
/// string. Every entry of `env` is applied once, in the order of `env`,
/// to what the entries before it have left; a value that is inserted is
/// not expanded again by the entry that inserted it. Everything else in
/// the request is left as it is.
pub fn replace_env_vars(request: ApiRequest, env: &StringMap) -> (out: ApiRequest)
    ensures
        out.url@ == substitute(request.url@, env.entries()),
        out.method == request.method,
        out.headers.entries() == substituted_headers(request.headers.entries(), env.entries()),
        out.params == request.params,
        model_of(out.body) == substituted_body(model_of(request.body), env.entries()),
        !(model_of(request.body) matches Some(JsonModel::String(_))) ==> out.body == request.body,
        out.timeout_ms == request.timeout_ms,
{
    let url = substitute_text(request.url.as_str(), env);
    let headers = substitute_headers(request.headers, env);
    let body = substitute_body(request.body, env);
    ApiRequest {
        url,
        method: request.method,
        headers,
        params: request.params,
        body,
        timeout_ms: request.timeout_ms,
    }
}

/// Makes the request that goes to the transport: parses the URL and
/// appends the query parameters, then puts the headers in wire format.
/// A URL that does not parse gives `InvalidUrl`; with a good URL, a
/// header that is not valid gives `InvalidHeader`. Method, body and time
/// limit are handed on as they are.
pub fn make_request(request: ApiRequest) -> (made: Result<OutboundRequest, RequestError>)
    ensures
        made is Ok <==> target_url(request.url@, request.params.entries()) is Some
            && valid_headers(request.headers.entries()),
        made matches Ok(out) ==> {
            &&& Some(out.url@) == target_url(request.url@, request.params.entries())
            &&& out.method == request.method
            &&& out.headers.entries() == wire_headers(request.headers.entries())
            &&& out.body == request.body
            &&& out.timeout_ms == request.timeout_ms
        },
        made matches Err(e) ==> e == (if target_url(request.url@, request.params.entries())
            is None {
            RequestError::InvalidUrl
        } else {
            RequestError::InvalidHeader
        }),
{
    let url = match build_url(request.url.as_str(), &request.params) {
        Ok(url) => url,
        Err(e) => {
            return Err(e);
        },
    };
    let headers = match build_headers(&request.headers) {
        Ok(headers) => headers,
        Err(e) => {
            return Err(e);
        },
    };
    Ok(
        OutboundRequest {
            url,
            method: request.method,
            headers,
            body: request.body,
            timeout_ms: request.timeout_ms,
        },
    )
}

/// Fills in the variables of `env` in the request and makes the request
/// that goes to the transport.
pub fn prepare_request(request: ApiRequest, env: &StringMap) -> (made: Result<
    OutboundRequest,
    RequestError,
>)
    ensures
        made is Ok <==> target_url(
            substitute(request.url@, env.entries()),
            request.params.entries(),
        ) is Some && valid_headers(
            substituted_headers(request.headers.entries(), env.entries()),
        ),
        made matches Ok(out) ==> {
            &&& Some(out.url@) == target_url(
                substitute(request.url@, env.entries()),
                request.params.entries(),
            )
            &&& out.method == request.method
            &&& out.headers.entries() == wire_headers(
                substituted_headers(request.headers.entries(), env.entries()),
            )
            &&& model_of(out.body) == substituted_body(model_of(request.body), env.entries())
            &&& out.timeout_ms == request.timeout_ms
        },
        made matches Err(e) ==> e == (if target_url(
            substitute(request.url@, env.entries()),
            request.params.entries(),
        ) is None {
            RequestError::InvalidUrl
        } else {
            RequestError::InvalidHeader
        }),
{
    make_request(replace_env_vars(request, env))
}

} // verus!
