//! Request preparation and response normalisation for an HTTP request runner.
//!
//! The crate turns a declarative request description into the exact values
//! that go on the wire (after `{{name}}` placeholders have been filled in
//! from an environment of variables), and turns what came back from the
//! network into a stable response description. The network exchange itself
//! is left to the caller.
//!
//! - [`text`]: literal replacement and placeholders, with their laws
//! - [`string_map`]: a text-to-text map with insertion order
//! - [`env`]: the store of variables
//! - [`json`]: JSON values and reading them from bytes
//! - [`target`]: the URL of a request with its query parameters
//! - [`headers`]: request headers in wire format
//! - [`request`]: request descriptions, substitution, the outbound request
//! - [`response`]: normalising what came back
//! - [`error`]: the failures of a request

pub mod env;
pub mod error;
pub mod headers;
pub mod json;
pub mod request;
pub mod response;
pub mod string_map;
pub mod target;
pub mod text;

pub use env::EnvStore;
pub use error::RequestError;
pub use json::{JsonNumber, JsonValue};
pub use request::{
    make_request, prepare_request, replace_env_vars, ApiRequest, HttpMethod, OutboundRequest,
};
pub use response::{finish_request, normalize_response, ApiResponse, RawResponse, TransportOutcome};
pub use string_map::StringMap;
