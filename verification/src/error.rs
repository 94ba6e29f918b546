//! The failures a request execution can end in.

use vstd::prelude::*;

verus! {

/// Why a request could not be completed. Every failure is terminal for the
/// request that met it.
#[derive(Clone, Copy, Debug, PartialEq, Eq, Structural)]
pub enum RequestError {
    /// The URL, after substitution, is not a well-formed absolute URL.
    InvalidUrl,
    /// A header name or value, after substitution, is not valid header syntax.
    InvalidHeader,
    /// The configured time limit ran out before the response was complete.
    Timeout,
    /// The transport failed: name resolution, connection, TLS, or a drop
    /// in the middle of the transfer.
    NetworkError,
    /// The exchange was abandoned before it completed.
    Cancelled,
}

impl RequestError {
    /// A short human-readable description of the failure.
    pub fn message(&self) -> (text: &'static str)
        ensures
            text@ == match *self {
                RequestError::InvalidUrl => "invalid URL"@,
                RequestError::InvalidHeader => "invalid header"@,
                RequestError::Timeout => "request timed out"@,
                RequestError::NetworkError => "network error"@,
                RequestError::Cancelled => "request cancelled"@,
            },
    {
        match self {
            RequestError::InvalidUrl => "invalid URL",
            RequestError::InvalidHeader => "invalid header",
            RequestError::Timeout => "request timed out",
            RequestError::NetworkError => "network error",
            RequestError::Cancelled => "request cancelled",
        }
    }
}

} // verus!
