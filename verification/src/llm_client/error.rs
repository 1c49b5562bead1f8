use vstd::prelude::*;

use crate::text::{decimal, decimal_spec};

verus! {

/// Errors of the LLM client.
#[derive(Debug)]
pub enum ClientError {
    /// Network/transport error.
    Network(reqwest::Error),
    /// JSON parsing error.
    Json(serde_json::Error),
    /// Invalid SSE format.
    SseFormat(String),
    /// Request validation error.
    InvalidRequest(String),
    /// Provider-specific error.
    Provider { code: u16, message: String },
    /// Rate limit exceeded.
    RateLimited,
    /// Authentication error.
    Unauthorized,
}

/// `reqwest::Error::is_timeout`: whether the error, or an error it was
/// caused by, is a time-out. Nothing is claimed of the result.
#[verifier::external_body]
fn reqwest_is_timeout(e: &reqwest::Error) -> bool {
    e.is_timeout()
}

/// `reqwest::Error::is_connect`: whether the error arose while connecting.
/// Nothing is claimed of the result.
#[verifier::external_body]
fn reqwest_is_connect(e: &reqwest::Error) -> bool {
    e.is_connect()
}

/// `reqwest::Error::is_request`: whether the error arose while sending the
/// request. Nothing is claimed of the result.
#[verifier::external_body]
fn reqwest_is_request(e: &reqwest::Error) -> bool {
    e.is_request()
}

/// Whether a network error with these properties is worth retrying.
pub fn network_error_is_retryable(timeout: bool, connect: bool, request: bool) -> (r: bool)
    ensures
        r == (timeout || connect || request),
{
    timeout || connect || request
}

impl ClientError {
    /// Whether the error is worth retrying: rate limiting, 5xx provider
    /// errors, and network errors that are time-outs, connection failures
    /// or request failures (as `reqwest` classifies them). Other errors are
    /// returned at once, since a retry would fail the same way.
    pub fn is_retryable(&self) -> (r: bool)
        ensures
            match self {
                ClientError::Network(_) => true,
                ClientError::RateLimited => r,
                ClientError::Provider { code, .. } => r == (*code >= 500),
                _ => !r,
            },
    {
        match self {
            ClientError::Network(e) => network_error_is_retryable(
                reqwest_is_timeout(e),
                reqwest_is_connect(e),
                reqwest_is_request(e),
            ),
            ClientError::RateLimited => true,
            ClientError::Provider { code, .. } => *code >= 500,
            _ => false,
        }
    }

    /// The error for an unsuccessful HTTP status with response body `body`.
    pub fn from_status(status: u16, body: String) -> (r: Self)
        ensures
            status == 401 ==> r is Unauthorized,
            status == 429 ==> r is RateLimited,
            status != 401 && status != 429 ==> (r matches ClientError::Provider { code, message } && code
                == status && message == body),
    {
        if status == 401 {
            ClientError::Unauthorized
        } else if status == 429 {
            ClientError::RateLimited
        } else {
            ClientError::Provider { code: status, message: body }
        }
    }

    /// The message that describes this error, where it is the library's own.
    /// `None` for the network and JSON errors, whose text comes from their
    /// crates.
    pub fn message(&self) -> (r: Option<String>)
        ensures
            match self {
                ClientError::Network(_) => r is None,
                ClientError::Json(_) => r is None,
                ClientError::SseFormat(m) => r matches Some(t) && t@ == "sse format error: "@ + m@,
                ClientError::InvalidRequest(m) => r matches Some(t) && t@ == "invalid request: "@ + m@,
                ClientError::Provider { code, message } => r matches Some(t) && t@ == "provider error "@
                    + decimal_spec(*code as nat) + ": "@ + message@,
                ClientError::RateLimited => r matches Some(t) && t@ == "rate limited"@,
                ClientError::Unauthorized => r matches Some(t) && t@ == "unauthorized"@,
            },
    {
        let mut r = String::new();
        assert(r@ =~= Seq::<char>::empty());
        match self {
            ClientError::Network(_) => {
                return None;
            },
            ClientError::Json(_) => {
                return None;
            },
            ClientError::SseFormat(m) => {
                r.append("sse format error: ");
                r.append(m.as_str());
            },
            ClientError::InvalidRequest(m) => {
                r.append("invalid request: ");
                r.append(m.as_str());
            },
            ClientError::Provider { code, message } => {
                r.append("provider error ");
                r.append(decimal(*code as u64).as_str());
                r.append(": ");
                r.append(message.as_str());
            },
            ClientError::RateLimited => {
                r.append("rate limited");
            },
            ClientError::Unauthorized => {
                r.append("unauthorized");
            },
        }
        Some(r)
    }
}

}
