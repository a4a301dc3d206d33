//! The error taxonomy, and the classification of HTTP status codes.
//!
//! A call fails with exactly one of: a transport failure (connection, TLS,
//! timeout — the cause is carried as text), a classified HTTP error, a
//! deserialize failure (the body was not the expected shape), or a bad
//! result (a well-formed envelope with no usable payload).

use vstd::prelude::*;

verus! {

#[derive(Debug, Clone, PartialEq, Eq)]
pub enum Error {
    /// The HTTP exchange itself failed; carries the underlying cause.
    Transport(String),
    /// The response body was not the expected shape; carries a description.
    FailedToDeserialize(String),
    /// The envelope parsed but held no usable `result`.
    BadResult,
    BadRequest,
    Unauthorized,
    Forbidden,
    NotFound,
    MethodNotAllowed,
    TooManyRequests,
    UnhandledClientError,
    InternalServerError,
    NotImplemented,
    BadGateway,
    ServiceUnavailable,
    GatewayTimeout,
    UnhandledServerError,
}

/// The error kind for a failing HTTP status: one fixed kind each for
/// 400, 401, 403, 404, 405, 429, 500, 501, 502, 503 and 504; every other
/// 4xx is the generic client error, everything else the generic server
/// error.
pub open spec fn http_error_of(status: u16) -> Error {
    if status == 400 {
        Error::BadRequest
    } else if status == 401 {
        Error::Unauthorized
    } else if status == 403 {
        Error::Forbidden
    } else if status == 404 {
        Error::NotFound
    } else if status == 405 {
        Error::MethodNotAllowed
    } else if status == 429 {
        Error::TooManyRequests
    } else if 400 <= status && status <= 499 {
        Error::UnhandledClientError
    } else if status == 500 {
        Error::InternalServerError
    } else if status == 501 {
        Error::NotImplemented
    } else if status == 502 {
        Error::BadGateway
    } else if status == 503 {
        Error::ServiceUnavailable
    } else if status == 504 {
        Error::GatewayTimeout
    } else {
        Error::UnhandledServerError
    }
}

/// Classify one HTTP response: any status up to 399 succeeds with the body
/// unchanged; any other status fails with exactly the mapped error kind.
pub fn classify_response(status: u16, body: String) -> (r: Result<String, Error>)
    ensures
        status <= 399 ==> r == Ok::<String, Error>(body),
        status > 399 ==> r == Err::<String, Error>(http_error_of(status)),
{
    if status <= 399 {
        Ok(body)
    } else if status == 400 {
        Err(Error::BadRequest)
    } else if status == 401 {
        Err(Error::Unauthorized)
    } else if status == 403 {
        Err(Error::Forbidden)
    } else if status == 404 {
        Err(Error::NotFound)
    } else if status == 405 {
        Err(Error::MethodNotAllowed)
    } else if status == 429 {
        Err(Error::TooManyRequests)
    } else if status <= 499 {
        Err(Error::UnhandledClientError)
    } else if status == 500 {
        Err(Error::InternalServerError)
    } else if status == 501 {
        Err(Error::NotImplemented)
    } else if status == 502 {
        Err(Error::BadGateway)
    } else if status == 503 {
        Err(Error::ServiceUnavailable)
    } else if status == 504 {
        Err(Error::GatewayTimeout)
    } else {
        Err(Error::UnhandledServerError)
    }
}

} // verus!
