//! The closed vocabularies of the protocol layer: the supported request
//! methods, the response status lines, and the classified request errors.

use vstd::prelude::*;
use vstd::string::StringSliceAdditionalSpecFns;

use crate::bytes_util::{ascii_upper, bytes_eq, spec_upper};

verus! {

/// A supported HTTP request method.
#[derive(PartialEq, Eq, Structural, Debug, Clone, Copy)]
pub enum Method {
    GET,
    POST,
}

/// A response status line, one variant per literal the serializer emits.
#[derive(PartialEq, Eq, Structural, Debug, Clone, Copy)]
pub enum Status {
    OK,
    Created,
    BadRequest,
    NotFound,
    MethodNotAllowed,
    InternalServerError,
}

/// How parsing a request can fail. `BadRequestError` and
/// `MethodNotAllowedError` are answered with the matching status
/// response; `FatalError` (an unreadable `content-length`, or a body
/// that does not match it) is unrecoverable and the caller drops the
/// connection without a response.
#[derive(PartialEq, Eq, Structural, Debug, Clone, Copy)]
pub enum RequestError {
    BadRequestError,
    MethodNotAllowedError,
    FatalError,
}

/// The method a token names, compared without regard to ASCII case.
pub open spec fn spec_method(tok: Seq<u8>) -> Option<Method> {
    if spec_upper(tok) == "GET".spec_bytes() {
        Some(Method::GET)
    } else if spec_upper(tok) == "POST".spec_bytes() {
        Some(Method::POST)
    } else {
        None
    }
}

impl Method {
    /// Resolve a method token, case-insensitively. Any token naming
    /// neither GET nor POST is a method-not-allowed error.
    pub fn from(tok: &[u8]) -> (r: Result<Method, RequestError>)
        ensures
            r == match spec_method(tok@) {
                Some(m) => Ok::<Method, RequestError>(m),
                None => Err::<Method, RequestError>(RequestError::MethodNotAllowedError),
            },
    {
        let upper = ascii_upper(tok);
        if bytes_eq(upper.as_slice(), "GET".as_bytes()) {
            Ok(Method::GET)
        } else if bytes_eq(upper.as_slice(), "POST".as_bytes()) {
            Ok(Method::POST)
        } else {
            Err(RequestError::MethodNotAllowedError)
        }
    }
}

} // verus!
