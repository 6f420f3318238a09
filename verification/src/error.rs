//! The error taxonomy of the store and its mapping to HTTP status codes.
//!
//! `NotFound` deliberately covers both a missing and an expired paste, so the
//! external signal does not reveal which expiry condition triggered. A storage
//! failure is surfaced as a generic internal error with no detail attached.

use vstd::prelude::*;

verus! {

/// Outcome classes of the store's operations, each mapped to one status code.
#[derive(Clone, Copy, Debug, PartialEq, Eq, Structural)]
pub enum Error {
    /// A bad or missing admin bearer token on a mutating admin route.
    Unauthorized,
    /// A missing or expired paste; the two causes are indistinguishable.
    NotFound,
    /// A creation request whose id already exists.
    Conflict,
    /// A write request rejected by the admission controller.
    Throttled,
    /// An underlying store failure, not further classified to the caller.
    Storage,
}

impl Error {
    /// The status code this error maps to, as a specification value.
    pub open spec fn spec_status_code(self) -> u16 {
        match self {
            Error::Unauthorized => 401u16,
            Error::NotFound => 404u16,
            Error::Conflict => 409u16,
            Error::Throttled => 429u16,
            Error::Storage => 500u16,
        }
    }

    /// The message text this error maps to, as a specification value.
    pub open spec fn spec_message(self) -> Seq<char> {
        match self {
            Error::Unauthorized => "NO_AUTHORIZATION"@,
            Error::NotFound => "NOT_FOUND"@,
            Error::Conflict => "CONFLICT"@,
            Error::Throttled => "TOO_MANY_REQUESTS"@,
            Error::Storage => "INTERNAL_ERROR"@,
        }
    }

    /// The HTTP status code that the service boundary sends for this error.
    pub fn status_code(&self) -> (code: u16)
        ensures
            code == self.spec_status_code(),
    {
        match self {
            Error::Unauthorized => 401,
            Error::NotFound => 404,
            Error::Conflict => 409,
            Error::Throttled => 429,
            Error::Storage => 500,
        }
    }

    /// The short machine-readable message sent with the status code. A storage
    /// failure yields a generic message: its detail stays server-side.
    pub fn message(&self) -> (msg: String)
        ensures
            msg@ == self.spec_message(),
    {
        match self {
            Error::Unauthorized => "NO_AUTHORIZATION".to_owned(),
            Error::NotFound => "NOT_FOUND".to_owned(),
            Error::Conflict => "CONFLICT".to_owned(),
            Error::Throttled => "TOO_MANY_REQUESTS".to_owned(),
            Error::Storage => "INTERNAL_ERROR".to_owned(),
        }
    }

    /// The response body for this error: its message, wrapped for serialization.
    pub fn to_message(&self) -> (m: ErrorMessage)
        ensures
            m.msg@ == self.spec_message(),
    {
        ErrorMessage { msg: self.message() }
    }
}

/// The JSON body sent alongside an error status code.
#[derive(Debug)]
pub struct ErrorMessage {
    pub msg: String,
}

} // verus!
