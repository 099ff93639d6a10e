//! The crate's error type and how each error is answered over HTTP.
use vstd::prelude::*;

use crate::text::{concat, owned};

verus! {

/// What went wrong. Each variant carries the text that describes it.
#[derive(Debug, Clone)]
pub enum Error {
    Database(String),
    Config(String),
    NotFound(String),
    Unauthorized(String),
    Celld(String),
    Internal(String),
}

/// The result of an operation that can fail with an `Error`.
pub type Result<T> = core::result::Result<T, Error>;

/// The HTTP status with which an error is answered.
pub open spec fn status_of(e: Error) -> u16 {
    match e {
        Error::NotFound(_) => 404,
        Error::Config(_) => 400,
        Error::Unauthorized(_) => 401,
        Error::Celld(_) => 502,
        Error::Database(_) => 500,
        Error::Internal(_) => 500,
    }
}

/// The message an HTTP client is shown: the error's own text, except for
/// database and internal errors, whose details stay on the server.
pub open spec fn public_message_of(e: Error) -> Seq<char> {
    match e {
        Error::NotFound(m) => m@,
        Error::Config(m) => m@,
        Error::Unauthorized(m) => m@,
        Error::Celld(m) => m@,
        Error::Database(_) => "internal server error"@,
        Error::Internal(_) => "internal server error"@,
    }
}

/// The full description of an error, as the server logs it.
pub open spec fn description_of(e: Error) -> Seq<char> {
    match e {
        Error::Database(m) => "Database error: "@ + m@,
        Error::Config(m) => "Configuration error: "@ + m@,
        Error::NotFound(m) => "Not found: "@ + m@,
        Error::Unauthorized(m) => "Unauthorized: "@ + m@,
        Error::Celld(m) => "celld request failed: "@ + m@,
        Error::Internal(m) => "Internal error: "@ + m@,
    }
}

/// A configuration error with the given message.
pub fn config_error(message: &str) -> (e: Error)
    ensures
        e matches Error::Config(m) && m@ == message@,
{
    Error::Config(owned(message))
}

impl Error {
    /// The HTTP status code of the response for this error.
    pub fn status_code(&self) -> (r: u16)
        ensures
            r == status_of(*self),
    {
        match self {
            Error::NotFound(_) => 404,
            Error::Config(_) => 400,
            Error::Unauthorized(_) => 401,
            Error::Celld(_) => 502,
            Error::Database(_) => 500,
            Error::Internal(_) => 500,
        }
    }

    /// The message put in the body of the response for this error.
    pub fn public_message(&self) -> (r: String)
        ensures
            r@ == public_message_of(*self),
    {
        match self {
            Error::NotFound(m) => m.clone(),
            Error::Config(m) => m.clone(),
            Error::Unauthorized(m) => m.clone(),
            Error::Celld(m) => m.clone(),
            Error::Database(_) => owned("internal server error"),
            Error::Internal(_) => owned("internal server error"),
        }
    }

    /// The full description of this error.
    pub fn describe(&self) -> (r: String)
        ensures
            r@ == description_of(*self),
    {
        match self {
            Error::Database(m) => concat("Database error: ", m.as_str()),
            Error::Config(m) => concat("Configuration error: ", m.as_str()),
            Error::NotFound(m) => concat("Not found: ", m.as_str()),
            Error::Unauthorized(m) => concat("Unauthorized: ", m.as_str()),
            Error::Celld(m) => concat("celld request failed: ", m.as_str()),
            Error::Internal(m) => concat("Internal error: ", m.as_str()),
        }
    }
}

} // verus!
