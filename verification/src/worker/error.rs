//! Errors of a validator worker.

use crate::primitives::adapter::AdapterError;
use crate::primitives::error::DomainError;
use crate::primitives::text::u64_to_string;
use vstd::prelude::*;
use vstd::string::*;

verus! {

/// The tick of a channel failed as a whole.
#[derive(Debug)]
pub enum ValidatorWorker {
    Failed(String),
}

/// Why a step of a tick could not be taken: a rule of the domain was
/// broken, or the adapter refused.
#[derive(Debug)]
pub enum TickError {
    Domain(DomainError),
    Adapter(AdapterError),
}

/// What went wrong in a request to a sentry.
#[derive(Clone, Copy, Debug, PartialEq, Eq, Structural)]
pub enum HttpError {
    Timeout,
    ConnectRefused,
    Status(u16),
    Deserialize,
}

/// The text that names an `HttpError`.
pub open spec fn http_error_tag(e: HttpError) -> Seq<char> {
    match e {
        HttpError::Timeout => "Timeout"@,
        HttpError::ConnectRefused => "ConnectRefused"@,
        HttpError::Status(code) => "Status("@ + crate::primitives::text::decimal(code as nat) + ")"@,
        HttpError::Deserialize => "Deserialize"@,
    }
}

/// The error that the marks of a failed request stand for: a timeout
/// first, then an answer with a bad status, then an answer that could not be
/// read; anything else counts as a refused connection.
pub open spec fn classified(timed_out: bool, status: Option<u16>, undecodable: bool) -> HttpError {
    if timed_out {
        HttpError::Timeout
    } else if status.is_some() {
        HttpError::Status(status.unwrap())
    } else if undecodable {
        HttpError::Deserialize
    } else {
        HttpError::ConnectRefused
    }
}

impl HttpError {
    /// The error that the marks of a failed request stand for.
    pub fn classify(timed_out: bool, status: Option<u16>, undecodable: bool) -> (r: HttpError)
        ensures
            r == classified(timed_out, status, undecodable),
    {
        if timed_out {
            HttpError::Timeout
        } else if let Some(code) = status {
            HttpError::Status(code)
        } else if undecodable {
            HttpError::Deserialize
        } else {
            HttpError::ConnectRefused
        }
    }

    /// The name of the error, with the status code where it has one.
    pub fn tag(&self) -> (r: String)
        ensures
            r@ == http_error_tag(*self),
    {
        match self {
            HttpError::Timeout => String::from_str("Timeout"),
            HttpError::ConnectRefused => String::from_str("ConnectRefused"),
            HttpError::Status(code) => {
                let number: u64 = *code as u64;
                String::from_str("Status(").concat(u64_to_string(number).as_str()).concat(")")
            },
            HttpError::Deserialize => String::from_str("Deserialize"),
        }
    }
}

} // verus!
