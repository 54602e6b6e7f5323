//! Errors of the domain rules.

use vstd::prelude::*;

verus! {

/// A rule of the protocol was broken, or an argument made no sense.
#[derive(Debug)]
pub enum DomainError {
    /// An argument is outside what the operation accepts.
    InvalidArgument(String),
    /// A monetary rule of the channel would be violated.
    RuleViolation(String),
}

impl DomainError {
    /// The text that the error is shown with.
    pub fn message(&self) -> (r: String)
        ensures
            r@ == "Domain error"@,
    {
        "Domain error".to_owned()
    }

    /// The reason that the error carries.
    pub fn reason(&self) -> (r: &String)
        ensures
            *r == match *self {
                DomainError::InvalidArgument(s) => s,
                DomainError::RuleViolation(s) => s,
            },
    {
        match self {
            DomainError::InvalidArgument(s) => s,
            DomainError::RuleViolation(s) => s,
        }
    }
}

} // verus!
