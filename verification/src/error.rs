//! Failure taxonomy of the engine.
//!
//! A validation failure is detected before any store activity and is never
//! retried. A store failure means the remote call itself failed
//! (connectivity, authorization, a missing table); it aborts the current
//! chunk immediately, since retry only covers partial acceptance, never a
//! failed call.

use vstd::prelude::*;
use vstd::string::StringExecFns;

verus! {

/// Errors that can occur when using the store.
#[derive(Debug, PartialEq, Eq)]
pub enum Error {
    /// The remote call failed; carries a description of the failure.
    AwsSdk(String),
    /// Validation error for invalid input parameters.
    Validation(String),
}

impl Error {
    /// The characters that `message` yields for this error.
    pub open spec fn message_view(&self) -> Seq<char> {
        match self {
            Error::AwsSdk(s) => "AWS SDK error: "@ + s@,
            Error::Validation(s) => "Validation error: "@ + s@,
        }
    }

    /// Human-readable description of the failure, with a prefix that names
    /// which side failed.
    pub fn message(&self) -> (m: String)
        ensures
            m@ == self.message_view(),
    {
        match self {
            Error::AwsSdk(s) => "AWS SDK error: ".to_owned().concat(s.as_str()),
            Error::Validation(s) => "Validation error: ".to_owned().concat(s.as_str()),
        }
    }
}

} // verus!
