//! The error of the application at the command boundary. It reaches the
//! frontend as its message.
use vstd::prelude::*;
use crate::domain::error::DomainError;

verus! {

/// Error of a command: a violated domain rule, or any other failure with
/// its message ready to show.
#[derive(Debug, PartialEq, Eq)]
pub enum AppError {
    Domain(DomainError),
    Message(String),
}

impl AppError {
    /// The message shown for this error.
    pub open spec fn spec_message(&self) -> Seq<char> {
        match self {
            AppError::Domain(e) => e.spec_message(),
            AppError::Message(m) => m@,
        }
    }

    /// The message shown for this error (what the frontend receives).
    pub fn message(&self) -> (s: String)
        ensures
            s@ == self.spec_message(),
    {
        match self {
            AppError::Domain(e) => e.message(),
            AppError::Message(m) => m.clone(),
        }
    }
}

impl From<DomainError> for AppError {
    fn from(e: DomainError) -> (r: AppError)
        ensures
            r == AppError::Domain(e),
    {
        AppError::Domain(e)
    }
}

impl vstd::std_specs::convert::FromSpecImpl<DomainError> for AppError {
    open spec fn obeys_from_spec() -> bool {
        true
    }

    open spec fn from_spec(v: DomainError) -> AppError {
        AppError::Domain(v)
    }
}

impl From<String> for AppError {
    fn from(s: String) -> (r: AppError)
        ensures
            r == AppError::Message(s),
    {
        AppError::Message(s)
    }
}

impl vstd::std_specs::convert::FromSpecImpl<String> for AppError {
    open spec fn obeys_from_spec() -> bool {
        true
    }

    open spec fn from_spec(v: String) -> AppError {
        AppError::Message(v)
    }
}

} // verus!
