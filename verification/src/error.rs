//! The errors that the service reports to its callers.

use vstd::prelude::*;

verus! {

/// An error with the message shown to the caller: a rejected request
/// (`Validation`) or a failed download (`Fetch`).
#[derive(Debug, Clone)]
pub enum AppError {
    Validation(String),
    Fetch(String),
}

impl AppError {
    /// The message of the error.
    pub open spec fn message_view(&self) -> Seq<char> {
        match self {
            AppError::Validation(m) => m@,
            AppError::Fetch(m) => m@,
        }
    }

    /// The message of the error, as its `Display` shows it.
    pub fn to_string(&self) -> (r: String)
        ensures
            r@ == self.message_view(),
    {
        match self {
            AppError::Validation(m) => m.clone(),
            AppError::Fetch(m) => m.clone(),
        }
    }

    /// Whether the error rejects the request (rather than reporting a
    /// failed download).
    pub fn is_validation(&self) -> (r: bool)
        ensures
            r == (self is Validation),
    {
        match self {
            AppError::Validation(_) => true,
            AppError::Fetch(_) => false,
        }
    }
}

} // verus!
