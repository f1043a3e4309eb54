//! The error taxonomy of the service, and its mapping onto HTTP status codes
//! and non-sensitive response messages.
//!
//! Three kinds are distinguished so that callers and operators can tell them
//! apart: a client-caused validation failure, an absent identifier, and a
//! storage failure (including the case of a present record whose blob is
//! unreadable). Internal detail is never part of the message.

use vstd::prelude::*;

verus! {

/// A failure of the upload, retrieval, or deletion pipeline.
#[derive(Clone, Copy, Debug, PartialEq, Eq, Structural)]
pub enum AppError {
    /// Client-caused: unreadable, too-short, or unrecognized upload content.
    Validation,
    /// The identifier is absent from the metadata store.
    NotFound,
    /// A blob or metadata read or write failed, or a present record's blob
    /// was unreadable.
    Storage,
}

/// The HTTP status code each error kind maps to.
pub open spec fn spec_status_code(e: AppError) -> u16 {
    match e {
        AppError::Validation => 400,
        AppError::NotFound => 404,
        AppError::Storage => 500,
    }
}

/// The non-sensitive message each error kind maps to.
pub open spec fn spec_message(e: AppError) -> Seq<char> {
    match e {
        AppError::Validation => "Invalid image file"@,
        AppError::NotFound => "File not found"@,
        AppError::Storage => "Internal server error"@,
    }
}

impl AppError {
    pub fn status_code(&self) -> (r: u16)
        ensures
            r == spec_status_code(*self),
    {
        match self {
            AppError::Validation => 400,
            AppError::NotFound => 404,
            AppError::Storage => 500,
        }
    }

    pub fn message(&self) -> (r: &'static str)
        ensures
            r@ == spec_message(*self),
    {
        match self {
            AppError::Validation => "Invalid image file",
            AppError::NotFound => "File not found",
            AppError::Storage => "Internal server error",
        }
    }
}

} // verus!
