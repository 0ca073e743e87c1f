//! The error kinds a repository or extraction operation can fail with.
use vstd::prelude::*;

verus! {

/// Why an operation on the report service failed.
#[derive(Clone, Copy, Debug, PartialEq, Eq, Structural)]
pub enum ApiError {
    /// A report for the same repository URL already exists.
    Conflict,
    /// No report with the requested id, or no structured document on it.
    NotFound,
    /// The requested status transition names a status that reviews may
    /// not set.
    InvalidInput,
    /// Any other persistence failure.
    StorageError,
}

impl ApiError {
    /// The message body the service answers with for this error kind.
    pub fn message(&self) -> (r: &'static str)
        ensures
            *self is Conflict ==> r@ == "Report already exists for this repository"@,
            *self is NotFound ==> r@ == "Report not found"@,
            *self is InvalidInput ==> r@ == "Status must be 'approved' or 'rejected'"@,
            *self is StorageError ==> r@ == "Failed to access report storage"@,
    {
        match self {
            ApiError::Conflict => "Report already exists for this repository",
            ApiError::NotFound => "Report not found",
            ApiError::InvalidInput => "Status must be 'approved' or 'rejected'",
            ApiError::StorageError => "Failed to access report storage",
        }
    }
}

} // verus!
