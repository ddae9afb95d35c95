//! The error taxonomy of the service and the response envelope it is
//! translated to at the boundary.

use vstd::prelude::*;

verus! {

/// Why a service operation failed.
///
/// `StorageIo` and `Registry` mark failures of real storage and persistence
/// backends and are retryable; the in-memory tables of this crate never
/// produce them, and the embedding application maps its own failures to
/// them.  `NotFound` means the requested catalog entry does not exist for
/// the calling owner and is terminal.
#[derive(Clone, Copy, Debug, PartialEq, Eq, Structural)]
pub enum ServiceError {
    StorageIo,
    Registry,
    NotFound,
}

impl ServiceError {
    /// The human-readable message the boundary layer reports for this error.
    pub fn message(&self) -> (r: String)
        ensures
            *self == ServiceError::StorageIo ==> r@ == "storage failure"@,
            *self == ServiceError::Registry ==> r@ == "registry failure"@,
            *self == ServiceError::NotFound ==> r@ == "No such book found."@,
    {
        match self {
            ServiceError::StorageIo => "storage failure".to_owned(),
            ServiceError::Registry => "registry failure".to_owned(),
            ServiceError::NotFound => "No such book found.".to_owned(),
        }
    }
}

/// The failure envelope the boundary layer serializes: a fixed `"error"`
/// status beside the message.
pub struct ErrorResponse {
    pub status: String,
    pub error: String,
}

impl ErrorResponse {
    /// Wraps a message in the failure envelope.
    pub fn new(error: String) -> (r: ErrorResponse)
        ensures
            r.status@ == "error"@,
            r.error@ == error@,
    {
        ErrorResponse { status: "error".to_owned(), error }
    }
}

/// The rejection the boundary layer returns when a request carries no valid
/// caller identity.
pub struct Unauthorized;

impl Unauthorized {
    /// The message reported for a rejected request.
    pub fn message(&self) -> (r: String)
        ensures
            r@ == "unauthorized"@,
    {
        "unauthorized".to_owned()
    }

    /// The HTTP status code the boundary layer maps this rejection to.
    pub fn status_code(&self) -> (r: u16)
        ensures
            r == 401u16,
    {
        401
    }
}

} // verus!
