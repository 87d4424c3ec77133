//! The error taxonomy shared by the registry, the hub, and the nodes.

use vstd::prelude::*;

verus! {

/// Why an operation against the inventory network failed.
///
/// - `NotFound`: an unknown id, product, or service.
/// - `InsufficientStock`: the supplier cannot satisfy the requested
///   quantity at transfer time.
/// - `Unfulfilled`: no candidate could satisfy an acquisition after
///   exhausting every supplier the hub reported.
/// - `NetworkError`: a transport-level failure calling a collaborator.
/// - `MalformedResponse`: a collaborator's reply could not be decoded.
#[derive(Clone, Copy, Debug, PartialEq, Eq, Structural)]
pub enum ServiceError {
    NotFound,
    InsufficientStock,
    Unfulfilled,
    NetworkError,
    MalformedResponse,
}

impl ServiceError {
    /// A short description, for logs and HTTP bodies.
    pub fn describe(&self) -> (r: &'static str)
        ensures
            r@ == self.spec_describe(),
    {
        match self {
            ServiceError::NotFound => "not found",
            ServiceError::InsufficientStock => "insufficient stock",
            ServiceError::Unfulfilled => "request could not be fulfilled",
            ServiceError::NetworkError => "network error",
            ServiceError::MalformedResponse => "malformed response",
        }
    }

    /// What `describe` returns for each variant.
    pub open spec fn spec_describe(self) -> Seq<char> {
        match self {
            ServiceError::NotFound => "not found"@,
            ServiceError::InsufficientStock => "insufficient stock"@,
            ServiceError::Unfulfilled => "request could not be fulfilled"@,
            ServiceError::NetworkError => "network error"@,
            ServiceError::MalformedResponse => "malformed response"@,
        }
    }
}

} // verus!
