//! Errors of the API layer.

use vstd::prelude::*;

verus! {

/// Errors of API calls that the client can tell apart.
#[derive(Debug)]
pub enum DracoonClientError {
    /// A node path that cannot be used.
    InvalidPath(String),
    /// A url that cannot be used.
    InvalidUrl(String),
    /// A required argument was not given.
    MissingArgument,
    /// The client is not connected.
    ConnectionFailed,
}

} // verus!
