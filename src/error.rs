//! The kinds of failure that reach the user.
use vstd::prelude::*;

verus! {

/// Why an operation did not complete.
#[derive(Debug, Clone, PartialEq, Eq)]
pub enum QueryError {
    /// No configuration has been saved yet.
    NotConfigured,
    /// A configuration exists but lacks a non-empty credential or model.
    InvalidConfig,
    /// The completion service could not be reached.
    TransportError(String),
    /// The completion service answered with something other than a completion.
    UpstreamError(String),
    /// The local history could not be read or written.
    PersistenceError(String),
}

} // verus!
