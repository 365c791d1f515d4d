//! The commands a user can give.
use vstd::prelude::*;

verus! {

/// The parsed command line.
pub struct Cli {
    pub command: Option<Commands>,
}

/// One command.
pub enum Commands {
    /// Generate a shell command from a request.
    Query { query: String },
    /// Save a credential and a model.
    Setup,
    /// Show the past exchanges.
    History,
}

} // verus!
