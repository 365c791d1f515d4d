//! A command-line assistant's core: it turns a natural-language request into a
//! prompt for a remote completion service, classifies the service's reply,
//! reduces the answer to command lines, and keeps the configuration and the
//! history of past exchanges as JSON text.
pub mod cli;
pub mod completion;
pub mod config;
pub mod error;
pub mod history;
pub mod json;
pub mod prompt;
pub mod session;
pub mod text;
