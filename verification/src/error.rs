//! The library's error type.
use vstd::prelude::*;

verus! {

/// Errors of the indexing, query and model layers.
#[derive(Debug, PartialEq, Eq)]
pub enum MycelError {
    Graph(String),
    Extract { file: String, message: String },
    Lsp(String),
    Model { provider: String, message: String },
    Config(String),
    /// An I/O failure, by its message.
    Io(String),
    /// A JSON (de)serialization failure, by its message.
    Json(String),
    EmbedderMismatch { graph: String, runtime: String },
}

} // verus!
