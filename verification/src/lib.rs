//! Mycelium: a graph-aware code intelligence layer.
use vstd::prelude::*;

pub mod text;
pub mod cypher;
pub mod symbol;
pub mod edge;
pub mod rows;
pub mod queries;
pub mod error;
pub mod models;
pub mod config;
pub mod synthesis;
pub mod body_slice;
pub mod pipeline;
pub mod indexing;
pub mod lsp;
pub mod syntax;
pub mod extract;
pub mod manifest;
pub mod paths;
pub mod watch;

verus! {
} // verus!
