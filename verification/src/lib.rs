//! Apple Universal Links diagnostics: the decisions behind fetching, the tool surface, and
//! rendering, with their contracts.
//!
//! All association-file semantics live in `blazingly_aasa`; this crate decides what to request,
//! what a reply means, how tool answers are assembled, and how they read in a terminal.

pub mod cli;
pub mod fetch;
pub mod mcp;
pub mod render;
pub mod resolver;
pub mod text;
pub mod tools;
