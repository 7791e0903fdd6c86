//! Aggregates the readable text content of a directory tree into one ordered
//! document. The library holds the verified core: path filtering, text/binary
//! classification, search excerpt extraction, and deterministic assembly of
//! the final document. Traversal, file reads and clipboard delivery are left
//! to the embedding program.

pub mod config;
pub mod pattern;
pub mod strutil;
pub mod classify;
pub mod search;
pub mod scanner;
pub mod tree;
pub mod text_processor;
pub mod pipeline;
pub mod clipboard;
