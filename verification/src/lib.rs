//! A parser for a small subset of Rust source text: comments, attributes,
//! functions, enums, traits, impls, `extern crate` items and type aliases.
//!
//! Each parser works on the source bytes from a position and reports the
//! point it reached together with the syntax it found, recording on the way
//! the failures that the grammar recovered from.

pub mod token;
pub mod progress;
pub mod ast;
pub mod lexical;
pub mod types;
pub mod functions;
pub mod expressions;
pub mod items;
pub mod file;
