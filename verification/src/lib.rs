//! A verified lexical analyzer: it turns raw source text into a stream of
//! classified tokens with exact source positions, and reports malformed
//! input as structured diagnostics.

pub mod diagnostic;
pub mod laws;
pub mod lexer;
pub mod model;
pub mod span;
mod strutil;
pub mod token;
