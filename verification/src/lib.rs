//! Source-to-source instrumenter for C++ compiler passes.
//!
//! The crate classifies call and construction sites of a fixed IR-mutation
//! vocabulary, decides per syntactic context how to splice in a monitoring
//! hook call, and applies the resulting batch of text edits to the original
//! buffer. Parsing is delegated to a grammar-based parser behind a thin
//! trusted boundary; everything downstream of it is verified.

pub mod ast;
pub mod classify;
pub mod edit;
pub mod hook;
pub mod inst;
pub mod parse;
pub mod strutil;
pub mod ts;
pub mod visit;
