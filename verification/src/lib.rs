//! A parser-combinator engine for recursive-descent parsers over byte
//! streams, built for grammars that need precise, position-tracked
//! diagnostics.
//!
//! The engine separates "nothing matched here" from "a user-reportable
//! syntax error occurred": a parse yields `Ok(Some(_))` on a match,
//! `Ok(None)` on a recoverable absence that leaves the stream exactly
//! as it was, and `Err(_)` on a hard error that propagates. Parsers
//! are composable data ([`parser::Parser`]); running one is a single
//! verified interpreter whose outcome is fixed, byte for byte, by the
//! functional semantics [`semantics::spec_parse`], and the laws of the
//! protocol - rollback, left bias, error short-circuiting, repetition
//! bounds - are theorems in [`laws`].
//!
//! On top of the engine, [`morpho`] builds the morphology grammar of a
//! small constructed language, and [`lexer`] cuts raw text into
//! lexemes with a symbol-level state machine.

pub mod laws;
pub mod lexer;
pub mod morpho;
pub mod parser;
pub mod semantics;
pub mod span;
pub mod stream;

pub use span::Span;
