//! Lexical analysis for a small scripting language.
//!
//! Source text goes in, a sequence of classified tokens with their lines comes
//! out, closed by an end-of-input token. Malformed text is reported to an
//! [`utils::errors::ErrorSink`] and skipped; a scan never fails.
//!
//! What a scan yields is defined in [`lexis`], as functions of the source text
//! alone; [`scanner::Scanner`] computes exactly that, and [`laws`] proves what
//! follows from the definitions.

pub mod chars;
pub mod keywords;
pub mod laws;
pub mod lexis;
pub mod numeral;
pub mod scanner;
pub mod token;
pub mod utils;
