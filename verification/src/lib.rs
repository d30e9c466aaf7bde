//! A calculator core for line-oriented notebooks: expressions carrying
//! physical units, chemical compounds and arbitrary-precision numbers.
//!
//! A client feeds text lines one at a time; each line yields a typed value,
//! nothing (comments and blank lines), or a structured diagnostic with a
//! source span.

pub mod chem;
pub mod dimension;
pub mod error;
pub mod evaluation;
pub mod expression;
pub mod float;
pub mod parse;
pub mod render;
pub mod span;
pub mod text;
pub mod units;
pub mod value;
