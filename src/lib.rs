//! Backtracking parser combinators with position tracking and readable
//! diagnostics.
//!
//! A parser is a value implementing `types::Parser`: a function from a
//! position in a stream to an outcome, whose model (`Parser::outcome`) the
//! combinators are specified and verified against.
pub mod types;
pub mod misc;
pub mod combinators;
pub mod repetition;
pub mod leaves;
pub mod folding;
pub mod diagnostics;
pub mod driver;
pub mod laws;
