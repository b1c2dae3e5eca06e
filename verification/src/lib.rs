//! A verified compiler for one-line formulas in a single variable `x`.
//!
//! A formula such as `5 + sin(x)` is scanned into tokens, rewritten so that
//! implicit multiplication and unary negation become explicit, converted to
//! postfix order by the shunting-yard algorithm, and checked structurally, so
//! that the resulting postfix program is guaranteed to run to completion on a
//! stack machine.  Numeric values stay opaque throughout: a literal is kept as
//! its text and a constant as the bit pattern of an IEEE-754 double, so the
//! caller that drives an [`eval::Evaluation`] supplies the numeric operations
//! and receives every structural guarantee from the proofs in this crate.

pub mod errors;
pub mod text;
pub mod registry;
pub mod token;
pub mod lexer;
pub mod normalize;
pub mod shunting_yard;
pub mod eval;
pub mod compile;
pub mod laws;
