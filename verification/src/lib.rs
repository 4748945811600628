//! An evaluator for arithmetic expressions given as text: numbers, the
//! operators `+ - * / ^`, parentheses, a fixed set of unary math functions,
//! and the constants `PI` and `E`.
//!
//! Evaluation is a strict three-stage pipeline: a lexer turns the
//! space-stripped text into tokens, a shunting-yard pass reorders them into
//! Reverse Polish Notation, and a stack machine reduces the postfix sequence
//! to one value. Every stage is a pure function; numeric values are IEEE-754
//! doubles carried by their bit patterns (`u64`), and each floating-point
//! operation is delegated to an outside library through a trusted wrapper.

pub mod eval;
pub mod ieee;
pub mod laws;
pub mod lexer;
pub mod rpn;
pub mod token;

pub use crate::eval::{evaluate_rpn, EvalError};
pub use crate::lexer::{is_operator, tokenize};
pub use crate::rpn::to_rpn;
pub use crate::token::Token;

use vstd::prelude::*;

verus! {

/// The value of an expression text: the whole pipeline, as one spec
/// function — tokenize the space-stripped text, convert to postfix,
/// evaluate.
pub open spec fn spec_evaluate_expression(s: Seq<char>) -> Result<u64, crate::eval::EvalError> {
    crate::eval::spec_evaluate_rpn(crate::rpn::spec_to_rpn(crate::lexer::spec_tokenize(s)))
}

/// Evaluates a mathematical expression given as text: a combination of
/// numbers, the operators `+ - * / ^`, parentheses, the recognized unary
/// functions and the constants `PI` and `E`. Spaces are stripped, the text
/// is tokenized, converted to Reverse Polish Notation, and evaluated.
///
/// On success the result is the bit pattern of an IEEE-754 double — which
/// may be NaN or an infinity; those are successful results, not errors.
pub fn evaluate_expression(expression: &str) -> (result: Result<u64, crate::eval::EvalError>)
    ensures
        result == spec_evaluate_expression(expression@),
{
    let tokens = crate::lexer::tokenize(expression);
    let rpn = crate::rpn::to_rpn(&tokens);
    crate::eval::evaluate_rpn(&rpn)
}

} // verus!
