//! Evaluation of a token sequence in Reverse Polish Notation.
//!
//! A single left-to-right scan over the postfix sequence drives an operand
//! stack: a number is pushed; an operator pops the right operand `b`, then
//! the left operand `a`, and pushes the result of `a op b`; a function pops
//! one operand and pushes the function's value. Popping an empty stack
//! fails with `NotEnoughOperands`; a parenthesis in the postfix sequence —
//! the trace of an unbalanced input — fails with `InvalidToken`. At the
//! end, the stack's top is the result; an empty stack fails with
//! `NoResult`, and surplus values below the top are not checked.

use vstd::prelude::*;

use crate::ieee::{apply_function, apply_operator, spec_apply_function, spec_apply_operator};
use crate::token::Token;

verus! {

/// Why an evaluation failed. Numeric conditions — division by zero,
/// out-of-domain function arguments — are not errors: they yield infinity
/// or NaN results.
#[derive(Clone, Copy, PartialEq, Eq, Structural, Debug)]
pub enum EvalError {
    /// An operator or function found too few values on the operand stack.
    NotEnoughOperands,
    /// A parenthesis survived into the postfix sequence.
    InvalidToken,
    /// The operand stack was empty at the end of evaluation.
    NoResult,
}

impl EvalError {
    /// The description of this failure, as the view of `message`.
    pub open spec fn spec_message(&self) -> Seq<char> {
        match self {
            EvalError::NotEnoughOperands => "Invalid expression: not enough values"@,
            EvalError::InvalidToken => "Invalid token"@,
            EvalError::NoResult => "Invalid expression: no result on stack"@,
        }
    }

    /// A human-readable description of this failure.
    pub fn message(&self) -> (m: &'static str)
        ensures
            m@ == self.spec_message(),
    {
        match self {
            EvalError::NotEnoughOperands => "Invalid expression: not enough values",
            EvalError::InvalidToken => "Invalid token",
            EvalError::NoResult => "Invalid expression: no result on stack",
        }
    }
}

/// How one postfix token changes the operand stack, or why it cannot.
pub open spec fn eval_step(stack: Seq<u64>, t: Token) -> Result<Seq<u64>, EvalError> {
    match t {
        Token::Number(bits) => Ok(stack.push(bits)),
        Token::Operator(op) => if stack.len() < 2 {
            Err(EvalError::NotEnoughOperands)
        } else {
            Ok(
                stack.drop_last().drop_last().push(
                    spec_apply_operator(op, stack[stack.len() - 2], stack.last()),
                ),
            )
        },
        Token::Function(f) => if stack.len() < 1 {
            Err(EvalError::NotEnoughOperands)
        } else {
            Ok(stack.drop_last().push(spec_apply_function(f, stack.last())))
        },
        _ => Err(EvalError::InvalidToken),
    }
}

/// The scan over a postfix sequence from a given operand stack: the final
/// stack, or the first failure.
pub open spec fn eval_run(ts: Seq<Token>, stack: Seq<u64>) -> Result<Seq<u64>, EvalError>
    decreases ts.len(),
{
    if ts.len() == 0 {
        Ok(stack)
    } else {
        match eval_step(stack, ts.first()) {
            Ok(next) => eval_run(ts.drop_first(), next),
            Err(e) => Err(e),
        }
    }
}

/// The value of a postfix sequence: the top of the final operand stack.
pub open spec fn spec_evaluate_rpn(ts: Seq<Token>) -> Result<u64, EvalError> {
    match eval_run(ts, Seq::empty()) {
        Ok(stack) => if stack.len() == 0 {
            Err(EvalError::NoResult)
        } else {
            Ok(stack.last())
        },
        Err(e) => Err(e),
    }
}

/// Evaluates a token sequence in Reverse Polish Notation to the bit pattern
/// of an IEEE-754 double, or reports the first failure.
pub fn evaluate_rpn(rpn: &Vec<Token>) -> (result: Result<u64, EvalError>)
    ensures
        result == spec_evaluate_rpn(rpn@),
{
    let mut stack: Vec<u64> = Vec::new();
    let n = rpn.len();
    let mut i: usize = 0;
    proof {
        assert(rpn@.skip(0) =~= rpn@);
    }
    while i < n
        invariant
            n == rpn@.len(),
            i <= n,
            eval_run(rpn@.skip(i as int), stack@) == eval_run(rpn@, Seq::<u64>::empty()),
        decreases n - i,
    {
        let t = rpn[i];
        proof {
            assert(rpn@.skip(i as int).first() == rpn@[i as int]);
            assert(rpn@.skip(i as int).drop_first() =~= rpn@.skip(i + 1));
        }
        match t {
            Token::Number(bits) => {
                stack.push(bits);
            },
            Token::Operator(op) => {
                if stack.len() < 2 {
                    return Err(EvalError::NotEnoughOperands);
                }
                let b = stack[stack.len() - 1];
                let a = stack[stack.len() - 2];
                let _ = stack.pop();
                let _ = stack.pop();
                stack.push(apply_operator(op, a, b));
            },
            Token::Function(f) => {
                if stack.len() < 1 {
                    return Err(EvalError::NotEnoughOperands);
                }
                let x = stack[stack.len() - 1];
                let _ = stack.pop();
                stack.push(apply_function(f, x));
            },
            _ => {
                return Err(EvalError::InvalidToken);
            },
        }
        i += 1;
    }
    proof {
        assert(rpn@.skip(n as int) =~= Seq::<Token>::empty());
    }
    if stack.len() == 0 {
        Err(EvalError::NoResult)
    } else {
        Ok(stack[stack.len() - 1])
    }
}

} // verus!
