//! The token alphabet of the evaluator.
//!
//! A number is carried as the bit pattern of an IEEE-754 double (`u64`), so
//! that every stage of the pipeline is a pure function over plain values.
//! Operator symbols and function names are closed sets, represented as enums:
//! a token can never hold an unrecognized symbol or name.

use vstd::prelude::*;

verus! {

/// A binary operator symbol: one of `+ - * / ^`.
#[derive(Clone, Copy, PartialEq, Eq, Structural, Debug)]
pub enum Operator {
    Add,
    Sub,
    Mul,
    Div,
    Pow,
}

/// One of the twelve recognized unary function names.
#[derive(Clone, Copy, PartialEq, Eq, Structural, Debug)]
pub enum Function {
    Ln,
    Log2,
    Exp,
    Asin,
    Acos,
    Atan,
    Sin,
    Cos,
    Tan,
    Abs,
    Sqrt,
    Log10,
}

/// One of the two recognized constant names.
#[derive(Clone, Copy, PartialEq, Eq, Structural, Debug)]
pub enum ConstName {
    Pi,
    E,
}

/// A lexical token. `Number` holds the bit pattern of an IEEE-754 double.
#[derive(Clone, Copy, PartialEq, Eq, Structural, Debug)]
pub enum Token {
    Number(u64),
    Operator(Operator),
    Function(Function),
    LeftParen,
    RightParen,
}

impl Token {
    /// Binding strength used by the infix-to-postfix conversion:
    /// `+ -` bind weakest, then `* /`, then `^`; a function name binds
    /// strongest. Parentheses carry strength 0 and are never compared.
    pub open spec fn spec_precedence(&self) -> i32 {
        match self {
            Token::Operator(op) => match op {
                Operator::Add | Operator::Sub => 1,
                Operator::Mul | Operator::Div => 2,
                Operator::Pow => 3,
            },
            Token::Function(_) => 4,
            _ => 0,
        }
    }

    /// Returns an integer that represents how strongly an operator or
    /// function binds to its operands.
    #[verifier::when_used_as_spec(spec_precedence)]
    pub fn precedence(&self) -> (p: i32)
        ensures
            p == self.spec_precedence(),
    {
        match self {
            Token::Operator(op) => match op {
                Operator::Add | Operator::Sub => 1,
                Operator::Mul | Operator::Div => 2,
                Operator::Pow => 3,
            },
            Token::Function(_) => 4,
            _ => 0,
        }
    }

    /// True of the tokens the conversion keeps on its operator stack:
    /// operator symbols and function names.
    pub open spec fn is_stack_op(&self) -> bool {
        self is Operator || self is Function
    }
}

} // verus!
