//! Infix-to-postfix conversion by the shunting-yard algorithm.
//!
//! The conversion runs left to right over the token sequence with an output
//! sequence and an operator stack. A number goes straight to the output; a
//! `(` is pushed; a `)` pops to the output until a `(` is popped and
//! discarded (an empty stack stops silently — an unbalanced `(` or `)` is
//! detected only during evaluation); an operator or function first pops
//! every stacked operator or function whose precedence is greater than or
//! equal to its own, then is pushed. After the scan the remaining stack is
//! popped to the output in pop order. Ties pop unconditionally, so every
//! operator — `^` included — groups left to right.

use vstd::prelude::*;

use crate::token::Token;

verus! {

/// The pops an incoming operator or function forces, and its own push:
/// stacked operators and functions of precedence at least the incoming
/// token's move to the output.
pub open spec fn pop_for_incoming(out: Seq<Token>, ops: Seq<Token>, inc: Token) -> (Seq<
    Token,
>, Seq<Token>)
    decreases ops.len(),
{
    if ops.len() > 0 && ops.last().is_stack_op() && ops.last().spec_precedence()
        >= inc.spec_precedence() {
        pop_for_incoming(out.push(ops.last()), ops.drop_last(), inc)
    } else {
        (out, ops.push(inc))
    }
}

/// The pops a `)` forces: everything above the nearest `(` moves to the
/// output, and the `(` is discarded. An empty stack stops silently.
pub open spec fn pop_until_lparen(out: Seq<Token>, ops: Seq<Token>) -> (Seq<Token>, Seq<Token>)
    decreases ops.len(),
{
    if ops.len() == 0 {
        (out, ops)
    } else if ops.last() is LeftParen {
        (out, ops.drop_last())
    } else {
        pop_until_lparen(out.push(ops.last()), ops.drop_last())
    }
}

/// One step of the conversion: how one token changes the output sequence
/// and the operator stack.
pub open spec fn sy_step(out: Seq<Token>, ops: Seq<Token>, t: Token) -> (Seq<Token>, Seq<Token>) {
    match t {
        Token::Number(_) => (out.push(t), ops),
        Token::LeftParen => (out, ops.push(t)),
        Token::RightParen => pop_until_lparen(out, ops),
        _ => pop_for_incoming(out, ops, t),
    }
}

/// The conversion's scan over a token sequence, from a given output
/// sequence and operator stack.
pub open spec fn sy_run(ts: Seq<Token>, out: Seq<Token>, ops: Seq<Token>) -> (Seq<Token>, Seq<
    Token,
>)
    decreases ts.len(),
{
    if ts.len() == 0 {
        (out, ops)
    } else {
        let next = sy_step(out, ops, ts.first());
        sy_run(ts.drop_first(), next.0, next.1)
    }
}

/// The postfix (RPN) form of a token sequence: the scan from empty output
/// and stack, then the remaining stack flushed to the output in pop order.
pub open spec fn spec_to_rpn(ts: Seq<Token>) -> Seq<Token> {
    let end = sy_run(ts, Seq::empty(), Seq::empty());
    end.0 + end.1.reverse()
}

/// Converts infix tokens to Reverse Polish Notation with the shunting-yard
/// algorithm. This stage never fails; a parenthesis left on the stack
/// reaches the output and is rejected by the evaluator.
pub fn to_rpn(tokens: &Vec<Token>) -> (rpn: Vec<Token>)
    ensures
        rpn@ == spec_to_rpn(tokens@),
{
    let mut output: Vec<Token> = Vec::new();
    let mut operators: Vec<Token> = Vec::new();
    let n = tokens.len();
    let mut i: usize = 0;
    proof {
        assert(tokens@.skip(0) =~= tokens@);
    }
    while i < n
        invariant
            n == tokens@.len(),
            i <= n,
            sy_run(tokens@.skip(i as int), output@, operators@) == sy_run(
                tokens@,
                Seq::empty(),
                Seq::empty(),
            ),
        decreases n - i,
    {
        let t = tokens[i];
        proof {
            assert(tokens@.skip(i as int).first() == tokens@[i as int]);
            assert(tokens@.skip(i as int).drop_first() =~= tokens@.skip(i + 1));
        }
        match t {
            Token::Number(_) => {
                output.push(t);
            },
            Token::LeftParen => {
                operators.push(t);
            },
            Token::RightParen => {
                let ghost target = pop_until_lparen(output@, operators@);
                loop
                    invariant_except_break
                        pop_until_lparen(output@, operators@) == target,
                    ensures
                        (output@, operators@) == target,
                    decreases operators@.len(),
                {
                    match operators.pop() {
                        None => {
                            break ;
                        },
                        Some(op) => {
                            match op {
                                Token::LeftParen => {
                                    break ;
                                },
                                _ => {
                                    output.push(op);
                                },
                            }
                        },
                    }
                }
            },
            _ => {
                let ghost target = pop_for_incoming(output@, operators@, t);
                loop
                    invariant_except_break
                        pop_for_incoming(output@, operators@, t) == target,
                    ensures
                        target == (output@, operators@.push(t)),
                    decreases operators@.len(),
                {
                    if operators.len() == 0 {
                        break ;
                    }
                    let top = operators[operators.len() - 1];
                    let keeps = match top {
                        Token::Operator(_) => true,
                        Token::Function(_) => true,
                        _ => false,
                    };
                    if !(keeps && top.precedence() >= t.precedence()) {
                        break ;
                    }
                    let _ = operators.pop();
                    output.push(top);
                }
                operators.push(t);
            },
        }
        i += 1;
    }
    proof {
        assert(tokens@.skip(n as int) =~= Seq::<Token>::empty());
    }
    loop
        invariant_except_break
            spec_to_rpn(tokens@) == output@ + operators@.reverse(),
        ensures
            output@ == spec_to_rpn(tokens@),
        decreases operators@.len(),
    {
        let ghost ops0 = operators@;
        let ghost out0 = output@;
        match operators.pop() {
            None => {
                proof {
                    assert(ops0.reverse() =~= Seq::<Token>::empty());
                    assert(out0 + ops0.reverse() =~= out0);
                }
                break ;
            },
            Some(op) => {
                output.push(op);
                proof {
                    assert(ops0.reverse() =~= seq![op] + operators@.reverse());
                    assert(out0 + ops0.reverse() =~= output@ + operators@.reverse());
                }
            },
        }
    }
    output
}

} // verus!
