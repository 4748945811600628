//! Laws of the pipeline.
//!
//! The central statement: for a fully parenthesized arithmetic expression —
//! every binary operation and every function argument wrapped in
//! parentheses — the infix-to-postfix conversion followed by postfix
//! evaluation computes exactly the value of standard recursive evaluation
//! of the expression tree. With full parenthesization, grouping is explicit
//! and operator precedence never decides anything, so this pins the whole
//! conversion-evaluation machinery to the intended semantics.

use vstd::prelude::*;

use crate::eval::{eval_run, eval_step, spec_evaluate_rpn, EvalError};
use crate::ieee::{spec_apply_function, spec_apply_operator};
use crate::rpn::{pop_for_incoming, pop_until_lparen, spec_to_rpn, sy_run, sy_step};
use crate::token::{Function, Operator, Token};

verus! {

/// A fully parenthesized arithmetic expression: a number, a parenthesized
/// binary operation, or a function applied to a parenthesized argument.
pub enum Expr {
    Num(u64),
    Bin(Operator, Box<Expr>, Box<Expr>),
    Call(Function, Box<Expr>),
}

/// The value of an expression under standard recursive evaluation: each
/// operand is evaluated before its operator, left operand first.
pub open spec fn eval_expr(e: Expr) -> u64
    decreases e,
{
    match e {
        Expr::Num(v) => v,
        Expr::Bin(op, l, r) => spec_apply_operator(op, eval_expr(*l), eval_expr(*r)),
        Expr::Call(f, a) => spec_apply_function(f, eval_expr(*a)),
    }
}

/// The fully parenthesized infix token form of an expression:
/// `( left op right )` for a binary operation, `f ( argument )` for a
/// function application.
pub open spec fn infix_tokens(e: Expr) -> Seq<Token>
    decreases e,
{
    match e {
        Expr::Num(v) => seq![Token::Number(v)],
        Expr::Bin(op, l, r) => seq![Token::LeftParen] + infix_tokens(*l) + seq![
            Token::Operator(op),
        ] + infix_tokens(*r) + seq![Token::RightParen],
        Expr::Call(f, a) => seq![Token::Function(f), Token::LeftParen] + infix_tokens(*a) + seq![
            Token::RightParen,
        ],
    }
}

/// The postfix token form of an expression: operands before their operator.
pub open spec fn rpn_tokens(e: Expr) -> Seq<Token>
    decreases e,
{
    match e {
        Expr::Num(v) => seq![Token::Number(v)],
        Expr::Bin(op, l, r) => rpn_tokens(*l) + rpn_tokens(*r) + seq![Token::Operator(op)],
        Expr::Call(f, a) => rpn_tokens(*a) + seq![Token::Function(f)],
    }
}

proof fn lemma_sy_run_concat(a: Seq<Token>, b: Seq<Token>, out: Seq<Token>, ops: Seq<Token>)
    ensures
        sy_run(a + b, out, ops) == sy_run(b, sy_run(a, out, ops).0, sy_run(a, out, ops).1),
    decreases a.len(),
{
    if a.len() == 0 {
        assert(a + b =~= b);
    } else {
        assert((a + b).first() == a.first());
        assert((a + b).drop_first() =~= a.drop_first() + b);
        let next = sy_step(out, ops, a.first());
        lemma_sy_run_concat(a.drop_first(), b, next.0, next.1);
    }
}

proof fn lemma_sy_run_empty(out: Seq<Token>, ops: Seq<Token>)
    ensures
        sy_run(Seq::<Token>::empty(), out, ops) == (out, ops),
{
}

proof fn lemma_sy_run_one(t: Token, out: Seq<Token>, ops: Seq<Token>)
    ensures
        sy_run(seq![t], out, ops) == sy_step(out, ops, t),
{
    let s = seq![t];
    assert(s.first() == t);
    assert(s.drop_first() =~= Seq::<Token>::empty());
    let next = sy_step(out, ops, t);
    lemma_sy_run_empty(next.0, next.1);
}

proof fn lemma_operator_precedence(op: Operator)
    ensures
        1 <= Token::Operator(op).spec_precedence() <= 3,
{
}

/// How the scan treats one fully parenthesized expression, from any state
/// whose operator stack does not have a function name on top: the
/// expression's postfix form is appended to the output and the stack is
/// left as it was — except that an outermost function name stays on the
/// stack, its parenthesized argument already in the output.
#[verifier::rlimit(100)]
proof fn lemma_sy_run_infix(e: Expr, out: Seq<Token>, ops: Seq<Token>)
    requires
        ops.len() == 0 || !(ops.last() is Function),
    ensures
        sy_run(infix_tokens(e), out, ops) == (match e {
            Expr::Call(f, a) => (out + rpn_tokens(*a), ops.push(Token::Function(f))),
            _ => (out + rpn_tokens(e), ops),
        }),
    decreases e,
{
    match e {
        Expr::Num(v) => {
            lemma_sy_run_one(Token::Number(v), out, ops);
            assert(out.push(Token::Number(v)) =~= out + rpn_tokens(e));
        },
        Expr::Bin(op, l, r) => {
            let tl = infix_tokens(*l);
            let tr = infix_tokens(*r);
            let sop = seq![Token::Operator(op)];
            let srp = seq![Token::RightParen];
            let rest1 = tl + (sop + (tr + srp));
            assert(infix_tokens(e) =~= seq![Token::LeftParen] + rest1);
            lemma_sy_run_concat(seq![Token::LeftParen], rest1, out, ops);
            lemma_sy_run_one(Token::LeftParen, out, ops);
            let ops1 = ops.push(Token::LeftParen);
            // the left operand, scanned above the open parenthesis
            lemma_sy_run_concat(tl, sop + (tr + srp), out, ops1);
            lemma_sy_run_infix(*l, out, ops1);
            let outl = out + rpn_tokens(*l);
            let stl = sy_run(tl, out, ops1);
            // the operator: it pops a pending function name of the left
            // operand, nothing else, and lands above the open parenthesis
            lemma_sy_run_concat(sop, tr + srp, stl.0, stl.1);
            lemma_sy_run_one(Token::Operator(op), stl.0, stl.1);
            lemma_operator_precedence(op);
            match *l {
                Expr::Call(g, al) => {
                    assert(stl.1 == ops1.push(Token::Function(g)));
                    assert(ops1.push(Token::Function(g)).drop_last() =~= ops1);
                    assert(pop_for_incoming(stl.0, stl.1, Token::Operator(op))
                        == pop_for_incoming(stl.0.push(Token::Function(g)), ops1, Token::Operator(op)));
                    assert(stl.0.push(Token::Function(g)) =~= outl);
                },
                _ => {
                    assert(stl.0 == outl && stl.1 == ops1);
                },
            }
            assert(pop_for_incoming(outl, ops1, Token::Operator(op)) == (
                outl,
                ops1.push(Token::Operator(op)),
            ));
            let ops2 = ops1.push(Token::Operator(op));
            // the right operand, scanned above the operator
            lemma_sy_run_concat(tr, srp, outl, ops2);
            lemma_sy_run_infix(*r, outl, ops2);
            let outr = outl + rpn_tokens(*r);
            let str0 = sy_run(tr, outl, ops2);
            // the close parenthesis: it pops a pending function name of the
            // right operand, then the operator, then discards the `(`
            lemma_sy_run_one(Token::RightParen, str0.0, str0.1);
            match *r {
                Expr::Call(h, ar) => {
                    assert(str0.1 == ops2.push(Token::Function(h)));
                    assert(ops2.push(Token::Function(h)).drop_last() =~= ops2);
                    assert(pop_until_lparen(str0.0, str0.1) == pop_until_lparen(
                        str0.0.push(Token::Function(h)),
                        ops2,
                    ));
                    assert(str0.0.push(Token::Function(h)) =~= outr);
                },
                _ => {
                    assert(str0.0 == outr && str0.1 == ops2);
                },
            }
            assert(ops2.drop_last() =~= ops1);
            assert(ops1.drop_last() =~= ops);
            assert(pop_until_lparen(outr, ops2) == pop_until_lparen(
                outr.push(Token::Operator(op)),
                ops1,
            ));
            assert(pop_until_lparen(outr, ops2) == (outr.push(Token::Operator(op)), ops));
            assert(outr.push(Token::Operator(op)) =~= out + rpn_tokens(e));
        },
        Expr::Call(f, a) => {
            let ta = infix_tokens(*a);
            let srp = seq![Token::RightParen];
            let rest1 = seq![Token::LeftParen] + (ta + srp);
            assert(infix_tokens(e) =~= seq![Token::Function(f)] + rest1);
            // the function name: nothing on the stack binds as strongly, so
            // nothing pops and the name is pushed
            lemma_sy_run_concat(seq![Token::Function(f)], rest1, out, ops);
            lemma_sy_run_one(Token::Function(f), out, ops);
            if ops.len() > 0 && ops.last() is Operator {
                lemma_operator_precedence(ops.last()->Operator_0);
            }
            assert(pop_for_incoming(out, ops, Token::Function(f)) == (
                out,
                ops.push(Token::Function(f)),
            ));
            let ops1 = ops.push(Token::Function(f));
            // the open parenthesis
            lemma_sy_run_concat(seq![Token::LeftParen], ta + srp, out, ops1);
            lemma_sy_run_one(Token::LeftParen, out, ops1);
            let ops2 = ops1.push(Token::LeftParen);
            // the argument, scanned above the open parenthesis
            lemma_sy_run_concat(ta, srp, out, ops2);
            lemma_sy_run_infix(*a, out, ops2);
            let outa = out + rpn_tokens(*a);
            let sta = sy_run(ta, out, ops2);
            // the close parenthesis: it pops a pending function name of the
            // argument, then discards the `(`, leaving `f` on the stack
            lemma_sy_run_one(Token::RightParen, sta.0, sta.1);
            match *a {
                Expr::Call(g, aa) => {
                    assert(sta.1 == ops2.push(Token::Function(g)));
                    assert(ops2.push(Token::Function(g)).drop_last() =~= ops2);
                    assert(pop_until_lparen(sta.0, sta.1) == pop_until_lparen(
                        sta.0.push(Token::Function(g)),
                        ops2,
                    ));
                    assert(sta.0.push(Token::Function(g)) =~= outa);
                },
                _ => {
                    assert(sta.0 == outa && sta.1 == ops2);
                },
            }
            assert(ops2.drop_last() =~= ops1);
            assert(pop_until_lparen(outa, ops2) == (outa, ops1));
        },
    }
}

proof fn lemma_eval_run_concat(a: Seq<Token>, b: Seq<Token>, stack: Seq<u64>)
    ensures
        eval_run(a + b, stack) == (match eval_run(a, stack) {
            Ok(st) => eval_run(b, st),
            Err(e) => Err::<Seq<u64>, EvalError>(e),
        }),
    decreases a.len(),
{
    if a.len() == 0 {
        assert(a + b =~= b);
    } else {
        assert((a + b).first() == a.first());
        assert((a + b).drop_first() =~= a.drop_first() + b);
        match eval_step(stack, a.first()) {
            Ok(next) => {
                lemma_eval_run_concat(a.drop_first(), b, next);
            },
            Err(_) => {},
        }
    }
}

proof fn lemma_eval_run_empty(stack: Seq<u64>)
    ensures
        eval_run(Seq::<Token>::empty(), stack) == Ok::<Seq<u64>, EvalError>(stack),
{
}

/// Evaluating the postfix form of an expression from any operand stack
/// succeeds and pushes exactly the expression's value.
proof fn lemma_eval_run_rpn(e: Expr, stack: Seq<u64>)
    ensures
        eval_run(rpn_tokens(e), stack) == Ok::<Seq<u64>, EvalError>(stack.push(eval_expr(e))),
    decreases e,
{
    match e {
        Expr::Num(v) => {
            let s = rpn_tokens(e);
            assert(s.first() == Token::Number(v));
            assert(s.drop_first() =~= Seq::<Token>::empty());
            lemma_eval_run_empty(stack.push(v));
        },
        Expr::Bin(op, l, r) => {
            let a = rpn_tokens(*l);
            let b = rpn_tokens(*r);
            let sop = seq![Token::Operator(op)];
            assert(rpn_tokens(e) =~= a + (b + sop));
            lemma_eval_run_concat(a, b + sop, stack);
            lemma_eval_run_rpn(*l, stack);
            let st1 = stack.push(eval_expr(*l));
            lemma_eval_run_concat(b, sop, st1);
            lemma_eval_run_rpn(*r, st1);
            let st2 = st1.push(eval_expr(*r));
            assert(sop.first() == Token::Operator(op));
            assert(sop.drop_first() =~= Seq::<Token>::empty());
            assert(st2.last() == eval_expr(*r));
            assert(st2[st2.len() - 2] == eval_expr(*l));
            assert(st2.drop_last().drop_last() =~= stack);
            lemma_eval_run_empty(stack.push(eval_expr(e)));
        },
        Expr::Call(f, a) => {
            let ta = rpn_tokens(*a);
            let sf = seq![Token::Function(f)];
            assert(rpn_tokens(e) =~= ta + sf);
            lemma_eval_run_concat(ta, sf, stack);
            lemma_eval_run_rpn(*a, stack);
            let st1 = stack.push(eval_expr(*a));
            assert(sf.first() == Token::Function(f));
            assert(sf.drop_first() =~= Seq::<Token>::empty());
            assert(st1.last() == eval_expr(*a));
            assert(st1.drop_last() =~= stack);
            lemma_eval_run_empty(stack.push(eval_expr(e)));
        },
    }
}

/// For every fully parenthesized arithmetic expression, converting its
/// infix token form to postfix and evaluating the postfix sequence
/// succeeds, and the value is exactly that of standard recursive
/// evaluation of the expression tree.
pub proof fn lemma_fully_parenthesized_evaluation(e: Expr)
    ensures
        spec_evaluate_rpn(spec_to_rpn(infix_tokens(e))) == Ok::<u64, EvalError>(eval_expr(e)),
{
    lemma_sy_run_infix(e, Seq::empty(), Seq::empty());
    let end = sy_run(infix_tokens(e), Seq::empty(), Seq::empty());
    match e {
        Expr::Call(f, a) => {
            assert(end.1 =~= seq![Token::Function(f)]);
            assert(end.1.reverse() =~= seq![Token::Function(f)]);
            assert(end.0 + end.1.reverse() =~= rpn_tokens(e));
        },
        _ => {
            assert(end.1.reverse() =~= Seq::<Token>::empty());
            assert(end.0 + end.1.reverse() =~= rpn_tokens(e));
        },
    }
    assert(spec_to_rpn(infix_tokens(e)) == rpn_tokens(e));
    lemma_eval_run_rpn(e, Seq::empty());
    let st = Seq::<u64>::empty().push(eval_expr(e));
    assert(st.len() == 1);
    assert(st.last() == eval_expr(e));
}

/// Evaluation is a pure function of the expression text: the same text
/// always yields the same result, with no hidden state between calls.
pub proof fn lemma_evaluation_deterministic(s1: Seq<char>, s2: Seq<char>)
    requires
        s1 == s2,
    ensures
        crate::spec_evaluate_expression(s1) == crate::spec_evaluate_expression(s2),
{
}

} // verus!
