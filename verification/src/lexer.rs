//! The lexer: turns expression text into a token sequence.
//!
//! The input is first stripped of spaces. Scanning then moves left to right,
//! matching at each position, in a fixed order, exactly one of: a decimal
//! number (`digits[.digits]`), one of the five operator symbols, a
//! parenthesis, one of the twelve function names, or a constant name (`PI`,
//! `E`). A position where nothing matches is skipped silently: it produces
//! no token and no error, so unrecognized text simply vanishes from the
//! token stream.
//!
//! A matched `-` is classified by context, consulting only the last token
//! emitted so far: at the start of the stream, or right after `(` or an
//! operator, it is a unary minus and is rewritten into the two tokens
//! `Number(-1)` `Operator(*)`; everywhere else it is binary subtraction.
//! A matched constant name becomes a `Number` token immediately.

use vstd::prelude::*;
use vstd::string::StrSliceExecFns;

use crate::ieee::{evaluate_const, f_of_decimal, parse_number_bits, spec_const_bits, NEG_ONE_BITS};
use crate::token::{ConstName, Function, Operator, Token};

verus! {

/// An ASCII decimal digit.
pub open spec fn is_digit(c: char) -> bool {
    48 <= c as u32 <= 57
}

/// An ASCII decimal digit, decided executably.
fn is_digit_exec(c: char) -> (r: bool)
    ensures
        r == is_digit(c),
{
    let u = c as u32;
    48 <= u && u <= 57
}

/// Every character of `s` in `[lo, hi)` is a digit.
pub open spec fn all_digits(s: Seq<char>, lo: int, hi: int) -> bool {
    forall|k: int| lo <= k < hi ==> is_digit(#[trigger] s[k])
}

/// The shape of the text the scanner hands to the number parser:
/// one or more digits, optionally followed by a dot and further digits.
pub open spec fn is_number_text(s: Seq<char>) -> bool {
    &&& s.len() >= 1
    &&& is_digit(s[0])
    &&& {
        ||| all_digits(s, 0, s.len() as int)
        ||| (exists|d: int|
            1 <= d < s.len() && #[trigger] s[d] == '.' && all_digits(s, 0, d) && all_digits(
                s,
                d + 1,
                s.len() as int,
            ))
    }
}

/// First position at or after `i` that does not hold a digit.
pub open spec fn digit_run_end(s: Seq<char>, i: int) -> int
    decreases s.len() - i when 0 <= i <= s.len()
{
    if i < s.len() && is_digit(s[i]) {
        digit_run_end(s, i + 1)
    } else {
        i
    }
}

pub proof fn lemma_digit_run_end(s: Seq<char>, i: int)
    requires
        0 <= i <= s.len(),
    ensures
        i <= digit_run_end(s, i) <= s.len(),
        all_digits(s, i, digit_run_end(s, i)),
        digit_run_end(s, i) == s.len() || !is_digit(s[digit_run_end(s, i)]),
    decreases s.len() - i,
{
    if i < s.len() && is_digit(s[i]) {
        lemma_digit_run_end(s, i + 1);
    }
}

/// End of the number literal starting at `i`: the digit run, then an
/// optional dot with a further digit run.
pub open spec fn number_end(s: Seq<char>, i: int) -> int {
    let j = digit_run_end(s, i);
    if j < s.len() && s[j] == '.' {
        digit_run_end(s, j + 1)
    } else {
        j
    }
}

/// What the scanner matched at one position, before token emission.
#[derive(Clone, Copy, PartialEq, Eq, Structural, Debug)]
pub enum RawTok {
    Number,
    Plus,
    Minus,
    Star,
    Slash,
    Caret,
    LParen,
    RParen,
    Func(Function),
    Const(ConstName),
}

/// The single match attempted at position `i`, with the position right
/// after it: a number if a digit stands at `i`, else an operator symbol or
/// parenthesis, else a function or constant name. The name alternatives are
/// tried in the scanner's fixed order; `None` means the position is skipped.
pub open spec fn spec_match_at(s: Seq<char>, i: int) -> Option<(RawTok, int)> {
    let c = s[i];
    if is_digit(c) {
        Some((RawTok::Number, number_end(s, i)))
    } else if c == '+' {
        Some((RawTok::Plus, i + 1))
    } else if c == '-' {
        Some((RawTok::Minus, i + 1))
    } else if c == '*' {
        Some((RawTok::Star, i + 1))
    } else if c == '/' {
        Some((RawTok::Slash, i + 1))
    } else if c == '^' {
        Some((RawTok::Caret, i + 1))
    } else if c == '(' {
        Some((RawTok::LParen, i + 1))
    } else if c == ')' {
        Some((RawTok::RParen, i + 1))
    } else if c == 'l' {
        if i + 2 <= s.len() && s[i + 1] == 'n' {
            Some((RawTok::Func(Function::Ln), i + 2))
        } else if i + 4 <= s.len() && s[i + 1] == 'o' && s[i + 2] == 'g' && s[i + 3] == '2' {
            Some((RawTok::Func(Function::Log2), i + 4))
        } else if i + 5 <= s.len() && s[i + 1] == 'o' && s[i + 2] == 'g' && s[i + 3] == '1' && s[i
            + 4] == '0' {
            Some((RawTok::Func(Function::Log10), i + 5))
        } else {
            None
        }
    } else if c == 'e' {
        if i + 3 <= s.len() && s[i + 1] == 'x' && s[i + 2] == 'p' {
            Some((RawTok::Func(Function::Exp), i + 3))
        } else {
            None
        }
    } else if c == 'a' {
        if i + 4 <= s.len() && s[i + 1] == 's' && s[i + 2] == 'i' && s[i + 3] == 'n' {
            Some((RawTok::Func(Function::Asin), i + 4))
        } else if i + 4 <= s.len() && s[i + 1] == 'c' && s[i + 2] == 'o' && s[i + 3] == 's' {
            Some((RawTok::Func(Function::Acos), i + 4))
        } else if i + 4 <= s.len() && s[i + 1] == 't' && s[i + 2] == 'a' && s[i + 3] == 'n' {
            Some((RawTok::Func(Function::Atan), i + 4))
        } else if i + 3 <= s.len() && s[i + 1] == 'b' && s[i + 2] == 's' {
            Some((RawTok::Func(Function::Abs), i + 3))
        } else {
            None
        }
    } else if c == 's' {
        if i + 3 <= s.len() && s[i + 1] == 'i' && s[i + 2] == 'n' {
            Some((RawTok::Func(Function::Sin), i + 3))
        } else if i + 4 <= s.len() && s[i + 1] == 'q' && s[i + 2] == 'r' && s[i + 3] == 't' {
            Some((RawTok::Func(Function::Sqrt), i + 4))
        } else {
            None
        }
    } else if c == 'c' {
        if i + 3 <= s.len() && s[i + 1] == 'o' && s[i + 2] == 's' {
            Some((RawTok::Func(Function::Cos), i + 3))
        } else {
            None
        }
    } else if c == 't' {
        if i + 3 <= s.len() && s[i + 1] == 'a' && s[i + 2] == 'n' {
            Some((RawTok::Func(Function::Tan), i + 3))
        } else {
            None
        }
    } else if c == 'P' {
        if i + 2 <= s.len() && s[i + 1] == 'I' {
            Some((RawTok::Const(ConstName::Pi), i + 2))
        } else {
            None
        }
    } else if c == 'E' {
        Some((RawTok::Const(ConstName::E), i + 1))
    } else {
        None
    }
}

pub proof fn lemma_match_at_bounds(s: Seq<char>, i: int)
    requires
        0 <= i < s.len(),
    ensures
        spec_match_at(s, i) matches Some(m) ==> i < m.1 <= s.len(),
{
    if is_digit(s[i]) {
        lemma_digit_run_end(s, i);
        assert(digit_run_end(s, i) == digit_run_end(s, i + 1));
        lemma_digit_run_end(s, i + 1);
        let j = digit_run_end(s, i);
        if j < s.len() && s[j] == '.' {
            lemma_digit_run_end(s, j + 1);
        }
    }
}

/// A `-` matched here is a unary minus: nothing has been emitted yet, or
/// the last token emitted is `(` or an operator.
pub open spec fn unary_minus_position(toks: Seq<Token>) -> bool {
    toks.len() == 0 || toks.last() is LeftParen || toks.last() is Operator
}

/// The tokens emitted for one match. `text` is the matched substring; it
/// matters only for a number literal. A unary minus becomes the two tokens
/// `Number(-1)` `Operator(*)`; a constant name becomes its value.
pub open spec fn emit(toks: Seq<Token>, raw: RawTok, text: Seq<char>) -> Seq<Token> {
    match raw {
        RawTok::Number => toks.push(Token::Number(f_of_decimal(text))),
        RawTok::Plus => toks.push(Token::Operator(Operator::Add)),
        RawTok::Minus => if unary_minus_position(toks) {
            toks + seq![Token::Number(NEG_ONE_BITS), Token::Operator(Operator::Mul)]
        } else {
            toks.push(Token::Operator(Operator::Sub))
        },
        RawTok::Star => toks.push(Token::Operator(Operator::Mul)),
        RawTok::Slash => toks.push(Token::Operator(Operator::Div)),
        RawTok::Caret => toks.push(Token::Operator(Operator::Pow)),
        RawTok::LParen => toks.push(Token::LeftParen),
        RawTok::RParen => toks.push(Token::RightParen),
        RawTok::Func(f) => toks.push(Token::Function(f)),
        RawTok::Const(name) => toks.push(Token::Number(spec_const_bits(name))),
    }
}

/// The scan from position `i` on, with `toks` already emitted.
pub open spec fn spec_scan(s: Seq<char>, i: int, toks: Seq<Token>) -> Seq<Token>
    decreases s.len() - i
    via spec_scan_decreases
{
    if !(0 <= i < s.len()) {
        toks
    } else {
        match spec_match_at(s, i) {
            None => spec_scan(s, i + 1, toks),
            Some(m) => spec_scan(s, m.1, emit(toks, m.0, s.subrange(i, m.1))),
        }
    }
}

#[via_fn]
proof fn spec_scan_decreases(s: Seq<char>, i: int, toks: Seq<Token>) {
    if 0 <= i < s.len() {
        lemma_match_at_bounds(s, i);
    }
}

/// The input with every space removed, as the lexer sees it.
pub open spec fn strip_spaces(s: Seq<char>) -> Seq<char> {
    s.filter(|c: char| c != ' ')
}

/// The token sequence of an expression text: spaces removed, then the whole
/// left-to-right scan.
pub open spec fn spec_tokenize(s: Seq<char>) -> Seq<Token> {
    spec_scan(strip_spaces(s), 0, Seq::empty())
}

proof fn lemma_filter_push<A>(s: Seq<A>, pred: spec_fn(A) -> bool, x: A)
    ensures
        s.push(x).filter(pred) == if pred(x) {
            s.filter(pred).push(x)
        } else {
            s.filter(pred)
        },
{
    reveal(Seq::filter);
    assert(s.push(x).drop_last() =~= s);
    assert(s.push(x).last() == x);
}

fn strip_spaces_exec(s: &str) -> (cs: Vec<char>)
    ensures
        cs@ == strip_spaces(s@),
{
    let n = s.unicode_len();
    let mut cs: Vec<char> = Vec::new();
    let mut i: usize = 0;
    while i < n
        invariant
            n == s@.len(),
            i <= n,
            cs@ == s@.take(i as int).filter(|c: char| c != ' '),
        decreases n - i,
    {
        let c = s.get_char(i);
        proof {
            assert(s@.take(i + 1) =~= s@.take(i as int).push(s@[i as int]));
            lemma_filter_push(s@.take(i as int), |c: char| c != ' ', s@[i as int]);
        }
        if c != ' ' {
            cs.push(c);
        }
        i += 1;
    }
    proof {
        assert(s@.take(n as int) =~= s@);
    }
    cs
}

/// The one match attempted at position `i` of the stripped text.
fn match_at(cs: &Vec<char>, i: usize) -> (r: Option<(RawTok, usize)>)
    requires
        i < cs@.len(),
    ensures
        match r {
            Some(m) => spec_match_at(cs@, i as int) == Some((m.0, m.1 as int)) && i < m.1
                <= cs@.len(),
            None => spec_match_at(cs@, i as int) is None,
        },
{
    let n = cs.len();
    let c = cs[i];
    if is_digit_exec(c) {
        let mut j: usize = i;
        while j < n && is_digit_exec(cs[j])
            invariant
                n == cs@.len(),
                i <= j <= n,
                digit_run_end(cs@, i as int) == digit_run_end(cs@, j as int),
            decreases n - j,
        {
            j += 1;
        }
        assert(digit_run_end(cs@, j as int) == j);
        if j < n && cs[j] == '.' {
            let mut k: usize = j + 1;
            while k < n && is_digit_exec(cs[k])
                invariant
                    n == cs@.len(),
                    j + 1 <= k <= n,
                    digit_run_end(cs@, j + 1) == digit_run_end(cs@, k as int),
                decreases n - k,
            {
                k += 1;
            }
            assert(digit_run_end(cs@, k as int) == k);
            assert(number_end(cs@, i as int) == k);
            Some((RawTok::Number, k))
        } else {
            assert(number_end(cs@, i as int) == j);
            Some((RawTok::Number, j))
        }
    } else if c == '+' {
        Some((RawTok::Plus, i + 1))
    } else if c == '-' {
        Some((RawTok::Minus, i + 1))
    } else if c == '*' {
        Some((RawTok::Star, i + 1))
    } else if c == '/' {
        Some((RawTok::Slash, i + 1))
    } else if c == '^' {
        Some((RawTok::Caret, i + 1))
    } else if c == '(' {
        Some((RawTok::LParen, i + 1))
    } else if c == ')' {
        Some((RawTok::RParen, i + 1))
    } else if c == 'l' {
        if n - i >= 2 && cs[i + 1] == 'n' {
            Some((RawTok::Func(Function::Ln), i + 2))
        } else if n - i >= 4 && cs[i + 1] == 'o' && cs[i + 2] == 'g' && cs[i + 3] == '2' {
            Some((RawTok::Func(Function::Log2), i + 4))
        } else if n - i >= 5 && cs[i + 1] == 'o' && cs[i + 2] == 'g' && cs[i + 3] == '1' && cs[i
            + 4] == '0' {
            Some((RawTok::Func(Function::Log10), i + 5))
        } else {
            None
        }
    } else if c == 'e' {
        if n - i >= 3 && cs[i + 1] == 'x' && cs[i + 2] == 'p' {
            Some((RawTok::Func(Function::Exp), i + 3))
        } else {
            None
        }
    } else if c == 'a' {
        if n - i >= 4 && cs[i + 1] == 's' && cs[i + 2] == 'i' && cs[i + 3] == 'n' {
            Some((RawTok::Func(Function::Asin), i + 4))
        } else if n - i >= 4 && cs[i + 1] == 'c' && cs[i + 2] == 'o' && cs[i + 3] == 's' {
            Some((RawTok::Func(Function::Acos), i + 4))
        } else if n - i >= 4 && cs[i + 1] == 't' && cs[i + 2] == 'a' && cs[i + 3] == 'n' {
            Some((RawTok::Func(Function::Atan), i + 4))
        } else if n - i >= 3 && cs[i + 1] == 'b' && cs[i + 2] == 's' {
            Some((RawTok::Func(Function::Abs), i + 3))
        } else {
            None
        }
    } else if c == 's' {
        if n - i >= 3 && cs[i + 1] == 'i' && cs[i + 2] == 'n' {
            Some((RawTok::Func(Function::Sin), i + 3))
        } else if n - i >= 4 && cs[i + 1] == 'q' && cs[i + 2] == 'r' && cs[i + 3] == 't' {
            Some((RawTok::Func(Function::Sqrt), i + 4))
        } else {
            None
        }
    } else if c == 'c' {
        if n - i >= 3 && cs[i + 1] == 'o' && cs[i + 2] == 's' {
            Some((RawTok::Func(Function::Cos), i + 3))
        } else {
            None
        }
    } else if c == 't' {
        if n - i >= 3 && cs[i + 1] == 'a' && cs[i + 2] == 'n' {
            Some((RawTok::Func(Function::Tan), i + 3))
        } else {
            None
        }
    } else if c == 'P' {
        if n - i >= 2 && cs[i + 1] == 'I' {
            Some((RawTok::Const(ConstName::Pi), i + 2))
        } else {
            None
        }
    } else if c == 'E' {
        Some((RawTok::Const(ConstName::E), i + 1))
    } else {
        None
    }
}

proof fn lemma_number_span_text(s: Seq<char>, i: int)
    requires
        0 <= i < s.len(),
        is_digit(s[i]),
    ensures
        is_number_text(s.subrange(i, number_end(s, i))),
        i < number_end(s, i) <= s.len(),
{
    lemma_digit_run_end(s, i);
    assert(digit_run_end(s, i) == digit_run_end(s, i + 1));
    lemma_digit_run_end(s, i + 1);
    let j = digit_run_end(s, i);
    if j < s.len() && s[j] == '.' {
        lemma_digit_run_end(s, j + 1);
        let e = digit_run_end(s, j + 1);
        let sub = s.subrange(i, e);
        assert(is_digit(sub[0]));
        let d = j - i;
        assert(sub[d] == '.');
        assert forall|k: int| 0 <= k < d implies is_digit(#[trigger] sub[k]) by {
            assert(sub[k] == s[i + k]);
        }
        assert forall|k: int| d + 1 <= k < sub.len() implies is_digit(#[trigger] sub[k]) by {
            assert(sub[k] == s[i + k]);
        }
        assert(is_number_text(sub));
    } else {
        let sub = s.subrange(i, j);
        assert(is_digit(sub[0]));
        assert forall|k: int| 0 <= k < sub.len() implies is_digit(#[trigger] sub[k]) by {
            assert(sub[k] == s[i + k]);
        }
        assert(all_digits(sub, 0, sub.len() as int));
        assert(is_number_text(sub));
    }
}

/// Tokenizes an expression: strips spaces, then scans left to right,
/// emitting a token for each recognized match and skipping everything else.
/// This stage never fails; malformed input yields an incomplete or empty
/// token stream that a later stage rejects.
pub fn tokenize(expression: &str) -> (tokens: Vec<Token>)
    ensures
        tokens@ == spec_tokenize(expression@),
{
    let cs = strip_spaces_exec(expression);
    let n = cs.len();
    let mut tokens: Vec<Token> = Vec::new();
    let mut i: usize = 0;
    while i < n
        invariant
            n == cs@.len(),
            i <= n,
            spec_scan(cs@, i as int, tokens@) == spec_tokenize(expression@),
        decreases n - i,
    {
        match match_at(&cs, i) {
            None => {
                i += 1;
            },
            Some((raw, j)) => {
                let ghost text = cs@.subrange(i as int, j as int);
                let ghost toks0 = tokens@;
                match raw {
                    RawTok::Number => {
                        let mut text_vec: Vec<char> = Vec::new();
                        let mut k: usize = i;
                        while k < j
                            invariant
                                i <= k <= j <= n,
                                n == cs@.len(),
                                text_vec@ == cs@.subrange(i as int, k as int),
                            decreases j - k,
                        {
                            proof {
                                assert(cs@.subrange(i as int, k + 1) =~= cs@.subrange(
                                    i as int,
                                    k as int,
                                ).push(cs@[k as int]));
                            }
                            text_vec.push(cs[k]);
                            k += 1;
                        }
                        proof {
                            lemma_number_span_text(cs@, i as int);
                        }
                        let bits = parse_number_bits(&text_vec);
                        tokens.push(Token::Number(bits));
                    },
                    RawTok::Plus => tokens.push(Token::Operator(Operator::Add)),
                    RawTok::Minus => {
                        let unary = tokens.len() == 0 || (match tokens[tokens.len() - 1] {
                            Token::LeftParen => true,
                            Token::Operator(_) => true,
                            _ => false,
                        });
                        if unary {
                            tokens.push(Token::Number(NEG_ONE_BITS));
                            tokens.push(Token::Operator(Operator::Mul));
                            proof {
                                assert(tokens@ =~= toks0 + seq![
                                    Token::Number(NEG_ONE_BITS),
                                    Token::Operator(Operator::Mul),
                                ]);
                            }
                        } else {
                            tokens.push(Token::Operator(Operator::Sub));
                        }
                    },
                    RawTok::Star => tokens.push(Token::Operator(Operator::Mul)),
                    RawTok::Slash => tokens.push(Token::Operator(Operator::Div)),
                    RawTok::Caret => tokens.push(Token::Operator(Operator::Pow)),
                    RawTok::LParen => tokens.push(Token::LeftParen),
                    RawTok::RParen => tokens.push(Token::RightParen),
                    RawTok::Func(f) => tokens.push(Token::Function(f)),
                    RawTok::Const(name) => {
                        let bits = evaluate_const(name);
                        tokens.push(Token::Number(bits));
                    },
                }
                proof {
                    assert(tokens@ == emit(toks0, raw, text));
                }
                i = j;
            },
        }
    }
    tokens
}

/// True of the five operator symbols `+ - * / ^`, given as text.
pub fn is_operator(c: &str) -> (r: bool)
    ensures
        r == (c@.len() == 1 && (c@[0] == '+' || c@[0] == '-' || c@[0] == '*' || c@[0] == '/' || c@[0]
            == '^')),
{
    if c.unicode_len() == 1 {
        let ch = c.get_char(0);
        ch == '+' || ch == '-' || ch == '*' || ch == '/' || ch == '^'
    } else {
        false
    }
}

} // verus!
