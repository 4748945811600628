use bt_math::eval::EvalError;
use bt_math::ieee::{evaluate_const, E_BITS, NEG_ONE_BITS, PI_BITS};
use bt_math::token::{ConstName, Function, Operator};
use bt_math::{evaluate_expression, is_operator, to_rpn, tokenize, Token};

fn ev(expression: &str) -> Result<f64, EvalError> {
    evaluate_expression(expression).map(f64::from_bits)
}

#[test]
fn test_precedence_mul_before_add() {
    assert_eq!(ev("2 + 3 * 4").unwrap(), 14.0);
}

#[test]
fn test_fully_parenthesized() {
    assert_eq!(ev("((1 + 2) * (3 - 4))").unwrap(), -3.0);
    assert_eq!(ev("(sin(0) + (2 * 3))").unwrap(), 6.0);
}

#[test]
fn test_division_by_zero_is_infinite() {
    let r = ev("1 / 0").unwrap();
    assert!(r.is_infinite() && r.is_sign_positive());
}

#[test]
fn test_power() {
    assert_eq!(ev("2^10").unwrap(), 1024.0);
}

#[test]
fn test_ln_of_one() {
    assert_eq!(ev("ln(1)").unwrap(), 0.0);
}

#[test]
fn test_sqrt_exact() {
    assert_eq!(ev("sqrt(4)").unwrap(), 2.0);
}

#[test]
fn test_sqrt_of_negative_is_nan() {
    assert!(ev("sqrt(-4)").unwrap().is_nan());
}

#[test]
fn test_error_not_enough_operands() {
    assert_eq!(evaluate_expression("2 +"), Err(EvalError::NotEnoughOperands));
}

#[test]
fn test_error_invalid_token_from_unbalanced_paren() {
    assert_eq!(evaluate_expression("(2 + 3"), Err(EvalError::InvalidToken));
}

#[test]
fn test_error_no_result() {
    assert_eq!(evaluate_expression("abc"), Err(EvalError::NoResult));
    assert_eq!(evaluate_expression(""), Err(EvalError::NoResult));
}

#[test]
fn test_reevaluation_gives_same_bits() {
    let a = evaluate_expression("sin(45) + cos(45) * exp(2)").unwrap();
    let b = evaluate_expression("sin(45) + cos(45) * exp(2)").unwrap();
    assert_eq!(a, b);
}

#[test]
fn test_spaces_are_stripped() {
    assert_eq!(ev("  l n ( 1 )  ").unwrap(), 0.0);
}

#[test]
fn test_unrecognized_text_is_skipped() {
    // `log` alone is not a recognized name; only its parenthesized argument
    // survives tokenization.
    assert_eq!(ev("log(100)").unwrap(), 100.0);
}

#[test]
fn test_tokenize_number_and_constants() {
    assert_eq!(tokenize("2"), vec![Token::Number(2.0f64.to_bits())]);
    assert_eq!(tokenize("2.5"), vec![Token::Number(2.5f64.to_bits())]);
    assert_eq!(
        tokenize("PI"),
        vec![Token::Number(std::f64::consts::PI.to_bits())]
    );
    assert_eq!(
        tokenize("E"),
        vec![Token::Number(std::f64::consts::E.to_bits())]
    );
}

#[test]
fn test_tokenize_unary_minus_rewriting() {
    assert_eq!(
        tokenize("-3"),
        vec![
            Token::Number((-1.0f64).to_bits()),
            Token::Operator(Operator::Mul),
            Token::Number(3.0f64.to_bits()),
        ]
    );
    // after a number the minus is binary subtraction
    assert_eq!(
        tokenize("3-2"),
        vec![
            Token::Number(3.0f64.to_bits()),
            Token::Operator(Operator::Sub),
            Token::Number(2.0f64.to_bits()),
        ]
    );
}

#[test]
fn test_tokenize_function_names() {
    assert_eq!(
        tokenize("log10(1)"),
        vec![
            Token::Function(Function::Log10),
            Token::LeftParen,
            Token::Number(1.0f64.to_bits()),
            Token::RightParen,
        ]
    );
    assert_eq!(tokenize("sinh"), vec![Token::Function(Function::Sin)]);
}

#[test]
fn test_to_rpn_orders_by_precedence() {
    let two = Token::Number(2.0f64.to_bits());
    let three = Token::Number(3.0f64.to_bits());
    let four = Token::Number(4.0f64.to_bits());
    let rpn = to_rpn(&tokenize("2 + 3 * 4"));
    assert_eq!(
        rpn,
        vec![
            two,
            three,
            four,
            Token::Operator(Operator::Mul),
            Token::Operator(Operator::Add),
        ]
    );
}

#[test]
fn test_constants_match_std() {
    assert_eq!(PI_BITS, std::f64::consts::PI.to_bits());
    assert_eq!(E_BITS, std::f64::consts::E.to_bits());
    assert_eq!(NEG_ONE_BITS, (-1.0f64).to_bits());
    assert_eq!(evaluate_const(ConstName::Pi), std::f64::consts::PI.to_bits());
    assert_eq!(evaluate_const(ConstName::E), std::f64::consts::E.to_bits());
}

#[test]
fn test_is_operator() {
    assert!(is_operator("+"));
    assert!(is_operator("-"));
    assert!(is_operator("*"));
    assert!(is_operator("/"));
    assert!(is_operator("^"));
    assert!(!is_operator("("));
    assert!(!is_operator("x"));
    assert!(!is_operator(""));
    assert!(!is_operator("++"));
}

#[test]
fn test_error_messages() {
    assert_eq!(
        EvalError::NoResult.message(),
        "Invalid expression: no result on stack"
    );
    assert_eq!(
        EvalError::NotEnoughOperands.message(),
        "Invalid expression: not enough values"
    );
    assert_eq!(EvalError::InvalidToken.message(), "Invalid token");
}

#[test]
fn test_surplus_stack_values_are_permitted() {
    // two grouped numbers with no operator: the top of the stack is the result
    assert_eq!(ev("(2)(3)").unwrap(), 3.0);
}
