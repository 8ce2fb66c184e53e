use rpn::eval::{EvalError, Expr, Outcome};
use rpn::interpreter::{evaluate, Interpreter};
use rpn::token::{Op, Token, Tokens};

fn value_of(e: &Expr) -> f64 {
    match e {
        Expr::Number(s) => s.parse::<f64>().unwrap(),
        Expr::Apply(op, l, r) => {
            let (x, y) = (value_of(l), value_of(r));
            match op {
                Op::Add => x + y,
                Op::Subtract => x - y,
                Op::Multiply => x * y,
                Op::Divide => x / y,
                Op::Power => x.powf(y),
                Op::Modulus => x % y,
            }
        }
    }
}

fn value(line: &str) -> f64 {
    match evaluate(line) {
        Outcome::Value(e) => value_of(&e),
        other => panic!("no value for {:?}: {:?}", line, other),
    }
}

fn failure(line: &str) -> EvalError {
    match evaluate(line) {
        Outcome::Failure(err) => err,
        other => panic!("no failure for {:?}: {:?}", line, other),
    }
}

#[test]
fn addition() {
    assert_eq!(value("3 4 +"), 7.0);
}

#[test]
fn division() {
    assert_eq!(value("10 2 /"), 5.0);
}

#[test]
fn power() {
    assert_eq!(value("2 3 ^"), 8.0);
}

#[test]
fn modulus() {
    assert_eq!(value("5 3 %"), 2.0);
}

#[test]
fn multiplication() {
    assert_eq!(value("6 7 *"), 42.0);
}

#[test]
fn subtraction_pops_right_operand_first() {
    assert_eq!(value("10 2 -"), 8.0);
    match evaluate("10 2 -") {
        Outcome::Value(Expr::Apply(Op::Subtract, l, r)) => {
            assert!(matches!(*l, Expr::Number(ref s) if s == "10"));
            assert!(matches!(*r, Expr::Number(ref s) if s == "2"));
        }
        other => panic!("unexpected {:?}", other),
    }
}

#[test]
fn invalid_token() {
    assert_eq!(failure("foo"), EvalError::InvalidToken(0));
}

#[test]
fn invalid_token_aborts_at_its_position() {
    assert_eq!(failure("1 2 x +"), EvalError::InvalidToken(2));
}

#[test]
fn insufficient_operands() {
    assert_eq!(failure("+"), EvalError::InsufficientOperands(0));
}

#[test]
fn insufficient_operands_stops_before_later_tokens() {
    assert_eq!(failure("1 - foo"), EvalError::InsufficientOperands(1));
}

#[test]
fn two_numbers_without_operator_are_malformed() {
    assert_eq!(failure("1 2"), EvalError::MalformedExpression(2));
}

#[test]
fn empty_line_is_malformed() {
    assert_eq!(failure(""), EvalError::MalformedExpression(0));
}

#[test]
fn whitespace_line_is_malformed() {
    assert_eq!(failure(" \t  \n "), EvalError::MalformedExpression(0));
    let mut tokens = Tokens::new(String::from("   \t "));
    assert_eq!(tokens.len(), 0);
    assert!(tokens.next().is_none());
}

#[test]
fn quit_and_exit_terminate() {
    assert!(matches!(evaluate("quit"), Outcome::Terminate));
    assert!(matches!(evaluate("exit"), Outcome::Terminate));
}

#[test]
fn quit_must_match_exactly() {
    assert_eq!(failure(" quit"), EvalError::InvalidToken(0));
    assert_eq!(failure("QUIT"), EvalError::InvalidToken(0));
}

#[test]
fn balanced_expression_gives_one_value() {
    assert_eq!(value("1 2 + 3 4 - *"), -3.0);
    assert_eq!(value("2 3 4 * +"), 14.0);
    assert_eq!(value("42"), 42.0);
}

#[test]
fn repeated_whitespace_separates_words() {
    assert_eq!(value("  3\t\t4   +  "), 7.0);
}

#[test]
fn scientific_and_signed_literals() {
    assert_eq!(value("1e2 -2.5 *"), -250.0);
    assert_eq!(value(".5 5. +"), 5.5);
    assert_eq!(value("+3 1E1 /"), 0.3);
}

#[test]
fn infinity_and_nan_literals() {
    assert_eq!(value("inf 1 +"), f64::INFINITY);
    assert_eq!(value("-Infinity"), f64::NEG_INFINITY);
    assert!(value("NaN").is_nan());
}

#[test]
fn malformed_literals_are_invalid() {
    for word in ["1e", "e5", ".", "1.2.3", "--1", "1e+", "0x10", "1_000", "infinit", "+-"] {
        assert_eq!(failure(word), EvalError::InvalidToken(0), "{}", word);
    }
}

#[test]
fn division_by_zero_is_not_an_error() {
    assert_eq!(value("1 0 /"), f64::INFINITY);
}

#[test]
fn token_classification() {
    assert!(matches!(Token::new("+"), Token::Operator(Op::Add)));
    assert!(matches!(Token::new("-"), Token::Operator(Op::Subtract)));
    assert!(matches!(Token::new("*"), Token::Operator(Op::Multiply)));
    assert!(matches!(Token::new("/"), Token::Operator(Op::Divide)));
    assert!(matches!(Token::new("^"), Token::Operator(Op::Power)));
    assert!(matches!(Token::new("%"), Token::Operator(Op::Modulus)));
    assert!(matches!(Token::new("-7.25"), Token::Number(ref s) if s == "-7.25"));
    assert!(matches!(Token::new("++"), Token::Invalid));
    assert!(matches!(Token::new("abc"), Token::Invalid));
}

#[test]
fn tokens_in_order() {
    let mut tokens = Tokens::new(String::from(" 3  4\t+ x "));
    assert_eq!(tokens.len(), 4);
    assert!(matches!(tokens.next(), Some(Token::Number(ref s)) if s == "3"));
    assert!(matches!(tokens.next(), Some(Token::Number(ref s)) if s == "4"));
    assert!(matches!(tokens.next(), Some(Token::Operator(Op::Add))));
    assert!(matches!(tokens.next(), Some(Token::Invalid)));
    assert_eq!(tokens.position(), 4);
    assert!(tokens.next().is_none());
    assert_eq!(tokens.position(), 4);
}

#[test]
fn unicode_whitespace_separates_words() {
    assert_eq!(value("3\u{a0}4\u{3000}+"), 7.0);
}

#[test]
fn interpreter_evaluates_its_line() {
    let mut interpreter = Interpreter::new(String::from("2 3 ^"));
    match interpreter.expr() {
        Outcome::Value(e) => assert_eq!(value_of(&e), 8.0),
        other => panic!("unexpected {:?}", other),
    }
    let mut quit = Interpreter::new(String::from("exit"));
    assert!(matches!(quit.expr(), Outcome::Terminate));
}
