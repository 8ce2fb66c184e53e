//! The stack machine that folds a postfix token sequence into one expression.
use vstd::prelude::*;
use crate::token::{Lexeme, Op, Token, Tokens};

verus! {

/// An expression tree: a literal, or an operator applied to two subexpressions.
#[derive(Debug)]
pub enum Expr {
    /// A floating-point literal, as it was written.
    Number(String),
    /// `Apply(op, left, right)` stands for `left op right`.
    Apply(Op, Box<Expr>, Box<Expr>),
}

/// What an expression tree stands for.
pub enum Term {
    Number(Seq<char>),
    Apply(Op, Box<Term>, Box<Term>),
}

pub open spec fn term_of(e: Expr) -> Term
    decreases e,
{
    match e {
        Expr::Number(s) => Term::Number(s@),
        Expr::Apply(op, l, r) => Term::Apply(op, Box::new(term_of(*l)), Box::new(term_of(*r))),
    }
}

impl View for Expr {
    type V = Term;

    open spec fn view(&self) -> Term {
        term_of(*self)
    }
}

/// Why a line could not be evaluated.
#[derive(Clone, Copy, Debug, PartialEq, Eq, Structural)]
pub enum EvalError {
    /// The token at this index is neither an operator nor a number.
    InvalidToken(usize),
    /// The operator at this index found fewer than two values on the stack.
    InsufficientOperands(usize),
    /// Every token was consumed and the stack held this many values, not one.
    MalformedExpression(usize),
}

/// The outcome of evaluating a line.
#[derive(Debug)]
pub enum Outcome {
    /// The line asked to end the session.
    Terminate,
    /// The line is a well-formed postfix expression with this tree.
    Value(Expr),
    Failure(EvalError),
}

/// What an outcome stands for.
pub enum Verdict {
    Terminate,
    Value(Term),
    Failure(EvalError),
}

impl View for Outcome {
    type V = Verdict;

    open spec fn view(&self) -> Verdict {
        match self {
            Outcome::Terminate => Verdict::Terminate,
            Outcome::Value(e) => Verdict::Value(e@),
            Outcome::Failure(err) => Verdict::Failure(*err),
        }
    }
}

/// The stack after one step on `lx`, the lexeme at index `at`: a number is
/// pushed; an operator pops its right operand, then its left one, and pushes
/// their application.
pub open spec fn step(stack: Seq<Term>, lx: Lexeme, at: nat) -> Result<Seq<Term>, EvalError> {
    match lx {
        Lexeme::Number(s) => Ok(stack.push(Term::Number(s))),
        Lexeme::Operator(op) => if stack.len() < 2 {
            Err(EvalError::InsufficientOperands(at as usize))
        } else {
            let n = stack.len() as int;
            Ok(
                stack.take(n - 2).push(
                    Term::Apply(op, Box::new(stack[n - 2]), Box::new(stack[n - 1])),
                ),
            )
        },
        Lexeme::Invalid => Err(EvalError::InvalidToken(at as usize)),
    }
}

/// The stack after every lexeme of `lxs`, the first at index `at`, or the
/// first error.
pub open spec fn fold(stack: Seq<Term>, lxs: Seq<Lexeme>, at: nat) -> Result<Seq<Term>, EvalError>
    decreases lxs.len(),
{
    if lxs.len() == 0 {
        Ok(stack)
    } else {
        match step(stack, lxs[0], at) {
            Ok(next) => fold(next, lxs.skip(1), at + 1),
            Err(e) => Err(e),
        }
    }
}

/// The verdict on `lxs`, the first at index `at`: its single remaining value,
/// or the error.
pub open spec fn verdict(lxs: Seq<Lexeme>, at: nat) -> Verdict {
    match fold(Seq::empty(), lxs, at) {
        Ok(stack) => if stack.len() == 1 {
            Verdict::Value(stack[0])
        } else {
            Verdict::Failure(EvalError::MalformedExpression(stack.len() as usize))
        },
        Err(e) => Verdict::Failure(e),
    }
}

/// The terms that a stack of expression trees stands for.
pub open spec fn terms(stack: Seq<Expr>) -> Seq<Term> {
    stack.map_values(|e: Expr| e@)
}

/// Evaluates the tokens that remain in `tokens`, reading them up to the first
/// error.
pub fn run(tokens: &mut Tokens) -> (r: Outcome)
    requires
        old(tokens).wf(),
    ensures
        r@ == verdict(old(tokens).remaining(), old(tokens).spec_position()),
        final(tokens).wf(),
        final(tokens).spec_words() == old(tokens).spec_words(),
{
    let ghost all = tokens.remaining();
    let ghost first = tokens.spec_position();
    let mut stack: Vec<Expr> = Vec::new();
    assert(terms(stack@) =~= Seq::<Term>::empty());
    loop
        invariant
            all == old(tokens).remaining(),
            first == old(tokens).spec_position(),
            tokens.wf(),
            tokens.spec_words() == old(tokens).spec_words(),
            fold(Seq::empty(), all, first) == fold(
                terms(stack@),
                tokens.remaining(),
                tokens.spec_position(),
            ),
        ensures
            tokens.wf(),
            tokens.spec_words() == old(tokens).spec_words(),
            fold(Seq::empty(), all, first) == Ok::<Seq<Term>, EvalError>(terms(stack@)),
        decreases tokens.spec_words().len() - tokens.spec_position(),
    {
        let at = tokens.position();
        let ghost before = terms(stack@);
        match tokens.next() {
            None => {
                break ;
            },
            Some(Token::Number(s)) => {
                stack.push(Expr::Number(s));
                assert(terms(stack@) =~= before.push(Term::Number(s@)));
            },
            Some(Token::Operator(op)) => {
                if stack.len() < 2 {
                    return Outcome::Failure(EvalError::InsufficientOperands(at));
                }
                let right = stack.pop().unwrap();
                let left = stack.pop().unwrap();
                let ghost n = before.len() as int;
                assert(before[n - 1] == right@);
                assert(before[n - 2] == left@);
                stack.push(Expr::Apply(op, Box::new(left), Box::new(right)));
                assert(terms(stack@) =~= before.take(n - 2).push(
                    Term::Apply(op, Box::new(before[n - 2]), Box::new(before[n - 1])),
                ));
            },
            Some(Token::Invalid) => {
                return Outcome::Failure(EvalError::InvalidToken(at));
            },
        }
    }
    if stack.len() == 1 {
        Outcome::Value(stack.pop().unwrap())
    } else {
        Outcome::Failure(EvalError::MalformedExpression(stack.len()))
    }
}

} // verus!
