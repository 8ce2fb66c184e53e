//! Properties of the tokenizer and the evaluator taken together.
use vstd::prelude::*;
use crate::eval::{fold, step, verdict, EvalError, Term, Verdict};
use crate::interpreter::{is_quit_command, line_verdict};
use crate::text::{flush, is_white, split_words, words_after};
use crate::token::{lexemes, Lexeme, Op};

verus! {

/// How many values a lexeme leaves on the stack, less how many it takes.
pub open spec fn delta(lx: Lexeme) -> int {
    match lx {
        Lexeme::Number(_) => 1,
        Lexeme::Operator(_) => -1,
        Lexeme::Invalid => 0,
    }
}

/// The net number of values that `lxs` leaves on the stack.
pub open spec fn depth(lxs: Seq<Lexeme>) -> int
    decreases lxs.len(),
{
    if lxs.len() == 0 {
        0
    } else {
        delta(lxs[0]) + depth(lxs.skip(1))
    }
}

/// A stack-balanced postfix expression: numbers and operators only, every
/// nonempty prefix leaves at least one value (so each operator finds two),
/// and the whole leaves exactly one (N numbers, N - 1 operators).
pub open spec fn is_postfix(lxs: Seq<Lexeme>) -> bool {
    &&& lxs.len() > 0
    &&& forall|i: int| 0 <= i < lxs.len() ==> !(#[trigger] lxs[i] is Invalid)
    &&& forall|i: int| 1 <= i <= lxs.len() ==> depth(#[trigger] lxs.take(i)) >= 1
    &&& depth(lxs) == 1
}

proof fn lemma_fold_balanced(stack: Seq<Term>, lxs: Seq<Lexeme>, at: nat)
    requires
        forall|i: int| 0 <= i < lxs.len() ==> !(#[trigger] lxs[i] is Invalid),
        forall|i: int| 1 <= i <= lxs.len() ==> stack.len() + depth(#[trigger] lxs.take(i)) >= 1,
    ensures
        fold(stack, lxs, at) matches Ok(st) && st.len() == stack.len() + depth(lxs),
    decreases lxs.len(),
{
    if lxs.len() > 0 {
        let rest = lxs.skip(1);
        assert(lxs.take(1).skip(1) =~= Seq::<Lexeme>::empty());
        assert(lxs.take(1)[0] == lxs[0]);
        assert(depth(lxs.take(1).skip(1)) == 0);
        assert(depth(lxs.take(1)) == delta(lxs[0]));
        assert(stack.len() + delta(lxs[0]) >= 1);
        assert(!(lxs[0] is Invalid));
        assert(step(stack, lxs[0], at) is Ok);
        let next = step(stack, lxs[0], at)->Ok_0;
        assert(next.len() == stack.len() + delta(lxs[0]));
        assert forall|i: int| 0 <= i < rest.len() implies !(#[trigger] rest[i] is Invalid) by {
            assert(rest[i] == lxs[i + 1]);
        }
        assert forall|i: int| 1 <= i <= rest.len() implies next.len() + depth(
            #[trigger] rest.take(i),
        ) >= 1 by {
            assert(lxs.take(i + 1)[0] == lxs[0]);
            assert(lxs.take(i + 1).skip(1) =~= rest.take(i));
            assert(stack.len() + depth(lxs.take(i + 1)) >= 1);
        }
        lemma_fold_balanced(next, rest, at + 1);
    }
}

/// Every stack-balanced postfix expression of N numbers and N - 1 binary
/// operators evaluates to exactly one value.
pub proof fn lemma_postfix_evaluates(lxs: Seq<Lexeme>, at: nat)
    requires
        is_postfix(lxs),
    ensures
        verdict(lxs, at) is Value,
{
    lemma_fold_balanced(Seq::empty(), lxs, at);
}

proof fn lemma_blank_words(s: Seq<char>)
    requires
        forall|i: int| 0 <= i < s.len() ==> is_white(#[trigger] s[i]),
    ensures
        words_after(Seq::empty(), s) == Seq::<Seq<char>>::empty(),
    decreases s.len(),
{
    if s.len() > 0 {
        let rest = s.skip(1);
        assert forall|i: int| 0 <= i < rest.len() implies is_white(#[trigger] rest[i]) by {
            assert(rest[i] == s[i + 1]);
        }
        lemma_blank_words(rest);
        assert(flush(Seq::empty()) =~= Seq::<Seq<char>>::empty());
        assert(flush(Seq::empty()) + words_after(Seq::empty(), rest) =~= Seq::<Seq<char>>::empty());
    }
}

/// A line of whitespace only (or an empty one) has no tokens, and evaluates
/// to a malformed expression that left no value on the stack.
pub proof fn lemma_blank_line(s: Seq<char>)
    requires
        forall|i: int| 0 <= i < s.len() ==> is_white(#[trigger] s[i]),
    ensures
        split_words(s) == Seq::<Seq<char>>::empty(),
        lexemes(s) == Seq::<Lexeme>::empty(),
        line_verdict(s) == Verdict::Failure(EvalError::MalformedExpression(0)),
{
    lemma_blank_words(s);
    assert(lexemes(s) =~= Seq::<Lexeme>::empty());
    if is_quit_command(s) {
        assert(is_white(s[0]));
    }
}

/// The value pushed first is the left operand: `a b op` stands for `a op b`.
pub proof fn lemma_operand_order(a: Seq<char>, b: Seq<char>, op: Op, at: nat)
    ensures
        verdict(seq![Lexeme::Number(a), Lexeme::Number(b), Lexeme::Operator(op)], at)
            == Verdict::Value(
            Term::Apply(op, Box::new(Term::Number(a)), Box::new(Term::Number(b))),
        ),
{
    let lxs = seq![Lexeme::Number(a), Lexeme::Number(b), Lexeme::Operator(op)];
    let s1 = seq![Term::Number(a)];
    let s2 = seq![Term::Number(a), Term::Number(b)];
    let s3 = seq![Term::Apply(op, Box::new(Term::Number(a)), Box::new(Term::Number(b)))];
    assert(Seq::<Term>::empty().push(Term::Number(a)) =~= s1);
    assert(s1.push(Term::Number(b)) =~= s2);
    assert(s2.take(0).push(Term::Apply(op, Box::new(s2[0]), Box::new(s2[1]))) =~= s3);
    assert(lxs.skip(1).skip(1).skip(1) =~= Seq::<Lexeme>::empty());
    assert(fold(s3, Seq::empty(), at + 3) == Ok::<Seq<Term>, EvalError>(s3));
    assert(lxs.skip(1).skip(1) =~= seq![Lexeme::Operator(op)]);
    assert(fold(s2, lxs.skip(1).skip(1), at + 2) == Ok::<Seq<Term>, EvalError>(s3));
    assert(lxs.skip(1) =~= seq![Lexeme::Number(b), Lexeme::Operator(op)]);
    assert(fold(s1, lxs.skip(1), at + 1) == Ok::<Seq<Term>, EvalError>(s3));
    assert(fold(Seq::empty(), lxs, at) == Ok::<Seq<Term>, EvalError>(s3));
}

} // verus!
