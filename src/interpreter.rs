//! One line of input: the quit check, then tokenizing and evaluating.
use vstd::prelude::*;
use crate::eval::{run, verdict, Outcome, Verdict};
use crate::text::{chars_of, split_words};
use crate::token::{lexemes, Tokens};

verus! {

/// The line is `quit` or `exit`.
pub open spec fn is_quit_command(s: Seq<char>) -> bool {
    s == seq!['q', 'u', 'i', 't'] || s == seq!['e', 'x', 'i', 't']
}

/// The verdict on a whole line of input.
pub open spec fn line_verdict(s: Seq<char>) -> Verdict {
    if is_quit_command(s) {
        Verdict::Terminate
    } else {
        verdict(lexemes(s), 0)
    }
}

/// Whether the line is `quit` or `exit`.
fn quit_requested(line: &str) -> (r: bool)
    ensures
        r == is_quit_command(line@),
{
    let c = chars_of(line);
    let r = c.len() == 4 && ((c[0] == 'q' && c[1] == 'u' && c[2] == 'i' && c[3] == 't') || (c[0]
        == 'e' && c[1] == 'x' && c[2] == 'i' && c[3] == 't'));
    proof {
        if c.len() == 4 {
            assert(r ==> c@ =~= seq!['q', 'u', 'i', 't'] || c@ =~= seq!['e', 'x', 'i', 't']);
        }
    }
    r
}

/// Evaluates one line: `Terminate` for `quit` or `exit`, and otherwise the
/// tree of its postfix expression, or the first error.
pub fn evaluate(line: &str) -> (r: Outcome)
    ensures
        r@ == line_verdict(line@),
{
    if quit_requested(line) {
        return Outcome::Terminate;
    }
    let mut tokens = Tokens::new(String::from_str(line));
    assert(tokens.remaining() =~= lexemes(line@));
    run(&mut tokens)
}

/// A line of input, ready to be evaluated.
pub struct Interpreter {
    tokens: Tokens,
    quit: bool,
}

impl Interpreter {
    /// The line asked to end the session.
    pub closed spec fn spec_quit(&self) -> bool {
        self.quit
    }

    /// The tokens of the line.
    pub closed spec fn spec_tokens(&self) -> Tokens {
        self.tokens
    }

    pub open spec fn wf(&self) -> bool {
        self.spec_tokens().wf()
    }

    /// What `expr` returns next.
    pub open spec fn pending(&self) -> Verdict {
        if self.spec_quit() {
            Verdict::Terminate
        } else {
            verdict(self.spec_tokens().remaining(), self.spec_tokens().spec_position())
        }
    }

    /// Takes in one line of input.
    pub fn new(text: String) -> (r: Interpreter)
        ensures
            r.wf(),
            r.spec_quit() == is_quit_command(text@),
            r.spec_tokens().spec_words() == split_words(text@),
            r.spec_tokens().spec_position() == 0,
            r.pending() == line_verdict(text@),
    {
        let quit = quit_requested(text.as_str());
        let tokens = Tokens::new(text);
        assert(tokens.remaining() =~= lexemes(text@));
        Interpreter { tokens, quit }
    }

    /// Evaluates the line: `Terminate` if it was `quit` or `exit`, and
    /// otherwise the tree of its postfix expression, or the first error.
    pub fn expr(&mut self) -> (r: Outcome)
        requires
            old(self).wf(),
        ensures
            r@ == old(self).pending(),
            final(self).wf(),
            final(self).spec_quit() == old(self).spec_quit(),
            final(self).spec_tokens().spec_words() == old(self).spec_tokens().spec_words(),
    {
        if self.quit {
            return Outcome::Terminate;
        }
        run(&mut self.tokens)
    }
}

} // verus!
