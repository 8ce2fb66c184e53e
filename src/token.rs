//! Tokens of a postfix expression, and the token stream over a line.
use vstd::prelude::*;
use crate::literal::{float_literal, is_float_literal};
use crate::text::{chars_of, split_words, words_of};

verus! {

/// The six binary operators.
#[derive(Clone, Copy, Debug, PartialEq, Eq, Structural)]
pub enum Op {
    Add,
    Subtract,
    Multiply,
    Divide,
    Power,
    Modulus,
}

/// One classified word of the input.
#[derive(Debug)]
pub enum Token {
    /// A floating-point literal, as it was written.
    Number(String),
    Operator(Op),
    /// A word that is neither an operator symbol nor a floating-point literal.
    Invalid,
}

/// What a token stands for.
pub enum Lexeme {
    Number(Seq<char>),
    Operator(Op),
    Invalid,
}

impl View for Token {
    type V = Lexeme;

    open spec fn view(&self) -> Lexeme {
        match self {
            Token::Number(s) => Lexeme::Number(s@),
            Token::Operator(op) => Lexeme::Operator(*op),
            Token::Invalid => Lexeme::Invalid,
        }
    }
}

/// The operator that the one-character word `w` is the symbol of, if any.
pub open spec fn operator_of(w: Seq<char>) -> Option<Op> {
    if w.len() != 1 {
        None
    } else if w[0] == '+' {
        Some(Op::Add)
    } else if w[0] == '-' {
        Some(Op::Subtract)
    } else if w[0] == '*' {
        Some(Op::Multiply)
    } else if w[0] == '/' {
        Some(Op::Divide)
    } else if w[0] == '^' {
        Some(Op::Power)
    } else if w[0] == '%' {
        Some(Op::Modulus)
    } else {
        None
    }
}

/// The classification of a word: an operator symbol first, then a literal.
pub open spec fn classify(w: Seq<char>) -> Lexeme {
    match operator_of(w) {
        Some(op) => Lexeme::Operator(op),
        None => if is_float_literal(w) {
            Lexeme::Number(w)
        } else {
            Lexeme::Invalid
        },
    }
}

/// The lexemes of a line of text.
pub open spec fn lexemes(s: Seq<char>) -> Seq<Lexeme> {
    split_words(s).map_values(|w: Seq<char>| classify(w))
}

impl Token {
    /// Classifies one word (a string slice holding no whitespace).
    pub fn new(slice: &str) -> (r: Token)
        ensures
            r@ == classify(slice@),
    {
        let chars = chars_of(slice);
        if chars.len() == 1 {
            let c = chars[0];
            if c == '+' {
                return Token::Operator(Op::Add);
            } else if c == '-' {
                return Token::Operator(Op::Subtract);
            } else if c == '*' {
                return Token::Operator(Op::Multiply);
            } else if c == '/' {
                return Token::Operator(Op::Divide);
            } else if c == '^' {
                return Token::Operator(Op::Power);
            } else if c == '%' {
                return Token::Operator(Op::Modulus);
            }
        }
        if float_literal(&chars) {
            Token::Number(String::from_str(slice))
        } else {
            Token::Invalid
        }
    }
}

/// The tokens of a line, read one at a time.
pub struct Tokens {
    /// The words of the line.
    buffer: Vec<String>,
    /// The index of the next word to read.
    pos: usize,
}

impl Tokens {
    /// The words of the line.
    pub closed spec fn spec_words(&self) -> Seq<Seq<char>> {
        self.buffer@.map_values(|w: String| w@)
    }

    /// How many tokens have been read.
    pub closed spec fn spec_position(&self) -> nat {
        self.pos as nat
    }

    pub open spec fn wf(&self) -> bool {
        self.spec_position() <= self.spec_words().len()
    }

    /// The lexemes still to be read.
    pub open spec fn remaining(&self) -> Seq<Lexeme> {
        self.spec_words().skip(self.spec_position() as int).map_values(|w: Seq<char>| classify(w))
    }

    /// Splits `buffer` into words on runs of whitespace.
    pub fn new(buffer: String) -> (r: Tokens)
        ensures
            r.spec_words() == split_words(buffer@),
            r.spec_position() == 0,
            r.wf(),
    {
        let words = words_of(buffer.as_str());
        Tokens { buffer: words, pos: 0 }
    }

    /// How many tokens have been read.
    pub fn position(&self) -> (r: usize)
        ensures
            r == self.spec_position(),
    {
        self.pos
    }

    /// The number of words of the line.
    pub fn len(&self) -> (r: usize)
        ensures
            r == self.spec_words().len(),
    {
        self.buffer.len()
    }

    /// The next token, or `None` once every word has been read.
    pub fn next(&mut self) -> (r: Option<Token>)
        requires
            old(self).wf(),
        ensures
            final(self).wf(),
            final(self).spec_words() == old(self).spec_words(),
            old(self).remaining().len() == 0 ==> r is None && final(self).spec_position()
                == old(self).spec_position(),
            old(self).remaining().len() > 0 ==> {
                &&& r matches Some(t) && t@ == old(self).remaining()[0]
                &&& final(self).spec_position() == old(self).spec_position() + 1
                &&& final(self).remaining() == old(self).remaining().skip(1)
            },
    {
        if self.pos < self.buffer.len() {
            let token = Token::new(self.buffer[self.pos].as_str());
            self.pos = self.pos + 1;
            proof {
                let w = old(self).spec_words();
                assert(old(self).remaining()[0] == classify(w[old(self).pos as int]));
                assert(self.remaining() =~= old(self).remaining().skip(1));
            }
            Some(token)
        } else {
            None
        }
    }
}

} // verus!
