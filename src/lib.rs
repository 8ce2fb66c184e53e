//! A Reverse Polish Notation calculator core: a whitespace tokenizer, a
//! recognizer for floating-point literals and a stack machine that folds a
//! postfix token sequence into a single expression tree.
pub mod literal;
pub mod text;
pub mod token;
pub mod eval;
pub mod interpreter;
pub mod laws;
