//! Front end of a small expression-oriented language: source text to tokens,
//! tokens to statements.
//!
//! - [`token`]: the tokens.
//! - [`lexer`]: the tokenizer, a state machine driven one character at a
//!   time, with its transition table and what follows from it.
//! - [`ast`]: the tree that the parser builds, and its mathematical model.
//! - [`grammar`]: the grammar over token sequences, with the rule by which
//!   operators group, and what follows from both.
//! - [`parser`]: the parser, recursive descent with a two-stack engine for
//!   chains of operators; every rule is proved to do what the grammar says.
//! - [`error`]: what the parser reports.
//! - [`literal`]: the values of numeric lexemes.
//! - [`text`]: character-level access to strings.
//! - [`laws`]: what holds of the tokenizer and the parser together.
//!
//! Nothing here panics: a text that cannot be tokenized and tokens that do
//! not fit the grammar are reported as values.

pub mod ast;
pub mod error;
pub mod grammar;
pub mod laws;
pub mod lexer;
pub mod literal;
pub mod parser;
pub mod text;
pub mod token;

pub use error::ParseError;
pub use lexer::{LexError, Lexer, State};
pub use parser::Parser;
pub use token::{Operator, Token, TokenKind};
