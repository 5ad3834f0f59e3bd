//! Tokens: the vocabulary shared by the tokenizer and the parser.

use crate::text::{chars_of, same_text};
use vstd::prelude::*;

verus! {

/// The binary operators of the language.
#[derive(Clone, Copy, Debug, PartialEq, Eq, Structural)]
pub enum Operator {
    Add,
    Sub,
    Mul,
    Div,
    EqEq,
    More,
    MoreEq,
    Less,
    LessEq,
}

/// The category of a token.
#[derive(Clone, Copy, Debug, PartialEq, Eq, Structural)]
pub enum TokenKind {
    /// `->`
    RightArrow,
    /// `-<`
    LeftArrow,
    /// `(`
    LeftBrace,
    /// `)`
    RightBrace,
    /// `[`
    LeftBracket,
    /// `]`
    RightBracket,
    /// `}`
    RightCurlyBracket,
    /// `{`
    LeftCurlyBracket,
    /// A string literal; the lexeme keeps its quotes.
    String,
    /// A run of decimal digits.
    Int,
    /// Decimal digits, one point, decimal digits.
    Float,
    /// A letter followed by letters and digits.
    Ident,
    /// `:`
    Colon,
    /// `,`
    Comma,
    Let,
    If,
    Else,
    For,
    While,
    Match,
    /// The assignment sign `=`.
    Eq,
    /// A binary operator.
    Op(Operator),
}

/// A token: its kind and the exact lexeme it was read from.
#[derive(Clone, Debug, PartialEq)]
pub struct Token {
    pub kind: TokenKind,
    pub value: String,
}

/// A token as a mathematical value: the lexeme is a sequence of characters.
pub struct TokenView {
    pub kind: TokenKind,
    pub text: Seq<char>,
}

impl DeepView for Token {
    type V = TokenView;

    open spec fn deep_view(&self) -> TokenView {
        TokenView { kind: self.kind, text: self.value@ }
    }
}

/// The kind of a word: one of the six keywords, or an identifier.
pub open spec fn keyword_kind(text: Seq<char>) -> TokenKind {
    if text == "let"@ {
        TokenKind::Let
    } else if text == "if"@ {
        TokenKind::If
    } else if text == "else"@ {
        TokenKind::Else
    } else if text == "for"@ {
        TokenKind::For
    } else if text == "while"@ {
        TokenKind::While
    } else if text == "match"@ {
        TokenKind::Match
    } else {
        TokenKind::Ident
    }
}

impl Token {
    /// A token of the given kind and lexeme.
    pub fn new(kind: TokenKind, value: String) -> (token: Self)
        ensures
            token.kind == kind,
            token.value == value,
    {
        Self { kind, value }
    }

    /// The token of a word: a keyword token where the word is a keyword, an
    /// identifier token otherwise.
    pub fn kw_or_ident(value: String) -> (token: Self)
        ensures
            token.kind == keyword_kind(value@),
            token.value == value,
    {
        let chars = chars_of(value.as_str());
        let kind = if same_text(&chars, "let") {
            TokenKind::Let
        } else if same_text(&chars, "if") {
            TokenKind::If
        } else if same_text(&chars, "else") {
            TokenKind::Else
        } else if same_text(&chars, "for") {
            TokenKind::For
        } else if same_text(&chars, "while") {
            TokenKind::While
        } else if same_text(&chars, "match") {
            TokenKind::Match
        } else {
            TokenKind::Ident
        };
        Self { kind, value }
    }

    /// A second token with the same kind and the same lexeme.
    pub fn duplicate(&self) -> (copy: Self)
        ensures
            copy == *self,
    {
        Self { kind: self.kind, value: self.value.clone() }
    }
}

} // verus!
