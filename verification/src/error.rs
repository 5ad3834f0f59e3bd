//! What the parser reports when the tokens do not fit the grammar.

use crate::token::{Token, TokenKind, TokenView};
use vstd::prelude::*;

verus! {

/// A deviation from the grammar. The text names the construct that was being
/// parsed.
#[derive(Clone, Debug, PartialEq)]
pub enum ParseError {
    /// A token of the given kind was required; another token, or the end of
    /// the input, was found.
    Expected(String, TokenKind),
    /// The given token cannot stand where it was found.
    UnExpected(String, Token),
    /// The input ended where a token had to follow.
    UnExpectedEof(String),
}

/// The model of a [`ParseError`].
pub enum ParseErrorView {
    Expected(Seq<char>, TokenKind),
    UnExpected(Seq<char>, TokenView),
    UnExpectedEof(Seq<char>),
}

impl DeepView for ParseError {
    type V = ParseErrorView;

    open spec fn deep_view(&self) -> ParseErrorView {
        match self {
            ParseError::Expected(context, kind) => ParseErrorView::Expected(context@, *kind),
            ParseError::UnExpected(context, token) => ParseErrorView::UnExpected(
                context@,
                token.deep_view(),
            ),
            ParseError::UnExpectedEof(context) => ParseErrorView::UnExpectedEof(context@),
        }
    }
}

/// The model of a parser's result.
pub open spec fn model<T: DeepView>(r: Result<T, ParseError>) -> Result<T::V, ParseErrorView> {
    match r {
        Ok(value) => Ok(value.deep_view()),
        Err(error) => Err(error.deep_view()),
    }
}

} // verus!
