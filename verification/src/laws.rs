//! What holds of the tokenizer and the parser together.

use crate::ast::{Stmt, StmtView, ValueView};
use crate::error::{model, ParseError, ParseErrorView};
use crate::grammar::{program_of, value_of};
use crate::lexer::{fits, lemma_lexemes_fit_their_kinds, lexed, tokenize, LexError};
use crate::literal::decimal_value;
use crate::token::{Token, TokenKind};
use vstd::prelude::*;

verus! {

/// The front end as one function of the text: the error of the tokenizer, or
/// what the parser makes of the tokens.
pub open spec fn front(text: Seq<char>) -> Result<
    Result<Seq<StmtView>, ParseErrorView>,
    LexError,
> {
    match tokenize(text) {
        Ok(tokens) => Ok(program_of(tokens, 0).result),
        Err(error) => Err(error),
    }
}

/// The tokenizer and the parser are functions of the text. Whatever two runs
/// of the tokenizer on one text return has one model; and where the text has
/// tokens, whatever two runs of the parser on what the tokenizer returned
/// give has one model too: the same statements, or the same error.
pub proof fn lemma_same_text_same_tree(
    text: Seq<char>,
    first_tokens: Result<Vec<Token>, LexError>,
    second_tokens: Result<Vec<Token>, LexError>,
    first_tree: Result<Vec<Stmt>, ParseError>,
    second_tree: Result<Vec<Stmt>, ParseError>,
)
    requires
        lexed(first_tokens) == tokenize(text),
        lexed(second_tokens) == tokenize(text),
        first_tokens matches Ok(tokens) ==> model(first_tree) == program_of(
            tokens.deep_view(),
            0,
        ).result,
        second_tokens matches Ok(tokens) ==> model(second_tree) == program_of(
            tokens.deep_view(),
            0,
        ).result,
    ensures
        lexed(first_tokens) == lexed(second_tokens),
        first_tokens is Ok ==> second_tokens is Ok && model(first_tree) == model(second_tree)
            && front(text) == Ok::<Result<Seq<StmtView>, ParseErrorView>, LexError>(
            model(first_tree),
        ),
{
}

/// A decimal token of a text is always a value: its lexeme.
pub proof fn lemma_lexed_decimal_is_a_value(text: Seq<char>, pos: nat)
    requires
        tokenize(text) matches Ok(tokens) && pos < tokens.len() && tokens[pos as int].kind
            == TokenKind::Float,
    ensures
        value_of(tokenize(text)->Ok_0, pos).result == Ok::<ValueView, ParseErrorView>(
            ValueView::Float(tokenize(text)->Ok_0[pos as int].text),
        ),
{
    lemma_lexemes_fit_their_kinds(text);
}

/// An integer token of a text is a value if and only if the number that its
/// digits read as is one that a signed 64-bit integer holds.
pub proof fn lemma_lexed_integer_is_a_value_if_it_fits(text: Seq<char>, pos: nat)
    requires
        tokenize(text) matches Ok(tokens) && pos < tokens.len() && tokens[pos as int].kind
            == TokenKind::Int,
    ensures
        value_of(tokenize(text)->Ok_0, pos).result is Ok <==> decimal_value(
            tokenize(text)->Ok_0[pos as int].text,
        ) <= i64::MAX,
        value_of(tokenize(text)->Ok_0, pos).result matches Ok(value) ==> value == ValueView::Int(
            decimal_value(tokenize(text)->Ok_0[pos as int].text) as i64,
        ),
{
    lemma_lexemes_fit_their_kinds(text);
}

} // verus!
