use parser::lexer::{LexError, Lexer};
use parser::token::{Operator, Token, TokenKind};

fn lex(text: &str) -> Result<Vec<Token>, LexError> {
    Lexer::new(text.into()).lex()
}

fn tok(kind: TokenKind, text: &str) -> Token {
    Token::new(kind, text.into())
}

fn op(operator: Operator, text: &str) -> Token {
    Token::new(TokenKind::Op(operator), text.into())
}

#[test]
pub fn test_lexer() {
    let input = "let x = 10 =  : ";
    let lexer = Lexer::new(input.into());
    let tokens = lexer.lex().unwrap();
    assert_eq!(tokens[0], Token::new(TokenKind::Let, "let".into()));
    assert_eq!(tokens[1], Token::new(TokenKind::Ident, "x".into()));
    assert_eq!(tokens[2], Token::new(TokenKind::Eq, "=".into()));
    assert_eq!(tokens[3], Token::new(TokenKind::Int, "10".into()));
    assert_eq!(tokens[4], Token::new(TokenKind::Eq, "=".into()));
    assert_eq!(tokens[5], Token::new(TokenKind::Colon, ":".into()));
}

#[test]
fn test_lexer_yields_six_tokens() {
    assert_eq!(lex("let x = 10 =  : ").unwrap().len(), 6);
}

#[test]
fn blank_input_has_no_tokens() {
    assert_eq!(lex(""), Ok(vec![]));
    assert_eq!(lex(" "), Ok(vec![]));
    assert_eq!(lex(" \t\n  \n\t"), Ok(vec![]));
}

#[test]
fn integer_at_the_end_is_flushed() {
    assert_eq!(lex("10"), Ok(vec![tok(TokenKind::Int, "10")]));
}

#[test]
fn decimal_is_one_token() {
    assert_eq!(lex("10.5"), Ok(vec![tok(TokenKind::Float, "10.5")]));
    assert_eq!(lex("10. "), Ok(vec![tok(TokenKind::Float, "10.")]));
}

#[test]
fn word_with_digits_is_one_identifier() {
    assert_eq!(lex("abc123"), Ok(vec![tok(TokenKind::Ident, "abc123")]));
    assert_eq!(lex("Abc123 "), Ok(vec![tok(TokenKind::Ident, "Abc123")]));
}

#[test]
fn digits_then_letters_are_two_tokens() {
    assert_eq!(lex("12ab"), Ok(vec![tok(TokenKind::Int, "12"), tok(TokenKind::Ident, "ab")]));
}

#[test]
fn let_statement_tokens() {
    assert_eq!(
        lex("let x = 10"),
        Ok(vec![
            tok(TokenKind::Let, "let"),
            tok(TokenKind::Ident, "x"),
            tok(TokenKind::Eq, "="),
            tok(TokenKind::Int, "10"),
        ])
    );
}

#[test]
fn double_equals_is_one_token() {
    assert_eq!(lex("=="), Ok(vec![op(Operator::EqEq, "==")]));
}

#[test]
fn equals_before_a_blank_is_assignment() {
    assert_eq!(lex("= "), Ok(vec![tok(TokenKind::Eq, "=")]));
}

#[test]
fn three_equals_are_comparison_then_assignment() {
    assert_eq!(lex("=== "), Ok(vec![op(Operator::EqEq, "=="), tok(TokenKind::Eq, "=")]));
}

#[test]
fn more_or_equal_is_one_token() {
    assert_eq!(lex(">="), Ok(vec![op(Operator::MoreEq, ">=")]));
    assert_eq!(lex("> "), Ok(vec![op(Operator::More, ">")]));
    assert_eq!(lex(">1"), Ok(vec![op(Operator::More, ">"), tok(TokenKind::Int, "1")]));
}

#[test]
fn less_or_equal_is_one_token() {
    assert_eq!(lex("<="), Ok(vec![op(Operator::LessEq, "<=")]));
    assert_eq!(lex("< "), Ok(vec![op(Operator::Less, "<")]));
    assert_eq!(lex("<a"), Ok(vec![op(Operator::Less, "<"), tok(TokenKind::Ident, "a")]));
}

#[test]
fn minus_and_the_arrows() {
    assert_eq!(lex("->"), Ok(vec![tok(TokenKind::RightArrow, "->")]));
    assert_eq!(lex("-<"), Ok(vec![tok(TokenKind::LeftArrow, "-<")]));
    assert_eq!(lex("- "), Ok(vec![op(Operator::Sub, "-")]));
    assert_eq!(lex("-"), Ok(vec![op(Operator::Sub, "-")]));
    assert_eq!(lex("a-b"), Ok(vec![
        tok(TokenKind::Ident, "a"),
        op(Operator::Sub, "-"),
        tok(TokenKind::Ident, "b"),
    ]));
}

#[test]
fn single_character_tokens() {
    assert_eq!(
        lex(",:+*/[]{}()"),
        Ok(vec![
            tok(TokenKind::Comma, ","),
            tok(TokenKind::Colon, ":"),
            op(Operator::Add, "+"),
            op(Operator::Mul, "*"),
            op(Operator::Div, "/"),
            tok(TokenKind::LeftBracket, "["),
            tok(TokenKind::RightBracket, "]"),
            tok(TokenKind::LeftCurlyBracket, "{"),
            tok(TokenKind::RightCurlyBracket, "}"),
            tok(TokenKind::LeftBrace, "("),
            tok(TokenKind::RightBrace, ")"),
        ])
    );
}

#[test]
fn keywords_before_a_delimiter() {
    assert_eq!(
        lex("let if else for while match lets "),
        Ok(vec![
            tok(TokenKind::Let, "let"),
            tok(TokenKind::If, "if"),
            tok(TokenKind::Else, "else"),
            tok(TokenKind::For, "for"),
            tok(TokenKind::While, "while"),
            tok(TokenKind::Match, "match"),
            tok(TokenKind::Ident, "lets"),
        ])
    );
}

#[test]
fn string_keeps_its_quotes_and_its_blanks() {
    assert_eq!(lex("\"a b\""), Ok(vec![tok(TokenKind::String, "\"a b\"")]));
    assert_eq!(lex("\"\" x"), Ok(vec![tok(TokenKind::String, "\"\""), tok(TokenKind::Ident, "x")]));
    assert_eq!(lex("\"@=1\""), Ok(vec![tok(TokenKind::String, "\"@=1\"")]));
}

#[test]
fn pending_lexeme_is_flushed_under_the_pending_kind() {
    assert_eq!(lex("="), Ok(vec![op(Operator::EqEq, "=")]));
    assert_eq!(lex(">"), Ok(vec![op(Operator::MoreEq, ">")]));
    assert_eq!(lex("<"), Ok(vec![op(Operator::LessEq, "<")]));
    assert_eq!(lex("let"), Ok(vec![tok(TokenKind::Ident, "let")]));
    assert_eq!(lex("x"), Ok(vec![tok(TokenKind::Ident, "x")]));
    assert_eq!(lex("1."), Ok(vec![tok(TokenKind::Float, "1.")]));
}

#[test]
fn string_that_is_never_closed_is_flushed() {
    assert_eq!(lex("\"abc"), Ok(vec![tok(TokenKind::String, "\"abc")]));
}

#[test]
fn unknown_character_is_reported_with_its_index() {
    assert_eq!(lex("@"), Err(LexError { character: '@', position: 0 }));
    assert_eq!(lex("ab @"), Err(LexError { character: '@', position: 3 }));
    assert_eq!(lex("ab@"), Err(LexError { character: '@', position: 2 }));
    assert_eq!(lex("1 + _"), Err(LexError { character: '_', position: 4 }));
    assert_eq!(lex("a\r\n"), Err(LexError { character: '\r', position: 1 }));
}

#[test]
fn index_of_an_error_counts_characters() {
    assert_eq!(lex("\"é\" é"), Err(LexError { character: 'é', position: 4 }));
}

#[test]
fn second_point_in_a_number_is_an_error() {
    assert_eq!(lex("1.2.3"), Err(LexError { character: '.', position: 3 }));
    assert_eq!(lex(".5"), Err(LexError { character: '.', position: 0 }));
}

#[test]
fn tokens_come_in_the_order_of_their_lexemes() {
    let tokens = lex("f(a, 2) >= \"s\" -> x").unwrap();
    let texts: Vec<&str> = tokens.iter().map(|t| t.value.as_str()).collect();
    assert_eq!(texts, vec!["f", "(", "a", ",", "2", ")", ">=", "\"s\"", "->", "x"]);
}

#[test]
fn tokenizing_twice_gives_the_same_tokens() {
    let text = "let f(,a: Int,) a * 2 + 1";
    assert_eq!(lex(text), lex(text));
}

#[test]
fn new_token_holds_what_it_is_given() {
    let token = Token::new(TokenKind::Comma, "anything".into());
    assert_eq!(token.kind, TokenKind::Comma);
    assert_eq!(token.value, "anything");
}

#[test]
fn kw_or_ident_knows_the_six_keywords() {
    assert_eq!(Token::kw_or_ident("let".into()), tok(TokenKind::Let, "let"));
    assert_eq!(Token::kw_or_ident("if".into()), tok(TokenKind::If, "if"));
    assert_eq!(Token::kw_or_ident("else".into()), tok(TokenKind::Else, "else"));
    assert_eq!(Token::kw_or_ident("for".into()), tok(TokenKind::For, "for"));
    assert_eq!(Token::kw_or_ident("while".into()), tok(TokenKind::While, "while"));
    assert_eq!(Token::kw_or_ident("match".into()), tok(TokenKind::Match, "match"));
}

#[test]
fn kw_or_ident_takes_other_words_as_identifiers() {
    assert_eq!(Token::kw_or_ident("Let".into()), tok(TokenKind::Ident, "Let"));
    assert_eq!(Token::kw_or_ident("le".into()), tok(TokenKind::Ident, "le"));
    assert_eq!(Token::kw_or_ident("lett".into()), tok(TokenKind::Ident, "lett"));
    assert_eq!(Token::kw_or_ident("".into()), tok(TokenKind::Ident, ""));
}

#[test]
fn duplicate_is_equal_to_the_token() {
    let token = tok(TokenKind::String, "\"s\"");
    assert_eq!(token.duplicate(), token);
}

fn without_blanks(text: &str) -> String {
    text.chars().filter(|c| !matches!(c, ' ' | '\n' | '\t')).collect()
}

#[test]
fn only_blanks_are_lost() {
    for text in ["let x = 10", "f(a,\t\"b c\")\n>= 1.5 -< y", "  a  ", "\"open  string", "a=b==c"] {
        let spelled: String = lex(text).unwrap().iter().map(|t| t.value.as_str()).collect();
        assert_eq!(without_blanks(&spelled), without_blanks(text));
    }
}

#[test]
fn lexemes_fit_their_kinds() {
    let tokens = lex("x1 12 3.5 4. let \"s t\" <= - foo").unwrap();
    for token in tokens {
        assert!(!token.value.is_empty());
        match token.kind {
            TokenKind::Int => assert!(token.value.chars().all(|c| c.is_ascii_digit())),
            TokenKind::Float => {
                assert_eq!(token.value.matches('.').count(), 1);
                assert!(token.value.chars().next().unwrap().is_ascii_digit());
                assert!(token.value.chars().all(|c| c.is_ascii_digit() || c == '.'));
            }
            TokenKind::Ident | TokenKind::Let => {
                assert!(token.value.chars().next().unwrap().is_ascii_alphabetic());
                assert!(token.value.chars().all(|c| c.is_ascii_alphanumeric()));
            }
            TokenKind::String => assert!(token.value.starts_with('"')),
            _ => {}
        }
    }
}

#[test]
fn text_of_known_characters_has_tokens() {
    assert!(lex(",:+*/[]{}()=><\"-09azAZ \n\t").is_ok());
    assert!(lex("a.b").is_err());
}
