use parser::ast::{Expr, Operation, Stmt, Type, Value};
use parser::error::ParseError;
use parser::lexer::Lexer;
use parser::parser::{
    binary, case, conditional, expr, func, function_call, operation, param, params, type_anot,
    value, var, Parser,
};
use parser::token::{Operator, Token, TokenKind};

fn parser_of(text: &str) -> Parser {
    Parser::new(Lexer::new(format!("{text} ")).lex().unwrap())
}

fn statement(text: &str) -> Result<Stmt, ParseError> {
    parser_of(text).parse_stmt().unwrap()
}

fn program(text: &str) -> Result<Vec<Stmt>, ParseError> {
    parser_of(text).parse()
}

fn token(kind: TokenKind, text: &str) -> Token {
    Token::new(kind, text.into())
}

fn name(text: &str) -> Expr {
    Expr::Value(Value::Ident(text.into()))
}

fn num(number: i64) -> Expr {
    Expr::Value(Value::Int(number))
}

fn bin(left: Expr, operation: Operation, right: Expr) -> Expr {
    Expr::Binary(Box::new(left), operation, Box::new(right))
}

fn expected(context: &str, kind: TokenKind) -> ParseError {
    ParseError::Expected(context.into(), kind)
}

fn unexpected(context: &str, kind: TokenKind, text: &str) -> ParseError {
    ParseError::UnExpected(context.into(), token(kind, text))
}

fn eof(context: &str) -> ParseError {
    ParseError::UnExpectedEof(context.into())
}

#[test]
fn product_binds_tighter_on_the_right() {
    assert_eq!(
        statement("a + b * c"),
        Ok(Stmt::Expr(bin(name("a"), Operation::Add, bin(name("b"), Operation::Mul, name("c")))))
    );
}

#[test]
fn product_binds_tighter_on_the_left() {
    assert_eq!(
        statement("a * b + c"),
        Ok(Stmt::Expr(bin(bin(name("a"), Operation::Mul, name("b")), Operation::Add, name("c"))))
    );
}

#[test]
fn sums_group_to_the_right() {
    assert_eq!(
        statement("a + b - c"),
        Ok(Stmt::Expr(bin(name("a"), Operation::Add, bin(name("b"), Operation::Sub, name("c")))))
    );
}

#[test]
fn products_group_to_the_left() {
    assert_eq!(
        statement("a * b / c"),
        Ok(Stmt::Expr(bin(bin(name("a"), Operation::Mul, name("b")), Operation::Div, name("c"))))
    );
}

#[test]
fn long_chain_mixes_both_groupings() {
    let product = bin(bin(name("b"), Operation::Mul, name("c")), Operation::Mul, name("d"));
    assert_eq!(
        statement("a - b * c * d + e"),
        Ok(Stmt::Expr(bin(name("a"), Operation::Sub, bin(product, Operation::Add, name("e")))))
    );
}

#[test]
fn comparisons_share_the_level_of_sums() {
    assert_eq!(
        statement("a < b + 1"),
        Ok(Stmt::Expr(bin(name("a"), Operation::Less, bin(name("b"), Operation::Add, num(1)))))
    );
    assert_eq!(
        statement("a + 1 >= b"),
        Ok(Stmt::Expr(bin(name("a"), Operation::Add, bin(num(1), Operation::MoreEq, name("b")))))
    );
}

#[test]
fn every_operator_has_its_operation() {
    let pairs = [
        ("+", Operation::Add),
        ("-", Operation::Sub),
        ("*", Operation::Mul),
        ("/", Operation::Div),
        ("==", Operation::EqEq),
        ("<", Operation::Less),
        ("<=", Operation::LessEq),
        (">", Operation::More),
        (">=", Operation::MoreEq),
    ];
    for (text, operation) in pairs {
        assert_eq!(
            statement(&format!("a {text} b")),
            Ok(Stmt::Expr(bin(name("a"), operation, name("b"))))
        );
    }
}

#[test]
fn let_with_an_integer() {
    assert_eq!(statement("let x = 10"), Ok(Stmt::Let("x".into(), None, num(10))));
}

#[test]
fn let_with_a_type() {
    assert_eq!(
        statement("let x: Int = 10"),
        Ok(Stmt::Let("x".into(), Some(Type::Int), num(10)))
    );
    assert_eq!(
        statement("let s: String = \"a\""),
        Ok(Stmt::Let("s".into(), Some(Type::String), Expr::Value(Value::String("\"a\"".into()))))
    );
    assert_eq!(
        statement("let f: Float = 1.5"),
        Ok(Stmt::Let("f".into(), Some(Type::Float), Expr::Value(Value::Float("1.5".into()))))
    );
}

#[test]
fn let_with_an_expression() {
    assert_eq!(
        statement("let x = a + 2 * b"),
        Ok(Stmt::Let(
            "x".into(),
            None,
            bin(name("a"), Operation::Add, bin(num(2), Operation::Mul, name("b")))
        ))
    );
}

#[test]
fn statement_that_begins_with_else_is_refused() {
    assert_eq!(statement("else"), Err(unexpected("Statement", TokenKind::Else, "else")));
    assert_eq!(statement("else x"), Err(unexpected("Statement", TokenKind::Else, "else")));
}

#[test]
fn statement_that_begins_with_another_token_is_refused() {
    assert_eq!(statement(", x"), Err(unexpected("Statement", TokenKind::Comma, ",")));
    assert_eq!(statement("{ x }"), Err(unexpected("Statement", TokenKind::LeftCurlyBracket, "{")));
    assert_eq!(statement("+ 1"), Err(unexpected("Statement", TokenKind::Op(Operator::Add), "+")));
    assert_eq!(statement("= 1"), Err(unexpected("Statement", TokenKind::Eq, "=")));
}

#[test]
fn refused_statement_takes_no_token() {
    let mut parser = parser_of("else x");
    assert!(parser.parse_stmt().unwrap().is_err());
    assert_eq!(parser.position(), 0);
}

#[test]
fn no_statement_at_the_end_of_the_input() {
    let mut parser = parser_of("");
    assert_eq!(parser.parse_stmt(), None);
    assert_eq!(parser.position(), 0);
    let mut parser = parser_of("x");
    assert_eq!(parser.parse_stmt(), Some(Ok(Stmt::Expr(name("x")))));
    assert_eq!(parser.parse_stmt(), None);
    assert_eq!(parser.position(), 1);
}

#[test]
fn parsing_twice_gives_the_same_tree() {
    let text = "let f(,a: Int,,b,): Int a * 2 + b  f(1, 2)  while x f(x)";
    let first = program(text);
    let second = program(text);
    assert!(first.is_ok());
    assert_eq!(first, second);
    assert_eq!(first.unwrap().len(), 3);
}

#[test]
fn program_is_the_statements_in_order() {
    assert_eq!(program(""), Ok(vec![]));
    assert_eq!(
        program("let x = 1 x + 2 f(x)"),
        Ok(vec![
            Stmt::Let("x".into(), None, num(1)),
            Stmt::Expr(bin(name("x"), Operation::Add, num(2))),
            Stmt::Expr(Expr::Call("f".into(), vec![name("x")])),
        ])
    );
}

#[test]
fn program_stops_at_the_first_error() {
    assert_eq!(program("let x = 1 else y"), Err(unexpected("Statement", TokenKind::Else, "else")));
    assert_eq!(program("x + "), Err(eof("Value")));
}

#[test]
fn next_token_takes_and_peek_does_not() {
    let mut parser = parser_of("a b");
    assert_eq!(parser.peek(), Some(token(TokenKind::Ident, "a")));
    assert_eq!(parser.position(), 0);
    assert_eq!(parser.next_token(), Some(token(TokenKind::Ident, "a")));
    assert_eq!(parser.position(), 1);
    assert_eq!(parser.peek(), Some(token(TokenKind::Ident, "b")));
    assert_eq!(parser.next_token(), Some(token(TokenKind::Ident, "b")));
    assert_eq!(parser.position(), 2);
}

#[test]
fn at_the_end_the_cursor_moves_on() {
    let mut parser = parser_of("a");
    assert_eq!(parser.next_token(), Some(token(TokenKind::Ident, "a")));
    assert_eq!(parser.position(), 1);
    assert_eq!(parser.peek(), None);
    assert_eq!(parser.position(), 1);
    assert_eq!(parser.next_token(), None);
    assert_eq!(parser.position(), 2);
    assert_eq!(parser.next_token(), None);
    assert_eq!(parser.position(), 3);
    assert_eq!(parser.peek(), None);
}

#[test]
fn rule_that_asks_for_a_token_at_the_end_moves_the_cursor() {
    let mut parser = parser_of("");
    assert_eq!(value(&mut parser), Err(eof("Value")));
    assert_eq!(parser.position(), 1);
    assert_eq!(operation(&mut parser), Err(eof("Operation")));
    assert_eq!(parser.position(), 2);
    assert_eq!(type_anot(&mut parser), Err(expected("Type", TokenKind::Colon)));
    assert_eq!(parser.position(), 3);
    let mut parser = parser_of("let");
    assert_eq!(var(&mut parser), Err(expected("Variable", TokenKind::Ident)));
    assert_eq!(parser.position(), 2);
    let mut parser = parser_of("a +");
    assert_eq!(expr(&mut parser), Err(eof("Value")));
    assert_eq!(parser.position(), 3);
}

#[test]
fn rule_that_looks_ahead_at_the_end_leaves_the_cursor() {
    let mut parser = parser_of("");
    assert_eq!(expr(&mut parser), Err(eof("Expression")));
    assert_eq!(parser.position(), 0);
    let mut parser = parser_of("f(a");
    assert_eq!(expr(&mut parser), Err(eof("Call")));
    assert_eq!(parser.position(), 3);
    let mut parser = parser_of("(");
    assert_eq!(params(&mut parser), Err(eof("Params")));
    assert_eq!(parser.position(), 1);
}

#[test]
fn value_of_each_kind() {
    assert_eq!(value(&mut parser_of("12")), Ok(Value::Int(12)));
    assert_eq!(value(&mut parser_of("1.25")), Ok(Value::Float("1.25".into())));
    assert_eq!(value(&mut parser_of("\"s\"")), Ok(Value::String("\"s\"".into())));
    assert_eq!(value(&mut parser_of("abc")), Ok(Value::Ident("abc".into())));
}

#[test]
fn value_refuses_other_tokens() {
    let mut parser = parser_of(", 1");
    assert_eq!(value(&mut parser), Err(unexpected("Value", TokenKind::Comma, ",")));
    assert_eq!(parser.position(), 1);
    assert_eq!(value(&mut parser_of("let")), Err(unexpected("Value", TokenKind::Let, "let")));
    assert_eq!(value(&mut parser_of("")), Err(eof("Value")));
}

#[test]
fn integer_that_does_not_fit_is_refused() {
    assert_eq!(
        statement("9223372036854775807"),
        Ok(Stmt::Expr(num(i64::MAX)))
    );
    assert_eq!(
        statement("9223372036854775808"),
        Err(unexpected("Value", TokenKind::Int, "9223372036854775808"))
    );
}

#[test]
fn number_token_with_another_lexeme_is_refused() {
    let mut parser = Parser::new(vec![token(TokenKind::Int, "x1")]);
    assert_eq!(value(&mut parser), Err(unexpected("Value", TokenKind::Int, "x1")));
    let mut parser = Parser::new(vec![token(TokenKind::Float, "1.2.3")]);
    assert_eq!(value(&mut parser), Err(unexpected("Value", TokenKind::Float, "1.2.3")));
}

#[test]
fn operation_of_each_operator() {
    assert_eq!(operation(&mut parser_of("+")), Ok(Operation::Add));
    assert_eq!(operation(&mut parser_of("<= 1")), Ok(Operation::LessEq));
    assert_eq!(operation(&mut parser_of("x")), Err(unexpected("Operation", TokenKind::Ident, "x")));
    assert_eq!(operation(&mut parser_of("= 1")), Err(unexpected("Operation", TokenKind::Eq, "=")));
    assert_eq!(operation(&mut parser_of("")), Err(eof("Operation")));
}

#[test]
fn binary_goes_on_from_the_first_operand() {
    let mut parser = parser_of("+ b * c , d");
    assert_eq!(
        binary(&mut parser, name("a")),
        Ok(bin(name("a"), Operation::Add, bin(name("b"), Operation::Mul, name("c"))))
    );
    assert_eq!(parser.position(), 4);
}

#[test]
fn binary_without_an_operator_is_the_operand() {
    let mut parser = parser_of(", d");
    assert_eq!(binary(&mut parser, name("a")), Ok(name("a")));
    assert_eq!(parser.position(), 0);
    assert_eq!(binary(&mut parser_of(""), num(1)), Ok(num(1)));
}

#[test]
fn operator_without_an_operand_is_an_error() {
    assert_eq!(statement("a +"), Err(eof("Value")));
    assert_eq!(statement("a + * b"), Err(unexpected("Value", TokenKind::Op(Operator::Mul), "*")));
    assert_eq!(statement("a * b + let"), Err(unexpected("Value", TokenKind::Let, "let")));
}

#[test]
fn expression_ends_before_a_token_that_is_no_operator() {
    let mut parser = parser_of("a + b c");
    assert_eq!(expr(&mut parser), Ok(bin(name("a"), Operation::Add, name("b"))));
    assert_eq!(parser.position(), 3);
    let mut parser = parser_of("a = b");
    assert_eq!(expr(&mut parser), Ok(name("a")));
    assert_eq!(parser.position(), 1);
}

#[test]
fn expression_has_to_begin_with_a_value() {
    let mut parser = parser_of("( a )");
    assert_eq!(expr(&mut parser), Err(unexpected("Expression", TokenKind::LeftBrace, "(")));
    assert_eq!(parser.position(), 0);
    assert_eq!(expr(&mut parser_of("")), Err(eof("Expression")));
}

#[test]
fn call_without_arguments() {
    assert_eq!(statement("f()"), Ok(Stmt::Expr(Expr::Call("f".into(), vec![]))));
}

#[test]
fn call_with_arguments() {
    assert_eq!(
        statement("f(a, 1 + 2, g(b))"),
        Ok(Stmt::Expr(Expr::Call(
            "f".into(),
            vec![
                name("a"),
                bin(num(1), Operation::Add, num(2)),
                Expr::Call("g".into(), vec![name("b")]),
            ]
        )))
    );
}

#[test]
fn call_that_is_not_closed() {
    assert_eq!(statement("f(a"), Err(eof("Call")));
    assert_eq!(statement("f("), Err(eof("Expression")));
    assert_eq!(statement("f(a,"), Err(eof("Expression")));
    assert_eq!(statement("f(a,)"), Err(unexpected("Expression", TokenKind::RightBrace, ")")));
    assert_eq!(statement("f(a b)"), Err(unexpected("Call", TokenKind::Ident, "b")));
}

#[test]
fn function_call_wants_the_opening_brace() {
    assert_eq!(function_call(&mut parser_of("x"), "f".into()), Err(expected("Call", TokenKind::LeftBrace)));
    assert_eq!(function_call(&mut parser_of(""), "f".into()), Err(expected("Call", TokenKind::LeftBrace)));
    let mut parser = parser_of("(1) 2");
    assert_eq!(function_call(&mut parser, "f".into()), Ok(Expr::Call("f".into(), vec![num(1)])));
    assert_eq!(parser.position(), 3);
}

#[test]
fn only_a_name_can_be_called() {
    let mut parser = parser_of("1 (2)");
    assert_eq!(expr(&mut parser), Ok(num(1)));
    assert_eq!(parser.position(), 1);
}

#[test]
fn type_annotation_names_one_of_three_types() {
    assert_eq!(type_anot(&mut parser_of(": String")), Ok(Type::String));
    assert_eq!(type_anot(&mut parser_of(": Int")), Ok(Type::Int));
    assert_eq!(type_anot(&mut parser_of(": Float")), Ok(Type::Float));
}

#[test]
fn type_annotation_errors() {
    assert_eq!(type_anot(&mut parser_of("x")), Err(expected("Type", TokenKind::Colon)));
    assert_eq!(type_anot(&mut parser_of("")), Err(expected("Type", TokenKind::Colon)));
    assert_eq!(type_anot(&mut parser_of(":")), Err(expected("Type", TokenKind::Ident)));
    assert_eq!(type_anot(&mut parser_of(": 1")), Err(expected("Type", TokenKind::Ident)));
    assert_eq!(type_anot(&mut parser_of(": int")), Err(unexpected("Type", TokenKind::Ident, "int")));
}

#[test]
fn parameter_with_and_without_a_type() {
    assert_eq!(param(&mut parser_of("a,")), Ok(("a".into(), None)));
    assert_eq!(param(&mut parser_of("a: Int,")), Ok(("a".into(), Some(Type::Int))));
}

#[test]
fn parameter_errors() {
    assert_eq!(param(&mut parser_of("1,")), Err(expected("Param", TokenKind::Ident)));
    assert_eq!(param(&mut parser_of("")), Err(expected("Param", TokenKind::Ident)));
    assert_eq!(param(&mut parser_of("a")), Err(expected("Param", TokenKind::Comma)));
    assert_eq!(param(&mut parser_of("a)")), Err(expected("Param", TokenKind::Comma)));
    assert_eq!(param(&mut parser_of("a: Int)")), Err(expected("Param", TokenKind::Comma)));
}

#[test]
fn parameter_with_an_unknown_type_wants_its_comma() {
    let mut parser = parser_of("a: int,");
    assert_eq!(param(&mut parser), Err(expected("Param", TokenKind::Comma)));
    assert_eq!(parser.position(), 2);
}

#[test]
fn parameter_list_may_be_empty() {
    let mut parser = parser_of("() x");
    assert_eq!(params(&mut parser), Ok(vec![]));
    assert_eq!(parser.position(), 2);
}

#[test]
fn every_parameter_stands_between_two_commas() {
    assert_eq!(params(&mut parser_of("(,a,)")), Ok(vec![("a".into(), None)]));
    assert_eq!(
        params(&mut parser_of("(,a,,b: Float,)")),
        Ok(vec![("a".into(), None), ("b".into(), Some(Type::Float))])
    );
}

#[test]
fn parameter_list_errors() {
    assert_eq!(params(&mut parser_of("x")), Err(expected("Params", TokenKind::LeftBrace)));
    assert_eq!(params(&mut parser_of("")), Err(expected("Params", TokenKind::LeftBrace)));
    assert_eq!(params(&mut parser_of("(a,)")), Err(unexpected("Params", TokenKind::Ident, "a")));
    assert_eq!(params(&mut parser_of("(")), Err(eof("Params")));
    assert_eq!(params(&mut parser_of("(,a,")), Err(eof("Params")));
    assert_eq!(params(&mut parser_of("(,a)")), Err(expected("Param", TokenKind::Comma)));
    assert_eq!(params(&mut parser_of("(,)")), Err(expected("Param", TokenKind::Ident)));
}

#[test]
fn function_declaration() {
    assert_eq!(
        statement("let f() 1"),
        Ok(Stmt::Func("f".into(), vec![], None, num(1)))
    );
    assert_eq!(
        statement("let add(,a: Int,,b: Int,): Int a + b"),
        Ok(Stmt::Func(
            "add".into(),
            vec![("a".into(), Some(Type::Int)), ("b".into(), Some(Type::Int))],
            Some(Type::Int),
            bin(name("a"), Operation::Add, name("b"))
        ))
    );
}

#[test]
fn let_reports_the_error_of_the_function() {
    assert_eq!(statement("let x 1"), Err(expected("Params", TokenKind::LeftBrace)));
    assert_eq!(statement("let 1"), Err(expected("Function", TokenKind::Ident)));
    assert_eq!(statement("let"), Err(expected("Function", TokenKind::Ident)));
    assert_eq!(statement("let x ="), Err(expected("Params", TokenKind::LeftBrace)));
    assert_eq!(statement("let f() +"), Err(unexpected("Expression", TokenKind::Op(Operator::Add), "+")));
}

#[test]
fn let_that_fails_takes_no_token() {
    let mut parser = parser_of("let x 1");
    assert!(parser.parse_let().is_err());
    assert_eq!(parser.position(), 0);
}

#[test]
fn variable_and_function_on_their_own() {
    assert_eq!(var(&mut parser_of("let x = 1")), Ok(Stmt::Let("x".into(), None, num(1))));
    assert_eq!(var(&mut parser_of("x = 1")), Err(expected("Variable", TokenKind::Let)));
    assert_eq!(var(&mut parser_of("let = 1")), Err(expected("Variable", TokenKind::Ident)));
    assert_eq!(var(&mut parser_of("let x 1")), Err(expected("Variable", TokenKind::Eq)));
    assert_eq!(var(&mut parser_of("let x =")), Err(eof("Expression")));
    assert_eq!(func(&mut parser_of("f() 1")), Err(expected("Function", TokenKind::Let)));
    assert_eq!(func(&mut parser_of("let f() 1")), Ok(Stmt::Func("f".into(), vec![], None, num(1))));
}

#[test]
fn variable_that_fails_leaves_the_cursor_where_it_failed() {
    let mut parser = parser_of("let x 1");
    assert!(var(&mut parser).is_err());
    assert_eq!(parser.position(), 3);
}

#[test]
fn try_parse_puts_the_cursor_back_on_failure() {
    let mut parser = parser_of("let x 1");
    assert_eq!(parser.try_parse(var), Err(expected("Variable", TokenKind::Eq)));
    assert_eq!(parser.position(), 0);
    let mut parser = parser_of("let x = 1 y");
    assert_eq!(parser.try_parse(var), Ok(Stmt::Let("x".into(), None, num(1))));
    assert_eq!(parser.position(), 4);
}

#[test]
fn try_parse_gen_puts_the_cursor_back_on_failure() {
    let mut parser = parser_of(": int");
    assert_eq!(parser.try_parse_gen(type_anot), Err(unexpected("Type", TokenKind::Ident, "int")));
    assert_eq!(parser.position(), 0);
    assert_eq!(parser.try_parse_gen(operation), Err(unexpected("Operation", TokenKind::Colon, ":")));
    assert_eq!(parser.position(), 0);
    let mut parser = parser_of(": Int x");
    assert_eq!(parser.try_parse_gen(type_anot), Ok(Type::Int));
    assert_eq!(parser.position(), 2);
}

#[test]
fn parse_or_try_takes_the_first_that_fits() {
    let mut parser = parser_of("let x = 1");
    assert_eq!(parser.parse_or_try(var, func), Ok(Stmt::Let("x".into(), None, num(1))));
    let mut parser = parser_of("let x = 1");
    assert_eq!(parser.parse_or_try(func, var), Ok(Stmt::Let("x".into(), None, num(1))));
    assert_eq!(parser.position(), 4);
    let mut parser = parser_of("let x 1");
    assert_eq!(parser.parse_or_try(func, var), Err(expected("Variable", TokenKind::Eq)));
    assert_eq!(parser.position(), 0);
}

#[test]
fn conditional_is_a_match_on_the_condition() {
    assert_eq!(
        statement("if a < b f(a)"),
        Ok(Stmt::Match(
            bin(name("a"), Operation::Less, name("b")),
            vec![(name("true"), Expr::Call("f".into(), vec![name("a")]))]
        ))
    );
    assert_eq!(
        statement("if c 1 else 2"),
        Ok(Stmt::Match(name("c"), vec![(name("true"), num(1)), (name("false"), num(2))]))
    );
}

#[test]
fn conditional_errors() {
    assert_eq!(statement("if"), Err(eof("Expression")));
    assert_eq!(statement("if c"), Err(eof("Expression")));
    assert_eq!(statement("if c 1 else"), Err(eof("Expression")));
    assert_eq!(statement("if c else 2"), Err(unexpected("Expression", TokenKind::Else, "else")));
    assert_eq!(parser_of("c 1").parse_if(), Err(expected("If", TokenKind::If)));
    assert_eq!(conditional(&mut parser_of("c 1")), Ok(Stmt::Match(name("c"), vec![(name("true"), num(1))])));
}

#[test]
fn loops_have_a_condition_and_a_statement() {
    assert_eq!(
        statement("while i < n f(i)"),
        Ok(Stmt::While(
            bin(name("i"), Operation::Less, name("n")),
            Box::new(Stmt::Expr(Expr::Call("f".into(), vec![name("i")])))
        ))
    );
    assert_eq!(
        statement("for x let y = x"),
        Ok(Stmt::For(name("x"), Box::new(Stmt::Let("y".into(), None, name("x")))))
    );
    assert_eq!(
        statement("for a while b c"),
        Ok(Stmt::For(name("a"), Box::new(Stmt::While(name("b"), Box::new(Stmt::Expr(name("c")))))))
    );
}

#[test]
fn loop_errors() {
    assert_eq!(statement("while"), Err(eof("Expression")));
    assert_eq!(statement("for x"), Err(eof("Statement")));
    assert_eq!(statement("while x else"), Err(unexpected("Statement", TokenKind::Else, "else")));
    assert_eq!(parser_of("x y").parse_for(), Err(expected("For", TokenKind::For)));
    assert_eq!(parser_of("for x y").parse_while(), Err(expected("While", TokenKind::While)));
    assert_eq!(parser_of("").parse_while(), Err(expected("While", TokenKind::While)));
}

#[test]
fn match_has_cases_in_order() {
    assert_eq!(statement("match x { }"), Ok(Stmt::Match(name("x"), vec![])));
    assert_eq!(
        statement("match x { 1 -> a, 2 -> b + 1, }"),
        Ok(Stmt::Match(
            name("x"),
            vec![(num(1), name("a")), (num(2), bin(name("b"), Operation::Add, num(1)))]
        ))
    );
}

#[test]
fn match_errors() {
    assert_eq!(statement("match"), Err(eof("Expression")));
    assert_eq!(statement("match x"), Err(expected("Match", TokenKind::LeftCurlyBracket)));
    assert_eq!(statement("match x )"), Err(expected("Match", TokenKind::LeftCurlyBracket)));
    assert_eq!(statement("match x ("), Err(eof("Expression")));
    assert_eq!(statement("match x {"), Err(eof("Match")));
    assert_eq!(statement("match x { 1 a, }"), Err(expected("Match", TokenKind::RightArrow)));
    assert_eq!(statement("match x { 1 -> a }"), Err(expected("Match", TokenKind::Comma)));
    assert_eq!(statement("match x { 1 -> , }"), Err(unexpected("Expression", TokenKind::Comma, ",")));
    assert_eq!(parser_of("x { }").parse_match(), Err(expected("Match", TokenKind::Match)));
    assert_eq!(case(&mut parser_of("1 -> a,")), Ok((num(1), name("a"))));
}

fn reading(expr: &Expr, out: &mut Vec<String>) {
    match expr {
        Expr::Binary(left, operation, right) => {
            reading(left, out);
            out.push(format!("{operation:?}"));
            reading(right, out);
        }
        Expr::Value(Value::Ident(name)) => out.push(name.clone()),
        other => out.push(format!("{other:?}")),
    }
}

#[test]
fn grouping_keeps_the_order_of_the_chain() {
    let mut parser = parser_of("a - b * c * d + e / f == g");
    let tree = expr(&mut parser).unwrap();
    let mut read = Vec::new();
    reading(&tree, &mut read);
    assert_eq!(
        read,
        vec!["a", "Sub", "b", "Mul", "c", "Mul", "d", "Add", "e", "Div", "f", "EqEq", "g"]
    );
}

#[test]
fn program_without_error_reads_all_the_tokens() {
    let mut parser = parser_of("let x = 1 f(x) while x x - 1 match x { 1 -> a, }");
    let mut count = 0;
    while let Some(stmt) = parser.parse_stmt() {
        assert!(stmt.is_ok());
        count += 1;
    }
    assert_eq!(count, 4);
    assert_eq!(parser.position(), 21);
    assert_eq!(parser.peek(), None);
}

#[test]
fn rule_that_fails_stops_at_most_one_past_the_end() {
    for text in ["a +", "f(", "let x =", "match x {", "if a", "while", "(", "let f(,a,"] {
        let tokens = Lexer::new(format!("{text} ")).lex().unwrap();
        let len = tokens.len();
        let mut parser = Parser::new(tokens);
        assert!(parser.parse_stmt().unwrap().is_err());
        assert!(parser.position() <= len + 1);
    }
}

#[test]
fn rule_that_succeeds_stays_within_the_input() {
    for text in ["a + b", "f(a, b)", "let x = 1", "match x { }", "if a b else c", "while a b"] {
        let tokens = Lexer::new(format!("{text} ")).lex().unwrap();
        let len = tokens.len();
        let mut parser = Parser::new(tokens);
        assert!(parser.parse_stmt().unwrap().is_ok());
        assert_eq!(parser.position(), len);
    }
}

#[test]
fn float_literal_of_the_tokenizer_is_always_a_value() {
    assert_eq!(statement("1."), Ok(Stmt::Expr(Expr::Value(Value::Float("1.".into())))));
    assert_eq!(statement("0.5 + x"), Ok(Stmt::Expr(bin(
        Expr::Value(Value::Float("0.5".into())),
        Operation::Add,
        name("x")
    ))));
}
