//! The grammar, as functions from a token sequence and a position to what a
//! rule makes of the tokens there.
//!
//! ```text
//! program   := stmt*
//! stmt      := expr | let | if | for | while | match
//! let       := var | func                       (the first that fits)
//! var       := 'let' Ident [type] '=' expr
//! func      := 'let' Ident params [type] expr
//! params    := '(' (',' param)* ')'
//! param     := Ident [type] ','
//! type      := ':' ('String' | 'Int' | 'Float')
//! if        := 'if' expr expr ['else' expr]
//! for       := 'for' expr stmt
//! while     := 'while' expr stmt
//! match     := 'match' expr '{' (expr '->' expr ',')* '}'
//! expr      := value (operator value)* | Ident '(' [expr (',' expr)*] ')'
//! value     := Int | Float | String | Ident
//! ```
//!
//! In a parameter list every parameter stands between two commas: one opens
//! it and one closes it, so `(, a, , b: Int, )` declares `a` and `b`. A
//! statement begins with a value or with one of the five keywords; any other
//! token is an error. A conditional has no node of its own in the tree: it is
//! a match on its condition, whose first case is guarded by the identifier
//! `true` and whose second, if there is an `else`, by the identifier `false`.
//! A call is an expression by itself and no operand of a chain; only a name
//! can be called, so a brace that follows a literal is not part of the
//! expression.
//!
//! A rule that requires a token of one kind reports `Expected` with that kind
//! when it finds another token or none; a rule that chooses by the token it
//! finds reports `UnExpected` with the token, or `UnExpectedEof` at the end of
//! the input. Every error names the construct that was being parsed.
//!
//! The cursor moves by one whenever a token is asked for: past the token
//! that is taken, be it the right one or not, and by one as well at the end
//! of the input, where there is no token to take. A rule that only looks at
//! the next token to choose leaves the cursor where it is. So a rule that
//! fails at the end of the input can leave the cursor one past the end.
//!
//! In a chain of values and operators, `*` and `/` bind tighter than all
//! other operators and group to the left; all other operators share one
//! level and group to the right: `a - b * c * d + e` is
//! `a - (((b * c) * d) + e)`.

use crate::ast::{CaseView, ExprView, Operation, ParamView, StmtView, Type, ValueView};
use crate::error::ParseErrorView;
use crate::literal::{float_literal, int_literal};
use crate::token::{Operator, TokenKind, TokenView};
use vstd::prelude::*;

verus! {

/// What a rule makes of the tokens from some position on: the value it builds
/// or the error it reports, and how far it has moved the cursor by then. The
/// cursor moves by one for every token that is taken, and by one as well when
/// a token is asked for at the end of the input, where there is none.
pub struct Parsed<T> {
    pub result: Result<T, ParseErrorView>,
    pub used: nat,
}

/// The rule has built `value` and moved the cursor by `used`.
pub open spec fn done<T>(value: T, used: nat) -> Parsed<T> {
    Parsed { result: Ok(value), used }
}

/// The rule has failed with `error` and moved the cursor by `used`.
pub open spec fn failed<T>(error: ParseErrorView, used: nat) -> Parsed<T> {
    Parsed { result: Err(error), used }
}

/// A rule tried speculatively: where it fails the cursor is where it was.
pub open spec fn attempt<T>(parsed: Parsed<T>) -> Parsed<T> {
    if parsed.result is Ok {
        parsed
    } else {
        Parsed { result: parsed.result, used: 0 }
    }
}

/// A rule applied after the cursor has moved by `n`.
pub open spec fn after<T>(n: nat, parsed: Parsed<T>) -> Parsed<T> {
    Parsed { result: parsed.result, used: n + parsed.used }
}

/// The value of an optional rule.
pub open spec fn optional<T>(parsed: Parsed<T>) -> Option<T> {
    match parsed.result {
        Ok(value) => Some(value),
        Err(_) => None,
    }
}

/// The token at `pos`, if the input reaches that far.
pub open spec fn token_at(ts: Seq<TokenView>, pos: nat) -> Option<TokenView> {
    if pos < ts.len() {
        Some(ts[pos as int])
    } else {
        None
    }
}

/// There is a token at `pos` and it is of kind `kind`.
pub open spec fn has_kind(ts: Seq<TokenView>, pos: nat, kind: TokenKind) -> bool {
    pos < ts.len() && ts[pos as int].kind == kind
}

/// The number of tokens from `pos` to the end of the input.
pub open spec fn rest(ts: Seq<TokenView>, pos: nat) -> nat {
    if pos < ts.len() {
        (ts.len() - pos) as nat
    } else {
        0
    }
}

/// A failure to find a token of kind `kind` while parsing `context`: another
/// token was taken, or a token was asked for at the end of the input. Either
/// way the cursor has moved by one.
pub open spec fn missing<T>(context: Seq<char>, kind: TokenKind) -> Parsed<T> {
    failed(ParseErrorView::Expected(context, kind), 1)
}

/// The kinds of token that are values.
pub open spec fn is_value_kind(kind: TokenKind) -> bool {
    kind == TokenKind::Int || kind == TokenKind::Float || kind == TokenKind::String || kind
        == TokenKind::Ident
}

/// `value := Int | Float | String | Ident`. An integer lexeme must read as a
/// signed 64-bit number and a decimal lexeme must have the shape of one;
/// otherwise the token is unexpected. The rule asks for a token: the cursor
/// moves by one whatever is found, also at the end of the input.
pub open spec fn value_of(ts: Seq<TokenView>, pos: nat) -> Parsed<ValueView> {
    match token_at(ts, pos) {
        None => failed(ParseErrorView::UnExpectedEof("Value"@), 1),
        Some(token) => match token.kind {
            TokenKind::Int => match int_literal(token.text) {
                Some(number) => done(ValueView::Int(number), 1),
                None => failed(ParseErrorView::UnExpected("Value"@, token), 1),
            },
            TokenKind::Float => if float_literal(token.text) {
                done(ValueView::Float(token.text), 1)
            } else {
                failed(ParseErrorView::UnExpected("Value"@, token), 1)
            },
            TokenKind::Ident => done(ValueView::Ident(token.text), 1),
            TokenKind::String => done(ValueView::String(token.text), 1),
            _ => failed(ParseErrorView::UnExpected("Value"@, token), 1),
        },
    }
}

/// The operation that an operator token stands for.
pub open spec fn operation_for(operator: Operator) -> Operation {
    match operator {
        Operator::Add => Operation::Add,
        Operator::Sub => Operation::Sub,
        Operator::Mul => Operation::Mul,
        Operator::Div => Operation::Div,
        Operator::EqEq => Operation::EqEq,
        Operator::More => Operation::More,
        Operator::MoreEq => Operation::MoreEq,
        Operator::Less => Operation::Less,
        Operator::LessEq => Operation::LessEq,
    }
}

/// An operator token. The rule asks for a token: the cursor moves by one
/// whatever is found, also at the end of the input.
pub open spec fn operation_of(ts: Seq<TokenView>, pos: nat) -> Parsed<Operation> {
    match token_at(ts, pos) {
        None => failed(ParseErrorView::UnExpectedEof("Operation"@), 1),
        Some(token) => match token.kind {
            TokenKind::Op(operator) => done(operation_for(operator), 1),
            _ => failed(ParseErrorView::UnExpected("Operation"@, token), 1),
        },
    }
}

/// An operator and the operand to its right.
pub type Link = (Operation, ExprView);

/// `(operator value)*`: the longest run of operators from `pos` on, each
/// with the value that follows it. An operator that no value follows is an
/// error.
pub open spec fn chain_of(ts: Seq<TokenView>, pos: nat) -> Parsed<Seq<Link>>
    decreases rest(ts, pos),
{
    match operation_of(ts, pos).result {
        Err(_) => done(Seq::empty(), 0),
        Ok(operation) => {
            let operand = value_of(ts, pos + 1);
            match operand.result {
                Err(error) => failed(error, 1 + operand.used),
                Ok(value) => {
                    let more = chain_of(ts, pos + 2);
                    match more.result {
                        Err(error) => failed(error, 2 + more.used),
                        Ok(links) => done(
                            seq![(operation, ExprView::Value(value))] + links,
                            2 + more.used,
                        ),
                    }
                },
            }
        },
    }
}

/// The operations that bind tighter than all others.
pub open spec fn binds_tight(operation: Operation) -> bool {
    operation == Operation::Mul || operation == Operation::Div
}

/// The binary expression of two operands and an operation.
pub open spec fn binary(left: ExprView, operation: Operation, right: ExprView) -> ExprView {
    ExprView::Binary(Box::new(left), operation, Box::new(right))
}

/// The tree of `left` followed by the operators and operands of `links`. A
/// tight operator takes what stands to its left as a whole; any other
/// operator takes as its right operand the whole tree of what follows.
pub open spec fn climb(left: ExprView, links: Seq<Link>) -> ExprView
    decreases links.len(),
{
    if links.len() == 0 {
        left
    } else if binds_tight(links[0].0) {
        climb(binary(left, links[0].0, links[0].1), links.drop_first())
    } else {
        binary(left, links[0].0, climb(links[0].1, links.drop_first()))
    }
}

/// The expression that begins with the operand `start`, which has been read,
/// and goes on with the chain at `pos`.
pub open spec fn binary_of(ts: Seq<TokenView>, pos: nat, start: ExprView) -> Parsed<ExprView> {
    let chain = chain_of(ts, pos);
    match chain.result {
        Ok(links) => done(climb(start, links), chain.used),
        Err(error) => failed(error, chain.used),
    }
}

/// The type that an annotation names.
pub open spec fn type_named(text: Seq<char>) -> Option<Type> {
    if text == "String"@ {
        Some(Type::String)
    } else if text == "Int"@ {
        Some(Type::Int)
    } else if text == "Float"@ {
        Some(Type::Float)
    } else {
        None
    }
}

/// `type := ':' ('String' | 'Int' | 'Float')`, the name being an identifier
/// token.
pub open spec fn type_anot_of(ts: Seq<TokenView>, pos: nat) -> Parsed<Type> {
    if !has_kind(ts, pos, TokenKind::Colon) {
        missing("Type"@, TokenKind::Colon)
    } else if !has_kind(ts, pos + 1, TokenKind::Ident) {
        after(1, missing("Type"@, TokenKind::Ident))
    } else {
        match type_named(ts[pos + 1 as int].text) {
            Some(typ) => done(typ, 2),
            None => failed(ParseErrorView::UnExpected("Type"@, ts[pos + 1 as int]), 2),
        }
    }
}

/// `param := Ident [type] ','`
pub open spec fn param_of(ts: Seq<TokenView>, pos: nat) -> Parsed<ParamView> {
    if !has_kind(ts, pos, TokenKind::Ident) {
        missing("Param"@, TokenKind::Ident)
    } else {
        let typ = attempt(type_anot_of(ts, pos + 1));
        let comma = pos + 1 + typ.used;
        if !has_kind(ts, comma, TokenKind::Comma) {
            after(1 + typ.used, missing("Param"@, TokenKind::Comma))
        } else {
            done((ts[pos as int].text, optional(typ)), 2 + typ.used)
        }
    }
}

/// `(',' param)* ')'`: what follows the opening brace of a parameter list.
pub open spec fn param_list_of(ts: Seq<TokenView>, pos: nat) -> Parsed<Seq<ParamView>>
    decreases rest(ts, pos),
{
    match token_at(ts, pos) {
        None => failed(ParseErrorView::UnExpectedEof("Params"@), 0),
        Some(token) => if token.kind == TokenKind::RightBrace {
            done(Seq::empty(), 1)
        } else if token.kind == TokenKind::Comma {
            let first = param_of(ts, pos + 1);
            match first.result {
                Err(error) => failed(error, 1 + first.used),
                Ok(param) => {
                    let more = param_list_of(ts, pos + 1 + first.used);
                    match more.result {
                        Err(error) => failed(error, 1 + first.used + more.used),
                        Ok(params) => done(seq![param] + params, 1 + first.used + more.used),
                    }
                },
            }
        } else {
            failed(ParseErrorView::UnExpected("Params"@, token), 0)
        },
    }
}

/// `params := '(' (',' param)* ')'`
pub open spec fn params_of(ts: Seq<TokenView>, pos: nat) -> Parsed<Seq<ParamView>> {
    if !has_kind(ts, pos, TokenKind::LeftBrace) {
        missing("Params"@, TokenKind::LeftBrace)
    } else {
        after(1, param_list_of(ts, pos + 1))
    }
}

/// `expr := value (operator value)* | Ident '(' [expr (',' expr)*] ')'`
pub open spec fn expr_of(ts: Seq<TokenView>, pos: nat) -> Parsed<ExprView>
    decreases rest(ts, pos), 1nat,
{
    match token_at(ts, pos) {
        None => failed(ParseErrorView::UnExpectedEof("Expression"@), 0),
        Some(token) => if is_value_kind(token.kind) {
            let first = value_of(ts, pos);
            match first.result {
                Err(error) => failed(error, first.used),
                Ok(value) => match token_at(ts, pos + 1) {
                    Some(next) => if next.kind is Op {
                        after(1, binary_of(ts, pos + 1, ExprView::Value(value)))
                    } else if next.kind == TokenKind::LeftBrace && value is Ident {
                        after(1, call_of(ts, pos + 1, value->Ident_0))
                    } else {
                        done(ExprView::Value(value), 1)
                    },
                    None => done(ExprView::Value(value), 1),
                },
            }
        } else {
            failed(ParseErrorView::UnExpected("Expression"@, token), 0)
        },
    }
}

/// `'(' [expr (',' expr)*] ')'`: the arguments of a call of `name`.
pub open spec fn call_of(ts: Seq<TokenView>, pos: nat, name: Seq<char>) -> Parsed<ExprView>
    decreases rest(ts, pos), 0nat,
{
    if !has_kind(ts, pos, TokenKind::LeftBrace) {
        missing("Call"@, TokenKind::LeftBrace)
    } else if has_kind(ts, pos + 1, TokenKind::RightBrace) {
        done(ExprView::Call(name, Seq::empty()), 2)
    } else {
        let args = args_of(ts, pos + 1);
        match args.result {
            Ok(list) => done(ExprView::Call(name, list), 1 + args.used),
            Err(error) => failed(error, 1 + args.used),
        }
    }
}

/// `expr (',' expr)* ')'`: one or more arguments and the closing brace.
pub open spec fn args_of(ts: Seq<TokenView>, pos: nat) -> Parsed<Seq<ExprView>>
    decreases rest(ts, pos), 2nat,
{
    let first = expr_of(ts, pos);
    match first.result {
        Err(error) => failed(error, first.used),
        Ok(arg) => match token_at(ts, pos + first.used) {
            None => failed(ParseErrorView::UnExpectedEof("Call"@), first.used),
            Some(token) => if token.kind == TokenKind::RightBrace {
                done(seq![arg], first.used + 1)
            } else if token.kind == TokenKind::Comma {
                let more = args_of(ts, pos + first.used + 1);
                match more.result {
                    Ok(list) => done(seq![arg] + list, first.used + 1 + more.used),
                    Err(error) => failed(error, first.used + 1 + more.used),
                }
            } else {
                failed(ParseErrorView::UnExpected("Call"@, token), first.used)
            },
        },
    }
}

/// `var := 'let' Ident [type] '=' expr`
pub open spec fn var_of(ts: Seq<TokenView>, pos: nat) -> Parsed<StmtView> {
    if !has_kind(ts, pos, TokenKind::Let) {
        missing("Variable"@, TokenKind::Let)
    } else if !has_kind(ts, pos + 1, TokenKind::Ident) {
        after(1, missing("Variable"@, TokenKind::Ident))
    } else {
        let typ = attempt(type_anot_of(ts, pos + 2));
        let sign = pos + 2 + typ.used;
        if !has_kind(ts, sign, TokenKind::Eq) {
            after(2 + typ.used, missing("Variable"@, TokenKind::Eq))
        } else {
            let value = expr_of(ts, sign + 1);
            match value.result {
                Ok(expr) => done(
                    StmtView::Let(ts[pos + 1 as int].text, optional(typ), expr),
                    3 + typ.used + value.used,
                ),
                Err(error) => failed(error, 3 + typ.used + value.used),
            }
        }
    }
}

/// `func := 'let' Ident params [type] expr`
pub open spec fn func_of(ts: Seq<TokenView>, pos: nat) -> Parsed<StmtView> {
    if !has_kind(ts, pos, TokenKind::Let) {
        missing("Function"@, TokenKind::Let)
    } else if !has_kind(ts, pos + 1, TokenKind::Ident) {
        after(1, missing("Function"@, TokenKind::Ident))
    } else {
        let params = params_of(ts, pos + 2);
        match params.result {
            Err(error) => failed(error, 2 + params.used),
            Ok(list) => {
                let typ = attempt(type_anot_of(ts, pos + 2 + params.used));
                let body = expr_of(ts, pos + 2 + params.used + typ.used);
                match body.result {
                    Ok(expr) => done(
                        StmtView::Func(ts[pos + 1 as int].text, list, optional(typ), expr),
                        2 + params.used + typ.used + body.used,
                    ),
                    Err(error) => failed(error, 2 + params.used + typ.used + body.used),
                }
            },
        }
    }
}

/// The first of two rules that fits, each tried speculatively; where neither
/// fits, the error is that of the second.
pub open spec fn first_of<T>(first: Parsed<T>, second: Parsed<T>) -> Parsed<T> {
    if first.result is Ok {
        first
    } else {
        attempt(second)
    }
}

/// `let := var | func`
pub open spec fn let_of(ts: Seq<TokenView>, pos: nat) -> Parsed<StmtView> {
    first_of(var_of(ts, pos), func_of(ts, pos))
}

/// The pattern that guards a branch of a conditional: the identifier `true`
/// or the identifier `false`.
pub open spec fn truth(holds: bool) -> ExprView {
    ExprView::Value(
        ValueView::Ident(
            if holds {
                "true"@
            } else {
                "false"@
            },
        ),
    )
}

/// `expr expr ['else' expr]`: what follows the keyword of a conditional.
pub open spec fn conditional_of(ts: Seq<TokenView>, pos: nat) -> Parsed<StmtView> {
    let condition = expr_of(ts, pos);
    match condition.result {
        Err(error) => failed(error, condition.used),
        Ok(subject) => {
            let then = expr_of(ts, pos + condition.used);
            match then.result {
                Err(error) => failed(error, condition.used + then.used),
                Ok(first) => {
                    let used = condition.used + then.used;
                    if has_kind(ts, pos + used, TokenKind::Else) {
                        let otherwise = expr_of(ts, pos + used + 1);
                        match otherwise.result {
                            Err(error) => failed(error, used + 1 + otherwise.used),
                            Ok(second) => done(
                                StmtView::Match(
                                    subject,
                                    seq![(truth(true), first), (truth(false), second)],
                                ),
                                used + 1 + otherwise.used,
                            ),
                        }
                    } else {
                        done(StmtView::Match(subject, seq![(truth(true), first)]), used)
                    }
                },
            }
        },
    }
}

/// `if := 'if' expr expr ['else' expr]`
pub open spec fn if_of(ts: Seq<TokenView>, pos: nat) -> Parsed<StmtView> {
    if !has_kind(ts, pos, TokenKind::If) {
        missing("If"@, TokenKind::If)
    } else {
        after(1, conditional_of(ts, pos + 1))
    }
}

/// `expr '->' expr ','`: one case of a match.
pub open spec fn case_of(ts: Seq<TokenView>, pos: nat) -> Parsed<CaseView> {
    let pattern = expr_of(ts, pos);
    match pattern.result {
        Err(error) => failed(error, pattern.used),
        Ok(guard) => if !has_kind(ts, pos + pattern.used, TokenKind::RightArrow) {
            after(
                pattern.used,
                missing("Match"@, TokenKind::RightArrow),
            )
        } else {
            let outcome = expr_of(ts, pos + pattern.used + 1);
            match outcome.result {
                Err(error) => failed(error, pattern.used + 1 + outcome.used),
                Ok(result) => {
                    let used = pattern.used + 1 + outcome.used;
                    if !has_kind(ts, pos + used, TokenKind::Comma) {
                        after(used, missing("Match"@, TokenKind::Comma))
                    } else {
                        done((guard, result), used + 1)
                    }
                },
            }
        },
    }
}

/// `(expr '->' expr ',')* '}'`: the cases of a match and its closing bracket.
pub open spec fn cases_of(ts: Seq<TokenView>, pos: nat) -> Parsed<Seq<CaseView>>
    decreases rest(ts, pos),
{
    match token_at(ts, pos) {
        None => failed(ParseErrorView::UnExpectedEof("Match"@), 0),
        Some(token) => if token.kind == TokenKind::RightCurlyBracket {
            done(Seq::empty(), 1)
        } else {
            let first = case_of(ts, pos);
            match first.result {
                Err(error) => failed(error, first.used),
                Ok(case) => {
                    let more = cases_of(ts, pos + first.used);
                    match more.result {
                        Err(error) => failed(error, first.used + more.used),
                        Ok(cases) => done(seq![case] + cases, first.used + more.used),
                    }
                },
            }
        },
    }
}

/// `match := 'match' expr '{' (expr '->' expr ',')* '}'`
pub open spec fn match_of(ts: Seq<TokenView>, pos: nat) -> Parsed<StmtView> {
    if !has_kind(ts, pos, TokenKind::Match) {
        missing("Match"@, TokenKind::Match)
    } else {
        let subject = expr_of(ts, pos + 1);
        match subject.result {
            Err(error) => failed(error, 1 + subject.used),
            Ok(expr) => {
                let open = pos + 1 + subject.used;
                if !has_kind(ts, open, TokenKind::LeftCurlyBracket) {
                    after(
                        1 + subject.used,
                        missing("Match"@, TokenKind::LeftCurlyBracket),
                    )
                } else {
                    let cases = cases_of(ts, open + 1);
                    match cases.result {
                        Err(error) => failed(error, 2 + subject.used + cases.used),
                        Ok(list) => done(
                            StmtView::Match(expr, list),
                            2 + subject.used + cases.used,
                        ),
                    }
                }
            },
        }
    }
}

/// The statement of a loop from its condition and its body.
pub open spec fn loop_stmt(keyword: TokenKind, condition: ExprView, body: StmtView) -> StmtView {
    if keyword == TokenKind::For {
        StmtView::For(condition, Box::new(body))
    } else {
        StmtView::While(condition, Box::new(body))
    }
}

/// The text that names a loop in errors.
pub open spec fn loop_name(keyword: TokenKind) -> Seq<char> {
    if keyword == TokenKind::For {
        "For"@
    } else {
        "While"@
    }
}

/// `for := 'for' expr stmt` and `while := 'while' expr stmt`; `keyword` is
/// the kind of the keyword.
pub open spec fn loop_of(ts: Seq<TokenView>, pos: nat, keyword: TokenKind) -> Parsed<StmtView>
    decreases rest(ts, pos), 0nat,
{
    if !has_kind(ts, pos, keyword) {
        missing(loop_name(keyword), keyword)
    } else {
        let condition = expr_of(ts, pos + 1);
        match condition.result {
            Err(error) => failed(error, 1 + condition.used),
            Ok(expr) => {
                let body = stmt_of(ts, pos + 1 + condition.used);
                match body.result {
                    Err(error) => failed(error, 1 + condition.used + body.used),
                    Ok(stmt) => done(
                        loop_stmt(keyword, expr, stmt),
                        1 + condition.used + body.used,
                    ),
                }
            },
        }
    }
}

/// `stmt := expr | let | if | for | while | match`, chosen by the kind of the
/// first token.
pub open spec fn stmt_of(ts: Seq<TokenView>, pos: nat) -> Parsed<StmtView>
    decreases rest(ts, pos), 1nat,
{
    match token_at(ts, pos) {
        None => failed(ParseErrorView::UnExpectedEof("Statement"@), 0),
        Some(token) => if is_value_kind(token.kind) {
            let expr = expr_of(ts, pos);
            match expr.result {
                Ok(value) => done(StmtView::Expr(value), expr.used),
                Err(error) => failed(error, expr.used),
            }
        } else if token.kind == TokenKind::Let {
            let_of(ts, pos)
        } else if token.kind == TokenKind::If {
            if_of(ts, pos)
        } else if token.kind == TokenKind::For || token.kind == TokenKind::While {
            loop_of(ts, pos, token.kind)
        } else if token.kind == TokenKind::Match {
            match_of(ts, pos)
        } else {
            failed(ParseErrorView::UnExpected("Statement"@, token), 0)
        },
    }
}

/// `program := stmt*`: the statements from `pos` to the end of the input, or
/// the first error.
pub open spec fn program_of(ts: Seq<TokenView>, pos: nat) -> Parsed<Seq<StmtView>>
    decreases rest(ts, pos),
{
    if pos >= ts.len() {
        done(Seq::empty(), 0)
    } else {
        let first = stmt_of(ts, pos);
        match first.result {
            Err(error) => failed(error, first.used),
            Ok(stmt) => {
                let more = program_of(ts, pos + first.used);
                match more.result {
                    Err(error) => failed(error, first.used + more.used),
                    Ok(stmts) => done(seq![stmt] + stmts, first.used + more.used),
                }
            },
        }
    }
}

/// A rule that has succeeded has moved the cursor no further than the end of
/// the input; one that has failed has moved it no further than one step past
/// the end, or one step from where it was if that was past the end.
pub open spec fn within<T>(parsed: Parsed<T>, ts: Seq<TokenView>, pos: nat) -> bool {
    parsed.used <= rest(ts, pos) + if parsed.result is Ok {
        0nat
    } else {
        1nat
    }
}

/// The rule has taken at least one token if it has succeeded.
pub open spec fn advances<T>(parsed: Parsed<T>) -> bool {
    parsed.result is Ok ==> parsed.used > 0
}

/// A tight operator takes the operand to its left and the operand to its
/// right as they stand, whatever follows: `a * b ...` is `(a * b) ...`.
pub proof fn lemma_tight_groups_left(
    left: ExprView,
    operation: Operation,
    right: ExprView,
    tail: Seq<Link>,
)
    requires
        binds_tight(operation),
    ensures
        climb(left, seq![(operation, right)] + tail) == climb(
            binary(left, operation, right),
            tail,
        ),
{
    assert((seq![(operation, right)] + tail).drop_first() =~= tail);
}

/// Any other operator takes as its right operand the tree of all that
/// follows: `a + b ...` is `a + (b ...)`.
pub proof fn lemma_loose_groups_right(
    left: ExprView,
    operation: Operation,
    right: ExprView,
    tail: Seq<Link>,
)
    requires
        !binds_tight(operation),
    ensures
        climb(left, seq![(operation, right)] + tail) == binary(
            left,
            operation,
            climb(right, tail),
        ),
{
    assert((seq![(operation, right)] + tail).drop_first() =~= tail);
}

/// A chain moves the cursor no further than the end of the input where it
/// succeeds, and no further than one step past it where it fails.
pub proof fn lemma_chain_within(ts: Seq<TokenView>, pos: nat)
    ensures
        within(chain_of(ts, pos), ts, pos),
    decreases rest(ts, pos),
{
    if operation_of(ts, pos).result is Ok && value_of(ts, pos + 1).result is Ok {
        lemma_chain_within(ts, pos + 2);
    }
}

/// A parameter list moves the cursor no further than the end of the input
/// where it succeeds, and no further than one step past it where it fails.
pub proof fn lemma_param_list_within(ts: Seq<TokenView>, pos: nat)
    ensures
        within(param_list_of(ts, pos), ts, pos),
    decreases rest(ts, pos),
{
    if has_kind(ts, pos, TokenKind::Comma) {
        let first = param_of(ts, pos + 1);
        if first.result is Ok {
            lemma_param_list_within(ts, pos + 1 + first.used);
        }
    }
}

/// A parameter list with its opening brace moves the cursor no further than
/// the end of the input where it succeeds, and no further than one step past
/// it where it fails.
pub proof fn lemma_params_within(ts: Seq<TokenView>, pos: nat)
    ensures
        within(params_of(ts, pos), ts, pos),
{
    lemma_param_list_within(ts, pos + 1);
}

/// An expression moves the cursor no further than the end of the input where
/// it succeeds, and no further than one step past it where it fails. One that
/// is parsed without an error has taken at least one token.
pub proof fn lemma_expr_within(ts: Seq<TokenView>, pos: nat)
    ensures
        within(expr_of(ts, pos), ts, pos),
        advances(expr_of(ts, pos)),
    decreases rest(ts, pos), 1nat,
{
    if pos < ts.len() {
        lemma_chain_within(ts, pos + 1);
        lemma_call_within(ts, pos + 1, ts[pos as int].text);
    }
}

/// The arguments of a call move the cursor no further than the end of the
/// input where they succeed, and no further than one step past it where they
/// fail.
pub proof fn lemma_call_within(ts: Seq<TokenView>, pos: nat, name: Seq<char>)
    ensures
        within(call_of(ts, pos, name), ts, pos),
    decreases rest(ts, pos), 0nat,
{
    if has_kind(ts, pos, TokenKind::LeftBrace) {
        lemma_args_within(ts, pos + 1);
    }
}

/// A list of arguments moves the cursor no further than the end of the input
/// where it succeeds, and no further than one step past it where it fails.
pub proof fn lemma_args_within(ts: Seq<TokenView>, pos: nat)
    ensures
        within(args_of(ts, pos), ts, pos),
    decreases rest(ts, pos), 2nat,
{
    lemma_expr_within(ts, pos);
    let first = expr_of(ts, pos);
    if first.result is Ok && has_kind(ts, pos + first.used, TokenKind::Comma) {
        lemma_args_within(ts, pos + first.used + 1);
    }
}

/// A variable moves the cursor no further than the end of the input where it
/// succeeds, and no further than one step past it where it fails. One that is
/// parsed without an error has taken at least one token.
pub proof fn lemma_var_within(ts: Seq<TokenView>, pos: nat)
    ensures
        within(var_of(ts, pos), ts, pos),
        advances(var_of(ts, pos)),
{
    let typ = attempt(type_anot_of(ts, pos + 2));
    lemma_expr_within(ts, pos + 3 + typ.used);
}

/// A function moves the cursor no further than the end of the input where it
/// succeeds, and no further than one step past it where it fails. One that is
/// parsed without an error has taken at least one token.
pub proof fn lemma_func_within(ts: Seq<TokenView>, pos: nat)
    ensures
        within(func_of(ts, pos), ts, pos),
        advances(func_of(ts, pos)),
{
    lemma_param_list_within(ts, pos + 3);
    let params = params_of(ts, pos + 2);
    let typ = attempt(type_anot_of(ts, pos + 2 + params.used));
    lemma_expr_within(ts, pos + 2 + params.used + typ.used);
}

/// A conditional moves the cursor no further than the end of the input where
/// it succeeds, and no further than one step past it where it fails. One that
/// is parsed without an error has taken at least one token.
pub proof fn lemma_if_within(ts: Seq<TokenView>, pos: nat)
    ensures
        within(if_of(ts, pos), ts, pos),
        advances(if_of(ts, pos)),
{
    lemma_expr_within(ts, pos + 1);
    let condition = expr_of(ts, pos + 1);
    lemma_expr_within(ts, pos + 1 + condition.used);
    let then = expr_of(ts, pos + 1 + condition.used);
    lemma_expr_within(ts, pos + 1 + condition.used + then.used + 1);
}

/// A case of a match moves the cursor no further than the end of the input
/// where it succeeds, and no further than one step past it where it fails. One
/// that is parsed without an error has taken at least one token.
pub proof fn lemma_case_within(ts: Seq<TokenView>, pos: nat)
    ensures
        within(case_of(ts, pos), ts, pos),
        advances(case_of(ts, pos)),
{
    lemma_expr_within(ts, pos);
    let pattern = expr_of(ts, pos);
    lemma_expr_within(ts, pos + pattern.used + 1);
}

/// The cases of a match move the cursor no further than the end of the input
/// where they succeed, and no further than one step past it where they fail.
pub proof fn lemma_cases_within(ts: Seq<TokenView>, pos: nat)
    ensures
        within(cases_of(ts, pos), ts, pos),
    decreases rest(ts, pos),
{
    if pos < ts.len() && ts[pos as int].kind != TokenKind::RightCurlyBracket {
        lemma_case_within(ts, pos);
        let first = case_of(ts, pos);
        if first.result is Ok {
            lemma_cases_within(ts, pos + first.used);
        }
    }
}

/// A match moves the cursor no further than the end of the input where it
/// succeeds, and no further than one step past it where it fails. One that is
/// parsed without an error has taken at least one token.
pub proof fn lemma_match_within(ts: Seq<TokenView>, pos: nat)
    ensures
        within(match_of(ts, pos), ts, pos),
        advances(match_of(ts, pos)),
{
    lemma_expr_within(ts, pos + 1);
    let subject = expr_of(ts, pos + 1);
    lemma_cases_within(ts, pos + 2 + subject.used);
}

/// A statement moves the cursor no further than the end of the input where it
/// succeeds, and no further than one step past it where it fails. One that is
/// parsed without an error has taken at least one token.
pub proof fn lemma_stmt_within(ts: Seq<TokenView>, pos: nat)
    ensures
        within(stmt_of(ts, pos), ts, pos),
        advances(stmt_of(ts, pos)),
    decreases rest(ts, pos), 1nat,
{
    if pos < ts.len() {
        let kind = ts[pos as int].kind;
        if is_value_kind(kind) {
            lemma_expr_within(ts, pos);
        } else if kind == TokenKind::Let {
            lemma_var_within(ts, pos);
            lemma_func_within(ts, pos);
        } else if kind == TokenKind::If {
            lemma_if_within(ts, pos);
        } else if kind == TokenKind::For || kind == TokenKind::While {
            lemma_loop_within(ts, pos, kind);
        } else if kind == TokenKind::Match {
            lemma_match_within(ts, pos);
        }
    }
}

/// A loop moves the cursor no further than the end of the input where it
/// succeeds, and no further than one step past it where it fails.
pub proof fn lemma_loop_within(ts: Seq<TokenView>, pos: nat, keyword: TokenKind)
    ensures
        within(loop_of(ts, pos, keyword), ts, pos),
    decreases rest(ts, pos), 0nat,
{
    if has_kind(ts, pos, keyword) {
        lemma_expr_within(ts, pos + 1);
        let condition = expr_of(ts, pos + 1);
        if condition.result is Ok {
            lemma_stmt_within(ts, pos + 1 + condition.used);
        }
    }
}

/// A program moves the cursor no further than the end of the input where it
/// succeeds, and no further than one step past it where it fails. One that is
/// parsed without an error has read all of the input.
pub proof fn lemma_program_reads_all(ts: Seq<TokenView>, pos: nat)
    ensures
        within(program_of(ts, pos), ts, pos),
        program_of(ts, pos).result is Ok ==> program_of(ts, pos).used == rest(ts, pos),
    decreases rest(ts, pos),
{
    if pos < ts.len() {
        lemma_stmt_within(ts, pos);
        let first = stmt_of(ts, pos);
        if first.result is Ok {
            lemma_program_reads_all(ts, pos + first.used);
        }
    }
}

/// A place in the reading of an expression from left to right: an operand
/// that is no binary expression, or an operation.
pub enum Place {
    Operand(ExprView),
    Operation(Operation),
}

/// The reading of an expression from left to right: the operands and
/// operations of its binary expressions in the order in which they stand.
pub open spec fn reading(expr: ExprView) -> Seq<Place>
    decreases expr,
{
    match expr {
        ExprView::Binary(left, operation, right) => reading(*left) + seq![
            Place::Operation(operation),
        ] + reading(*right),
        _ => seq![Place::Operand(expr)],
    }
}

/// The reading of a chain from left to right.
pub open spec fn chain_reading(links: Seq<Link>) -> Seq<Place>
    decreases links.len(),
{
    if links.len() == 0 {
        Seq::empty()
    } else {
        seq![Place::Operation(links[0].0)] + reading(links[0].1) + chain_reading(
            links.drop_first(),
        )
    }
}

/// Grouping moves no operand and no operation: read from left to right, the
/// tree of an operand and a chain is the operand and then the chain.
pub proof fn lemma_climb_keeps_the_order(left: ExprView, links: Seq<Link>)
    ensures
        reading(climb(left, links)) == reading(left) + chain_reading(links),
    decreases links.len(),
{
    if links.len() > 0 {
        let first = seq![Place::Operation(links[0].0)];
        let tail = links.drop_first();
        if binds_tight(links[0].0) {
            lemma_climb_keeps_the_order(binary(left, links[0].0, links[0].1), tail);
            assert(reading(left) + first + reading(links[0].1) + chain_reading(tail) =~= reading(
                left,
            ) + (first + reading(links[0].1) + chain_reading(tail)));
        } else {
            lemma_climb_keeps_the_order(links[0].1, tail);
            assert(reading(left) + first + (reading(links[0].1) + chain_reading(tail))
                =~= reading(left) + (first + reading(links[0].1) + chain_reading(tail)));
        }
    }
}

/// The kinds of token with which a statement can begin: the values and the
/// keywords `let`, `if`, `for`, `while` and `match`.
pub open spec fn begins_stmt(kind: TokenKind) -> bool {
    is_value_kind(kind) || kind == TokenKind::Let || kind == TokenKind::If || kind
        == TokenKind::For || kind == TokenKind::While || kind == TokenKind::Match
}

/// Tokens that begin with a token with which no statement can begin, `else`
/// for one, are refused with that token, and the cursor stays; and so is the
/// program that they would be.
pub proof fn lemma_stmt_refuses_its_first_token(ts: Seq<TokenView>, pos: nat)
    requires
        pos < ts.len(),
        !begins_stmt(ts[pos as int].kind),
    ensures
        stmt_of(ts, pos) == failed::<StmtView>(
            ParseErrorView::UnExpected("Statement"@, ts[pos as int]),
            0,
        ),
        program_of(ts, pos).result == Err::<Seq<StmtView>, ParseErrorView>(
            ParseErrorView::UnExpected("Statement"@, ts[pos as int]),
        ),
{
}

} // verus!
