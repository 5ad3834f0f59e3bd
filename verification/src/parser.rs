//! The parser: recursive descent over a token sequence with a single cursor.
//!
//! Each rule is a function that takes the parser, reads tokens from the
//! cursor on and returns a tree or an error. Its contract says that it does
//! what the rule of the same name in [`crate::grammar`] says: the result has
//! the model that the grammar gives, and the cursor has moved as far as the
//! grammar says.
//!
//! The cursor is an index that only [`Parser::next_token`] moves, by one at
//! every call. It moves on at the end of the input too, so the rules that ask
//! for a token require that the cursor, and the end of the input, which it can
//! reach, are below `usize::MAX`.

use crate::ast::{
    lemma_call_model, lemma_match_model, Case, Cases, Expr, ExprView, Operation, Param, Params,
    Stmt, Type, Value,
};
use crate::error::{model, ParseError};
use crate::grammar::{
    after, args_of, binary_of, binds_tight, call_of, case_of, cases_of, chain_of, climb,
    conditional_of, expr_of, func_of, has_kind, if_of, lemma_expr_within, lemma_params_within,
    let_of, loop_of, match_of,
    operation_of, param_list_of, param_of, params_of, program_of, rest, stmt_of, token_at,
    type_anot_of, value_of, var_of, Link, Parsed,
};
use crate::literal::{int_value, is_float};
use crate::text::{chars_of, same_text};
use crate::token::{Operator, Token, TokenKind, TokenView};
use vstd::prelude::*;

verus! {

/// A cursor into a token sequence.
pub struct Parser {
    position: usize,
    tokens: Vec<Token>,
}

/// What a rule for a statement returns.
pub type ParseResult = Result<Stmt, ParseError>;

/// What a rule returns.
pub type ParseResultGen<T> = Result<T, ParseError>;

/// `r` and the cursor of `after` are what the grammar's `parsed` says for a
/// rule that was applied to `before`.
pub open spec fn yields<T: DeepView>(
    before: Parser,
    after: Parser,
    r: Result<T, ParseError>,
    parsed: Parsed<T::V>,
) -> bool {
    &&& after.moved(before, parsed.used)
    &&& model(r) == parsed.result
}

/// The text of an error's context.
fn label(text: &str) -> (context: String)
    ensures
        context@ == text@,
{
    text.to_owned()
}

impl Parser {
    /// The tokens that the parser reads.
    pub closed spec fn input(self) -> Seq<TokenView> {
        self.tokens.deep_view()
    }

    /// The index of the next token; at the end of the input, and past it,
    /// there is none.
    pub closed spec fn cursor(self) -> nat {
        self.position as nat
    }

    /// The parser reads the same input as `before` and its cursor stands
    /// `used` further.
    pub open spec fn moved(self, before: Parser, used: nat) -> bool {
        &&& self.input() == before.input()
        &&& self.cursor() == before.cursor() + used
    }

    /// The cursor can move on from where it stands and from the end of the
    /// input: both are below the largest index that the machine has.
    pub open spec fn can_read(self) -> bool {
        &&& self.cursor() < usize::MAX
        &&& self.input().len() < usize::MAX
    }

    /// A parser at the first of `tokens`.
    pub fn new(tokens: Vec<Token>) -> (parser: Self)
        ensures
            parser.input() == tokens.deep_view(),
            parser.cursor() == 0,
    {
        Self { position: 0, tokens }
    }

    /// The index of the next token.
    pub fn position(&self) -> (position: usize)
        ensures
            position == self.cursor(),
    {
        self.position
    }

    /// Takes the next token and moves the cursor on by one. At the end of the
    /// input there is no token, and the cursor moves on by one all the same.
    pub fn next_token(&mut self) -> (token: Option<Token>)
        requires
            old(self).cursor() < usize::MAX,
        ensures
            final(self).moved(*old(self), 1),
            token.deep_view() == token_at(old(self).input(), old(self).cursor()),
    {
        let token = self.peek();
        self.position = self.position + 1;
        token
    }

    /// The next token, which is not taken.
    pub fn peek(&self) -> (token: Option<Token>)
        ensures
            token.deep_view() == token_at(self.input(), self.cursor()),
    {
        if self.position < self.tokens.len() {
            Some(self.tokens[self.position].duplicate())
        } else {
            None
        }
    }

    /// The kind of the next token.
    fn peek_kind(&self) -> (kind: Option<TokenKind>)
        ensures
            match token_at(self.input(), self.cursor()) {
                Some(token) => kind == Some(token.kind),
                None => kind is None,
            },
    {
        if self.position < self.tokens.len() {
            Some(self.tokens[self.position].kind)
        } else {
            None
        }
    }

    /// Takes the next token, which has to be of kind `kind`, and returns its
    /// lexeme. Another token is taken too, and is an error, as the end of the
    /// input is.
    fn expect(&mut self, kind: TokenKind, context: &str) -> (r: Result<String, ParseError>)
        requires
            old(self).cursor() < usize::MAX,
        ensures
            final(self).moved(*old(self), 1),
            match token_at(old(self).input(), old(self).cursor()) {
                Some(token) if token.kind == kind => r is Ok && r->Ok_0@ == token.text,
                _ => r is Err && r->Err_0.deep_view() == crate::error::ParseErrorView::Expected(
                    context@,
                    kind,
                ),
            },
    {
        match self.next_token() {
            Some(token) => if token.kind == kind {
                Ok(token.value)
            } else {
                Err(ParseError::Expected(label(context), kind))
            },
            None => Err(ParseError::Expected(label(context), kind)),
        }
    }

    /// Runs the rule `try_parse` speculatively: where it fails, the cursor is
    /// put back where it was.
    ///
    /// The contract speaks of a parser `q` that is this parser before the
    /// call: `r` is what `try_parse` returns on `q`. The input is then the
    /// one that `try_parse` leaves; the cursor is the one that it leaves
    /// where it succeeds, and the one from before the call where it fails.
    pub fn try_parse<F: FnOnce(&mut Parser) -> ParseResult>(&mut self, try_parse: F) -> (r:
        ParseResult)
        requires
            forall|q: &mut Parser| *q == *old(self) ==> call_requires(try_parse, (q,)),
        ensures
            exists|q: &mut Parser|
                #![trigger call_ensures(try_parse, (q,), r)]
                {
                    &&& *q == *old(self)
                    &&& call_ensures(try_parse, (q,), r)
                    &&& final(self).input() == final(q).input()
                    &&& final(self).cursor() == if r is Ok {
                        final(q).cursor()
                    } else {
                        old(self).cursor()
                    }
                },
    {
        self.try_parse_gen(try_parse)
    }

    /// [`Parser::try_parse`] for a rule with any result.
    pub fn try_parse_gen<T, F: FnOnce(&mut Parser) -> ParseResultGen<T>>(
        &mut self,
        try_parse: F,
    ) -> (r: ParseResultGen<T>)
        requires
            forall|q: &mut Parser| *q == *old(self) ==> call_requires(try_parse, (q,)),
        ensures
            exists|q: &mut Parser|
                #![trigger call_ensures(try_parse, (q,), r)]
                {
                    &&& *q == *old(self)
                    &&& call_ensures(try_parse, (q,), r)
                    &&& final(self).input() == final(q).input()
                    &&& final(self).cursor() == if r is Ok {
                        final(q).cursor()
                    } else {
                        old(self).cursor()
                    }
                },
    {
        let position: usize = self.position;
        match try_parse(self) {
            Ok(value) => Ok(value),
            Err(error) => {
                self.position = position;
                Err(error)
            },
        }
    }

    /// Tries the rule `try_parse`; where it fails, tries `or_try` from the same
    /// position. Where both fail the error is that of `or_try`, and the cursor
    /// is back where it was.
    ///
    /// The contract speaks of a parser `q` that is this parser before the
    /// call, and of what `try_parse` returns on it, `first`. Where `first` is
    /// an error it speaks of a second parser `p`, which reads what `q` is
    /// left with from the position before the call: `r` is what `or_try`
    /// returns on `p`, and `or_try` has to accept every such `p`.
    pub fn parse_or_try<F, G>(&mut self, try_parse: F, or_try: G) -> (r: ParseResult) where
        F: FnOnce(&mut Parser) -> ParseResult,
        G: FnOnce(&mut Parser) -> ParseResult,

        requires
            forall|q: &mut Parser| *q == *old(self) ==> call_requires(try_parse, (q,)),
            forall|q: &mut Parser, first: ParseResult, p: &mut Parser|
                #![trigger call_ensures(try_parse, (q,), first), call_requires(or_try, (p,))]
                {
                    &&& *q == *old(self)
                    &&& call_ensures(try_parse, (q,), first)
                    &&& first is Err
                    &&& p.input() == final(q).input()
                    &&& p.cursor() == old(self).cursor()
                } ==> call_requires(or_try, (p,)),
        ensures
            exists|q: &mut Parser, first: ParseResult|
                #![trigger call_ensures(try_parse, (q,), first)]
                {
                    &&& *q == *old(self)
                    &&& call_ensures(try_parse, (q,), first)
                    &&& if first is Ok {
                        &&& r == first
                        &&& final(self).input() == final(q).input()
                        &&& final(self).cursor() == final(q).cursor()
                    } else {
                        exists|p: &mut Parser|
                            #![trigger call_ensures(or_try, (p,), r)]
                            {
                                &&& p.input() == final(q).input()
                                &&& p.cursor() == old(self).cursor()
                                &&& call_ensures(or_try, (p,), r)
                                &&& final(self).input() == final(p).input()
                                &&& final(self).cursor() == if r is Ok {
                                    final(p).cursor()
                                } else {
                                    old(self).cursor()
                                }
                            }
                    }
                },
    {
        match self.try_parse(try_parse) {
            Ok(stmt) => Ok(stmt),
            Err(_) => self.try_parse(or_try),
        }
    }

    /// `let := var | func`: a variable where the tokens are one, else a
    /// function. Where they are neither, the error is that of the function and
    /// the cursor is back where it was.
    pub fn parse_let(&mut self) -> (r: ParseResult)
        requires
            old(self).can_read(),
        ensures
            yields(*old(self), *final(self), r, let_of(old(self).input(), old(self).cursor())),
    {
        self.parse_or_try(var, func)
    }

    /// `if := 'if' expr expr ['else' expr]`: takes the keyword and hands over
    /// to [`conditional`].
    pub fn parse_if(&mut self) -> (r: ParseResult)
        requires
            old(self).can_read(),
        ensures
            yields(*old(self), *final(self), r, if_of(old(self).input(), old(self).cursor())),
    {
        self.expect(TokenKind::If, "If")?;
        conditional(self)
    }

    /// `for := 'for' expr stmt`
    pub fn parse_for(&mut self) -> (r: ParseResult)
        requires
            old(self).can_read(),
        ensures
            yields(
                *old(self),
                *final(self),
                r,
                loop_of(old(self).input(), old(self).cursor(), TokenKind::For),
            ),
        decreases rest(old(self).input(), old(self).cursor()), 0nat,
    {
        self.expect(TokenKind::For, "For")?;
        let condition = expr(self)?;
        let body = self.parse_body()?;
        Ok(Stmt::For(condition, Box::new(body)))
    }

    /// `while := 'while' expr stmt`
    pub fn parse_while(&mut self) -> (r: ParseResult)
        requires
            old(self).can_read(),
        ensures
            yields(
                *old(self),
                *final(self),
                r,
                loop_of(old(self).input(), old(self).cursor(), TokenKind::While),
            ),
        decreases rest(old(self).input(), old(self).cursor()), 0nat,
    {
        self.expect(TokenKind::While, "While")?;
        let condition = expr(self)?;
        let body = self.parse_body()?;
        Ok(Stmt::While(condition, Box::new(body)))
    }

    /// The statement that is the body of a loop: one has to follow.
    fn parse_body(&mut self) -> (r: ParseResult)
        requires
            old(self).input().len() < usize::MAX,
        ensures
            yields(*old(self), *final(self), r, stmt_of(old(self).input(), old(self).cursor())),
        decreases rest(old(self).input(), old(self).cursor()), 2nat,
    {
        match self.parse_stmt() {
            Some(body) => body,
            None => Err(ParseError::UnExpectedEof(label("Statement"))),
        }
    }

    /// `match := 'match' expr '{' (expr '->' expr ',')* '}'`
    pub fn parse_match(&mut self) -> (r: ParseResult)
        requires
            old(self).can_read(),
        ensures
            yields(*old(self), *final(self), r, match_of(old(self).input(), old(self).cursor())),
    {
        self.expect(TokenKind::Match, "Match")?;
        let ghost start = self.cursor();
        let subject = expr(self)?;
        proof {
            lemma_expr_within(self.input(), start);
        }
        self.expect(TokenKind::LeftCurlyBracket, "Match")?;
        let cases = cases(self)?;
        proof {
            lemma_match_model(subject, cases);
        }
        Ok(Stmt::Match(subject, cases))
    }

    /// `stmt := expr | let | if | for | while | match`: the statement at the
    /// cursor, chosen by the kind of its first token, or `None` at the end of
    /// the input. A token that begins no statement is an error and is not
    /// taken: the cursor stays.
    pub fn parse_stmt(&mut self) -> (r: Option<ParseResult>)
        requires
            old(self).input().len() < usize::MAX,
        ensures
            match token_at(old(self).input(), old(self).cursor()) {
                None => r is None && final(self).moved(*old(self), 0),
                Some(_) => r is Some && yields(
                    *old(self),
                    *final(self),
                    r->Some_0,
                    stmt_of(old(self).input(), old(self).cursor()),
                ),
            },
        decreases rest(old(self).input(), old(self).cursor()), 1nat,
    {
        let token = self.peek()?;
        match token.kind {
            TokenKind::String | TokenKind::Int | TokenKind::Float | TokenKind::Ident => {
                let expr = match expr(self) {
                    Ok(expr) => expr,
                    Err(err) => {
                        return Some(Err(err));
                    },
                };
                Some(Ok(Stmt::Expr(expr)))
            },
            TokenKind::Let => Some(self.parse_let()),
            TokenKind::If => Some(self.parse_if()),
            TokenKind::For => Some(self.parse_for()),
            TokenKind::While => Some(self.parse_while()),
            TokenKind::Match => Some(self.parse_match()),
            _ => Some(Err(ParseError::UnExpected(label("Statement"), token))),
        }
    }

    /// `program := stmt*`: the statements from the cursor to the end of the
    /// input, or the first error.
    pub fn parse(self) -> (r: ParseResultGen<Vec<Stmt>>)
        requires
            self.input().len() < usize::MAX,
        ensures
            model(r) == program_of(self.input(), self.cursor()).result,
    {
        let mut parser = self;
        let ghost ts = self.input();
        let ghost origin = self.cursor();
        let mut prog: Vec<Stmt> = Vec::new();
        assert(prog.deep_view() =~= Seq::empty());
        loop
            invariant
                ts == self.input(),
                origin == self.cursor(),
                parser.input() == ts,
                ts.len() < usize::MAX,
                parser.cursor() >= origin,
                program_of(ts, origin).result == prepend(
                    prog.deep_view(),
                    program_of(ts, parser.cursor()),
                ).result,
            decreases rest(ts, parser.cursor()),
        {
            let ghost seen = prog.deep_view();
            match parser.parse_stmt() {
                None => {
                    assert(seen + Seq::empty() =~= seen);
                    return Ok(prog);
                },
                Some(Err(error)) => {
                    return Err(error);
                },
                Some(Ok(stmt)) => {
                    let ghost added = stmt.deep_view();
                    push_deep(&mut prog, stmt);
                    proof {
                        lemma_prepend_push(seen, added, program_of(ts, parser.cursor()));
                    }
                },
            }
        }
    }
}

/// `value := Int | Float | String | Ident`
pub fn value(parser: &mut Parser) -> (r: ParseResultGen<Value>)
    requires
        old(parser).cursor() < usize::MAX,
    ensures
        yields(
            *old(parser),
            *final(parser),
            r,
            value_of(old(parser).input(), old(parser).cursor()),
        ),
{
    match parser.next_token() {
        None => Err(ParseError::UnExpectedEof(label("Value"))),
        Some(token) => match token.kind {
            TokenKind::Int => match int_value(token.value.as_str()) {
                Some(number) => Ok(Value::Int(number)),
                None => Err(ParseError::UnExpected(label("Value"), token)),
            },
            TokenKind::Float => if is_float(token.value.as_str()) {
                Ok(Value::Float(token.value))
            } else {
                Err(ParseError::UnExpected(label("Value"), token))
            },
            TokenKind::Ident => Ok(Value::Ident(token.value)),
            TokenKind::String => Ok(Value::String(token.value)),
            _ => Err(ParseError::UnExpected(label("Value"), token)),
        },
    }
}

/// An operator token.
pub fn operation(parser: &mut Parser) -> (r: ParseResultGen<Operation>)
    requires
        old(parser).cursor() < usize::MAX,
    ensures
        yields(
            *old(parser),
            *final(parser),
            r,
            operation_of(old(parser).input(), old(parser).cursor()),
        ),
{
    match parser.next_token() {
        Some(token) => {
            if let TokenKind::Op(op_kind) = token.kind {
                Ok(
                    match op_kind {
                        Operator::Add => Operation::Add,
                        Operator::Sub => Operation::Sub,
                        Operator::Mul => Operation::Mul,
                        Operator::Div => Operation::Div,
                        Operator::EqEq => Operation::EqEq,
                        Operator::More => Operation::More,
                        Operator::MoreEq => Operation::MoreEq,
                        Operator::Less => Operation::Less,
                        Operator::LessEq => Operation::LessEq,
                    },
                )
            } else {
                Err(ParseError::UnExpected(label("Operation"), token))
            }
        },
        None => Err(ParseError::UnExpectedEof(label("Operation"))),
    }
}

/// `type := ':' ('String' | 'Int' | 'Float')`
pub fn type_anot(parser: &mut Parser) -> (r: ParseResultGen<Type>)
    requires
        old(parser).can_read(),
    ensures
        yields(
            *old(parser),
            *final(parser),
            r,
            type_anot_of(old(parser).input(), old(parser).cursor()),
        ),
{
    match parser.expect(TokenKind::Colon, "Type") {
        Err(error) => {
            return Err(error);
        },
        Ok(_) => {},
    }
    let token = match parser.next_token() {
        Some(token) => token,
        None => {
            return Err(ParseError::Expected(label("Type"), TokenKind::Ident));
        },
    };
    if token.kind != TokenKind::Ident {
        return Err(ParseError::Expected(label("Type"), TokenKind::Ident));
    }
    let name = chars_of(token.value.as_str());
    if same_text(&name, "String") {
        Ok(Type::String)
    } else if same_text(&name, "Int") {
        Ok(Type::Int)
    } else if same_text(&name, "Float") {
        Ok(Type::Float)
    } else {
        Err(ParseError::UnExpected(label("Type"), token))
    }
}

/// An optional type annotation: where there is none, the cursor stays.
fn optional_type(parser: &mut Parser) -> (typ: Option<Type>)
    requires
        old(parser).can_read(),
    ensures
        final(parser).moved(
            *old(parser),
            crate::grammar::attempt(type_anot_of(old(parser).input(), old(parser).cursor())).used,
        ),
        typ == crate::grammar::optional(type_anot_of(old(parser).input(), old(parser).cursor())),
{
    match parser.try_parse_gen(type_anot) {
        Ok(typ) => Some(typ),
        Err(_) => None,
    }
}

/// `param := Ident [type] ','`
pub fn param(parser: &mut Parser) -> (r: ParseResultGen<Param>)
    requires
        old(parser).can_read(),
    ensures
        yields(
            *old(parser),
            *final(parser),
            r,
            param_of(old(parser).input(), old(parser).cursor()),
        ),
{
    let name = match parser.expect(TokenKind::Ident, "Param") {
        Ok(name) => name,
        Err(error) => {
            return Err(error);
        },
    };
    let type_anot = optional_type(parser);
    match parser.expect(TokenKind::Comma, "Param") {
        Ok(_) => {},
        Err(error) => {
            return Err(error);
        },
    }
    Ok((name, type_anot))
}

/// `params := '(' (',' param)* ')'`
pub fn params(parser: &mut Parser) -> (r: ParseResultGen<Params>)
    requires
        old(parser).can_read(),
    ensures
        yields(
            *old(parser),
            *final(parser),
            r,
            params_of(old(parser).input(), old(parser).cursor()),
        ),
{
    parser.expect(TokenKind::LeftBrace, "Params")?;
    param_list(parser)
}

/// `(',' param)* ')'`: what follows the opening brace of a parameter list.
fn param_list(parser: &mut Parser) -> (r: ParseResultGen<Params>)
    requires
        old(parser).input().len() < usize::MAX,
    ensures
        yields(
            *old(parser),
            *final(parser),
            r,
            param_list_of(old(parser).input(), old(parser).cursor()),
        ),
{
    let ghost ts = parser.input();
    let ghost origin = parser.cursor();
    let mut params: Vec<Param> = Vec::new();
    assert(params.deep_view() =~= Seq::empty());
    loop
        invariant
            ts == old(parser).input(),
            origin == old(parser).cursor(),
            parser.input() == ts,
            ts.len() < usize::MAX,
            parser.cursor() >= origin,
            param_list_of(ts, origin) == after(
                (parser.cursor() - origin) as nat,
                prepend(params.deep_view(), param_list_of(ts, parser.cursor())),
            ),
        decreases rest(ts, parser.cursor()),
    {
        let ghost seen = params.deep_view();
        match parser.peek() {
            Some(token) => match token.kind {
                TokenKind::Comma => {
                    parser.next_token();
                    let param = param(parser)?;
                    let ghost added = param.deep_view();
                    push_deep(&mut params, param);
                    proof {
                        lemma_prepend_push(seen, added, param_list_of(ts, parser.cursor()));
                    }
                },
                TokenKind::RightBrace => {
                    parser.next_token();
                    assert(seen + Seq::empty() =~= seen);
                    return Ok(params);
                },
                _ => {
                    return Err(ParseError::UnExpected(label("Params"), token));
                },
            },
            None => {
                return Err(ParseError::UnExpectedEof(label("Params")));
            },
        }
    }
}

/// What a list rule gives when `seen` has been collected before it.
pub open spec fn prepend<T>(seen: Seq<T>, parsed: Parsed<Seq<T>>) -> Parsed<Seq<T>> {
    Parsed {
        result: match parsed.result {
            Ok(list) => Ok(seen + list),
            Err(error) => Err(error),
        },
        used: parsed.used,
    }
}

/// Collecting one more item before a list rule is putting the item in front
/// of what the rule gives.
proof fn lemma_prepend_push<T>(seen: Seq<T>, item: T, parsed: Parsed<Seq<T>>)
    ensures
        prepend(seen.push(item), parsed) == prepend(seen, prepend(seq![item], parsed)),
{
    if let Ok(list) = parsed.result {
        assert(seen.push(item) + list =~= seen + (seq![item] + list));
    }
}

/// The tree that the two stacks of the precedence engine stand for: the last
/// operand, taken as the right operand of the last operation, whose left
/// operand is the operand before, and so on down both stacks.
pub open spec fn nest(operands: Seq<ExprView>, operations: Seq<Operation>, last: ExprView)
    -> ExprView
    decreases operations.len(),
{
    if operations.len() == 0 || operands.len() == 0 {
        last
    } else {
        nest(
            operands.drop_last(),
            operations.drop_last(),
            crate::grammar::binary(operands.last(), operations.last(), last),
        )
    }
}

/// The tree that the stacks will stand for once the links of `tail` have been
/// read: `tail` goes on from the operand on top.
pub open spec fn stacked(operands: Seq<ExprView>, operations: Seq<Operation>, tail: Seq<Link>)
    -> ExprView {
    nest(operands.drop_last(), operations, climb(operands.last(), tail))
}

/// Folding a tight operation into the operand on top of the stack reads one
/// link of the chain.
proof fn lemma_fold(
    operands: Seq<ExprView>,
    operations: Seq<Operation>,
    link: Link,
    tail: Seq<Link>,
)
    requires
        operands.len() > 0,
        binds_tight(link.0),
    ensures
        stacked(
            operands.drop_last().push(crate::grammar::binary(operands.last(), link.0, link.1)),
            operations,
            tail,
        ) == stacked(operands, operations, seq![link] + tail),
{
    let whole = seq![link] + tail;
    let folded = operands.drop_last().push(
        crate::grammar::binary(operands.last(), link.0, link.1),
    );
    assert(whole.drop_first() =~= tail);
    assert(folded.drop_last() =~= operands.drop_last());
}

/// Queueing an operation that does not bind tight, and its operand, reads one
/// link of the chain.
proof fn lemma_queue(
    operands: Seq<ExprView>,
    operations: Seq<Operation>,
    link: Link,
    tail: Seq<Link>,
)
    requires
        operands.len() > 0,
        !binds_tight(link.0),
    ensures
        stacked(operands.push(link.1), operations.push(link.0), tail) == stacked(
            operands,
            operations,
            seq![link] + tail,
        ),
{
    let whole = seq![link] + tail;
    assert(whole.drop_first() =~= tail);
    assert(operands.push(link.1).drop_last() =~= operands);
    assert(operations.push(link.0).drop_last() =~= operations);
}

/// Puts `item` on top of `stack`.
fn push_deep<T: DeepView>(stack: &mut Vec<T>, item: T)
    ensures
        final(stack).deep_view() == old(stack).deep_view().push(item.deep_view()),
        final(stack)@.len() == old(stack)@.len() + 1,
{
    stack.push(item);
    assert(stack.deep_view() =~= old(stack).deep_view().push(item.deep_view()));
}

/// Takes the item on top of `stack`.
fn pop_deep<T: DeepView>(stack: &mut Vec<T>) -> (item: T)
    requires
        old(stack)@.len() > 0,
    ensures
        item.deep_view() == old(stack).deep_view().last(),
        final(stack).deep_view() == old(stack).deep_view().drop_last(),
        final(stack)@.len() == old(stack)@.len() - 1,
{
    let item = stack.pop().unwrap();
    assert(stack.deep_view() =~= old(stack).deep_view().drop_last());
    item
}

/// The expression that begins with the operand `start`, which has been read,
/// and goes on with operators and values for as long as an operator follows.
///
/// Two stacks hold the operands and the operations that are waiting. `*` and
/// `/` are folded at once into the operand on top; every other operation is
/// put on its stack with its right operand. At the end the operations are
/// taken from the top, each with the two operands on top.
pub fn binary(parser: &mut Parser, start: Expr) -> (r: ParseResultGen<Expr>)
    requires
        old(parser).can_read(),
    ensures
        yields(
            *old(parser),
            *final(parser),
            r,
            binary_of(old(parser).input(), old(parser).cursor(), start.deep_view()),
        ),
{
    let ghost ts = parser.input();
    let ghost origin = parser.cursor();
    let ghost first = start.deep_view();
    let ghost mut links: Seq<Link> = Seq::empty();
    let mut operations: Vec<Operation> = Vec::new();
    let mut values: Vec<Expr> = Vec::new();
    push_deep(&mut values, start);
    assert(values.deep_view() =~= seq![first]);
    assert(links + chain_of(ts, origin).result->Ok_0 =~= chain_of(ts, origin).result->Ok_0);
    loop
        invariant_except_break
            chain_of(ts, origin) == after(
                (parser.cursor() - origin) as nat,
                prepend(links, chain_of(ts, parser.cursor())),
            ),
            chain_of(ts, parser.cursor()).result matches Ok(tail) ==> stacked(
                values.deep_view(),
                operations@,
                tail,
            ) == climb(first, links + tail),
        invariant
            ts == old(parser).input(),
            origin == old(parser).cursor(),
            first == start.deep_view(),
            parser.input() == ts,
            parser.can_read(),
            parser.cursor() >= origin,
            values@.len() == operations@.len() + 1,
        ensures
            chain_of(ts, origin) == crate::grammar::done(
                links,
                (parser.cursor() - origin) as nat,
            ),
            stacked(values.deep_view(), operations@, Seq::empty()) == climb(first, links),
        decreases rest(ts, parser.cursor()),
    {
        let ghost here = parser.cursor();
        let op = match parser.try_parse_gen(operation) {
            Ok(op) => op,
            Err(_) => {
                assert(links + Seq::<Link>::empty() =~= links);
                break ;
            },
        };
        let rhs = match value(parser) {
            Ok(value) => Expr::Value(value),
            Err(error) => {
                return Err(error);
            },
        };
        let ghost link = (op, rhs.deep_view());
        let ghost more = chain_of(ts, (here + 2) as nat);
        proof {
            lemma_prepend_push(links, link, more);
            if let Ok(tail) = more.result {
                if binds_tight(op) {
                    lemma_fold(values.deep_view(), operations@, link, tail);
                } else {
                    lemma_queue(values.deep_view(), operations@, link, tail);
                }
            }
        }
        match op {
            Operation::Mul | Operation::Div => {
                let lhs = pop_deep(&mut values);
                push_deep(&mut values, Expr::Binary(Box::new(lhs), op, Box::new(rhs)));
            },
            op => {
                push_deep(&mut values, rhs);
                operations.push(op);
            },
        }
        proof {
            links = links.push(link);
        }
    }
    let ghost tree = climb(first, links);
    while operations.len() > 0
        invariant
            values@.len() == operations@.len() + 1,
            nest(values.deep_view().drop_last(), operations@, values.deep_view().last()) == tree,
        decreases operations@.len(),
    {
        let ghost operands = values.deep_view();
        let ghost waiting = operations@;
        let op = operations.pop().unwrap();
        let rhs = pop_deep(&mut values);
        let lhs = pop_deep(&mut values);
        push_deep(&mut values, Expr::Binary(Box::new(lhs), op, Box::new(rhs)));
        proof {
            assert(operations@ =~= waiting.drop_last());
            assert(values.deep_view().drop_last() =~= operands.drop_last().drop_last());
        }
    }
    assert(values@.len() == 1);
    Ok(pop_deep(&mut values))
}

/// `expr := value (operator value)* | Ident '(' [expr (',' expr)*] ')'`
pub fn expr(parser: &mut Parser) -> (r: ParseResultGen<Expr>)
    requires
        old(parser).input().len() < usize::MAX,
    ensures
        yields(
            *old(parser),
            *final(parser),
            r,
            expr_of(old(parser).input(), old(parser).cursor()),
        ),
    decreases rest(old(parser).input(), old(parser).cursor()), 1nat,
{
    match parser.peek() {
        Some(token) => match token.kind {
            TokenKind::Int | TokenKind::Float | TokenKind::String | TokenKind::Ident => {
                let value = match value(parser) {
                    Ok(value) => value,
                    Err(error) => {
                        return Err(error);
                    },
                };
                match parser.peek_kind() {
                    Some(TokenKind::Op(_)) => binary(parser, Expr::Value(value)),
                    Some(TokenKind::LeftBrace) => match value {
                        Value::Ident(name) => function_call(parser, name),
                        literal => Ok(Expr::Value(literal)),
                    },
                    _ => Ok(Expr::Value(value)),
                }
            },
            _ => Err(ParseError::UnExpected(label("Expression"), token)),
        },
        None => Err(ParseError::UnExpectedEof(label("Expression"))),
    }
}

/// `'(' [expr (',' expr)*] ')'`: the arguments of a call of `name`, which
/// has been read.
pub fn function_call(parser: &mut Parser, name: String) -> (r: ParseResultGen<Expr>)
    requires
        old(parser).can_read(),
    ensures
        yields(
            *old(parser),
            *final(parser),
            r,
            call_of(old(parser).input(), old(parser).cursor(), name@),
        ),
    decreases rest(old(parser).input(), old(parser).cursor()), 0nat,
{
    parser.expect(TokenKind::LeftBrace, "Call")?;
    let args = match parser.peek_kind() {
        Some(TokenKind::RightBrace) => {
            parser.next_token();
            let none: Vec<Expr> = Vec::new();
            assert(none.deep_view() =~= Seq::empty());
            none
        },
        _ => args(parser)?,
    };
    proof {
        lemma_call_model(name, args);
    }
    Ok(Expr::Call(name, args))
}

/// `expr (',' expr)* ')'`: one or more arguments and the closing brace.
fn args(parser: &mut Parser) -> (r: ParseResultGen<Vec<Expr>>)
    requires
        old(parser).input().len() < usize::MAX,
    ensures
        yields(
            *old(parser),
            *final(parser),
            r,
            args_of(old(parser).input(), old(parser).cursor()),
        ),
    decreases rest(old(parser).input(), old(parser).cursor()), 2nat,
{
    let ghost ts = parser.input();
    let ghost origin = parser.cursor();
    let mut args: Vec<Expr> = Vec::new();
    assert(args.deep_view() =~= Seq::empty());
    loop
        invariant
            ts == old(parser).input(),
            origin == old(parser).cursor(),
            parser.input() == ts,
            ts.len() < usize::MAX,
            parser.cursor() >= origin,
            args_of(ts, origin) == after(
                (parser.cursor() - origin) as nat,
                prepend(args.deep_view(), args_of(ts, parser.cursor())),
            ),
        decreases rest(ts, parser.cursor()),
    {
        let ghost seen = args.deep_view();
        let arg = expr(parser)?;
        let ghost added = arg.deep_view();
        push_deep(&mut args, arg);
        match parser.peek() {
            Some(token) => match token.kind {
                TokenKind::RightBrace => {
                    parser.next_token();
                    assert(seen + seq![added] =~= seen.push(added));
                    return Ok(args);
                },
                TokenKind::Comma => {
                    parser.next_token();
                    proof {
                        lemma_prepend_push(seen, added, args_of(ts, parser.cursor()));
                    }
                },
                _ => {
                    return Err(ParseError::UnExpected(label("Call"), token));
                },
            },
            None => {
                return Err(ParseError::UnExpectedEof(label("Call")));
            },
        }
    }
}

/// `var := 'let' Ident [type] '=' expr`
pub fn var(parser: &mut Parser) -> (r: ParseResult)
    requires
        old(parser).can_read(),
    ensures
        yields(*old(parser), *final(parser), r, var_of(old(parser).input(), old(parser).cursor())),
{
    parser.expect(TokenKind::Let, "Variable")?;
    let var_name = parser.expect(TokenKind::Ident, "Variable")?;
    let typed = optional_type(parser);
    parser.expect(TokenKind::Eq, "Variable")?;
    let expr = expr(parser)?;
    Ok(Stmt::Let(var_name, typed, expr))
}

/// `func := 'let' Ident params [type] expr`
pub fn func(parser: &mut Parser) -> (r: ParseResult)
    requires
        old(parser).can_read(),
    ensures
        yields(
            *old(parser),
            *final(parser),
            r,
            func_of(old(parser).input(), old(parser).cursor()),
        ),
{
    parser.expect(TokenKind::Let, "Function")?;
    let func_name = parser.expect(TokenKind::Ident, "Function")?;
    let ghost open = parser.cursor();
    let params = params(parser)?;
    proof {
        lemma_params_within(parser.input(), open);
    }
    let typed = optional_type(parser);
    let expr = expr(parser)?;
    Ok(Stmt::Func(func_name, params, typed, expr))
}

/// The pattern that guards a branch of a conditional.
fn guard(holds: bool) -> (pattern: Expr)
    ensures
        pattern.deep_view() == crate::grammar::truth(holds),
{
    if holds {
        Expr::Value(Value::Ident(label("true")))
    } else {
        Expr::Value(Value::Ident(label("false")))
    }
}

/// `expr expr ['else' expr]`: what follows the keyword of a conditional. The
/// statement is a match on the condition: its first case is guarded by the
/// identifier `true`, its second, if there is an `else`, by `false`.
pub fn conditional(parser: &mut Parser) -> (r: ParseResult)
    requires
        old(parser).input().len() < usize::MAX,
    ensures
        yields(
            *old(parser),
            *final(parser),
            r,
            conditional_of(old(parser).input(), old(parser).cursor()),
        ),
{
    let ghost start = parser.cursor();
    let condition = expr(parser)?;
    proof {
        lemma_expr_within(parser.input(), start);
    }
    let then = expr(parser)?;
    let ghost first = then.deep_view();
    let mut cases: Vec<Case> = Vec::new();
    push_deep(&mut cases, (guard(true), then));
    assert(cases.deep_view() =~= seq![(crate::grammar::truth(true), first)]);
    match parser.peek_kind() {
        Some(TokenKind::Else) => {
            parser.next_token();
            let otherwise = expr(parser)?;
            let ghost second = otherwise.deep_view();
            push_deep(&mut cases, (guard(false), otherwise));
            assert(cases.deep_view() =~= seq![
                (crate::grammar::truth(true), first),
                (crate::grammar::truth(false), second),
            ]);
        },
        _ => {},
    }
    proof {
        lemma_match_model(condition, cases);
    }
    Ok(Stmt::Match(condition, cases))
}

/// `expr '->' expr ','`: one case of a match.
pub fn case(parser: &mut Parser) -> (r: ParseResultGen<Case>)
    requires
        old(parser).input().len() < usize::MAX,
    ensures
        yields(
            *old(parser),
            *final(parser),
            r,
            case_of(old(parser).input(), old(parser).cursor()),
        ),
{
    let ghost start = parser.cursor();
    let pattern = expr(parser)?;
    proof {
        lemma_expr_within(parser.input(), start);
    }
    parser.expect(TokenKind::RightArrow, "Match")?;
    let ghost then = parser.cursor();
    let result = expr(parser)?;
    proof {
        lemma_expr_within(parser.input(), then);
    }
    parser.expect(TokenKind::Comma, "Match")?;
    Ok((pattern, result))
}

/// `(expr '->' expr ',')* '}'`: the cases of a match and its closing bracket.
fn cases(parser: &mut Parser) -> (r: ParseResultGen<Cases>)
    requires
        old(parser).input().len() < usize::MAX,
    ensures
        yields(
            *old(parser),
            *final(parser),
            r,
            cases_of(old(parser).input(), old(parser).cursor()),
        ),
{
    let ghost ts = parser.input();
    let ghost origin = parser.cursor();
    let mut cases: Vec<Case> = Vec::new();
    assert(cases.deep_view() =~= Seq::empty());
    loop
        invariant
            ts == old(parser).input(),
            origin == old(parser).cursor(),
            parser.input() == ts,
            ts.len() < usize::MAX,
            parser.cursor() >= origin,
            cases_of(ts, origin) == after(
                (parser.cursor() - origin) as nat,
                prepend(cases.deep_view(), cases_of(ts, parser.cursor())),
            ),
        decreases rest(ts, parser.cursor()),
    {
        let ghost seen = cases.deep_view();
        match parser.peek_kind() {
            None => {
                return Err(ParseError::UnExpectedEof(label("Match")));
            },
            Some(TokenKind::RightCurlyBracket) => {
                parser.next_token();
                assert(seen + Seq::empty() =~= seen);
                return Ok(cases);
            },
            Some(_) => {
                let entry = case(parser)?;
                let ghost added = entry.deep_view();
                push_deep(&mut cases, entry);
                proof {
                    lemma_prepend_push(seen, added, cases_of(ts, parser.cursor()));
                }
            },
        }
    }
}

} // verus!
