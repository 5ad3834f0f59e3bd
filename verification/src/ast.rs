//! The abstract syntax tree that the parser builds.
//!
//! Each type has a mathematical model, reached with `deep_view`, in which text
//! is a sequence of characters and a list is a sequence of models. The
//! contracts of the parser speak of these models.

use vstd::prelude::*;

verus! {

/// `std::path::PathBuf`: a program's source path is carried through as it is.
/// Nothing in this library looks inside one.
#[verifier::external_type_specification]
#[verifier::external_body]
pub struct ExPathBuf(std::path::PathBuf);

/// The types that an annotation can name.
#[derive(Clone, Copy, Debug, PartialEq, Eq, Structural)]
pub enum Type {
    String,
    Int,
    Float,
}

/// The operation of a binary expression.
#[derive(Clone, Copy, Debug, PartialEq, Eq, Structural)]
pub enum Operation {
    Add,
    Mul,
    Sub,
    Div,
    EqEq,
    Less,
    LessEq,
    More,
    MoreEq,
}

impl DeepView for Type {
    type V = Type;

    open spec fn deep_view(&self) -> Type {
        *self
    }
}

impl DeepView for Operation {
    type V = Operation;

    open spec fn deep_view(&self) -> Operation {
        *self
    }
}

/// A literal or a name.
#[derive(Clone, Debug, PartialEq)]
pub enum Value {
    Int(i64),
    /// A decimal literal, kept as its lexeme: decimal digits with one point,
    /// which is not the first character.
    Float(String),
    /// A string literal, kept as its lexeme with the quotes.
    String(String),
    Ident(String),
}

/// A parameter of a function: its name and its type where one is given.
pub type Param = (String, Option<Type>);

/// The parameters of a function in order. Two may have one name.
pub type Params = Vec<Param>;

/// A case of a match: the pattern and the result.
pub type Case = (Expr, Expr);

/// The cases of a match in order.
pub type Cases = Vec<Case>;

/// An expression.
#[derive(Debug, PartialEq)]
pub enum Expr {
    Value(Value),
    /// A call: the function's name and the arguments in order.
    Call(String, Vec<Expr>),
    /// Left operand, operation, right operand.
    Binary(Box<Expr>, Operation, Box<Expr>),
    /// Statements in order. The grammar has no syntax for a block: the parser
    /// builds none.
    Block(Vec<Stmt>),
}

/// A statement.
#[derive(Debug, PartialEq)]
pub enum Stmt {
    /// A variable: name, type where one is given, value.
    Let(String, Option<Type>, Expr),
    /// A function: name, parameters, result type where one is given, body.
    Func(String, Params, Option<Type>, Expr),
    /// Condition and body.
    For(Expr, Box<Stmt>),
    /// Condition and body.
    While(Expr, Box<Stmt>),
    /// The value that is matched and the cases in order.
    Match(Expr, Cases),
    Expr(Expr),
}

/// A program: its statements in order, with its name and the path of its
/// source where they are known.
#[derive(Debug, PartialEq)]
pub struct Ast {
    pub name: Option<String>,
    pub path: Option<std::path::PathBuf>,
    pub prog: Vec<Stmt>,
}

/// The model of a [`Value`].
pub enum ValueView {
    Int(i64),
    Float(Seq<char>),
    String(Seq<char>),
    Ident(Seq<char>),
}

/// The model of a [`Param`].
pub type ParamView = (Seq<char>, Option<Type>);

/// The model of a [`Case`].
pub type CaseView = (ExprView, ExprView);

/// The model of an [`Expr`].
pub enum ExprView {
    Value(ValueView),
    Call(Seq<char>, Seq<ExprView>),
    Binary(Box<ExprView>, Operation, Box<ExprView>),
    Block(Seq<StmtView>),
}

/// The model of a [`Stmt`].
pub enum StmtView {
    Let(Seq<char>, Option<Type>, ExprView),
    Func(Seq<char>, Seq<ParamView>, Option<Type>, ExprView),
    For(ExprView, Box<StmtView>),
    While(ExprView, Box<StmtView>),
    Match(ExprView, Seq<CaseView>),
    Expr(ExprView),
}

/// The model of an [`Ast`].
pub struct AstView {
    pub name: Option<Seq<char>>,
    pub path: Option<std::path::PathBuf>,
    pub prog: Seq<StmtView>,
}

impl DeepView for Value {
    type V = ValueView;

    open spec fn deep_view(&self) -> ValueView {
        match self {
            Value::Int(number) => ValueView::Int(*number),
            Value::Float(text) => ValueView::Float(text@),
            Value::String(text) => ValueView::String(text@),
            Value::Ident(name) => ValueView::Ident(name@),
        }
    }
}

impl Expr {
    /// The model of an expression.
    pub open spec fn model(self) -> ExprView
        decreases self,
    {
        match self {
            Expr::Value(value) => ExprView::Value(value.deep_view()),
            Expr::Call(name, args) => ExprView::Call(
                name@,
                Seq::new(
                    args@.len(),
                    |i: int|
                        if 0 <= i < args@.len() {
                            args@[i].model()
                        } else {
                            arbitrary()
                        },
                ),
            ),
            Expr::Binary(left, operation, right) => ExprView::Binary(
                Box::new(left.model()),
                operation,
                Box::new(right.model()),
            ),
            Expr::Block(stmts) => ExprView::Block(
                Seq::new(
                    stmts@.len(),
                    |i: int|
                        if 0 <= i < stmts@.len() {
                            stmts@[i].model()
                        } else {
                            arbitrary()
                        },
                ),
            ),
        }
    }
}

impl Stmt {
    /// The model of a statement.
    pub open spec fn model(self) -> StmtView
        decreases self,
    {
        match self {
            Stmt::Let(name, typ, value) => StmtView::Let(name@, typ, value.model()),
            Stmt::Func(name, params, typ, body) => StmtView::Func(
                name@,
                params.deep_view(),
                typ,
                body.model(),
            ),
            Stmt::For(condition, body) => StmtView::For(
                condition.model(),
                Box::new(body.model()),
            ),
            Stmt::While(condition, body) => StmtView::While(
                condition.model(),
                Box::new(body.model()),
            ),
            Stmt::Match(subject, cases) => StmtView::Match(
                subject.model(),
                Seq::new(
                    cases@.len(),
                    |i: int|
                        if 0 <= i < cases@.len() {
                            (cases@[i].0.model(), cases@[i].1.model())
                        } else {
                            arbitrary()
                        },
                ),
            ),
            Stmt::Expr(expr) => StmtView::Expr(expr.model()),
        }
    }
}

impl DeepView for Expr {
    type V = ExprView;

    open spec fn deep_view(&self) -> ExprView {
        self.model()
    }
}

impl DeepView for Stmt {
    type V = StmtView;

    open spec fn deep_view(&self) -> StmtView {
        self.model()
    }
}

impl DeepView for Ast {
    type V = AstView;

    open spec fn deep_view(&self) -> AstView {
        AstView { name: self.name.deep_view(), path: self.path, prog: self.prog.deep_view() }
    }
}

/// The model of a call is the name and the models of the arguments.
pub proof fn lemma_call_model(name: String, args: Vec<Expr>)
    ensures
        Expr::Call(name, args).deep_view() == ExprView::Call(name@, args.deep_view()),
{
    assert(Expr::Call(name, args).model()->Call_1 =~= args.deep_view());
}

/// The model of a match is the model of its subject and the models of its cases.
pub proof fn lemma_match_model(subject: Expr, cases: Cases)
    ensures
        Stmt::Match(subject, cases).deep_view() == StmtView::Match(
            subject.deep_view(),
            cases.deep_view(),
        ),
{
    assert(Stmt::Match(subject, cases).model()->Match_1 =~= cases.deep_view());
}

} // verus!
