//! The syntax tree: statements, expressions, identifiers and blocks, each node
//! with the byte range of the source text it was read from.

use vstd::prelude::*;
use crate::error::ErrorKind;
use crate::grammar::binop_of;
use crate::token::Token;
use crate::variables::{Value, ValueView, value_view};

verus! {

/// A range of byte offsets into the source text: from `start` up to, not
/// including, `end`.
#[derive(Debug, PartialEq, Eq, Clone, Copy, Structural)]
pub struct Span {
    pub start: usize,
    pub end: usize,
}

impl Span {
    pub fn new(start: usize, end: usize) -> (span: Span)
        ensures
            span == (Span { start, end }),
    {
        Span { start, end }
    }
}

/// A name, with the place where it stands.
#[derive(Debug)]
pub struct Iden {
    pub iden: String,
    pub span: Span,
}

/// Statements in the order in which they run.
#[derive(Debug)]
pub struct Block {
    pub block: Vec<Stmt>,
}

/// A syntactic unit expressing an effect.
#[derive(Debug)]
pub struct Stmt {
    pub kind: StmtKind,
    pub span: Span,
}

/// What a statement does. A conditional has no else; a loop has no
/// condition.
#[derive(Debug)]
pub enum StmtKind {
    If { cond: Expr, body: Block },
    Loop { body: Block },
    Break,
    HopBack,
    Var { iden: Iden, init: Option<Expr> },
    Functio { iden: Iden, args: Vec<Iden>, body: Block },
    Call { iden: Iden, args: Vec<Expr> },
    Print(Expr),
    Melo(Iden),
}

/// A syntactic unit that yields a value and has no effect.
#[derive(Debug)]
pub struct Expr {
    pub kind: ExprKind,
    pub span: Span,
}

/// What an expression is made of.
#[derive(Debug)]
pub enum ExprKind {
    BinOp { lhs: Box<Expr>, rhs: Box<Expr>, kind: BinOpKind },
    Not(Box<Expr>),
    Literal(Value),
    Variable(String),
}

/// The binary operators. None binds tighter than another.
#[derive(Debug, PartialEq, Eq, Clone, Copy, Structural)]
pub enum BinOpKind {
    Add,
    Subtract,
    Multiply,
    Divide,
    Greater,
    Less,
    Equal,
    NotEqual,
    And,
    Or,
}

/// What an [`Iden`] holds, its text as a sequence of characters.
pub struct IdenView {
    pub iden: Seq<char>,
    pub span: Span,
}

/// What a [`Stmt`] holds, as mathematical sequences.
pub struct StmtView {
    pub kind: StmtKindView,
    pub span: Span,
}

/// What a [`StmtKind`] holds, as mathematical sequences.
pub enum StmtKindView {
    If { cond: ExprView, body: Seq<StmtView> },
    Loop { body: Seq<StmtView> },
    Break,
    HopBack,
    Var { iden: IdenView, init: Option<ExprView> },
    Functio { iden: IdenView, args: Seq<IdenView>, body: Seq<StmtView> },
    Call { iden: IdenView, args: Seq<ExprView> },
    Print(ExprView),
    Melo(IdenView),
}

/// What an [`Expr`] holds, as mathematical sequences.
pub struct ExprView {
    pub kind: ExprKindView,
    pub span: Span,
}

/// What an [`ExprKind`] holds, as mathematical sequences.
pub enum ExprKindView {
    BinOp { lhs: Box<ExprView>, rhs: Box<ExprView>, kind: BinOpKind },
    Not(Box<ExprView>),
    Literal(ValueView),
    Variable(Seq<char>),
}

impl View for Iden {
    type V = IdenView;

    open spec fn view(&self) -> IdenView {
        IdenView { iden: self.iden@, span: self.span }
    }
}

/// What a list of names holds.
pub open spec fn idens_view(idens: Seq<Iden>) -> Seq<IdenView> {
    Seq::new(idens.len(), |i: int| idens[i]@)
}

/// What an expression holds.
pub open spec fn expr_view(e: Expr) -> ExprView
    decreases e,
{
    ExprView { kind: expr_kind_view(e.kind), span: e.span }
}

/// What the kind of an expression holds.
pub open spec fn expr_kind_view(k: ExprKind) -> ExprKindView
    decreases k,
{
    match k {
        ExprKind::BinOp { lhs, rhs, kind } => ExprKindView::BinOp {
            lhs: Box::new(expr_view(*lhs)),
            rhs: Box::new(expr_view(*rhs)),
            kind,
        },
        ExprKind::Not(e) => ExprKindView::Not(Box::new(expr_view(*e))),
        ExprKind::Literal(v) => ExprKindView::Literal(value_view(v)),
        ExprKind::Variable(name) => ExprKindView::Variable(name@),
    }
}

/// What a list of expressions holds.
pub open spec fn exprs_view(exprs: Vec<Expr>) -> Seq<ExprView>
    decreases exprs,
{
    Seq::new(
        exprs.len() as nat,
        |i: int|
            if 0 <= i < exprs.len() {
                expr_view(exprs[i])
            } else {
                arbitrary()
            },
    )
}

/// What a list of statements holds.
pub open spec fn stmts_view(stmts: Vec<Stmt>) -> Seq<StmtView>
    decreases stmts,
{
    Seq::new(
        stmts.len() as nat,
        |i: int|
            if 0 <= i < stmts.len() {
                stmt_view(stmts[i])
            } else {
                arbitrary()
            },
    )
}

/// What a statement holds.
pub open spec fn stmt_view(s: Stmt) -> StmtView
    decreases s,
{
    StmtView { kind: stmt_kind_view(s.kind), span: s.span }
}

/// What the kind of a statement holds.
pub open spec fn stmt_kind_view(k: StmtKind) -> StmtKindView
    decreases k,
{
    match k {
        StmtKind::If { cond, body } => StmtKindView::If {
            cond: expr_view(cond),
            body: stmts_view(body.block),
        },
        StmtKind::Loop { body } => StmtKindView::Loop { body: stmts_view(body.block) },
        StmtKind::Break => StmtKindView::Break,
        StmtKind::HopBack => StmtKindView::HopBack,
        StmtKind::Var { iden, init } => StmtKindView::Var {
            iden: iden@,
            init: match init {
                Some(e) => Some(expr_view(e)),
                None => None,
            },
        },
        StmtKind::Functio { iden, args, body } => StmtKindView::Functio {
            iden: iden@,
            args: idens_view(args@),
            body: stmts_view(body.block),
        },
        StmtKind::Call { iden, args } => StmtKindView::Call { iden: iden@, args: exprs_view(args) },
        StmtKind::Print(e) => StmtKindView::Print(expr_view(e)),
        StmtKind::Melo(iden) => StmtKindView::Melo(iden@),
    }
}

impl View for Expr {
    type V = ExprView;

    open spec fn view(&self) -> ExprView {
        expr_view(*self)
    }
}

impl View for ExprKind {
    type V = ExprKindView;

    open spec fn view(&self) -> ExprKindView {
        expr_kind_view(*self)
    }
}

impl View for StmtKind {
    type V = StmtKindView;

    open spec fn view(&self) -> StmtKindView {
        stmt_kind_view(*self)
    }
}

impl View for Stmt {
    type V = StmtView;

    open spec fn view(&self) -> StmtView {
        stmt_view(*self)
    }
}

impl View for Block {
    type V = Seq<StmtView>;

    open spec fn view(&self) -> Seq<StmtView> {
        stmts_view(self.block)
    }
}

impl Iden {
    pub fn new(iden: String, span: Span) -> (i: Iden)
        ensures
            i == (Iden { iden, span }),
    {
        Iden { iden, span }
    }
}

impl Stmt {
    pub fn new(kind: StmtKind, span: Span) -> (s: Stmt)
        ensures
            s == (Stmt { kind, span }),
    {
        Stmt { kind, span }
    }
}

impl Expr {
    pub fn new(kind: ExprKind, span: Span) -> (e: Expr)
        ensures
            e == (Expr { kind, span }),
    {
        Expr { kind, span }
    }
}

impl BinOpKind {
    /// The operator that a token denotes. A token that denotes none is
    /// handed back as unexpected.
    pub fn from_token(t: Token) -> (kind: Result<BinOpKind, ErrorKind>)
        ensures
            match binop_of(t) {
                Some(op) => kind == Ok::<BinOpKind, ErrorKind>(op),
                None => kind == Err::<BinOpKind, ErrorKind>(ErrorKind::UnexpectedToken(t)),
            },
    {
        match t {
            Token::Plus => Ok(BinOpKind::Add),
            Token::Minus => Ok(BinOpKind::Subtract),
            Token::Star => Ok(BinOpKind::Multiply),
            Token::FwdSlash => Ok(BinOpKind::Divide),
            Token::EqualEqual => Ok(BinOpKind::Equal),
            Token::NotEqual => Ok(BinOpKind::NotEqual),
            Token::LessThan => Ok(BinOpKind::Less),
            Token::GreaterThan => Ok(BinOpKind::Greater),
            Token::And => Ok(BinOpKind::And),
            Token::Or => Ok(BinOpKind::Or),
            t => Err(ErrorKind::UnexpectedToken(t)),
        }
    }
}

} // verus!
