//! The grammar of the language, written as functions from a state of the
//! token stream to the tree that is read from it and the state that is left.
//!
//! Expressions have no precedence: every binary operator takes what has been
//! read so far as its left operand and exactly one further operand as its
//! right one. The first malformed construct ends the parse.

use vstd::prelude::*;
use crate::ast::{BinOpKind, ExprKindView, ExprView, IdenView, Span, StmtKindView, StmtView};
use crate::error::{Error, ErrorKind};
use crate::token::{Lexeme, Token};
use crate::variables::ValueView;

verus! {

/// The state of a token stream between two pulls: the tokens still to come,
/// and the span of the token pulled last (empty at offset zero before the
/// first pull).
pub struct Cursor {
    pub rest: Seq<Lexeme>,
    pub span: Span,
}

/// A failed parse: the error, and the state of the stream at which it was
/// detected. A production that fails stops there: it pulls no further token.
pub struct Failure {
    pub error: Error,
    pub at: Cursor,
}

/// What a production yields: the tree and the state after it, or the failure
/// that ended the parse.
pub type Parsed<T> = Result<(T, Cursor), Failure>;

impl Cursor {
    /// The state before the first pull.
    pub open spec fn start(tokens: Seq<Lexeme>) -> Cursor {
        Cursor { rest: tokens, span: Span { start: 0, end: 0 } }
    }

    /// Pulls one token, if any is left.
    pub open spec fn next(self) -> Option<(Token, Cursor)> {
        if self.rest.len() == 0 {
            None
        } else {
            Some((self.rest[0].token, Cursor { rest: self.rest.skip(1), span: self.rest[0].span }))
        }
    }

    /// The error for a stream that ended too early: it lies at the end of the
    /// token pulled last.
    pub open spec fn eof(self) -> Error {
        Error {
            kind: ErrorKind::UnexpectedEof,
            span: Span { start: self.span.end, end: self.span.end },
        }
    }

    /// The error for a token that may not stand where it does, reaching from
    /// `start` to the end of the token pulled last.
    pub open spec fn unexpected(self, token: Token, start: usize) -> Error {
        Error {
            kind: ErrorKind::UnexpectedToken(token),
            span: Span { start, end: self.span.end },
        }
    }

    /// A failure with `error` that was detected at this state.
    pub open spec fn fails(self, error: Error) -> Failure {
        Failure { error, at: self }
    }

    /// The span from `start` to the end of the token pulled last.
    pub open spec fn since(self, start: usize) -> Span {
        Span { start, end: self.span.end }
    }

    /// Whether this state is reached from `before` by pulling tokens, none
    /// or more.
    pub open spec fn follows(self, before: Cursor) -> bool {
        let pulled = before.rest.len() - self.rest.len();
        &&& pulled >= 0
        &&& self.rest == before.rest.skip(pulled)
        &&& self.span == if pulled == 0 {
            before.span
        } else {
            before.rest[pulled - 1].span
        }
    }
}

/// A result whose state holds no more tokens than `before` does. Every
/// production only ever pulls tokens (the lemmas of [`crate::laws`] that end
/// in `_only_pulls` show it), so this is the identity on all results of this
/// grammar (see [`lemma_pulling_is_bounded`](crate::laws::lemma_pulling_is_bounded));
/// it is written out where one production follows another to show that the
/// recursion ends.
pub open spec fn bounded<T>(result: Parsed<T>, before: Cursor) -> Parsed<T> {
    match result {
        Ok((_, after)) => if after.rest.len() <= before.rest.len() {
            result
        } else {
            Err(arbitrary())
        },
        Err(_) => result,
    }
}

/// The binary operator that a token denotes, if it denotes one.
pub open spec fn binop_of(token: Token) -> Option<BinOpKind> {
    match token {
        Token::Plus => Some(BinOpKind::Add),
        Token::Minus => Some(BinOpKind::Subtract),
        Token::Star => Some(BinOpKind::Multiply),
        Token::FwdSlash => Some(BinOpKind::Divide),
        Token::EqualEqual => Some(BinOpKind::Equal),
        Token::NotEqual => Some(BinOpKind::NotEqual),
        Token::LessThan => Some(BinOpKind::Less),
        Token::GreaterThan => Some(BinOpKind::Greater),
        Token::And => Some(BinOpKind::And),
        Token::Or => Some(BinOpKind::Or),
        _ => None,
    }
}

/// The literal or variable that a token denotes by itself, if it denotes one.
pub open spec fn atom_of(token: Token) -> Option<ExprKindView> {
    match token {
        Token::Identifier(name) => Some(ExprKindView::Variable(name@)),
        Token::Abool(a) => Some(ExprKindView::Literal(ValueView::Abool(a))),
        Token::Bool(b) => Some(ExprKindView::Literal(ValueView::Bool(b))),
        Token::Integer(i) => Some(ExprKindView::Literal(ValueView::Int(i))),
        Token::String(s) => Some(ExprKindView::Literal(ValueView::Str(s@))),
        Token::Nul => Some(ExprKindView::Literal(ValueView::Nul)),
        _ => None,
    }
}

/// Whether a token can begin an operand: a literal, a variable, a binary
/// operator (which takes what was read before it), a negation or an opening
/// parenthesis.
pub open spec fn begins_operand(token: Token) -> bool {
    atom_of(token) is Some || binop_of(token) is Some || token is Not || token is LeftParen
}

/// Whether a token selects a production for a statement.
pub open spec fn begins_statement(token: Token) -> bool {
    match token {
        Token::If
        | Token::Functio
        | Token::Var
        | Token::Melo
        | Token::Loop
        | Token::Break
        | Token::HopBack
        | Token::Identifier(_)
        | Token::Char
        | Token::String(_)
        | Token::Integer(_)
        | Token::Abool(_)
        | Token::Bool(_)
        | Token::LeftParen => true,
        _ => false,
    }
}

/// Pulls one token, which must be `expected`.
pub open spec fn require(c: Cursor, expected: Token) -> Parsed<()> {
    match c.next() {
        None => Err(c.fails(c.eof())),
        Some((token, after)) => if token.same_as(expected) {
            Ok(((), after))
        } else {
            Err(after.fails(after.unexpected(token, after.span.start)))
        },
    }
}

/// Pulls one token, which must be an identifier.
pub open spec fn get_iden(c: Cursor) -> Parsed<IdenView> {
    match c.next() {
        None => Err(c.fails(c.eof())),
        Some((token, after)) => match token {
            Token::Identifier(name) => Ok((IdenView { iden: name@, span: after.span }, after)),
            _ => Err(after.fails(after.unexpected(token, after.span.start))),
        },
    }
}

/// One operand: the expression that begins with `token`, which has just been
/// pulled. `buf` is what has been read of the enclosing expression so far; a
/// binary operator takes it as its left operand, a literal or a variable
/// replaces it.
pub open spec fn parse_expr(c: Cursor, token: Token, buf: Option<ExprView>) -> Parsed<ExprView>
    decreases c.rest.len(), 2int,
{
    let start = c.span.start;
    if let Some(kind) = atom_of(token) {
        Ok((ExprView { kind, span: c.since(start) }, c))
    } else if let Some(op) = binop_of(token) {
        match binop_flow(c, op, buf) {
            Ok((kind, after)) => Ok((ExprView { kind, span: after.since(start) }, after)),
            Err(e) => Err(e),
        }
    } else if token is Not {
        match c.next() {
            None => Err(c.fails(c.eof())),
            Some((operand, c1)) => match parse_expr(c1, operand, buf) {
                Ok((e, after)) => Ok(
                    (
                        ExprView { kind: ExprKindView::Not(Box::new(e)), span: after.since(start) },
                        after,
                    ),
                ),
                Err(e) => Err(e),
            },
        }
    } else if token is LeftParen {
        expr_flow(c, Token::RightParen)
    } else {
        Err(c.fails(c.unexpected(token, start)))
    }
}

/// A binary operation whose operator has just been pulled: the left operand
/// is what has been read so far, the right operand is the one operand that
/// follows.
pub open spec fn binop_flow(c: Cursor, kind: BinOpKind, lhs: Option<ExprView>) -> Parsed<
    ExprKindView,
>
    decreases c.rest.len(), 1int,
{
    match lhs {
        None => Err(c.fails(Error { kind: ErrorKind::MissingLhs, span: c.span })),
        Some(lhs) => match c.next() {
            None => Err(c.fails(c.eof())),
            Some((operand, c1)) => match parse_expr(c1, operand, None) {
                Ok((rhs, after)) => Ok(
                    (ExprKindView::BinOp { lhs: Box::new(lhs), rhs: Box::new(rhs), kind }, after),
                ),
                Err(e) => Err(e),
            },
        },
    }
}

/// An expression up to and including the token `terminate`.
pub open spec fn expr_flow(c: Cursor, terminate: Token) -> Parsed<ExprView>
    decreases c.rest.len(), 1int,
{
    expr_loop(c, terminate, None)
}

/// The rest of an expression of which `buf` has been read. The terminator
/// ends it; it may not come before anything has been read.
pub open spec fn expr_loop(c: Cursor, terminate: Token, buf: Option<ExprView>) -> Parsed<ExprView>
    decreases c.rest.len(), 0int,
{
    match c.next() {
        None => Err(c.fails(c.eof())),
        Some((token, c1)) => if token.same_as(terminate) {
            match buf {
                Some(e) => Ok((e, c1)),
                None => Err(c1.fails(c1.unexpected(token, c1.span.start))),
            }
        } else {
            match bounded(parse_expr(c1, token, buf), c1) {
                Ok((e, c2)) => expr_loop(c2, terminate, Some(e)),
                Err(e) => Err(e),
            }
        },
    }
}

/// The parameter names of a function definition after the opening
/// parenthesis: none, or names with a comma between each two, then the
/// closing parenthesis.
pub open spec fn params_flow(c: Cursor) -> Parsed<Seq<IdenView>> {
    match c.next() {
        None => Err(c.fails(c.eof())),
        Some((token, c1)) => match token {
            Token::RightParen => Ok((Seq::empty(), c1)),
            Token::Identifier(name) => params_loop(
                c1,
                seq![IdenView { iden: name@, span: c1.span }],
            ),
            _ => Err(c1.fails(c1.unexpected(token, c1.span.start))),
        },
    }
}

/// The rest of a parameter list after a name: the closing parenthesis, or a
/// comma and another name.
pub open spec fn params_loop(c: Cursor, names: Seq<IdenView>) -> Parsed<Seq<IdenView>>
    decreases c.rest.len(),
{
    match c.next() {
        None => Err(c.fails(c.eof())),
        Some((token, c1)) => match token {
            Token::RightParen => Ok((names, c1)),
            Token::Comma => match c1.next() {
                None => Err(c1.fails(c1.eof())),
                Some((token, c2)) => match token {
                    Token::Identifier(name) => params_loop(
                        c2,
                        names.push(IdenView { iden: name@, span: c2.span }),
                    ),
                    _ => Err(c2.fails(c2.unexpected(token, c2.span.start))),
                },
            },
            _ => Err(c1.fails(c1.unexpected(token, c1.span.start))),
        },
    }
}

/// The arguments of a call after the opening parenthesis. `args` are the
/// arguments that a comma has closed, `buf` is what has been read of the
/// current one. A comma may not come before anything has been read of an
/// argument; the closing parenthesis may.
pub open spec fn call_loop(c: Cursor, args: Seq<ExprView>, buf: Option<ExprView>) -> Parsed<
    Seq<ExprView>,
>
    decreases c.rest.len(),
{
    match c.next() {
        None => Err(c.fails(c.eof())),
        Some((token, c1)) => match token {
            Token::RightParen => Ok(
                (
                    match buf {
                        Some(e) => args.push(e),
                        None => args,
                    },
                    c1,
                ),
            ),
            Token::Comma => match buf {
                Some(e) => call_loop(c1, args.push(e), None),
                None => Err(c1.fails(c1.unexpected(token, c1.span.start))),
            },
            _ => match bounded(parse_expr(c1, token, buf), c1) {
                Ok((e, c2)) => call_loop(c2, args, Some(e)),
                Err(e) => Err(e),
            },
        },
    }
}

/// A call of `iden`, whose opening parenthesis has just been pulled.
pub open spec fn functio_call_flow(c: Cursor, iden: IdenView) -> Parsed<StmtKindView> {
    match call_loop(c, Seq::empty(), None) {
        Ok((args, after)) => Ok((StmtKindView::Call { iden, args }, after)),
        Err(e) => Err(e),
    }
}

/// The rest of a statement that began with an expression, of which `buf` has
/// been read: `print` prints it, an opening parenthesis after a bare variable
/// calls it, anything else goes on with the expression. A semicolon closes
/// the statement. An opening parenthesis after anything but a bare variable
/// is an error.
pub open spec fn value_loop(c: Cursor, buf: ExprView) -> Parsed<StmtKindView>
    decreases c.rest.len(),
{
    match c.next() {
        None => Err(c.fails(c.eof())),
        Some((token, c1)) => match token {
            Token::Print => semi_terminated(c1, StmtKindView::Print(buf)),
            Token::LeftParen => match buf.kind {
                ExprKindView::Variable(name) => match functio_call_flow(
                    c1,
                    IdenView { iden: name, span: buf.span },
                ) {
                    Ok((call, c2)) => semi_terminated(c2, call),
                    Err(e) => Err(e),
                },
                _ => Err(c1.fails(c1.unexpected(token, c1.span.start))),
            },
            _ => match bounded(parse_expr(c1, token, Some(buf)), c1) {
                Ok((e, c2)) => value_loop(c2, e),
                Err(e) => Err(e),
            },
        },
    }
}

/// A statement that begins with an expression, whose first token `init` has
/// just been pulled: a print statement or a call.
pub open spec fn value_flow(c: Cursor, init: Token) -> Parsed<StmtKindView> {
    match parse_expr(c, init, None) {
        Ok((e, c1)) => value_loop(c1, e),
        Err(e) => Err(e),
    }
}

/// A declaration after `var`: a name, then a semicolon or an equals sign and
/// an expression up to a semicolon.
pub open spec fn var_flow(c: Cursor) -> Parsed<StmtKindView> {
    match get_iden(c) {
        Ok((iden, c1)) => match c1.next() {
            None => Err(c1.fails(c1.eof())),
            Some((token, c2)) => match token {
                Token::Equal => match expr_flow(c2, Token::Semicolon) {
                    Ok((e, after)) => Ok((StmtKindView::Var { iden, init: Some(e) }, after)),
                    Err(e) => Err(e),
                },
                Token::Semicolon => Ok((StmtKindView::Var { iden, init: None }, c2)),
                _ => Err(c2.fails(c2.unexpected(token, c2.span.start))),
            },
        },
        Err(e) => Err(e),
    }
}

/// A statement that is complete but for its semicolon.
pub open spec fn semi_terminated(c: Cursor, kind: StmtKindView) -> Parsed<StmtKindView> {
    match require(c, Token::Semicolon) {
        Ok((_, after)) => Ok((kind, after)),
        Err(e) => Err(e),
    }
}

/// A curse after `melo`: a name and a semicolon.
pub open spec fn melo_flow(c: Cursor) -> Parsed<StmtKindView> {
    match get_iden(c) {
        Ok((iden, c1)) => semi_terminated(c1, StmtKindView::Melo(iden)),
        Err(e) => Err(e),
    }
}

/// The statement that begins with `token`, which has just been pulled.
pub open spec fn parse(c: Cursor, token: Token) -> Parsed<StmtView>
    decreases c.rest.len(), 3int,
{
    let start = c.span.start;
    let kind = match token {
        Token::If => if_flow(c),
        Token::Functio => functio_flow(c),
        Token::Var => var_flow(c),
        Token::Melo => melo_flow(c),
        Token::Loop => loop_flow(c),
        Token::Break => semi_terminated(c, StmtKindView::Break),
        Token::HopBack => semi_terminated(c, StmtKindView::HopBack),
        Token::Identifier(_)
        | Token::Char
        | Token::String(_)
        | Token::Integer(_)
        | Token::Abool(_)
        | Token::Bool(_)
        | Token::LeftParen => value_flow(c, token),
        _ => Err(c.fails(c.unexpected(token, start))),
    };
    match kind {
        Ok((kind, after)) => Ok((StmtView { kind, span: after.since(start) }, after)),
        Err(e) => Err(e),
    }
}

/// A conditional after `if`: a condition in parentheses and a block.
pub open spec fn if_flow(c: Cursor) -> Parsed<StmtKindView>
    decreases c.rest.len(), 2int,
{
    match require(c, Token::LeftParen) {
        Ok((_, c1)) => match bounded(expr_flow(c1, Token::RightParen), c1) {
            Ok((cond, c2)) => match get_block(c2) {
                Ok((body, after)) => Ok((StmtKindView::If { cond, body }, after)),
                Err(e) => Err(e),
            },
            Err(e) => Err(e),
        },
        Err(e) => Err(e),
    }
}

/// A function definition after `functio`: a name, the parameter names in
/// parentheses, and a block.
pub open spec fn functio_flow(c: Cursor) -> Parsed<StmtKindView>
    decreases c.rest.len(), 2int,
{
    match get_iden(c) {
        Ok((iden, c1)) => match require(c1, Token::LeftParen) {
            Ok((_, c2)) => match bounded(params_flow(c2), c2) {
                Ok((args, c3)) => match get_block(c3) {
                    Ok((body, after)) => Ok((StmtKindView::Functio { iden, args, body }, after)),
                    Err(e) => Err(e),
                },
                Err(e) => Err(e),
            },
            Err(e) => Err(e),
        },
        Err(e) => Err(e),
    }
}

/// A loop after `loop`: a block and no condition.
pub open spec fn loop_flow(c: Cursor) -> Parsed<StmtKindView>
    decreases c.rest.len(), 2int,
{
    match get_block(c) {
        Ok((body, after)) => Ok((StmtKindView::Loop { body }, after)),
        Err(e) => Err(e),
    }
}

/// A block: statements between curly braces, in their order.
pub open spec fn get_block(c: Cursor) -> Parsed<Seq<StmtView>>
    decreases c.rest.len(), 1int,
{
    match require(c, Token::LeftCurly) {
        Ok((_, c1)) => block_loop(c1, Seq::empty()),
        Err(e) => Err(e),
    }
}

/// The rest of a block of which the statements `block` have been read.
pub open spec fn block_loop(c: Cursor, block: Seq<StmtView>) -> Parsed<Seq<StmtView>>
    decreases c.rest.len(), 0int,
{
    match c.next() {
        None => Err(c.fails(c.eof())),
        Some((token, c1)) => match token {
            Token::RightCurly => Ok((block, c1)),
            _ => match bounded(parse(c1, token), c1) {
                Ok((stmt, c2)) => block_loop(c2, block.push(stmt)),
                Err(e) => Err(e),
            },
        },
    }
}

/// The rest of a program of which the statements `ast` have been read: one
/// statement after the other until the tokens run out.
pub open spec fn program_loop(c: Cursor, ast: Seq<StmtView>) -> Parsed<Seq<StmtView>>
    decreases c.rest.len(),
{
    match c.next() {
        None => Ok((ast, c)),
        Some((token, c1)) => match bounded(parse(c1, token), c1) {
            Ok((stmt, c2)) => program_loop(c2, ast.push(stmt)),
            Err(e) => Err(e),
        },
    }
}

/// The program that a stream of tokens denotes, with the state at its end,
/// or the first failure in it.
pub open spec fn program(c: Cursor) -> Parsed<Seq<StmtView>> {
    program_loop(c, Seq::empty())
}

} // verus!
