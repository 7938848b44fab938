//! The parser: recursive descent over a stream of tokens.

use vstd::prelude::*;
use crate::ast::{
    expr_view, exprs_view, idens_view, stmts_view, BinOpKind, Block, Expr, ExprKind, ExprView,
    Iden, Span, Stmt, StmtKind,
};
use crate::error::{Error, ErrorKind};
use crate::grammar::{self, Cursor, Parsed};
use crate::spans::{error_in, in_order, lemma_program_spans, stmts_in};
use crate::token::{Lexeme, Token};
use crate::variables::Value;

verus! {

/// A parser over the tokens of one source text. It pulls the tokens one by
/// one and never looks back at one it has pulled.
pub struct Parser {
    /// The tokens still to come, the next one last.
    rest: Vec<Lexeme>,
    /// The span of the token pulled last.
    span: Span,
}

impl View for Parser {
    type V = Cursor;

    closed spec fn view(&self) -> Cursor {
        Cursor {
            rest: Seq::new(self.rest@.len(), |i: int| self.rest@[self.rest@.len() - 1 - i]),
            span: self.span,
        }
    }
}

/// That an executable result and the state it left are what the grammar
/// says: on success the tree's view and the state, and a state that holds no
/// more tokens than before; on failure the error and the state at which it
/// was detected.
pub open spec fn yields<T: View>(
    result: Result<T, Error>,
    after: Cursor,
    before: Cursor,
    expected: Parsed<T::V>,
) -> bool {
    match expected {
        Ok((tree, c)) => {
            &&& result matches Ok(t)
            &&& t@ == tree
            &&& after == c
            &&& after.rest.len() <= before.rest.len()
        },
        Err(failure) => result == Err::<T, Error>(failure.error) && after == failure.at,
    }
}

/// What an expression holds, if there is one.
pub open spec fn option_view(e: Option<Expr>) -> Option<ExprView> {
    match e {
        Some(e) => Some(e@),
        None => None,
    }
}

impl Parser {
    /// A parser at the start of `tokens`.
    pub fn new(tokens: Vec<Lexeme>) -> (parser: Parser)
        ensures
            parser@ == Cursor::start(tokens@),
    {
        let mut tokens = tokens;
        let ghost all = tokens@;
        let mut rest: Vec<Lexeme> = Vec::new();
        while tokens.len() > 0
            invariant
                tokens@ == all.take(tokens@.len() as int),
                rest@.len() + tokens@.len() == all.len(),
                forall|j: int| 0 <= j < rest@.len() ==> rest@[j] == all[all.len() - 1 - j],
            decreases tokens@.len(),
        {
            let lexeme = tokens.pop().unwrap();
            rest.push(lexeme);
        }
        let parser = Parser { rest, span: Span::new(0, 0) };
        assert(parser@.rest =~= all);
        parser
    }

    /// Pulls one token.
    fn next(&mut self) -> (token: Option<Token>)
        ensures
            match old(self)@.next() {
                None => token is None && final(self)@ == old(self)@,
                Some((t, after)) => token == Some(t) && final(self)@ == after,
            },
    {
        match self.rest.pop() {
            None => None,
            Some(lexeme) => {
                self.span = lexeme.span;
                assert(self@.rest =~= old(self)@.rest.skip(1));
                Some(lexeme.token)
            },
        }
    }

    fn eof(&self) -> (e: Error)
        ensures
            e == self@.eof(),
    {
        Error::unexpected_eof(self.span.end)
    }

    fn unexpected(&self, token: Token) -> (e: Error)
        ensures
            e == self@.unexpected(token, self@.span.start),
    {
        Error::new(ErrorKind::UnexpectedToken(token), self.span)
    }

    /// Requires the next token to be `expected`.
    fn require(&mut self, expected: Token) -> (r: Result<(), Error>)
        ensures
            yields(r, final(self)@, old(self)@, grammar::require(old(self)@, expected)),
    {
        match self.next() {
            Some(t) => if t == expected {
                Ok(())
            } else {
                Err(self.unexpected(t))
            },
            None => Err(self.eof()),
        }
    }

    /// Requires a statement to be closed by a semicolon.
    fn semi_terminated(&mut self, stmt_kind: StmtKind) -> (r: Result<StmtKind, Error>)
        ensures
            yields(
                r,
                final(self)@,
                old(self)@,
                grammar::semi_terminated(old(self)@, stmt_kind@),
            ),
    {
        match self.require(Token::Semicolon) {
            Ok(_) => Ok(stmt_kind),
            Err(e) => Err(e),
        }
    }

    /// Pulls an identifier.
    fn get_iden(&mut self) -> (r: Result<Iden, Error>)
        ensures
            yields(r, final(self)@, old(self)@, grammar::get_iden(old(self)@)),
    {
        match self.next() {
            None => Err(self.eof()),
            Some(Token::Identifier(iden)) => Ok(Iden::new(iden, self.span)),
            Some(t) => Err(self.unexpected(t)),
        }
    }

    /// Parses one operand of an expression, which begins with `token`. An
    /// operator that finds the buffer empty, and a token that begins no
    /// operand, fail at once: no further token is pulled.
    fn parse_expr(&mut self, token: Token, buf: Option<Expr>) -> (r: Result<Expr, Error>)
        ensures
            yields(
                r,
                final(self)@,
                old(self)@,
                grammar::parse_expr(old(self)@, token, option_view(buf)),
            ),
            grammar::binop_of(token) is Some && buf is None ==> r is Err && final(self)@ == old(
                self,
            )@,
            !grammar::begins_operand(token) ==> r is Err && final(self)@ == old(self)@,
        decreases old(self)@.rest.len(), 2int,
    {
        proof {
            reveal_with_fuel(expr_view, 3);
        }
        let start = self.span.start;
        match token {
            Token::Identifier(i) => Ok(
                Expr::new(ExprKind::Variable(i), Span::new(start, self.span.end)),
            ),
            Token::Abool(a) => Ok(
                Expr::new(ExprKind::Literal(Value::Abool(a)), Span::new(start, self.span.end)),
            ),
            Token::Bool(b) => Ok(
                Expr::new(ExprKind::Literal(Value::Bool(b)), Span::new(start, self.span.end)),
            ),
            Token::Integer(i) => Ok(
                Expr::new(ExprKind::Literal(Value::Int(i)), Span::new(start, self.span.end)),
            ),
            Token::String(s) => Ok(
                Expr::new(ExprKind::Literal(Value::Str(s)), Span::new(start, self.span.end)),
            ),
            Token::Nul => Ok(
                Expr::new(ExprKind::Literal(Value::Nul), Span::new(start, self.span.end)),
            ),
            Token::Plus
            | Token::Minus
            | Token::Star
            | Token::FwdSlash
            | Token::EqualEqual
            | Token::NotEqual
            | Token::LessThan
            | Token::GreaterThan
            | Token::And
            | Token::Or => {
                let op = match BinOpKind::from_token(token) {
                    Ok(op) => op,
                    Err(e) => {
                        return Err(Error::new(e, self.span));
                    },
                };
                match self.binop_flow(op, buf) {
                    Ok(kind) => Ok(Expr::new(kind, Span::new(start, self.span.end))),
                    Err(e) => Err(e),
                }
            },
            Token::Not => match self.next() {
                None => Err(self.eof()),
                Some(next) => match self.parse_expr(next, buf) {
                    Ok(e) => Ok(
                        Expr::new(ExprKind::Not(Box::new(e)), Span::new(start, self.span.end)),
                    ),
                    Err(e) => Err(e),
                },
            },
            Token::LeftParen => self.expr_flow(Token::RightParen),
            t => Err(Error::new(ErrorKind::UnexpectedToken(t), Span::new(start, self.span.end))),
        }
    }

    /// Builds a binary operation from the buffer as its left operand and the
    /// next operand as its right one. There is no precedence. With an empty
    /// buffer it fails at once: no further token is pulled.
    fn binop_flow(&mut self, kind: BinOpKind, lhs: Option<Expr>) -> (r: Result<ExprKind, Error>)
        ensures
            yields(
                r,
                final(self)@,
                old(self)@,
                grammar::binop_flow(old(self)@, kind, option_view(lhs)),
            ),
            lhs is None ==> r is Err && final(self)@ == old(self)@,
        decreases old(self)@.rest.len(), 1int,
    {
        let lhs = match lhs {
            Some(lhs) => lhs,
            None => {
                return Err(Error::new(ErrorKind::MissingLhs, self.span));
            },
        };
        match self.next() {
            None => Err(self.eof()),
            Some(next) => match self.parse_expr(next, None) {
                Ok(rhs) => Ok(ExprKind::BinOp { lhs: Box::new(lhs), rhs: Box::new(rhs), kind }),
                Err(e) => Err(e),
            },
        }
    }

    /// Parses an expression up to the token `terminate`.
    fn expr_flow(&mut self, terminate: Token) -> (r: Result<Expr, Error>)
        ensures
            yields(r, final(self)@, old(self)@, grammar::expr_flow(old(self)@, terminate)),
        decreases old(self)@.rest.len(), 1int,
    {
        let mut buf: Option<Expr> = None;
        loop
            invariant
                self@.rest.len() <= old(self)@.rest.len(),
                grammar::expr_loop(self@, terminate, option_view(buf)) == grammar::expr_flow(
                    old(self)@,
                    terminate,
                ),
            decreases self@.rest.len(),
        {
            match self.next() {
                None => {
                    return Err(self.eof());
                },
                Some(t) => if t == terminate {
                    match buf {
                        Some(e) => {
                            return Ok(e);
                        },
                        None => {
                            return Err(self.unexpected(t));
                        },
                    }
                } else {
                    match self.parse_expr(t, buf) {
                        Ok(e) => {
                            buf = Some(e);
                        },
                        Err(e) => {
                            return Err(e);
                        },
                    }
                },
            }
        }
    }

    /// Parses the statements between curly braces.
    fn get_block(&mut self) -> (r: Result<Block, Error>)
        ensures
            yields(r, final(self)@, old(self)@, grammar::get_block(old(self)@)),
        decreases old(self)@.rest.len(), 1int,
    {
        match self.require(Token::LeftCurly) {
            Ok(_) => {},
            Err(e) => {
                return Err(e);
            },
        }
        let mut block: Vec<Stmt> = Vec::new();
        assert(stmts_view(block) =~= Seq::empty());
        loop
            invariant
                self@.rest.len() < old(self)@.rest.len(),
                grammar::block_loop(self@, stmts_view(block)) == grammar::get_block(old(self)@),
            decreases self@.rest.len(),
        {
            match self.next() {
                None => {
                    return Err(self.eof());
                },
                Some(Token::RightCurly) => {
                    return Ok(Block { block });
                },
                Some(t) => match self.parse(t) {
                    Ok(stmt) => {
                        let ghost before = stmts_view(block);
                        block.push(stmt);
                        assert(stmts_view(block) =~= before.push(stmt@));
                    },
                    Err(e) => {
                        return Err(e);
                    },
                },
            }
        }
    }

    /// Parses a statement that begins with a value: a print statement or a
    /// call.
    fn value_flow(&mut self, init: Token) -> (r: Result<StmtKind, Error>)
        ensures
            yields(r, final(self)@, old(self)@, grammar::value_flow(old(self)@, init)),
    {
        let mut buf = match self.parse_expr(init, None) {
            Ok(e) => e,
            Err(e) => {
                return Err(e);
            },
        };
        loop
            invariant
                self@.rest.len() <= old(self)@.rest.len(),
                grammar::value_loop(self@, buf@) == grammar::value_flow(old(self)@, init),
            decreases self@.rest.len(),
        {
            match self.next() {
                None => {
                    return Err(self.eof());
                },
                Some(Token::Print) => {
                    return self.semi_terminated(StmtKind::Print(buf));
                },
                Some(Token::LeftParen) => {
                    return match buf {
                        Expr { kind: ExprKind::Variable(iden), span } => {
                            match self.functio_call_flow(Iden::new(iden, span)) {
                                Ok(call) => self.semi_terminated(call),
                                Err(e) => Err(e),
                            }
                        },
                        _ => Err(self.unexpected(Token::LeftParen)),
                    };
                },
                Some(t) => match self.parse_expr(t, Some(buf)) {
                    Ok(e) => {
                        buf = e;
                    },
                    Err(e) => {
                        return Err(e);
                    },
                },
            }
        }
    }

    /// Parses a conditional: a condition and a block. There is no else.
    fn if_flow(&mut self) -> (r: Result<StmtKind, Error>)
        ensures
            yields(r, final(self)@, old(self)@, grammar::if_flow(old(self)@)),
        decreases old(self)@.rest.len(), 2int,
    {
        match self.require(Token::LeftParen) {
            Ok(_) => {},
            Err(e) => {
                return Err(e);
            },
        }
        let cond = match self.expr_flow(Token::RightParen) {
            Ok(cond) => cond,
            Err(e) => {
                return Err(e);
            },
        };
        match self.get_block() {
            Ok(body) => Ok(StmtKind::If { cond, body }),
            Err(e) => Err(e),
        }
    }

    /// Parses the parameter names of a function definition up to the closing
    /// parenthesis.
    fn params_flow(&mut self) -> (r: Result<Vec<Iden>, Error>)
        ensures
            match grammar::params_flow(old(self)@) {
                Ok((names, c)) => {
                    &&& r matches Ok(args)
                    &&& idens_view(args@) == names
                    &&& final(self)@ == c
                    &&& final(self)@.rest.len() <= old(self)@.rest.len()
                },
                Err(failure) => {
                    &&& r == Err::<Vec<Iden>, Error>(failure.error)
                    &&& final(self)@ == failure.at
                },
            },
    {
        let mut args: Vec<Iden> = Vec::new();
        match self.next() {
            None => {
                return Err(self.eof());
            },
            Some(Token::RightParen) => {
                assert(idens_view(args@) =~= Seq::empty());
                return Ok(args);
            },
            Some(Token::Identifier(i)) => {
                args.push(Iden::new(i, self.span));
                assert(idens_view(args@) =~= seq![args@[0]@]);
            },
            Some(t) => {
                return Err(self.unexpected(t));
            },
        }
        loop
            invariant
                self@.rest.len() <= old(self)@.rest.len(),
                grammar::params_loop(self@, idens_view(args@)) == grammar::params_flow(old(self)@),
            decreases self@.rest.len(),
        {
            match self.next() {
                None => {
                    return Err(self.eof());
                },
                Some(Token::RightParen) => {
                    return Ok(args);
                },
                Some(Token::Comma) => match self.next() {
                    None => {
                        return Err(self.eof());
                    },
                    Some(Token::Identifier(i)) => {
                        let ghost before = idens_view(args@);
                        let iden = Iden::new(i, self.span);
                        args.push(iden);
                        assert(idens_view(args@) =~= before.push(iden@));
                    },
                    Some(t) => {
                        return Err(self.unexpected(t));
                    },
                },
                Some(t) => {
                    return Err(self.unexpected(t));
                },
            }
        }
    }

    /// Parses a function definition: a name, parameter names in parentheses,
    /// and a block.
    fn functio_flow(&mut self) -> (r: Result<StmtKind, Error>)
        ensures
            yields(r, final(self)@, old(self)@, grammar::functio_flow(old(self)@)),
        decreases old(self)@.rest.len(), 2int,
    {
        let iden = match self.get_iden() {
            Ok(iden) => iden,
            Err(e) => {
                return Err(e);
            },
        };
        match self.require(Token::LeftParen) {
            Ok(_) => {},
            Err(e) => {
                return Err(e);
            },
        }
        let args = match self.params_flow() {
            Ok(args) => args,
            Err(e) => {
                return Err(e);
            },
        };
        match self.get_block() {
            Ok(body) => Ok(StmtKind::Functio { iden, args, body }),
            Err(e) => Err(e),
        }
    }

    /// Parses the arguments of a call of `iden` up to the closing
    /// parenthesis.
    fn functio_call_flow(&mut self, iden: Iden) -> (r: Result<StmtKind, Error>)
        ensures
            yields(r, final(self)@, old(self)@, grammar::functio_call_flow(old(self)@, iden@)),
    {
        let mut args: Vec<Expr> = Vec::new();
        let mut buf: Option<Expr> = None;
        assert(exprs_view(args) =~= Seq::empty());
        loop
            invariant
                self@.rest.len() <= old(self)@.rest.len(),
                grammar::call_loop(self@, exprs_view(args), option_view(buf)) == grammar::call_loop(
                    old(self)@,
                    Seq::empty(),
                    None,
                ),
            decreases self@.rest.len(),
        {
            match self.next() {
                None => {
                    return Err(self.eof());
                },
                Some(Token::RightParen) => {
                    match buf {
                        Some(expr) => {
                            let ghost before = exprs_view(args);
                            args.push(expr);
                            assert(exprs_view(args) =~= before.push(expr@));
                        },
                        None => {},
                    }
                    return Ok(StmtKind::Call { iden, args });
                },
                Some(Token::Comma) => match buf {
                    Some(expr) => {
                        let ghost before = exprs_view(args);
                        args.push(expr);
                        assert(exprs_view(args) =~= before.push(expr@));
                        buf = None;
                    },
                    None => {
                        return Err(self.unexpected(Token::Comma));
                    },
                },
                Some(t) => match self.parse_expr(t, buf) {
                    Ok(e) => {
                        buf = Some(e);
                    },
                    Err(e) => {
                        return Err(e);
                    },
                },
            }
        }
    }

    /// Parses a variable declaration.
    fn var_flow(&mut self) -> (r: Result<StmtKind, Error>)
        ensures
            yields(r, final(self)@, old(self)@, grammar::var_flow(old(self)@)),
    {
        let iden = match self.get_iden() {
            Ok(iden) => iden,
            Err(e) => {
                return Err(e);
            },
        };
        let init = match self.next() {
            None => {
                return Err(self.eof());
            },
            Some(Token::Equal) => match self.expr_flow(Token::Semicolon) {
                Ok(e) => Some(e),
                Err(e) => {
                    return Err(e);
                },
            },
            Some(Token::Semicolon) => None,
            Some(t) => {
                return Err(self.unexpected(t));
            },
        };
        Ok(StmtKind::Var { iden, init })
    }

    /// Parses a curse.
    fn melo_flow(&mut self) -> (r: Result<StmtKind, Error>)
        ensures
            yields(r, final(self)@, old(self)@, grammar::melo_flow(old(self)@)),
    {
        let iden = match self.get_iden() {
            Ok(iden) => iden,
            Err(e) => {
                return Err(e);
            },
        };
        self.semi_terminated(StmtKind::Melo(iden))
    }

    /// Parses a loop: a body and no condition.
    fn loop_flow(&mut self) -> (r: Result<StmtKind, Error>)
        ensures
            yields(r, final(self)@, old(self)@, grammar::loop_flow(old(self)@)),
        decreases old(self)@.rest.len(), 2int,
    {
        match self.get_block() {
            Ok(body) => Ok(StmtKind::Loop { body }),
            Err(e) => Err(e),
        }
    }

    /// Parses the statement that begins with `token`, by the production that
    /// the token selects. A token that selects none fails at once: no further
    /// token is pulled.
    fn parse(&mut self, token: Token) -> (r: Result<Stmt, Error>)
        ensures
            yields(r, final(self)@, old(self)@, grammar::parse(old(self)@, token)),
            !grammar::begins_statement(token) ==> r is Err && final(self)@ == old(self)@,
        decreases old(self)@.rest.len(), 3int,
    {
        let start = self.span.start;
        let kind = match token {
            Token::If => self.if_flow(),
            Token::Functio => self.functio_flow(),
            Token::Var => self.var_flow(),
            Token::Melo => self.melo_flow(),
            Token::Loop => self.loop_flow(),
            Token::Break => self.semi_terminated(StmtKind::Break),
            Token::HopBack => self.semi_terminated(StmtKind::HopBack),
            Token::Identifier(_)
            | Token::Char
            | Token::String(_)
            | Token::Integer(_)
            | Token::Abool(_)
            | Token::Bool(_)
            | Token::LeftParen => self.value_flow(token),
            t => Err(Error::new(ErrorKind::UnexpectedToken(t), Span::new(start, self.span.end))),
        };
        match kind {
            Ok(kind) => Ok(Stmt::new(kind, Span::new(start, self.span.end))),
            Err(e) => Err(e),
        }
    }

    /// Parses the whole stream: statement after statement until the tokens
    /// run out. The first malformed construct ends the parse with its error,
    /// and nothing of what was read before is handed out; the parser stops at
    /// the state at which the error was detected and pulls no further token,
    /// so a later call goes on from there. Where the tokens
    /// lie in order in the source, so do the statements and all their nodes,
    /// and the error, if there is one, lies within the source.
    pub fn init(&mut self) -> (r: Result<Vec<Stmt>, Error>)
        ensures
            match grammar::program(old(self)@) {
                Ok((program, end)) => {
                    &&& r matches Ok(ast)
                    &&& stmts_view(ast) == program
                    &&& final(self)@ == end
                    &&& final(self)@.rest.len() == 0
                },
                Err(failure) => {
                    &&& r == Err::<Vec<Stmt>, Error>(failure.error)
                    &&& final(self)@ == failure.at
                },
            },
            forall|bound: int| #[trigger]
                in_order(old(self)@, bound) ==> match r {
                    Ok(ast) => stmts_in(stmts_view(ast), 0, bound),
                    Err(e) => error_in(e, bound),
                },
    {
        let mut ast: Vec<Stmt> = Vec::new();
        assert(stmts_view(ast) =~= Seq::empty());
        loop
            invariant
                grammar::program_loop(self@, stmts_view(ast)) == grammar::program(old(self)@),
            decreases self@.rest.len(),
        {
            match self.next() {
                None => {
                    proof {
                        assert forall|bound: int| #[trigger]
                            in_order(old(self)@, bound) implies stmts_in(
                            stmts_view(ast),
                            0,
                            bound,
                        ) by {
                            lemma_program_spans(old(self)@, bound);
                        }
                    }
                    return Ok(ast);
                },
                Some(token) => match self.parse(token) {
                    Ok(stmt) => {
                        let ghost before = stmts_view(ast);
                        ast.push(stmt);
                        assert(stmts_view(ast) =~= before.push(stmt@));
                    },
                    Err(e) => {
                        proof {
                            assert forall|bound: int| #[trigger]
                                in_order(old(self)@, bound) implies error_in(e, bound) by {
                                lemma_program_spans(old(self)@, bound);
                            }
                        }
                        return Err(e);
                    },
                },
            }
        }
    }
}

} // verus!
