//! What holds of the grammar as a whole: productions only ever pull tokens,
//! operators group to the left whatever they are, an operator without a left
//! operand is an error, a failure stops the parse where it was detected, and
//! a program is the row of its statements.

use vstd::prelude::*;
use crate::ast::{BinOpKind, ExprKindView, ExprView, IdenView, Span, StmtKindView, StmtView};
use crate::error::{Error, ErrorKind};
use crate::grammar::{
    atom_of, begins_operand, begins_statement, binop_of, binop_flow, block_loop, bounded,
    call_loop, expr_flow, expr_loop,
    functio_call_flow, functio_flow, get_block, get_iden, if_flow, loop_flow, melo_flow,
    params_flow, params_loop, parse, parse_expr, program, program_loop, require, semi_terminated,
    value_flow, value_loop, var_flow, Cursor, Failure, Parsed,
};
use crate::token::{Lexeme, Token};

verus! {

/// That a result left a state that follows `before`: the state after a
/// success, or the state at which a failure was detected.
pub open spec fn pulls<T>(result: Parsed<T>, before: Cursor) -> bool {
    match result {
        Ok((_, after)) => after.follows(before),
        Err(failure) => failure.at.follows(before),
    }
}

/// Pulling tokens and then pulling more is pulling tokens.
pub proof fn lemma_follows_is_transitive(last: Cursor, middle: Cursor, first: Cursor)
    requires
        last.follows(middle),
        middle.follows(first),
    ensures
        last.follows(first),
{
    let i = middle.rest.len() - last.rest.len();
    let j = first.rest.len() - middle.rest.len();
    assert(first.rest.skip(j).skip(i) =~= first.rest.skip(i + j));
}

/// A state follows itself, and the state after one pull follows the state
/// before it.
pub proof fn lemma_next_follows(c: Cursor)
    ensures
        c.follows(c),
        c.next() matches Some((_, after)) ==> after.follows(c) && after.rest.len() < c.rest.len(),
{
    assert(c.rest.skip(0) =~= c.rest);
}

/// A result that only pulled tokens passes [`bounded`] as it is.
pub proof fn lemma_pulling_is_bounded<T>(result: Parsed<T>, before: Cursor)
    requires
        pulls(result, before),
    ensures
        bounded(result, before) == result,
{
}

proof fn lemma_then<T>(result: Parsed<T>, middle: Cursor, first: Cursor)
    requires
        pulls(result, middle),
        middle.follows(first),
    ensures
        pulls(result, first),
        bounded(result, middle) == result,
{
    match result {
        Ok((_, after)) => lemma_follows_is_transitive(after, middle, first),
        Err(failure) => lemma_follows_is_transitive(failure.at, middle, first),
    }
}

/// Requiring a token only pulls tokens: the state after it follows the
/// state before.
pub proof fn lemma_require_only_pulls(c: Cursor, expected: Token)
    ensures
        pulls(require(c, expected), c),
{
    lemma_next_follows(c);
}

/// Pulling an identifier only pulls tokens: the state after it follows the
/// state before.
pub proof fn lemma_get_iden_only_pulls(c: Cursor)
    ensures
        pulls(get_iden(c), c),
{
    lemma_next_follows(c);
}

/// An operand only pulls tokens: the state after it follows the
/// state before.
pub proof fn lemma_parse_expr_only_pulls(c: Cursor, token: Token, buf: Option<ExprView>)
    ensures
        pulls(parse_expr(c, token, buf), c),
    decreases c.rest.len(), 2int,
{
    lemma_next_follows(c);
    if atom_of(token) is Some {
    } else if let Some(op) = binop_of(token) {
        lemma_binop_flow_only_pulls(c, op, buf);
    } else if token is Not {
        if let Some((operand, c1)) = c.next() {
            lemma_parse_expr_only_pulls(c1, operand, buf);
            lemma_then(parse_expr(c1, operand, buf), c1, c);
        }
    } else if token is LeftParen {
        lemma_expr_loop_only_pulls(c, Token::RightParen, None);
        assert(expr_flow(c, Token::RightParen) == expr_loop(c, Token::RightParen, None));
    }
}

/// A binary operation only pulls tokens: the state after it follows the
/// state before.
pub proof fn lemma_binop_flow_only_pulls(c: Cursor, kind: BinOpKind, lhs: Option<ExprView>)
    ensures
        pulls(binop_flow(c, kind, lhs), c),
    decreases c.rest.len(), 1int,
{
    lemma_next_follows(c);
    if lhs is Some {
        if let Some((operand, c1)) = c.next() {
            lemma_parse_expr_only_pulls(c1, operand, None);
            lemma_then(parse_expr(c1, operand, None), c1, c);
        }
    }
}

/// The rest of an expression only pulls tokens: the state after it follows the
/// state before.
pub proof fn lemma_expr_loop_only_pulls(c: Cursor, terminate: Token, buf: Option<ExprView>)
    ensures
        pulls(expr_loop(c, terminate, buf), c),
    decreases c.rest.len(), 0int,
{
    lemma_next_follows(c);
    if let Some((token, c1)) = c.next() {
        if !token.same_as(terminate) {
            lemma_parse_expr_only_pulls(c1, token, buf);
            lemma_then(parse_expr(c1, token, buf), c1, c);
            if let Ok((e, c2)) = parse_expr(c1, token, buf) {
                lemma_expr_loop_only_pulls(c2, terminate, Some(e));
                lemma_then(expr_loop(c2, terminate, Some(e)), c2, c);
            }
        }
    }
}

/// An expression only pulls tokens: the state after it follows the
/// state before.
pub proof fn lemma_expr_flow_only_pulls(c: Cursor, terminate: Token)
    ensures
        pulls(expr_flow(c, terminate), c),
{
    lemma_expr_loop_only_pulls(c, terminate, None);
}

/// A parameter list only pulls tokens: the state after it follows the
/// state before.
pub proof fn lemma_params_only_pull(c: Cursor)
    ensures
        pulls(params_flow(c), c),
{
    lemma_next_follows(c);
    if let Some((token, c1)) = c.next() {
        if let Token::Identifier(name) = token {
            let names = seq![IdenView { iden: name@, span: c1.span }];
            lemma_params_loop_only_pulls(c1, names);
            lemma_then(params_loop(c1, names), c1, c);
        }
    }
}

proof fn lemma_params_loop_only_pulls(c: Cursor, names: Seq<IdenView>)
    ensures
        pulls(params_loop(c, names), c),
    decreases c.rest.len(),
{
    lemma_next_follows(c);
    match c.next() {
        None => {},
        Some((token, c1)) => match token {
            Token::RightParen => {},
            Token::Comma => {
                lemma_next_follows(c1);
                if let Some((_, c2)) = c1.next() {
                    lemma_follows_is_transitive(c2, c1, c);
                }
                match c1.next() {
                    None => {},
                    Some((token, c2)) => match token {
                        Token::Identifier(name) => {
                            let more = names.push(IdenView { iden: name@, span: c2.span });
                            lemma_params_loop_only_pulls(c2, more);
                            lemma_then(params_loop(c2, more), c2, c);
                        },
                        _ => {},
                    },
                }
            },
            _ => {},
        },
    }
}

proof fn lemma_call_loop_only_pulls(c: Cursor, args: Seq<ExprView>, buf: Option<ExprView>)
    ensures
        pulls(call_loop(c, args, buf), c),
    decreases c.rest.len(),
{
    lemma_next_follows(c);
    if let Some((token, c1)) = c.next() {
        if token is RightParen {
        } else if token is Comma {
            if let Some(e) = buf {
                lemma_call_loop_only_pulls(c1, args.push(e), None);
                lemma_then(call_loop(c1, args.push(e), None), c1, c);
            }
        } else {
            lemma_parse_expr_only_pulls(c1, token, buf);
            lemma_then(parse_expr(c1, token, buf), c1, c);
            if let Ok((e, c2)) = parse_expr(c1, token, buf) {
                lemma_call_loop_only_pulls(c2, args, Some(e));
                lemma_then(call_loop(c2, args, Some(e)), c2, c);
            }
        }
    }
}

/// A call only pulls tokens: the state after it follows the
/// state before.
pub proof fn lemma_functio_call_flow_only_pulls(c: Cursor, iden: IdenView)
    ensures
        pulls(functio_call_flow(c, iden), c),
{
    lemma_call_loop_only_pulls(c, Seq::empty(), None);
}

/// Closing a statement only pulls tokens: the state after it follows the
/// state before.
pub proof fn lemma_semi_terminated_only_pulls(c: Cursor, kind: StmtKindView)
    ensures
        pulls(semi_terminated(c, kind), c),
{
    lemma_require_only_pulls(c, Token::Semicolon);
}

proof fn lemma_value_loop_only_pulls(c: Cursor, buf: ExprView)
    ensures
        pulls(value_loop(c, buf), c),
    decreases c.rest.len(),
{
    lemma_next_follows(c);
    if let Some((token, c1)) = c.next() {
        if token is Print {
            lemma_semi_terminated_only_pulls(c1, StmtKindView::Print(buf));
            lemma_then(semi_terminated(c1, StmtKindView::Print(buf)), c1, c);
        } else if token is LeftParen {
            if let ExprKindView::Variable(name) = buf.kind {
                let iden = IdenView { iden: name, span: buf.span };
                lemma_functio_call_flow_only_pulls(c1, iden);
                lemma_then(functio_call_flow(c1, iden), c1, c);
                if let Ok((call, c2)) = functio_call_flow(c1, iden) {
                    lemma_semi_terminated_only_pulls(c2, call);
                    lemma_then(semi_terminated(c2, call), c2, c);
                }
            }
        } else {
            lemma_parse_expr_only_pulls(c1, token, Some(buf));
            lemma_then(parse_expr(c1, token, Some(buf)), c1, c);
            if let Ok((e, c2)) = parse_expr(c1, token, Some(buf)) {
                lemma_value_loop_only_pulls(c2, e);
                lemma_then(value_loop(c2, e), c2, c);
            }
        }
    }
}

/// A statement that begins with a value only pulls tokens: the state after it follows the
/// state before.
pub proof fn lemma_value_flow_only_pulls(c: Cursor, init: Token)
    ensures
        pulls(value_flow(c, init), c),
{
    lemma_parse_expr_only_pulls(c, init, None);
    if let Ok((e, c1)) = parse_expr(c, init, None) {
        lemma_value_loop_only_pulls(c1, e);
        lemma_then(value_loop(c1, e), c1, c);
    }
}

/// A declaration only pulls tokens: the state after it follows the
/// state before.
pub proof fn lemma_var_flow_only_pulls(c: Cursor)
    ensures
        pulls(var_flow(c), c),
{
    lemma_get_iden_only_pulls(c);
    if let Ok((iden, c1)) = get_iden(c) {
        lemma_next_follows(c1);
        if let Some((token, c2)) = c1.next() {
            lemma_follows_is_transitive(c2, c1, c);
            if token is Equal {
                lemma_expr_flow_only_pulls(c2, Token::Semicolon);
                lemma_then(expr_flow(c2, Token::Semicolon), c2, c);
            }
        }
    }
}

/// A curse only pulls tokens: the state after it follows the
/// state before.
pub proof fn lemma_melo_flow_only_pulls(c: Cursor)
    ensures
        pulls(melo_flow(c), c),
{
    lemma_get_iden_only_pulls(c);
    if let Ok((iden, c1)) = get_iden(c) {
        lemma_semi_terminated_only_pulls(c1, StmtKindView::Melo(iden));
        lemma_then(semi_terminated(c1, StmtKindView::Melo(iden)), c1, c);
    }
}

/// A statement only pulls tokens: the state after it follows the
/// state before.
pub proof fn lemma_parse_only_pulls(c: Cursor, token: Token)
    ensures
        pulls(parse(c, token), c),
    decreases c.rest.len(), 3int,
{
    lemma_next_follows(c);
    match token {
        Token::If => lemma_if_flow_only_pulls(c),
        Token::Functio => lemma_functio_flow_only_pulls(c),
        Token::Var => lemma_var_flow_only_pulls(c),
        Token::Melo => lemma_melo_flow_only_pulls(c),
        Token::Loop => lemma_loop_flow_only_pulls(c),
        Token::Break => lemma_semi_terminated_only_pulls(c, StmtKindView::Break),
        Token::HopBack => lemma_semi_terminated_only_pulls(c, StmtKindView::HopBack),
        Token::Identifier(_)
        | Token::Char
        | Token::String(_)
        | Token::Integer(_)
        | Token::Abool(_)
        | Token::Bool(_)
        | Token::LeftParen => lemma_value_flow_only_pulls(c, token),
        _ => {},
    }
}

/// A conditional only pulls tokens: the state after it follows the
/// state before.
pub proof fn lemma_if_flow_only_pulls(c: Cursor)
    ensures
        pulls(if_flow(c), c),
    decreases c.rest.len(), 2int,
{
    lemma_require_only_pulls(c, Token::LeftParen);
    if let Ok((_, c1)) = require(c, Token::LeftParen) {
        lemma_expr_flow_only_pulls(c1, Token::RightParen);
        lemma_then(expr_flow(c1, Token::RightParen), c1, c);
        if let Ok((_, c2)) = expr_flow(c1, Token::RightParen) {
            lemma_get_block_only_pulls(c2);
            lemma_then(get_block(c2), c2, c);
        }
    }
}

/// A function definition only pulls tokens: the state after it follows the
/// state before.
pub proof fn lemma_functio_flow_only_pulls(c: Cursor)
    ensures
        pulls(functio_flow(c), c),
    decreases c.rest.len(), 2int,
{
    lemma_get_iden_only_pulls(c);
    if let Ok((_, c1)) = get_iden(c) {
        lemma_require_only_pulls(c1, Token::LeftParen);
        lemma_then(require(c1, Token::LeftParen), c1, c);
        if let Ok((_, c2)) = require(c1, Token::LeftParen) {
            lemma_params_only_pull(c2);
            lemma_then(params_flow(c2), c2, c);
            if let Ok((_, c3)) = params_flow(c2) {
                lemma_get_block_only_pulls(c3);
                lemma_then(get_block(c3), c3, c);
            }
        }
    }
}

/// A loop only pulls tokens: the state after it follows the
/// state before.
pub proof fn lemma_loop_flow_only_pulls(c: Cursor)
    ensures
        pulls(loop_flow(c), c),
    decreases c.rest.len(), 2int,
{
    lemma_get_block_only_pulls(c);
}

/// A block only pulls tokens: the state after it follows the
/// state before.
pub proof fn lemma_get_block_only_pulls(c: Cursor)
    ensures
        pulls(get_block(c), c),
    decreases c.rest.len(), 1int,
{
    lemma_require_only_pulls(c, Token::LeftCurly);
    if let Ok((_, c1)) = require(c, Token::LeftCurly) {
        lemma_block_loop_only_pulls(c1, Seq::empty());
        lemma_then(block_loop(c1, Seq::empty()), c1, c);
    }
}

proof fn lemma_block_loop_only_pulls(c: Cursor, block: Seq<StmtView>)
    ensures
        pulls(block_loop(c, block), c),
    decreases c.rest.len(), 0int,
{
    lemma_next_follows(c);
    if let Some((token, c1)) = c.next() {
        if !(token is RightCurly) {
            lemma_parse_only_pulls(c1, token);
            lemma_then(parse(c1, token), c1, c);
            if let Ok((stmt, c2)) = parse(c1, token) {
                lemma_block_loop_only_pulls(c2, block.push(stmt));
                lemma_then(block_loop(c2, block.push(stmt)), c2, c);
            }
        }
    }
}

/// An operator token with nothing read before it is an error, whatever
/// follows: the operator misses its left operand, the error lies at the
/// operator, and the parse stops there, no further token pulled.
pub proof fn lemma_operator_needs_left_operand(c: Cursor, token: Token, kind: BinOpKind)
    requires
        binop_of(token) is Some,
    ensures
        parse_expr(c, token, None) == Err::<(ExprView, Cursor), Failure>(
            c.fails(Error { kind: ErrorKind::MissingLhs, span: c.span }),
        ),
        binop_flow(c, kind, None) == Err::<(ExprKindView, Cursor), Failure>(
            c.fails(Error { kind: ErrorKind::MissingLhs, span: c.span }),
        ),
{
    assert(binop_flow(c, binop_of(token)->0, None) is Err);
}

/// A token that can begin no operand is unexpected, and the parse stops at
/// it, no further token pulled.
pub proof fn lemma_no_operand_begins_so(c: Cursor, token: Token, buf: Option<ExprView>)
    requires
        !begins_operand(token),
    ensures
        parse_expr(c, token, buf) == Err::<(ExprView, Cursor), Failure>(
            c.fails(c.unexpected(token, c.span.start)),
        ),
{
}

/// A token that selects no production for a statement is unexpected, and the
/// parse stops at it, no further token pulled.
pub proof fn lemma_no_statement_begins_so(c: Cursor, token: Token)
    requires
        !begins_statement(token),
    ensures
        parse(c, token) == Err::<(StmtView, Cursor), Failure>(
            c.fails(c.unexpected(token, c.span.start)),
        ),
{
}

/// The expression that one operator and one plain operand make of what has
/// been read so far: what has been read becomes the left operand.
pub open spec fn link(buf: ExprView, operator: Lexeme, operand: Lexeme) -> ExprView {
    ExprView {
        kind: ExprKindView::BinOp {
            lhs: Box::new(buf),
            rhs: Box::new(ExprView { kind: atom_of(operand.token)->0, span: operand.span }),
            kind: binop_of(operator.token)->0,
        },
        span: Span { start: operator.span.start, end: operand.span.end },
    }
}

/// Whether `tokens` begin with a chain of `links` pairs of a binary operator
/// and a literal or variable, followed by the terminator.
pub open spec fn is_chain(tokens: Seq<Lexeme>, links: nat, terminate: Token) -> bool
    decreases links,
{
    if links == 0 {
        tokens.len() >= 1 && tokens[0].token.same_as(terminate)
    } else {
        &&& tokens.len() >= 2
        &&& binop_of(tokens[0].token) is Some
        &&& !tokens[0].token.same_as(terminate)
        &&& atom_of(tokens[1].token) is Some
        &&& is_chain(tokens.skip(2), (links - 1) as nat, terminate)
    }
}

/// The expression that a chain denotes after `buf`: the links are folded in
/// from the left, one after the other, whatever their operators are.
pub open spec fn chain(buf: ExprView, tokens: Seq<Lexeme>, links: nat) -> ExprView
    decreases links,
{
    if links == 0 {
        buf
    } else {
        chain(link(buf, tokens[0], tokens[1]), tokens.skip(2), (links - 1) as nat)
    }
}

/// Operators group to the left, whatever they are: after `buf`, a chain of
/// operators and plain operands up to the terminator is read as the left
/// fold of its links, each operator taking all that was read before it as
/// its left operand. No operator binds tighter than another.
pub proof fn lemma_chains_group_to_the_left(
    c: Cursor,
    terminate: Token,
    buf: ExprView,
    links: nat,
)
    requires
        is_chain(c.rest, links, terminate),
    ensures
        c.rest.len() > 2 * links,
        expr_loop(c, terminate, Some(buf)) == Ok::<(ExprView, Cursor), Failure>(
            (
                chain(buf, c.rest, links),
                Cursor {
                    rest: c.rest.skip(2 * links + 1 as int),
                    span: c.rest[2 * links as int].span,
                },
            ),
        ),
    decreases links,
{
    if links > 0 {
        let (operator, c1) = c.next()->0;
        let (operand, c2) = c1.next()->0;
        let node = link(buf, c.rest[0], c.rest[1]);
        assert(c2.rest =~= c.rest.skip(2));
        assert(binop_flow(c1, binop_of(operator)->0, Some(buf)) == Ok::<
            (ExprKindView, Cursor),
            Failure,
        >((node.kind, c2))) by {
            assert(parse_expr(c2, operand, None) == Ok::<(ExprView, Cursor), Failure>(
                (ExprView { kind: atom_of(operand)->0, span: c2.span }, c2),
            ));
        }
        assert(parse_expr(c1, operator, Some(buf)) == Ok::<(ExprView, Cursor), Failure>(
            (node, c2),
        ));
        lemma_chains_group_to_the_left(c2, terminate, node, (links - 1) as nat);
        assert(c2.rest.skip(2 * (links - 1) + 1) =~= c.rest.skip(2 * links + 1 as int));
    }
}

/// An expression that begins with a plain operand and goes on as a chain is
/// the left fold of the chain after that operand. So `a + b * c` is read as
/// `(a + b) * c`.
pub proof fn lemma_expressions_group_to_the_left(c: Cursor, terminate: Token, links: nat)
    requires
        c.rest.len() >= 1,
        atom_of(c.rest[0].token) is Some,
        !c.rest[0].token.same_as(terminate),
        is_chain(c.rest.skip(1), links, terminate),
    ensures
        c.rest.len() > 2 * links + 1,
        expr_flow(c, terminate) == Ok::<(ExprView, Cursor), Failure>(
            (
                chain(
                    ExprView { kind: atom_of(c.rest[0].token)->0, span: c.rest[0].span },
                    c.rest.skip(1),
                    links,
                ),
                Cursor {
                    rest: c.rest.skip(2 * links + 2 as int),
                    span: c.rest[2 * links + 1 as int].span,
                },
            ),
        ),
{
    let (first, c1) = c.next()->0;
    let operand = ExprView { kind: atom_of(first)->0, span: c1.span };
    assert(parse_expr(c1, first, None) == Ok::<(ExprView, Cursor), Failure>((operand, c1)));
    lemma_chains_group_to_the_left(c1, terminate, operand, links);
    assert(c1.rest.skip(2 * links + 1 as int) =~= c.rest.skip(2 * links + 2 as int));
    assert(expr_loop(c, terminate, None) == expr_loop(c1, terminate, Some(operand)));
}

/// The statements that lie one after the other in a stream, from its state
/// `c` to its end.
pub open spec fn statements_from(c: Cursor, statements: Seq<StmtView>) -> bool
    decreases statements.len(),
{
    match c.next() {
        None => statements.len() == 0,
        Some((token, c1)) => {
            &&& statements.len() > 0
            &&& parse(c1, token) matches Ok((first, c2))
            &&& first == statements[0]
            &&& statements_from(c2, statements.skip(1))
        },
    }
}

/// Whether a parse of a program succeeded with the statements `ast`.
pub open spec fn gives(result: Parsed<Seq<StmtView>>, ast: Seq<StmtView>) -> bool {
    result matches Ok((statements, _)) && statements == ast
}

proof fn lemma_program_loop_is_its_statements(c: Cursor, ast: Seq<StmtView>, all: Seq<StmtView>)
    ensures
        program_loop(c, ast) matches Ok((_, end)) ==> end.rest.len() == 0,
        gives(program_loop(c, ast), all) <==> {
            &&& ast.len() <= all.len()
            &&& all.take(ast.len() as int) == ast
            &&& statements_from(c, all.skip(ast.len() as int))
        },
    decreases c.rest.len(),
{
    let tail = all.skip(ast.len() as int);
    match c.next() {
        None => {
            if ast.len() <= all.len() && tail.len() == 0 {
                assert(all.take(ast.len() as int) =~= all);
            }
            if ast == all {
                assert(all.take(ast.len() as int) =~= all);
            }
        },
        Some((token, c1)) => {
            lemma_parse_only_pulls(c1, token);
            lemma_next_follows(c);
            match parse(c1, token) {
                Ok((stmt, c2)) => {
                    lemma_program_loop_is_its_statements(c2, ast.push(stmt), all);
                    if ast.len() < all.len() {
                        assert(tail.skip(1) =~= all.skip(ast.len() + 1 as int));
                        assert(tail[0] == all[ast.len() as int]);
                        if all.take(ast.len() as int) == ast && stmt == all[ast.len() as int] {
                            assert(all.take(ast.len() + 1 as int) =~= ast.push(stmt));
                        }
                        if all.take(ast.len() + 1 as int) == ast.push(stmt) {
                            assert(all.take(ast.len() as int) =~= ast);
                            assert(ast.push(stmt)[ast.len() as int] == stmt);
                        }
                    }
                },
                Err(_) => {},
            }
        },
    }
}

/// A program is the row of its statements: the parse succeeds with `ast`
/// exactly if `ast` holds, in their order, the statements that lie one after
/// the other from the first token to the last. So there is one statement in
/// the tree for each top-level statement of the source.
pub proof fn lemma_program_is_its_statements(c: Cursor, ast: Seq<StmtView>)
    ensures
        gives(program(c), ast) <==> statements_from(c, ast),
        program(c) matches Ok((_, end)) ==> end.rest.len() == 0,
{
    lemma_program_loop_is_its_statements(c, Seq::empty(), ast);
    assert(ast.skip(0) =~= ast);
    assert(ast.take(0) =~= Seq::<StmtView>::empty());
}

} // verus!
