//! Where the nodes of a tree lie in the source: if the tokens of a stream lie
//! one after the other within the source, so do the statements that are read
//! from it, and every node lies within the statement it belongs to.

use vstd::prelude::*;
use crate::ast::{BinOpKind, ExprKindView, ExprView, IdenView, StmtKindView, StmtView};
use crate::error::Error;
use crate::grammar::{
    atom_of, binop_of, binop_flow, block_loop, call_loop, expr_flow, expr_loop, functio_call_flow,
    functio_flow, get_block, get_iden, if_flow, loop_flow, melo_flow, params_flow, params_loop,
    parse, parse_expr, program, program_loop, require, value_flow, value_loop, var_flow, Cursor,
    Parsed,
};
use crate::laws::{
    lemma_binop_flow_only_pulls, lemma_expr_flow_only_pulls, lemma_functio_call_flow_only_pulls,
    lemma_get_block_only_pulls, lemma_next_follows, lemma_params_only_pull,
    lemma_parse_expr_only_pulls, lemma_parse_only_pulls, lemma_require_only_pulls, pulls,
};
use crate::token::{Lexeme, Token};

verus! {

/// Whether the tokens lie one after the other, none overlapping the next,
/// each with its start before its end, and all of them before `bound`.
pub open spec fn tokens_in_order(tokens: Seq<Lexeme>, bound: int) -> bool {
    &&& forall|i: int|
        0 <= i < tokens.len() ==> (#[trigger] tokens[i]).span.start <= tokens[i].span.end <= bound
    &&& forall|i: int, j: int|
        0 <= i < j < tokens.len() ==> (#[trigger] tokens[i]).span.end <= (
        #[trigger] tokens[j]).span.start
}

/// Checks that tokens lie in order within a source of `bound` bytes.
pub fn lie_in_order(tokens: &Vec<Lexeme>, bound: usize) -> (in_order: bool)
    ensures
        in_order == tokens_in_order(tokens@, bound as int),
{
    let mut i: usize = 0;
    while i < tokens.len()
        invariant
            i <= tokens.len(),
            tokens_in_order(tokens@.take(i as int), bound as int),
        decreases tokens.len() - i,
    {
        let span = tokens[i].span;
        if span.start > span.end || span.end > bound {
            return false;
        }
        if i > 0 && tokens[i - 1].span.end > span.start {
            assert(tokens@[i - 1].span.end > tokens@[i as int].span.start);
            return false;
        }
        proof {
            let before = tokens@.take(i as int);
            let now = tokens@.take(i + 1);
            assert forall|j: int, k: int| 0 <= j < k < now.len() implies (
            #[trigger] now[j]).span.end <= (#[trigger] now[k]).span.start by {
                if k < i {
                    assert(before[j] == now[j] && before[k] == now[k]);
                } else if j < i - 1 {
                    assert(before[j] == now[j] && before[i - 1] == now[i - 1]);
                    assert(before[j].span.end <= before[i - 1].span.start);
                    assert(before[i - 1].span.start <= before[i - 1].span.end);
                }
            }
            assert forall|j: int| 0 <= j < now.len() implies (#[trigger] now[j]).span.start
                <= now[j].span.end <= bound by {
                if j < i {
                    assert(before[j] == now[j]);
                }
            }
        }
        i += 1;
    }
    assert(tokens@.take(i as int) =~= tokens@);
    true
}

/// Whether a state of the stream is in order: the tokens to come are, and
/// they lie after the token pulled last.
pub open spec fn in_order(c: Cursor, bound: int) -> bool {
    &&& c.span.start <= c.span.end <= bound
    &&& tokens_in_order(c.rest, bound)
    &&& forall|i: int| 0 <= i < c.rest.len() ==> c.span.end <= (#[trigger] c.rest[i]).span.start
}

/// Whether an expression lies within `lo` and `hi`: every node has its start
/// before its end and lies within them; the left operand of an operation
/// ends before the operation starts, which is at its operator; the right
/// operand lies within the operation; the operand of a negation starts
/// within the negation.
pub open spec fn expr_in(e: ExprView, lo: int, hi: int) -> bool
    decreases e,
{
    &&& lo <= e.span.start <= e.span.end <= hi
    &&& match e.kind {
        ExprKindView::BinOp { lhs, rhs, .. } => {
            &&& expr_in(*lhs, lo, e.span.start as int)
            &&& expr_in(*rhs, e.span.start as int, e.span.end as int)
        },
        ExprKindView::Not(operand) => {
            &&& expr_in(*operand, lo, e.span.end as int)
            &&& e.span.start <= operand.span.start
        },
        _ => true,
    }
}

/// Whether each of the expressions lies within `lo` and `hi`.
pub open spec fn exprs_in(exprs: Seq<ExprView>, lo: int, hi: int) -> bool {
    forall|i: int| 0 <= i < exprs.len() ==> expr_in(#[trigger] exprs[i], lo, hi)
}

/// Whether a name lies within `lo` and `hi`, with its start before its end.
pub open spec fn iden_in(iden: IdenView, lo: int, hi: int) -> bool {
    lo <= iden.span.start <= iden.span.end <= hi
}

/// Whether names lie within `lo` and `hi`, one after the other.
pub open spec fn idens_in(idens: Seq<IdenView>, lo: int, hi: int) -> bool {
    &&& forall|i: int| 0 <= i < idens.len() ==> iden_in(#[trigger] idens[i], lo, hi)
    &&& forall|i: int, j: int|
        0 <= i < j < idens.len() ==> (#[trigger] idens[i]).span.end <= (
        #[trigger] idens[j]).span.start
}

/// Whether a statement lies within `lo` and `hi`, and all that it holds
/// within the statement.
pub open spec fn stmt_in(s: StmtView, lo: int, hi: int) -> bool
    decreases s,
{
    &&& lo <= s.span.start <= s.span.end <= hi
    &&& kind_in(s.kind, s.span.start as int, s.span.end as int)
}

/// Whether all that a statement holds lies within `lo` and `hi`.
pub open spec fn kind_in(kind: StmtKindView, lo: int, hi: int) -> bool
    decreases kind,
{
    match kind {
        StmtKindView::If { cond, body } => expr_in(cond, lo, hi) && stmts_in(body, lo, hi),
        StmtKindView::Loop { body } => stmts_in(body, lo, hi),
        StmtKindView::Break => true,
        StmtKindView::HopBack => true,
        StmtKindView::Var { iden, init } => {
            &&& iden_in(iden, lo, hi)
            &&& init matches Some(e) ==> expr_in(e, lo, hi)
        },
        StmtKindView::Functio { iden, args, body } => {
            &&& iden_in(iden, lo, hi)
            &&& idens_in(args, lo, hi)
            &&& stmts_in(body, lo, hi)
        },
        StmtKindView::Call { iden, args } => iden_in(iden, lo, hi) && exprs_in(args, lo, hi),
        StmtKindView::Print(e) => expr_in(e, lo, hi),
        StmtKindView::Melo(iden) => iden_in(iden, lo, hi),
    }
}

/// Whether statements lie within `lo` and `hi`, one after the other, none
/// overlapping the next.
pub open spec fn stmts_in(stmts: Seq<StmtView>, lo: int, hi: int) -> bool
    decreases stmts,
{
    &&& forall|i: int| 0 <= i < stmts.len() ==> stmt_in(#[trigger] stmts[i], lo, hi)
    &&& forall|i: int, j: int|
        0 <= i < j < stmts.len() ==> (#[trigger] stmts[i]).span.end <= (
        #[trigger] stmts[j]).span.start
}

/// Whether an error lies within the source, with its start before its end.
pub open spec fn error_in(e: Error, bound: int) -> bool {
    e.span.start <= e.span.end <= bound
}

/// Pulling tokens keeps a stream in order and never moves back in the source.
pub proof fn lemma_in_order_after(c: Cursor, after: Cursor, bound: int)
    requires
        in_order(c, bound),
        after.follows(c),
    ensures
        in_order(after, bound),
        c.span.start <= after.span.start,
        c.span.end <= after.span.end,
        after.rest.len() < c.rest.len() ==> c.span.end <= after.span.start,
{
    let pulled = c.rest.len() - after.rest.len();
    assert forall|i: int| 0 <= i < after.rest.len() implies (#[trigger] after.rest[i]).span.start
        <= after.rest[i].span.end <= bound && after.span.end <= after.rest[i].span.start by {
        assert(after.rest[i] == c.rest[i + pulled]);
        if pulled > 0 {
            assert(c.rest[pulled - 1].span.end <= c.rest[i + pulled].span.start);
        }
    }
    assert forall|i: int, j: int| 0 <= i < j < after.rest.len() implies (
    #[trigger] after.rest[i]).span.end <= (#[trigger] after.rest[j]).span.start by {
        assert(after.rest[i] == c.rest[i + pulled]);
        assert(after.rest[j] == c.rest[j + pulled]);
    }
    if pulled > 0 {
        assert(c.span.end <= c.rest[pulled - 1].span.start);
    }
}

proof fn lemma_step<T>(result: Parsed<T>, c: Cursor, bound: int)
    requires
        in_order(c, bound),
        pulls(result, c),
    ensures
        result matches Ok((_, after)) ==> {
            &&& in_order(after, bound)
            &&& c.span.start <= after.span.start
            &&& c.span.end <= after.span.end
            &&& after.rest.len() < c.rest.len() ==> c.span.end <= after.span.start
        },
{
    if let Ok((_, after)) = result {
        lemma_in_order_after(c, after, bound);
    }
}

proof fn lemma_next_in_order(c: Cursor, bound: int)
    requires
        in_order(c, bound),
    ensures
        c.next() matches Some((_, after)) ==> {
            &&& in_order(after, bound)
            &&& c.span.end <= after.span.start
            &&& after.rest.len() < c.rest.len()
        },
{
    lemma_next_follows(c);
    if let Some((_, after)) = c.next() {
        lemma_in_order_after(c, after, bound);
    }
}

/// An expression that lies within bounds lies within wider bounds.
pub proof fn lemma_expr_in_wider(e: ExprView, lo: int, hi: int, lower: int, higher: int)
    requires
        expr_in(e, lo, hi),
        lower <= lo,
        hi <= higher,
    ensures
        expr_in(e, lower, higher),
    decreases e,
{
    match e.kind {
        ExprKindView::BinOp { lhs, rhs, .. } => {
            lemma_expr_in_wider(*lhs, lo, e.span.start as int, lower, e.span.start as int);
        },
        ExprKindView::Not(operand) => {
            lemma_expr_in_wider(*operand, lo, e.span.end as int, lower, e.span.end as int);
        },
        _ => {},
    }
}

proof fn lemma_exprs_in_wider(exprs: Seq<ExprView>, lo: int, hi: int, lower: int, higher: int)
    requires
        exprs_in(exprs, lo, hi),
        lower <= lo,
        hi <= higher,
    ensures
        exprs_in(exprs, lower, higher),
{
    assert forall|i: int| 0 <= i < exprs.len() implies expr_in(
        #[trigger] exprs[i],
        lower,
        higher,
    ) by {
        lemma_expr_in_wider(exprs[i], lo, hi, lower, higher);
    }
}

proof fn lemma_stmt_in_wider(stmt: StmtView, lo: int, hi: int, lower: int, higher: int)
    requires
        stmt_in(stmt, lo, hi),
        lower <= lo,
        hi <= higher,
    ensures
        stmt_in(stmt, lower, higher),
{
}

proof fn lemma_stmts_in_wider(stmts: Seq<StmtView>, lo: int, hi: int, lower: int, higher: int)
    requires
        stmts_in(stmts, lo, hi),
        lower <= lo,
        hi <= higher,
    ensures
        stmts_in(stmts, lower, higher),
{
    assert forall|i: int| 0 <= i < stmts.len() implies stmt_in(
        #[trigger] stmts[i],
        lower,
        higher,
    ) by {
        assert(stmt_in(stmts[i], lo, hi));
    }
}

proof fn lemma_parse_expr_spans(
    c: Cursor,
    token: Token,
    buf: Option<ExprView>,
    lo: int,
    bound: int,
)
    requires
        in_order(c, bound),
        lo <= c.span.start,
        buf matches Some(b) ==> expr_in(b, lo, c.span.start as int),
    ensures
        parse_expr(c, token, buf) matches Err(e) ==> error_in(e.error, bound),
        parse_expr(c, token, buf) matches Ok((e, after)) ==> {
            &&& expr_in(e, lo, after.span.end as int)
            &&& c.span.start <= e.span.start
        },
    decreases c.rest.len(), 2int,
{
    lemma_parse_expr_only_pulls(c, token, buf);
    lemma_step(parse_expr(c, token, buf), c, bound);
    if atom_of(token) is Some {
    } else if let Some(op) = binop_of(token) {
        lemma_binop_flow_spans(c, op, buf, lo, bound);
    } else if token is Not {
        lemma_next_in_order(c, bound);
        if let Some((operand, c1)) = c.next() {
            if let Some(b) = buf {
                lemma_expr_in_wider(b, lo, c.span.start as int, lo, c1.span.start as int);
            }
            lemma_parse_expr_spans(c1, operand, buf, lo, bound);
        }
    } else if token is LeftParen {
        assert(expr_flow(c, Token::RightParen) == expr_loop(c, Token::RightParen, None));
        lemma_expr_loop_spans(c, Token::RightParen, None, c.span.start as int, bound);
        if let Ok((e, after)) = expr_loop(c, Token::RightParen, None) {
            lemma_expr_in_wider(
                e,
                c.span.start as int,
                after.span.end as int,
                lo,
                after.span.end as int,
            );
        }
    }
}

proof fn lemma_binop_flow_spans(
    c: Cursor,
    kind: BinOpKind,
    lhs: Option<ExprView>,
    lo: int,
    bound: int,
)
    requires
        in_order(c, bound),
        lo <= c.span.start,
        lhs matches Some(b) ==> expr_in(b, lo, c.span.start as int),
    ensures
        binop_flow(c, kind, lhs) matches Err(e) ==> error_in(e.error, bound),
        binop_flow(c, kind, lhs) matches Ok((operation, after)) ==> expr_in(
            ExprView { kind: operation, span: after.since(c.span.start) },
            lo,
            after.span.end as int,
        ),
    decreases c.rest.len(), 1int,
{
    lemma_binop_flow_only_pulls(c, kind, lhs);
    lemma_step(binop_flow(c, kind, lhs), c, bound);
    lemma_next_in_order(c, bound);
    if lhs is Some {
        if let Some((operand, c1)) = c.next() {
            lemma_parse_expr_spans(c1, operand, None, c1.span.start as int, bound);
            if let Ok((rhs, after)) = parse_expr(c1, operand, None) {
                lemma_expr_in_wider(
                    rhs,
                    c1.span.start as int,
                    after.span.end as int,
                    c.span.start as int,
                    after.span.end as int,
                );
            }
        }
    }
}

proof fn lemma_expr_loop_spans(
    c: Cursor,
    terminate: Token,
    buf: Option<ExprView>,
    lo: int,
    bound: int,
)
    requires
        in_order(c, bound),
        lo <= c.span.end,
        buf matches Some(b) ==> expr_in(b, lo, c.span.end as int),
    ensures
        expr_loop(c, terminate, buf) matches Err(e) ==> error_in(e.error, bound),
        expr_loop(c, terminate, buf) matches Ok((e, after)) ==> expr_in(
            e,
            lo,
            after.span.end as int,
        ),
    decreases c.rest.len(), 0int,
{
    lemma_next_in_order(c, bound);
    if let Some((token, c1)) = c.next() {
        if let Some(b) = buf {
            lemma_expr_in_wider(b, lo, c.span.end as int, lo, c1.span.start as int);
            lemma_expr_in_wider(b, lo, c.span.end as int, lo, c1.span.end as int);
        }
        if !token.same_as(terminate) {
            lemma_parse_expr_only_pulls(c1, token, buf);
            lemma_step(parse_expr(c1, token, buf), c1, bound);
            lemma_parse_expr_spans(c1, token, buf, lo, bound);
            if let Ok((e, c2)) = parse_expr(c1, token, buf) {
                lemma_expr_loop_spans(c2, terminate, Some(e), lo, bound);
            }
        }
    }
}

proof fn lemma_expr_flow_spans(c: Cursor, terminate: Token, bound: int)
    requires
        in_order(c, bound),
    ensures
        expr_flow(c, terminate) matches Err(e) ==> error_in(e.error, bound),
        expr_flow(c, terminate) matches Ok((e, after)) ==> {
            &&& expr_in(e, c.span.end as int, after.span.end as int)
            &&& in_order(after, bound)
        },
{
    lemma_expr_loop_spans(c, terminate, None, c.span.end as int, bound);
    lemma_expr_flow_only_pulls(c, terminate);
    lemma_step(expr_flow(c, terminate), c, bound);
    lemma_next_follows(c);
}

proof fn lemma_call_loop_spans(
    c: Cursor,
    args: Seq<ExprView>,
    buf: Option<ExprView>,
    lo: int,
    bound: int,
)
    requires
        in_order(c, bound),
        lo <= c.span.end,
        exprs_in(args, lo, c.span.end as int),
        buf matches Some(b) ==> expr_in(b, lo, c.span.end as int),
    ensures
        call_loop(c, args, buf) matches Err(e) ==> error_in(e.error, bound),
        call_loop(c, args, buf) matches Ok((all, after)) ==> exprs_in(
            all,
            lo,
            after.span.end as int,
        ),
    decreases c.rest.len(),
{
    lemma_next_in_order(c, bound);
    if let Some((token, c1)) = c.next() {
        lemma_exprs_in_wider(args, lo, c.span.end as int, lo, c1.span.end as int);
        if let Some(b) = buf {
            lemma_expr_in_wider(b, lo, c.span.end as int, lo, c1.span.start as int);
            lemma_expr_in_wider(b, lo, c.span.end as int, lo, c1.span.end as int);
        }
        if token is RightParen {
        } else if token is Comma {
            if let Some(e) = buf {
                lemma_call_loop_spans(c1, args.push(e), None, lo, bound);
            }
        } else {
            lemma_parse_expr_only_pulls(c1, token, buf);
            lemma_step(parse_expr(c1, token, buf), c1, bound);
            lemma_parse_expr_spans(c1, token, buf, lo, bound);
            if let Ok((e, c2)) = parse_expr(c1, token, buf) {
                lemma_exprs_in_wider(args, lo, c.span.end as int, lo, c2.span.end as int);
                lemma_call_loop_spans(c2, args, Some(e), lo, bound);
            }
        }
    }
}

proof fn lemma_value_loop_spans(c: Cursor, buf: ExprView, lo: int, bound: int)
    requires
        in_order(c, bound),
        lo <= c.span.end,
        expr_in(buf, lo, c.span.end as int),
    ensures
        value_loop(c, buf) matches Err(e) ==> error_in(e.error, bound),
        value_loop(c, buf) matches Ok((kind, after)) ==> kind_in(kind, lo, after.span.end as int),
    decreases c.rest.len(),
{
    lemma_next_in_order(c, bound);
    if let Some((token, c1)) = c.next() {
        if token is Print {
            lemma_require_only_pulls(c1, Token::Semicolon);
            lemma_step(require(c1, Token::Semicolon), c1, bound);
            if let Ok((_, after)) = require(c1, Token::Semicolon) {
                lemma_expr_in_wider(buf, lo, c.span.end as int, lo, after.span.end as int);
            }
        } else if token is LeftParen {
            if let ExprKindView::Variable(name) = buf.kind {
                let iden = IdenView { iden: name, span: buf.span };
                lemma_call_loop_spans(c1, Seq::empty(), None, lo, bound);
                lemma_functio_call_flow_only_pulls(c1, iden);
                lemma_step(functio_call_flow(c1, iden), c1, bound);
                if let Ok((call, c2)) = functio_call_flow(c1, iden) {
                    lemma_require_only_pulls(c2, Token::Semicolon);
                    lemma_step(require(c2, Token::Semicolon), c2, bound);
                    if let Ok((_, after)) = require(c2, Token::Semicolon) {
                        lemma_exprs_in_wider(
                            call->Call_args,
                            lo,
                            c2.span.end as int,
                            lo,
                            after.span.end as int,
                        );
                    }
                }
            }
        } else {
            lemma_expr_in_wider(buf, lo, c.span.end as int, lo, c1.span.start as int);
            lemma_parse_expr_only_pulls(c1, token, Some(buf));
            lemma_step(parse_expr(c1, token, Some(buf)), c1, bound);
            lemma_parse_expr_spans(c1, token, Some(buf), lo, bound);
            if let Ok((e, c2)) = parse_expr(c1, token, Some(buf)) {
                lemma_value_loop_spans(c2, e, lo, bound);
            }
        }
    }
}

proof fn lemma_value_flow_spans(c: Cursor, init: Token, bound: int)
    requires
        in_order(c, bound),
    ensures
        value_flow(c, init) matches Err(e) ==> error_in(e.error, bound),
        value_flow(c, init) matches Ok((kind, after)) ==> kind_in(
            kind,
            c.span.start as int,
            after.span.end as int,
        ),
{
    lemma_parse_expr_only_pulls(c, init, None);
    lemma_step(parse_expr(c, init, None), c, bound);
    lemma_parse_expr_spans(c, init, None, c.span.start as int, bound);
    if let Ok((e, c1)) = parse_expr(c, init, None) {
        lemma_value_loop_spans(c1, e, c.span.start as int, bound);
    }
}

proof fn lemma_var_flow_spans(c: Cursor, bound: int)
    requires
        in_order(c, bound),
    ensures
        var_flow(c) matches Err(e) ==> error_in(e.error, bound),
        var_flow(c) matches Ok((kind, after)) ==> kind_in(
            kind,
            c.span.start as int,
            after.span.end as int,
        ),
{
    lemma_next_in_order(c, bound);
    if let Ok((iden, c1)) = get_iden(c) {
        lemma_next_in_order(c1, bound);
        if let Some((token, c2)) = c1.next() {
            if token is Equal {
                lemma_expr_flow_spans(c2, Token::Semicolon, bound);
                if let Ok((e, after)) = expr_flow(c2, Token::Semicolon) {
                    lemma_expr_in_wider(
                        e,
                        c2.span.end as int,
                        after.span.end as int,
                        c.span.start as int,
                        after.span.end as int,
                    );
                }
            }
        }
    }
}

proof fn lemma_melo_flow_spans(c: Cursor, bound: int)
    requires
        in_order(c, bound),
    ensures
        melo_flow(c) matches Err(e) ==> error_in(e.error, bound),
        melo_flow(c) matches Ok((kind, after)) ==> kind_in(
            kind,
            c.span.start as int,
            after.span.end as int,
        ),
{
    lemma_next_in_order(c, bound);
    if let Ok((iden, c1)) = get_iden(c) {
        lemma_next_in_order(c1, bound);
    }
}

proof fn lemma_params_loop_spans(c: Cursor, names: Seq<IdenView>, lo: int, bound: int)
    requires
        in_order(c, bound),
        lo <= c.span.end,
        idens_in(names, lo, c.span.end as int),
    ensures
        params_loop(c, names) matches Err(e) ==> error_in(e.error, bound),
        params_loop(c, names) matches Ok((all, after)) ==> idens_in(all, lo, after.span.end as int),
    decreases c.rest.len(),
{
    lemma_next_in_order(c, bound);
    match c.next() {
        None => {},
        Some((token, c1)) => match token {
            Token::RightParen => {},
            Token::Comma => {
                lemma_next_in_order(c1, bound);
                match c1.next() {
                    None => {},
                    Some((token, c2)) => match token {
                        Token::Identifier(name) => {
                            let more = names.push(IdenView { iden: name@, span: c2.span });
                            assert(idens_in(more, lo, c2.span.end as int)) by {
                                assert forall|i: int| 0 <= i < more.len() implies iden_in(
                                    #[trigger] more[i],
                                    lo,
                                    c2.span.end as int,
                                ) by {
                                    if i < names.len() {
                                        assert(more[i] == names[i]);
                                    }
                                }
                                assert forall|i: int, j: int| 0 <= i < j < more.len() implies (
                                #[trigger] more[i]).span.end <= (#[trigger] more[j]).span.start by {
                                    assert(more[i] == names[i]);
                                    if j < names.len() {
                                        assert(more[j] == names[j]);
                                    }
                                }
                            }
                            lemma_params_loop_spans(c2, more, lo, bound);
                        },
                        _ => {},
                    },
                }
            },
            _ => {},
        },
    }
}

proof fn lemma_params_flow_spans(c: Cursor, bound: int)
    requires
        in_order(c, bound),
    ensures
        params_flow(c) matches Err(e) ==> error_in(e.error, bound),
        params_flow(c) matches Ok((all, after)) ==> idens_in(
            all,
            c.span.end as int,
            after.span.end as int,
        ),
{
    lemma_next_in_order(c, bound);
    if let Some((token, c1)) = c.next() {
        if let Token::Identifier(name) = token {
            let names = seq![IdenView { iden: name@, span: c1.span }];
            lemma_params_loop_spans(c1, names, c.span.end as int, bound);
        }
    }
}

proof fn lemma_parse_spans(c: Cursor, token: Token, bound: int)
    requires
        in_order(c, bound),
    ensures
        parse(c, token) matches Err(e) ==> error_in(e.error, bound),
        parse(c, token) matches Ok((stmt, after)) ==> {
            &&& stmt_in(stmt, c.span.start as int, after.span.end as int)
            &&& stmt.span == after.since(c.span.start)
        },
    decreases c.rest.len(), 3int,
{
    lemma_parse_only_pulls(c, token);
    lemma_step(parse(c, token), c, bound);
    match token {
        Token::If => lemma_if_flow_spans(c, bound),
        Token::Functio => lemma_functio_flow_spans(c, bound),
        Token::Var => lemma_var_flow_spans(c, bound),
        Token::Melo => lemma_melo_flow_spans(c, bound),
        Token::Loop => lemma_loop_flow_spans(c, bound),
        Token::Break => {},
        Token::HopBack => {},
        Token::Identifier(_)
        | Token::Char
        | Token::String(_)
        | Token::Integer(_)
        | Token::Abool(_)
        | Token::Bool(_)
        | Token::LeftParen => lemma_value_flow_spans(c, token, bound),
        _ => {},
    }
}

proof fn lemma_if_flow_spans(c: Cursor, bound: int)
    requires
        in_order(c, bound),
    ensures
        if_flow(c) matches Err(e) ==> error_in(e.error, bound),
        if_flow(c) matches Ok((kind, after)) ==> kind_in(
            kind,
            c.span.start as int,
            after.span.end as int,
        ),
    decreases c.rest.len(), 2int,
{
    lemma_next_in_order(c, bound);
    if let Ok((_, c1)) = require(c, Token::LeftParen) {
        lemma_expr_flow_spans(c1, Token::RightParen, bound);
        lemma_expr_flow_only_pulls(c1, Token::RightParen);
        if let Ok((cond, c2)) = expr_flow(c1, Token::RightParen) {
            lemma_get_block_spans(c2, bound);
            if let Ok((body, after)) = get_block(c2) {
                lemma_expr_in_wider(
                    cond,
                    c1.span.end as int,
                    c2.span.end as int,
                    c.span.start as int,
                    after.span.end as int,
                );
                lemma_stmts_in_wider(
                    body,
                    c2.span.end as int,
                    after.span.end as int,
                    c.span.start as int,
                    after.span.end as int,
                );
            }
        }
    }
}

proof fn lemma_functio_flow_spans(c: Cursor, bound: int)
    requires
        in_order(c, bound),
    ensures
        functio_flow(c) matches Err(e) ==> error_in(e.error, bound),
        functio_flow(c) matches Ok((kind, after)) ==> kind_in(
            kind,
            c.span.start as int,
            after.span.end as int,
        ),
    decreases c.rest.len(), 2int,
{
    lemma_next_in_order(c, bound);
    if let Ok((iden, c1)) = get_iden(c) {
        lemma_next_in_order(c1, bound);
        if let Ok((_, c2)) = require(c1, Token::LeftParen) {
            lemma_params_flow_spans(c2, bound);
            lemma_params_only_pull(c2);
            lemma_step(params_flow(c2), c2, bound);
            if let Ok((args, c3)) = params_flow(c2) {
                lemma_get_block_spans(c3, bound);
                if let Ok((body, after)) = get_block(c3) {
                    assert(idens_in(args, c.span.start as int, after.span.end as int)) by {
                        assert forall|i: int| 0 <= i < args.len() implies iden_in(
                            #[trigger] args[i],
                            c.span.start as int,
                            after.span.end as int,
                        ) by {
                            assert(iden_in(args[i], c2.span.end as int, c3.span.end as int));
                        }
                    }
                    lemma_stmts_in_wider(
                        body,
                        c3.span.end as int,
                        after.span.end as int,
                        c.span.start as int,
                        after.span.end as int,
                    );
                }
            }
        }
    }
}

proof fn lemma_loop_flow_spans(c: Cursor, bound: int)
    requires
        in_order(c, bound),
    ensures
        loop_flow(c) matches Err(e) ==> error_in(e.error, bound),
        loop_flow(c) matches Ok((kind, after)) ==> kind_in(
            kind,
            c.span.start as int,
            after.span.end as int,
        ),
    decreases c.rest.len(), 2int,
{
    lemma_get_block_spans(c, bound);
    if let Ok((body, after)) = get_block(c) {
        lemma_stmts_in_wider(
            body,
            c.span.end as int,
            after.span.end as int,
            c.span.start as int,
            after.span.end as int,
        );
    }
}

proof fn lemma_get_block_spans(c: Cursor, bound: int)
    requires
        in_order(c, bound),
    ensures
        get_block(c) matches Err(e) ==> error_in(e.error, bound),
        get_block(c) matches Ok((body, after)) ==> {
            &&& stmts_in(body, c.span.end as int, after.span.end as int)
            &&& in_order(after, bound)
            &&& c.span.end <= after.span.end
        },
    decreases c.rest.len(), 1int,
{
    lemma_get_block_only_pulls(c);
    lemma_step(get_block(c), c, bound);
    lemma_next_in_order(c, bound);
    if let Ok((_, c1)) = require(c, Token::LeftCurly) {
        lemma_block_loop_spans(c1, Seq::empty(), c.span.end as int, bound);
    }
}

proof fn lemma_block_loop_spans(c: Cursor, block: Seq<StmtView>, lo: int, bound: int)
    requires
        in_order(c, bound),
        lo <= c.span.end,
        stmts_in(block, lo, c.span.end as int),
    ensures
        block_loop(c, block) matches Err(e) ==> error_in(e.error, bound),
        block_loop(c, block) matches Ok((body, after)) ==> stmts_in(
            body,
            lo,
            after.span.end as int,
        ),
    decreases c.rest.len(), 0int,
{
    lemma_next_in_order(c, bound);
    if let Some((token, c1)) = c.next() {
        if token is RightCurly {
            lemma_stmts_in_wider(block, lo, c.span.end as int, lo, c1.span.end as int);
        } else {
            lemma_parse_only_pulls(c1, token);
            lemma_step(parse(c1, token), c1, bound);
            lemma_parse_spans(c1, token, bound);
            if let Ok((stmt, c2)) = parse(c1, token) {
                lemma_stmt_in_wider(
                    stmt,
                    c1.span.start as int,
                    c2.span.end as int,
                    c.span.end as int,
                    c2.span.end as int,
                );
                lemma_stmts_in_push(block, stmt, lo, c.span.end as int, c2.span.end as int);
                lemma_block_loop_spans(c2, block.push(stmt), lo, bound);
            }
        }
    }
}

proof fn lemma_stmts_in_push(stmts: Seq<StmtView>, stmt: StmtView, lo: int, mid: int, hi: int)
    requires
        lo <= mid,
        stmts_in(stmts, lo, mid),
        stmt_in(stmt, mid, hi),
    ensures
        stmts_in(stmts.push(stmt), lo, hi),
{
    let more = stmts.push(stmt);
    assert forall|i: int| 0 <= i < more.len() implies stmt_in(#[trigger] more[i], lo, hi) by {
        if i < stmts.len() {
            assert(more[i] == stmts[i]);
            assert(stmt_in(stmts[i], lo, mid));
        }
    }
    assert forall|i: int, j: int| 0 <= i < j < more.len() implies (#[trigger] more[i]).span.end <= (
    #[trigger] more[j]).span.start by {
        assert(more[i] == stmts[i]);
        assert(stmt_in(stmts[i], lo, mid));
        if j < stmts.len() {
            assert(more[j] == stmts[j]);
        }
    }
}

proof fn lemma_program_loop_spans(c: Cursor, ast: Seq<StmtView>, bound: int)
    requires
        in_order(c, bound),
        stmts_in(ast, 0, c.span.end as int),
    ensures
        program_loop(c, ast) matches Err(e) ==> error_in(e.error, bound),
        program_loop(c, ast) matches Ok((all, _)) ==> stmts_in(all, 0, bound),
    decreases c.rest.len(),
{
    lemma_next_in_order(c, bound);
    match c.next() {
        None => {
            lemma_stmts_in_wider(ast, 0, c.span.end as int, 0, bound);
        },
        Some((token, c1)) => {
            lemma_parse_only_pulls(c1, token);
            lemma_step(parse(c1, token), c1, bound);
            lemma_parse_spans(c1, token, bound);
            if let Ok((stmt, c2)) = parse(c1, token) {
                lemma_stmt_in_wider(
                    stmt,
                    c1.span.start as int,
                    c2.span.end as int,
                    c.span.end as int,
                    c2.span.end as int,
                );
                lemma_stmts_in_push(ast, stmt, 0, c.span.end as int, c2.span.end as int);
                lemma_program_loop_spans(c2, ast.push(stmt), bound);
            }
        },
    }
}

/// The spans of a tree, or else of the error, are in order and in bounds,
/// from whatever state in order the program is read.
pub proof fn lemma_program_spans(c: Cursor, bound: int)
    requires
        in_order(c, bound),
    ensures
        program(c) matches Err(e) ==> error_in(e.error, bound),
        program(c) matches Ok((ast, _)) ==> stmts_in(ast, 0, bound),
{
    lemma_program_loop_spans(c, Seq::empty(), bound);
}

/// The spans of a tree are in order and in bounds: if the tokens of the
/// source lie one after the other before `bound`, the statements of the
/// program do too, none overlapping the next, and every node of a statement
/// lies within the statement, with its start before its end. If the parse
/// fails instead, the error lies within the source.
pub proof fn lemma_spans_are_in_order_and_in_bounds(tokens: Seq<Lexeme>, bound: int)
    requires
        tokens_in_order(tokens, bound),
        0 <= bound,
    ensures
        in_order(Cursor::start(tokens), bound),
        program(Cursor::start(tokens)) matches Ok((ast, _)) ==> stmts_in(ast, 0, bound),
        program(Cursor::start(tokens)) matches Err(e) ==> error_in(e.error, bound),
{
    lemma_program_spans(Cursor::start(tokens), bound);
}

} // verus!
