//! Equality of values and trees: two are equal exactly if they hold the
//! same, texts compared by their characters and lists item by item.

use vstd::prelude::*;
use vstd::std_specs::cmp::PartialEqSpecImpl;
use crate::ast::{
    exprs_view, idens_view, stmts_view, Block, Expr, ExprKind, Iden, Stmt, StmtKind,
};
use crate::variables::{names_view, Functio, Value};

verus! {

fn same_bytes(a: &Vec<u8>, b: &Vec<u8>) -> (same: bool)
    ensures
        same == (a@ == b@),
{
    if a.len() != b.len() {
        return false;
    }
    let mut i: usize = 0;
    while i < a.len()
        invariant
            i <= a.len(),
            a.len() == b.len(),
            forall|j: int| 0 <= j < i ==> a@[j] == b@[j],
        decreases a.len() - i,
    {
        if a[i] != b[i] {
            return false;
        }
        i += 1;
    }
    assert(a@ =~= b@);
    true
}

fn same_names(a: &Vec<String>, b: &Vec<String>) -> (same: bool)
    ensures
        same == (names_view(a@) == names_view(b@)),
{
    if a.len() != b.len() {
        assert(names_view(a@).len() != names_view(b@).len());
        return false;
    }
    let mut i: usize = 0;
    while i < a.len()
        invariant
            i <= a.len(),
            a.len() == b.len(),
            forall|j: int| 0 <= j < i ==> (#[trigger] a@[j])@ == b@[j]@,
        decreases a.len() - i,
    {
        if a[i] != b[i] {
            assert(names_view(a@)[i as int] != names_view(b@)[i as int]);
            return false;
        }
        i += 1;
    }
    assert(names_view(a@) =~= names_view(b@));
    true
}

fn same_iden(a: &Iden, b: &Iden) -> (same: bool)
    ensures
        same == (a@ == b@),
{
    a.iden == b.iden && a.span == b.span
}

fn same_idens(a: &Vec<Iden>, b: &Vec<Iden>) -> (same: bool)
    ensures
        same == (idens_view(a@) == idens_view(b@)),
{
    if a.len() != b.len() {
        assert(idens_view(a@).len() != idens_view(b@).len());
        return false;
    }
    let mut i: usize = 0;
    while i < a.len()
        invariant
            i <= a.len(),
            a.len() == b.len(),
            forall|j: int| 0 <= j < i ==> (#[trigger] a@[j])@ == b@[j]@,
        decreases a.len() - i,
    {
        if !same_iden(&a[i], &b[i]) {
            assert(idens_view(a@)[i as int] != idens_view(b@)[i as int]);
            return false;
        }
        i += 1;
    }
    assert(idens_view(a@) =~= idens_view(b@));
    true
}

fn same_value(a: &Value, b: &Value) -> (same: bool)
    ensures
        same == (a@ == b@),
    decreases a,
{
    match (a, b) {
        (Value::Nul, Value::Nul) => true,
        (Value::Str(x), Value::Str(y)) => *x == *y,
        (Value::Int(x), Value::Int(y)) => *x == *y,
        (Value::Bool(x), Value::Bool(y)) => *x == *y,
        (Value::Abool(x), Value::Abool(y)) => *x == *y,
        (Value::Functio(x), Value::Functio(y)) => same_functio(x, y),
        _ => false,
    }
}

fn same_functio(a: &Functio, b: &Functio) -> (same: bool)
    ensures
        same == (a@ == b@),
    decreases a,
{
    match (a, b) {
        (
            Functio::BfFunctio { instructions: i1, tape_len: t1 },
            Functio::BfFunctio { instructions: i2, tape_len: t2 },
        ) => same_bytes(i1, i2) && *t1 == *t2,
        (
            Functio::AbleFunctio { params: p1, body: b1 },
            Functio::AbleFunctio { params: p2, body: b2 },
        ) => same_names(p1, p2) && same_stmts(b1, b2),
        _ => false,
    }
}

fn same_stmts(a: &Vec<Stmt>, b: &Vec<Stmt>) -> (same: bool)
    ensures
        same == (stmts_view(*a) == stmts_view(*b)),
    decreases a,
{
    if a.len() != b.len() {
        assert(stmts_view(*a).len() != stmts_view(*b).len());
        return false;
    }
    let mut i: usize = 0;
    while i < a.len()
        invariant
            i <= a.len(),
            a.len() == b.len(),
            forall|j: int| 0 <= j < i ==> (#[trigger] a@[j])@ == b@[j]@,
        decreases a.len() - i,
    {
        if !same_stmt(&a[i], &b[i]) {
            assert(stmts_view(*a)[i as int] != stmts_view(*b)[i as int]);
            return false;
        }
        i += 1;
    }
    assert(stmts_view(*a) =~= stmts_view(*b));
    true
}

fn same_stmt(a: &Stmt, b: &Stmt) -> (same: bool)
    ensures
        same == (a@ == b@),
    decreases a,
{
    same_stmt_kind(&a.kind, &b.kind) && a.span == b.span
}

fn same_stmt_kind(a: &StmtKind, b: &StmtKind) -> (same: bool)
    ensures
        same == (a@ == b@),
    decreases a,
{
    match (a, b) {
        (StmtKind::If { cond: c1, body: b1 }, StmtKind::If { cond: c2, body: b2 }) => same_expr(
            c1,
            c2,
        ) && same_stmts(&b1.block, &b2.block),
        (StmtKind::Loop { body: b1 }, StmtKind::Loop { body: b2 }) => same_stmts(
            &b1.block,
            &b2.block,
        ),
        (StmtKind::Break, StmtKind::Break) => true,
        (StmtKind::HopBack, StmtKind::HopBack) => true,
        (StmtKind::Var { iden: i1, init: e1 }, StmtKind::Var { iden: i2, init: e2 }) => same_iden(
            i1,
            i2,
        ) && match (e1, e2) {
            (Some(e1), Some(e2)) => same_expr(e1, e2),
            (None, None) => true,
            _ => false,
        },
        (
            StmtKind::Functio { iden: i1, args: a1, body: b1 },
            StmtKind::Functio { iden: i2, args: a2, body: b2 },
        ) => same_iden(i1, i2) && same_idens(a1, a2) && same_stmts(&b1.block, &b2.block),
        (StmtKind::Call { iden: i1, args: a1 }, StmtKind::Call { iden: i2, args: a2 }) => same_iden(
            i1,
            i2,
        ) && same_exprs(a1, a2),
        (StmtKind::Print(e1), StmtKind::Print(e2)) => same_expr(e1, e2),
        (StmtKind::Melo(i1), StmtKind::Melo(i2)) => same_iden(i1, i2),
        _ => false,
    }
}

fn same_exprs(a: &Vec<Expr>, b: &Vec<Expr>) -> (same: bool)
    ensures
        same == (exprs_view(*a) == exprs_view(*b)),
    decreases a,
{
    if a.len() != b.len() {
        assert(exprs_view(*a).len() != exprs_view(*b).len());
        return false;
    }
    let mut i: usize = 0;
    while i < a.len()
        invariant
            i <= a.len(),
            a.len() == b.len(),
            forall|j: int| 0 <= j < i ==> (#[trigger] a@[j])@ == b@[j]@,
        decreases a.len() - i,
    {
        if !same_expr(&a[i], &b[i]) {
            assert(exprs_view(*a)[i as int] != exprs_view(*b)[i as int]);
            return false;
        }
        i += 1;
    }
    assert(exprs_view(*a) =~= exprs_view(*b));
    true
}

fn same_expr(a: &Expr, b: &Expr) -> (same: bool)
    ensures
        same == (a@ == b@),
    decreases a,
{
    same_expr_kind(&a.kind, &b.kind) && a.span == b.span
}

fn same_expr_kind(a: &ExprKind, b: &ExprKind) -> (same: bool)
    ensures
        same == (a@ == b@),
    decreases a,
{
    match (a, b) {
        (
            ExprKind::BinOp { lhs: l1, rhs: r1, kind: k1 },
            ExprKind::BinOp { lhs: l2, rhs: r2, kind: k2 },
        ) => same_expr(&**l1, &**l2) && same_expr(&**r1, &**r2) && *k1 == *k2,
        (ExprKind::Not(e1), ExprKind::Not(e2)) => same_expr(&**e1, &**e2),
        (ExprKind::Literal(v1), ExprKind::Literal(v2)) => same_value(v1, v2),
        (ExprKind::Variable(n1), ExprKind::Variable(n2)) => *n1 == *n2,
        _ => false,
    }
}

impl PartialEq for Iden {
    fn eq(&self, other: &Iden) -> (same: bool) {
        same_iden(self, other)
    }
}

impl PartialEqSpecImpl for Iden {
    open spec fn obeys_eq_spec() -> bool {
        true
    }

    open spec fn eq_spec(&self, other: &Iden) -> bool {
        self@ == other@
    }
}

impl PartialEq for Value {
    fn eq(&self, other: &Value) -> (same: bool) {
        same_value(self, other)
    }
}

impl PartialEqSpecImpl for Value {
    open spec fn obeys_eq_spec() -> bool {
        true
    }

    open spec fn eq_spec(&self, other: &Value) -> bool {
        self@ == other@
    }
}

impl PartialEq for Functio {
    fn eq(&self, other: &Functio) -> (same: bool) {
        same_functio(self, other)
    }
}

impl PartialEqSpecImpl for Functio {
    open spec fn obeys_eq_spec() -> bool {
        true
    }

    open spec fn eq_spec(&self, other: &Functio) -> bool {
        self@ == other@
    }
}

impl PartialEq for Expr {
    fn eq(&self, other: &Expr) -> (same: bool) {
        same_expr(self, other)
    }
}

impl PartialEqSpecImpl for Expr {
    open spec fn obeys_eq_spec() -> bool {
        true
    }

    open spec fn eq_spec(&self, other: &Expr) -> bool {
        self@ == other@
    }
}

impl PartialEq for ExprKind {
    fn eq(&self, other: &ExprKind) -> (same: bool) {
        same_expr_kind(self, other)
    }
}

impl PartialEqSpecImpl for ExprKind {
    open spec fn obeys_eq_spec() -> bool {
        true
    }

    open spec fn eq_spec(&self, other: &ExprKind) -> bool {
        self@ == other@
    }
}

impl PartialEq for Stmt {
    fn eq(&self, other: &Stmt) -> (same: bool) {
        same_stmt(self, other)
    }
}

impl PartialEqSpecImpl for Stmt {
    open spec fn obeys_eq_spec() -> bool {
        true
    }

    open spec fn eq_spec(&self, other: &Stmt) -> bool {
        self@ == other@
    }
}

impl PartialEq for StmtKind {
    fn eq(&self, other: &StmtKind) -> (same: bool) {
        same_stmt_kind(self, other)
    }
}

impl PartialEqSpecImpl for StmtKind {
    open spec fn obeys_eq_spec() -> bool {
        true
    }

    open spec fn eq_spec(&self, other: &StmtKind) -> bool {
        self@ == other@
    }
}

impl PartialEq for Block {
    fn eq(&self, other: &Block) -> (same: bool) {
        same_stmts(&self.block, &other.block)
    }
}

impl PartialEqSpecImpl for Block {
    open spec fn obeys_eq_spec() -> bool {
        true
    }

    open spec fn eq_spec(&self, other: &Block) -> bool {
        self@ == other@
    }
}

} // verus!
