//! Deep copies of values and trees. A copy has the same view as the value
//! it was made from.

use vstd::prelude::*;
use crate::ast::{
    exprs_view, idens_view, stmts_view, Block, Expr, ExprKind, Iden, Stmt, StmtKind,
};
use crate::variables::{names_view, Functio, Value};

verus! {

fn clone_iden(iden: &Iden) -> (copy: Iden)
    ensures
        copy@ == iden@,
{
    Iden { iden: iden.iden.clone(), span: iden.span }
}

fn clone_idens(idens: &Vec<Iden>) -> (copy: Vec<Iden>)
    ensures
        idens_view(copy@) == idens_view(idens@),
{
    let mut copy: Vec<Iden> = Vec::new();
    let mut i: usize = 0;
    while i < idens.len()
        invariant
            i <= idens.len(),
            copy.len() == i,
            forall|j: int| 0 <= j < i ==> (#[trigger] copy@[j])@ == idens@[j]@,
        decreases idens.len() - i,
    {
        copy.push(clone_iden(&idens[i]));
        i += 1;
    }
    assert(idens_view(copy@) =~= idens_view(idens@));
    copy
}

fn clone_names(names: &Vec<String>) -> (copy: Vec<String>)
    ensures
        names_view(copy@) == names_view(names@),
{
    let mut copy: Vec<String> = Vec::new();
    let mut i: usize = 0;
    while i < names.len()
        invariant
            i <= names.len(),
            copy.len() == i,
            forall|j: int| 0 <= j < i ==> (#[trigger] copy@[j])@ == names@[j]@,
        decreases names.len() - i,
    {
        copy.push(names[i].clone());
        i += 1;
    }
    assert(names_view(copy@) =~= names_view(names@));
    copy
}

fn clone_value(value: &Value) -> (copy: Value)
    ensures
        copy@ == value@,
    decreases value,
{
    match value {
        Value::Nul => Value::Nul,
        Value::Str(text) => Value::Str(text.clone()),
        Value::Int(i) => Value::Int(*i),
        Value::Bool(b) => Value::Bool(*b),
        Value::Abool(a) => Value::Abool(*a),
        Value::Functio(functio) => Value::Functio(clone_functio(functio)),
    }
}

fn clone_functio(functio: &Functio) -> (copy: Functio)
    ensures
        copy@ == functio@,
    decreases functio,
{
    match functio {
        Functio::BfFunctio { instructions, tape_len } => Functio::BfFunctio {
            instructions: instructions.clone(),
            tape_len: *tape_len,
        },
        Functio::AbleFunctio { params, body } => Functio::AbleFunctio {
            params: clone_names(params),
            body: clone_stmts(body),
        },
    }
}

fn clone_stmts(stmts: &Vec<Stmt>) -> (copy: Vec<Stmt>)
    ensures
        stmts_view(copy) == stmts_view(*stmts),
    decreases stmts,
{
    let mut copy: Vec<Stmt> = Vec::new();
    let mut i: usize = 0;
    while i < stmts.len()
        invariant
            i <= stmts.len(),
            copy.len() == i,
            forall|j: int| 0 <= j < i ==> (#[trigger] copy@[j])@ == stmts@[j]@,
        decreases stmts.len() - i,
    {
        copy.push(clone_stmt(&stmts[i]));
        i += 1;
    }
    assert(stmts_view(copy) =~= stmts_view(*stmts));
    copy
}

fn clone_stmt(stmt: &Stmt) -> (copy: Stmt)
    ensures
        copy@ == stmt@,
    decreases stmt,
{
    Stmt { kind: clone_stmt_kind(&stmt.kind), span: stmt.span }
}

fn clone_stmt_kind(kind: &StmtKind) -> (copy: StmtKind)
    ensures
        copy@ == kind@,
    decreases kind,
{
    match kind {
        StmtKind::If { cond, body } => StmtKind::If {
            cond: clone_expr(cond),
            body: Block { block: clone_stmts(&body.block) },
        },
        StmtKind::Loop { body } => StmtKind::Loop {
            body: Block { block: clone_stmts(&body.block) },
        },
        StmtKind::Break => StmtKind::Break,
        StmtKind::HopBack => StmtKind::HopBack,
        StmtKind::Var { iden, init } => StmtKind::Var {
            iden: clone_iden(iden),
            init: match init {
                Some(e) => Some(clone_expr(e)),
                None => None,
            },
        },
        StmtKind::Functio { iden, args, body } => StmtKind::Functio {
            iden: clone_iden(iden),
            args: clone_idens(args),
            body: Block { block: clone_stmts(&body.block) },
        },
        StmtKind::Call { iden, args } => StmtKind::Call {
            iden: clone_iden(iden),
            args: clone_exprs(args),
        },
        StmtKind::Print(e) => StmtKind::Print(clone_expr(e)),
        StmtKind::Melo(iden) => StmtKind::Melo(clone_iden(iden)),
    }
}

fn clone_exprs(exprs: &Vec<Expr>) -> (copy: Vec<Expr>)
    ensures
        exprs_view(copy) == exprs_view(*exprs),
    decreases exprs,
{
    let mut copy: Vec<Expr> = Vec::new();
    let mut i: usize = 0;
    while i < exprs.len()
        invariant
            i <= exprs.len(),
            copy.len() == i,
            forall|j: int| 0 <= j < i ==> (#[trigger] copy@[j])@ == exprs@[j]@,
        decreases exprs.len() - i,
    {
        copy.push(clone_expr(&exprs[i]));
        i += 1;
    }
    assert(exprs_view(copy) =~= exprs_view(*exprs));
    copy
}

fn clone_expr(expr: &Expr) -> (copy: Expr)
    ensures
        copy@ == expr@,
    decreases expr,
{
    Expr { kind: clone_expr_kind(&expr.kind), span: expr.span }
}

fn clone_expr_kind(kind: &ExprKind) -> (copy: ExprKind)
    ensures
        copy@ == kind@,
    decreases kind,
{
    match kind {
        ExprKind::BinOp { lhs, rhs, kind } => ExprKind::BinOp {
            lhs: Box::new(clone_expr(&**lhs)),
            rhs: Box::new(clone_expr(&**rhs)),
            kind: *kind,
        },
        ExprKind::Not(e) => ExprKind::Not(Box::new(clone_expr(&**e))),
        ExprKind::Literal(value) => ExprKind::Literal(clone_value(value)),
        ExprKind::Variable(name) => ExprKind::Variable(name.clone()),
    }
}

impl Clone for Iden {
    fn clone(&self) -> (copy: Self)
        ensures
            copy@ == self@,
    {
        clone_iden(self)
    }
}

impl Clone for Value {
    fn clone(&self) -> (copy: Self)
        ensures
            copy@ == self@,
    {
        clone_value(self)
    }
}

impl Clone for Functio {
    fn clone(&self) -> (copy: Self)
        ensures
            copy@ == self@,
    {
        clone_functio(self)
    }
}

impl Clone for Expr {
    fn clone(&self) -> (copy: Self)
        ensures
            copy@ == self@,
    {
        clone_expr(self)
    }
}

impl Clone for ExprKind {
    fn clone(&self) -> (copy: Self)
        ensures
            copy@ == self@,
    {
        clone_expr_kind(self)
    }
}

impl Clone for Stmt {
    fn clone(&self) -> (copy: Self)
        ensures
            copy@ == self@,
    {
        clone_stmt(self)
    }
}

impl Clone for StmtKind {
    fn clone(&self) -> (copy: Self)
        ensures
            copy@ == self@,
    {
        clone_stmt_kind(self)
    }
}

impl Clone for Block {
    fn clone(&self) -> (copy: Self)
        ensures
            copy@ == self@,
    {
        Block { block: clone_stmts(&self.block) }
    }
}

} // verus!
