//! Copies of syntax trees: a clone has the model of what it was made from.

use vstd::prelude::*;
use vstd::string::*;

use crate::ast::model::{
    arms_view, copy_float, copy_opt_ty, copy_pat, copy_pat_kind, copy_sig, copy_typed, expr_view,
    exprs_view, fields_view, lemma_arms_view, lemma_exprs_view, lemma_fields_view,
    lemma_stmts_view, pat_view, stmt_view, stmts_view,
};
use crate::ast::{Arm, Expr, ExprKind, Pattern, PatternKind, Span, Stmt, StmtKind, Ty};
use crate::types::{clone_ty, ty_view};

verus! {

impl Clone for Ty {
    fn clone(&self) -> (r: Ty)
        ensures
            ty_view(r) == ty_view(*self),
    {
        clone_ty(self)
    }
}

impl Clone for Pattern {
    fn clone(&self) -> (r: Pattern)
        ensures
            pat_view(r) == pat_view(*self),
    {
        copy_pat(self)
    }
}

impl Clone for PatternKind {
    fn clone(&self) -> (r: PatternKind)
        ensures
            forall|span: Span| #[trigger]
                pat_view(Pattern { kind: r, span }) == pat_view(Pattern { kind: *self, span }),
    {
        copy_pat_kind(self)
    }
}

impl Clone for Expr {
    fn clone(&self) -> (r: Expr)
        ensures
            expr_view(r) == expr_view(*self),
    {
        copy_expr(self)
    }
}

impl Clone for ExprKind {
    fn clone(&self) -> (r: ExprKind)
        ensures
            forall|span: Span| #[trigger]
                expr_view(Expr { kind: r, span }) == expr_view(Expr { kind: *self, span }),
    {
        copy_kind(self)
    }
}

impl Clone for Stmt {
    fn clone(&self) -> (r: Stmt)
        ensures
            stmt_view(r) == stmt_view(*self),
    {
        copy_stmt(self)
    }
}

impl Clone for StmtKind {
    fn clone(&self) -> (r: StmtKind)
        ensures
            forall|span: Span| #[trigger]
                stmt_view(Stmt { kind: r, span }) == stmt_view(Stmt { kind: *self, span }),
    {
        match self {
            StmtKind::Let { name, name_span, ann, value } => StmtKind::Let {
                name: name.clone(),
                name_span: *name_span,
                ann: copy_opt_ty(ann),
                value: copy_expr(value),
            },
            StmtKind::Expr(e) => StmtKind::Expr(copy_expr(e)),
        }
    }
}

impl Clone for Arm {
    fn clone(&self) -> (r: Arm)
        ensures
            pat_view(r.pat) == pat_view(self.pat),
            expr_view(r.body) == expr_view(self.body),
    {
        Arm { pat: copy_pat(&self.pat), body: copy_expr(&self.body) }
    }
}

fn copy_expr(e: &Expr) -> (r: Expr)
    ensures
        expr_view(r) == expr_view(*e),
    decreases e, 1nat,
{
    let kind: ExprKind = copy_kind(&e.kind);
    assert(expr_view(Expr { kind, span: e.span }) == expr_view(
        Expr { kind: e.kind, span: e.span },
    ));
    Expr { kind, span: e.span }
}

fn copy_kind(k: &ExprKind) -> (r: ExprKind)
    ensures
        forall|span: Span| #[trigger]
            expr_view(Expr { kind: r, span }) == expr_view(Expr { kind: *k, span }),
    decreases k, 0nat,
{
    match k {
        ExprKind::Int(n) => ExprKind::Int(*n),
        ExprKind::Float(f) => ExprKind::Float(copy_float(f)),
        ExprKind::Bool(b) => ExprKind::Bool(*b),
        ExprKind::Str(s) => ExprKind::Str(s.clone()),
        ExprKind::Unit => ExprKind::Unit,
        ExprKind::Var(n) => ExprKind::Var(n.clone()),
        ExprKind::Ctor(n, args) => ExprKind::Ctor(n.clone(), copy_all(args)),
        ExprKind::Call(n, args) => ExprKind::Call(n.clone(), copy_all(args)),
        ExprKind::Lambda(ps, body, sig) => ExprKind::Lambda(
            copy_typed(ps),
            Box::new(copy_expr(body)),
            copy_sig(sig),
        ),
        ExprKind::Apply(c, args, ty) => ExprKind::Apply(
            Box::new(copy_expr(c)),
            copy_all(args),
            copy_opt_ty(ty),
        ),
        ExprKind::Record(n, fs) => ExprKind::Record(n.clone(), copy_fields(fs)),
        ExprKind::Field(o, n) => ExprKind::Field(Box::new(copy_expr(o)), n.clone()),
        ExprKind::Update(b, fs) => ExprKind::Update(Box::new(copy_expr(b)), copy_fields(fs)),
        ExprKind::Unary(op, x) => ExprKind::Unary(*op, Box::new(copy_expr(x))),
        ExprKind::Binary(op, l, r) => ExprKind::Binary(
            *op,
            Box::new(copy_expr(l)),
            Box::new(copy_expr(r)),
        ),
        ExprKind::If(c, t, f) => ExprKind::If(
            Box::new(copy_expr(c)),
            Box::new(copy_expr(t)),
            Box::new(copy_expr(f)),
        ),
        ExprKind::Match(x, arms) => ExprKind::Match(Box::new(copy_expr(x)), copy_arms(arms)),
        ExprKind::Block(ss, last) => ExprKind::Block(copy_stmts(ss), Box::new(copy_expr(last))),
    }
}

fn copy_stmt(s: &Stmt) -> (r: Stmt)
    ensures
        stmt_view(r) == stmt_view(*s),
    decreases s, 1nat,
{
    let kind: StmtKind = match &s.kind {
        StmtKind::Let { name, name_span, ann, value } => StmtKind::Let {
            name: name.clone(),
            name_span: *name_span,
            ann: copy_opt_ty(ann),
            value: copy_expr(value),
        },
        StmtKind::Expr(e) => StmtKind::Expr(copy_expr(e)),
    };
    Stmt { kind, span: s.span }
}

fn copy_all(es: &Vec<Expr>) -> (r: Vec<Expr>)
    ensures
        exprs_view(r@, r@.len()) == exprs_view(es@, es@.len()),
    decreases es@, es@.len() + 1,
{
    let r: Vec<Expr> = copy_exprs(es, es.len());
    proof {
        lemma_exprs_view(r@, r@.len());
        lemma_exprs_view(es@, es@.len());
        assert(exprs_view(r@, r@.len()) =~= exprs_view(es@, es@.len()));
    }
    r
}

fn copy_exprs(es: &Vec<Expr>, n: usize) -> (r: Vec<Expr>)
    requires
        n <= es@.len(),
    ensures
        r@.len() == n,
        forall|i: int| 0 <= i < n ==> expr_view(#[trigger] r@[i]) == expr_view(es@[i]),
    decreases es@, n,
{
    if n == 0 {
        Vec::new()
    } else {
        let mut r: Vec<Expr> = copy_exprs(es, n - 1);
        r.push(copy_expr(&es[n - 1]));
        r
    }
}

fn copy_fields(fs: &Vec<(String, Expr)>) -> (r: Vec<(String, Expr)>)
    ensures
        fields_view(r@, r@.len()) == fields_view(fs@, fs@.len()),
    decreases fs@, fs@.len() + 1,
{
    let r: Vec<(String, Expr)> = copy_values(fs, fs.len());
    proof {
        lemma_fields_view(r@, r@.len());
        lemma_fields_view(fs@, fs@.len());
        assert(fields_view(r@, r@.len()) =~= fields_view(fs@, fs@.len()));
    }
    r
}

fn copy_values(fs: &Vec<(String, Expr)>, n: usize) -> (r: Vec<(String, Expr)>)
    requires
        n <= fs@.len(),
    ensures
        r@.len() == n,
        forall|i: int|
            0 <= i < n ==> (#[trigger] r@[i]).0@ == fs@[i].0@ && expr_view(r@[i].1) == expr_view(
                fs@[i].1,
            ),
    decreases fs@, n,
{
    if n == 0 {
        Vec::new()
    } else {
        let mut r: Vec<(String, Expr)> = copy_values(fs, n - 1);
        r.push((fs[n - 1].0.clone(), copy_expr(&fs[n - 1].1)));
        r
    }
}

fn copy_arms(arms: &Vec<Arm>) -> (r: Vec<Arm>)
    ensures
        arms_view(r@, r@.len()) == arms_view(arms@, arms@.len()),
    decreases arms@, arms@.len() + 1,
{
    let r: Vec<Arm> = copy_branches(arms, arms.len());
    proof {
        lemma_arms_view(r@, r@.len());
        lemma_arms_view(arms@, arms@.len());
        assert(arms_view(r@, r@.len()) =~= arms_view(arms@, arms@.len()));
    }
    r
}

fn copy_branches(arms: &Vec<Arm>, n: usize) -> (r: Vec<Arm>)
    requires
        n <= arms@.len(),
    ensures
        r@.len() == n,
        forall|i: int|
            0 <= i < n ==> pat_view((#[trigger] r@[i]).pat) == pat_view(arms@[i].pat) && expr_view(
                r@[i].body,
            ) == expr_view(arms@[i].body),
    decreases arms@, n,
{
    if n == 0 {
        Vec::new()
    } else {
        let mut r: Vec<Arm> = copy_branches(arms, n - 1);
        r.push(Arm { pat: copy_pat(&arms[n - 1].pat), body: copy_expr(&arms[n - 1].body) });
        r
    }
}

fn copy_stmts(ss: &Vec<Stmt>) -> (r: Vec<Stmt>)
    ensures
        stmts_view(r@, r@.len()) == stmts_view(ss@, ss@.len()),
    decreases ss@, ss@.len() + 1,
{
    let r: Vec<Stmt> = copy_steps(ss, ss.len());
    proof {
        lemma_stmts_view(r@, r@.len());
        lemma_stmts_view(ss@, ss@.len());
        assert(stmts_view(r@, r@.len()) =~= stmts_view(ss@, ss@.len()));
    }
    r
}

fn copy_steps(ss: &Vec<Stmt>, n: usize) -> (r: Vec<Stmt>)
    requires
        n <= ss@.len(),
    ensures
        r@.len() == n,
        forall|i: int| 0 <= i < n ==> stmt_view(#[trigger] r@[i]) == stmt_view(ss@[i]),
    decreases ss@, n,
{
    if n == 0 {
        Vec::new()
    } else {
        let mut r: Vec<Stmt> = copy_steps(ss, n - 1);
        r.push(copy_stmt(&ss[n - 1]));
        r
    }
}

} // verus!
