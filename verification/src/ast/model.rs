//! Syntax trees as mathematical values.
//!
//! Two trees are the same program text when their models are equal; the models
//! hold character sequences and sequences where the trees hold strings and
//! vectors.

use vstd::prelude::*;
use vstd::string::*;

use crate::ast::{
    Arm, BinOp, ClosureSig, Expr, ExprKind, FloatLit, Pattern, PatternKind, Span, Stmt, StmtKind,
    Ty, UnOp,
};
use crate::types::{clone_ty, ty_view, TyV};

verus! {

/// A float literal, as a model.
pub struct FloatV {
    pub bits: u64,
    pub shortest: Seq<char>,
    pub scientific: Seq<char>,
}

/// Closure type information, as a model.
pub struct SigV {
    pub captures: Seq<(Seq<char>, TyV)>,
    pub ret: TyV,
}

/// A pattern, as a model.
pub struct PatV {
    pub kind: PatKindV,
    pub span: Span,
}

/// A pattern's shape, as a model.
pub enum PatKindV {
    Wild,
    Var(Seq<char>),
    Int(i64),
    Bool(bool),
    Ctor(Seq<char>, Seq<PatV>),
    Record(Seq<char>, Seq<(Seq<char>, PatV)>),
}

/// An expression, as a model.
pub struct ExprV {
    pub kind: KindV,
    pub span: Span,
}

/// An expression's shape, as a model.
pub enum KindV {
    Int(i64),
    Float(FloatV),
    Bool(bool),
    Str(Seq<char>),
    Unit,
    Var(Seq<char>),
    Ctor(Seq<char>, Seq<ExprV>),
    Call(Seq<char>, Seq<ExprV>),
    Lambda(Seq<(Seq<char>, TyV)>, Box<ExprV>, Option<SigV>),
    Apply(Box<ExprV>, Seq<ExprV>, Option<TyV>),
    Record(Seq<char>, Seq<(Seq<char>, ExprV)>),
    Field(Box<ExprV>, Seq<char>),
    Update(Box<ExprV>, Seq<(Seq<char>, ExprV)>),
    Unary(UnOp, Box<ExprV>),
    Binary(BinOp, Box<ExprV>, Box<ExprV>),
    If(Box<ExprV>, Box<ExprV>, Box<ExprV>),
    Match(Box<ExprV>, Seq<ArmV>),
    Block(Seq<StmtV>, Box<ExprV>),
}

/// An arm, as a model.
pub struct ArmV {
    pub pat: PatV,
    pub body: ExprV,
}

/// A statement, as a model.
pub struct StmtV {
    pub kind: StmtKindV,
    pub span: Span,
}

/// A statement's shape, as a model.
pub enum StmtKindV {
    Let { name: Seq<char>, name_span: Span, ann: Option<TyV>, value: ExprV },
    Expr(ExprV),
}

/// The model of a float literal.
pub open spec fn float_view(f: FloatLit) -> FloatV {
    FloatV { bits: f.bits, shortest: f.shortest@, scientific: f.scientific@ }
}

/// The models of typed names.
pub open spec fn typed_view(v: Seq<(String, Ty)>) -> Seq<(Seq<char>, TyV)> {
    v.map_values(|p: (String, Ty)| (p.0@, ty_view(p.1)))
}

/// The model of closure type information.
pub open spec fn sig_view(s: ClosureSig) -> SigV {
    SigV { captures: typed_view(s.captures@), ret: ty_view(s.ret) }
}

/// The model of optional closure type information.
pub open spec fn opt_sig_view(s: Option<ClosureSig>) -> Option<SigV> {
    match s {
        Some(x) => Some(sig_view(x)),
        None => None,
    }
}

/// The model of an optional type.
pub open spec fn opt_ty_view(t: Option<Ty>) -> Option<TyV> {
    match t {
        Some(x) => Some(ty_view(x)),
        None => None,
    }
}

/// The model of a pattern.
pub open spec fn pat_view(p: Pattern) -> PatV
    decreases p, 0nat,
{
    PatV {
        kind: match p.kind {
            PatternKind::Wild => PatKindV::Wild,
            PatternKind::Var(n) => PatKindV::Var(n@),
            PatternKind::Int(n) => PatKindV::Int(n),
            PatternKind::Bool(b) => PatKindV::Bool(b),
            PatternKind::Ctor(n, subs) => PatKindV::Ctor(n@, pats_view(subs@, subs@.len())),
            PatternKind::Record(n, fs) => PatKindV::Record(n@, pat_fields_view(fs@, fs@.len())),
        },
        span: p.span,
    }
}

/// The models of the first `n` patterns.
pub open spec fn pats_view(ps: Seq<Pattern>, n: nat) -> Seq<PatV>
    decreases ps, n,
{
    if n == 0 || n > ps.len() {
        Seq::empty()
    } else {
        pats_view(ps, (n - 1) as nat).push(pat_view(ps[n - 1]))
    }
}

/// The models of the first `n` field patterns.
pub open spec fn pat_fields_view(fs: Seq<(String, Pattern)>, n: nat) -> Seq<(Seq<char>, PatV)>
    decreases fs, n,
{
    if n == 0 || n > fs.len() {
        Seq::empty()
    } else {
        pat_fields_view(fs, (n - 1) as nat).push((fs[n - 1].0@, pat_view(fs[n - 1].1)))
    }
}

/// The model of an expression.
pub open spec fn expr_view(e: Expr) -> ExprV
    decreases e, 0nat,
{
    ExprV {
        kind: match e.kind {
            ExprKind::Int(n) => KindV::Int(n),
            ExprKind::Float(f) => KindV::Float(float_view(f)),
            ExprKind::Bool(b) => KindV::Bool(b),
            ExprKind::Str(s) => KindV::Str(s@),
            ExprKind::Unit => KindV::Unit,
            ExprKind::Var(n) => KindV::Var(n@),
            ExprKind::Ctor(n, args) => KindV::Ctor(n@, exprs_view(args@, args@.len())),
            ExprKind::Call(n, args) => KindV::Call(n@, exprs_view(args@, args@.len())),
            ExprKind::Lambda(ps, body, sig) => KindV::Lambda(
                typed_view(ps@),
                Box::new(expr_view(*body)),
                opt_sig_view(sig),
            ),
            ExprKind::Apply(c, args, t) => KindV::Apply(
                Box::new(expr_view(*c)),
                exprs_view(args@, args@.len()),
                opt_ty_view(t),
            ),
            ExprKind::Record(n, fs) => KindV::Record(n@, fields_view(fs@, fs@.len())),
            ExprKind::Field(o, n) => KindV::Field(Box::new(expr_view(*o)), n@),
            ExprKind::Update(b, fs) => KindV::Update(
                Box::new(expr_view(*b)),
                fields_view(fs@, fs@.len()),
            ),
            ExprKind::Unary(op, x) => KindV::Unary(op, Box::new(expr_view(*x))),
            ExprKind::Binary(op, l, r) => KindV::Binary(
                op,
                Box::new(expr_view(*l)),
                Box::new(expr_view(*r)),
            ),
            ExprKind::If(c, t, f) => KindV::If(
                Box::new(expr_view(*c)),
                Box::new(expr_view(*t)),
                Box::new(expr_view(*f)),
            ),
            ExprKind::Match(s, arms) => KindV::Match(
                Box::new(expr_view(*s)),
                arms_view(arms@, arms@.len()),
            ),
            ExprKind::Block(stmts, last) => KindV::Block(
                stmts_view(stmts@, stmts@.len()),
                Box::new(expr_view(*last)),
            ),
        },
        span: e.span,
    }
}

/// The models of the first `n` expressions.
pub open spec fn exprs_view(es: Seq<Expr>, n: nat) -> Seq<ExprV>
    decreases es, n,
{
    if n == 0 || n > es.len() {
        Seq::empty()
    } else {
        exprs_view(es, (n - 1) as nat).push(expr_view(es[n - 1]))
    }
}

/// The models of the first `n` field values.
pub open spec fn fields_view(fs: Seq<(String, Expr)>, n: nat) -> Seq<(Seq<char>, ExprV)>
    decreases fs, n,
{
    if n == 0 || n > fs.len() {
        Seq::empty()
    } else {
        fields_view(fs, (n - 1) as nat).push((fs[n - 1].0@, expr_view(fs[n - 1].1)))
    }
}

/// The models of the first `n` arms.
pub open spec fn arms_view(arms: Seq<Arm>, n: nat) -> Seq<ArmV>
    decreases arms, n,
{
    if n == 0 || n > arms.len() {
        Seq::empty()
    } else {
        arms_view(arms, (n - 1) as nat).push(
            ArmV { pat: pat_view(arms[n - 1].pat), body: expr_view(arms[n - 1].body) },
        )
    }
}

/// The model of a statement.
pub open spec fn stmt_view(s: Stmt) -> StmtV
    decreases s, 0nat,
{
    StmtV {
        kind: match s.kind {
            StmtKind::Let { name, name_span, ann, value } => StmtKindV::Let {
                name: name@,
                name_span,
                ann: opt_ty_view(ann),
                value: expr_view(value),
            },
            StmtKind::Expr(ex) => StmtKindV::Expr(expr_view(ex)),
        },
        span: s.span,
    }
}

/// The models of the first `n` statements.
pub open spec fn stmts_view(ss: Seq<Stmt>, n: nat) -> Seq<StmtV>
    decreases ss, n,
{
    if n == 0 || n > ss.len() {
        Seq::empty()
    } else {
        stmts_view(ss, (n - 1) as nat).push(stmt_view(ss[n - 1]))
    }
}

// ---------------------------------------------------------------------------
// The models of lists, item by item
// ---------------------------------------------------------------------------

/// The model of a list of expressions is the list of their models.
pub proof fn lemma_exprs_view(es: Seq<Expr>, n: nat)
    requires
        n <= es.len(),
    ensures
        exprs_view(es, n).len() == n,
        forall|i: int| 0 <= i < n ==> #[trigger] exprs_view(es, n)[i] == expr_view(es[i]),
    decreases n,
{
    if n > 0 {
        lemma_exprs_view(es, (n - 1) as nat);
    }
}

/// The model of a list of field values is the list of their models.
pub proof fn lemma_fields_view(fs: Seq<(String, Expr)>, n: nat)
    requires
        n <= fs.len(),
    ensures
        fields_view(fs, n).len() == n,
        forall|i: int|
            0 <= i < n ==> #[trigger] fields_view(fs, n)[i] == (fs[i].0@, expr_view(fs[i].1)),
    decreases n,
{
    if n > 0 {
        lemma_fields_view(fs, (n - 1) as nat);
    }
}

/// The model of a list of arms is the list of their models.
pub proof fn lemma_arms_view(arms: Seq<Arm>, n: nat)
    requires
        n <= arms.len(),
    ensures
        arms_view(arms, n).len() == n,
        forall|i: int|
            0 <= i < n ==> #[trigger] arms_view(arms, n)[i] == (ArmV {
                pat: pat_view(arms[i].pat),
                body: expr_view(arms[i].body),
            }),
    decreases n,
{
    if n > 0 {
        lemma_arms_view(arms, (n - 1) as nat);
    }
}

/// The model of a list of statements is the list of their models.
pub proof fn lemma_stmts_view(ss: Seq<Stmt>, n: nat)
    requires
        n <= ss.len(),
    ensures
        stmts_view(ss, n).len() == n,
        forall|i: int| 0 <= i < n ==> #[trigger] stmts_view(ss, n)[i] == stmt_view(ss[i]),
    decreases n,
{
    if n > 0 {
        lemma_stmts_view(ss, (n - 1) as nat);
    }
}

/// The model of a list of patterns is the list of their models.
pub proof fn lemma_pats_view(ps: Seq<Pattern>, n: nat)
    requires
        n <= ps.len(),
    ensures
        pats_view(ps, n).len() == n,
        forall|i: int| 0 <= i < n ==> #[trigger] pats_view(ps, n)[i] == pat_view(ps[i]),
    decreases n,
{
    if n > 0 {
        lemma_pats_view(ps, (n - 1) as nat);
    }
}

/// The model of a list of field patterns is the list of their models.
pub proof fn lemma_pat_fields_view(fs: Seq<(String, Pattern)>, n: nat)
    requires
        n <= fs.len(),
    ensures
        pat_fields_view(fs, n).len() == n,
        forall|i: int|
            0 <= i < n ==> #[trigger] pat_fields_view(fs, n)[i] == (fs[i].0@, pat_view(fs[i].1)),
    decreases n,
{
    if n > 0 {
        lemma_pat_fields_view(fs, (n - 1) as nat);
    }
}

// ---------------------------------------------------------------------------
// Copies
// ---------------------------------------------------------------------------

/// A copy of a float literal.
pub fn copy_float(f: &FloatLit) -> (r: FloatLit)
    ensures
        float_view(r) == float_view(*f),
{
    FloatLit { bits: f.bits, shortest: f.shortest.clone(), scientific: f.scientific.clone() }
}

/// A copy of typed names.
pub fn copy_typed(v: &Vec<(String, Ty)>) -> (r: Vec<(String, Ty)>)
    ensures
        typed_view(r@) == typed_view(v@),
{
    let mut r: Vec<(String, Ty)> = Vec::new();
    let mut i: usize = 0;
    while i < v.len()
        invariant
            i <= v@.len(),
            r@.len() == i,
            forall|j: int|
                0 <= j < i ==> (#[trigger] r@[j]).0@ == v@[j].0@ && ty_view(r@[j].1) == ty_view(
                    v@[j].1,
                ),
        decreases v@.len() - i,
    {
        r.push((v[i].0.clone(), clone_ty(&v[i].1)));
        i = i + 1;
    }
    assert(typed_view(r@) =~= typed_view(v@));
    r
}

/// A copy of optional closure type information.
pub fn copy_sig(s: &Option<ClosureSig>) -> (r: Option<ClosureSig>)
    ensures
        opt_sig_view(r) == opt_sig_view(*s),
{
    match s {
        Some(x) => {
            let captures: Vec<(String, Ty)> = copy_typed(&x.captures);
            let ret: Ty = clone_ty(&x.ret);
            Some(ClosureSig { captures, ret })
        },
        None => None,
    }
}

/// A copy of an optional type.
pub fn copy_opt_ty(t: &Option<Ty>) -> (r: Option<Ty>)
    ensures
        opt_ty_view(r) == opt_ty_view(*t),
{
    match t {
        Some(x) => Some(clone_ty(x)),
        None => None,
    }
}

/// A copy of a pattern.
pub fn copy_pat(p: &Pattern) -> (r: Pattern)
    ensures
        pat_view(r) == pat_view(*p),
    decreases p, 1nat,
{
    let kind: PatternKind = copy_pat_kind(&p.kind);
    assert(pat_view(Pattern { kind, span: p.span }) == pat_view(
        Pattern { kind: p.kind, span: p.span },
    ));
    Pattern { kind, span: p.span }
}

/// A copy of a pattern's shape.
pub fn copy_pat_kind(k: &PatternKind) -> (r: PatternKind)
    ensures
        forall|span: Span| #[trigger]
            pat_view(Pattern { kind: r, span }) == pat_view(Pattern { kind: *k, span }),
    decreases k, 0nat,
{
    match k {
        PatternKind::Wild => PatternKind::Wild,
        PatternKind::Var(n) => PatternKind::Var(n.clone()),
        PatternKind::Int(n) => PatternKind::Int(*n),
        PatternKind::Bool(b) => PatternKind::Bool(*b),
        PatternKind::Ctor(n, subs) => {
            let copy: Vec<Pattern> = copy_pats(subs, subs.len());
            proof {
                lemma_pats_view(copy@, copy@.len());
                lemma_pats_view(subs@, subs@.len());
                assert(pats_view(copy@, copy@.len()) =~= pats_view(subs@, subs@.len()));
            }
            PatternKind::Ctor(n.clone(), copy)
        },
        PatternKind::Record(n, fs) => {
            let copy: Vec<(String, Pattern)> = copy_pat_fields(fs, fs.len());
            proof {
                lemma_pat_fields_view(copy@, copy@.len());
                lemma_pat_fields_view(fs@, fs@.len());
                assert(pat_fields_view(copy@, copy@.len()) =~= pat_fields_view(fs@, fs@.len()));
            }
            PatternKind::Record(n.clone(), copy)
        },
    }
}

fn copy_pats(ps: &Vec<Pattern>, n: usize) -> (r: Vec<Pattern>)
    requires
        n <= ps@.len(),
    ensures
        r@.len() == n,
        forall|i: int| 0 <= i < n ==> pat_view(#[trigger] r@[i]) == pat_view(ps@[i]),
    decreases ps@, n,
{
    if n == 0 {
        Vec::new()
    } else {
        let mut r: Vec<Pattern> = copy_pats(ps, n - 1);
        r.push(copy_pat(&ps[n - 1]));
        r
    }
}

fn copy_pat_fields(fs: &Vec<(String, Pattern)>, n: usize) -> (r: Vec<(String, Pattern)>)
    requires
        n <= fs@.len(),
    ensures
        r@.len() == n,
        forall|i: int|
            0 <= i < n ==> (#[trigger] r@[i]).0@ == fs@[i].0@ && pat_view(r@[i].1) == pat_view(
                fs@[i].1,
            ),
    decreases fs@, n,
{
    if n == 0 {
        Vec::new()
    } else {
        let mut r: Vec<(String, Pattern)> = copy_pat_fields(fs, n - 1);
        r.push((fs[n - 1].0.clone(), copy_pat(&fs[n - 1].1)));
        r
    }
}

} // verus!
