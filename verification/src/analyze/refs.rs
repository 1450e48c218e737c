//! The references to top-level names in a function body.
//!
//! A lexical scope of local binders (parameters, `let` bindings, lambda
//! parameters and match-arm pattern variables) shadows the top-level functions: a
//! name that resolves to a local is not a reference.

use vstd::prelude::*;

use crate::ast::{Arm, Expr, ExprKind, Pattern, PatternKind, Span, Stmt, StmtKind, Ty};
use crate::names::{contains_name, lemma_has_name};
use crate::text::views;

verus! {

/// A reference to a top-level name: a call, with the spans of its arguments, or
/// a bare name used as a value.
pub struct RefV {
    pub name: Seq<char>,
    pub span: Span,
    pub args: Seq<Span>,
}

/// A reference to a top-level name.
pub struct CallRef {
    pub name: String,
    pub span: Span,
    pub args: Vec<Span>,
}

impl CallRef {
    /// The reference's model.
    pub open spec fn view(&self) -> RefV {
        RefV { name: self.name@, span: self.span, args: self.args@ }
    }
}

/// The models of a list of references.
pub open spec fn refs_view(v: Seq<CallRef>) -> Seq<RefV> {
    v.map_values(|r: CallRef| r@)
}

// ---------------------------------------------------------------------------
// Scope
// ---------------------------------------------------------------------------

/// A stack of local names, innermost last.
pub type Locals = Seq<Seq<char>>;

/// The scope with the variables of a pattern.
pub open spec fn bound(p: Pattern, sc: Locals) -> Locals
    decreases p, 0nat,
{
    match p.kind {
        PatternKind::Var(n) => sc.push(n@),
        PatternKind::Ctor(_, subs) => bound_all(subs@, subs@.len(), sc),
        PatternKind::Record(_, fields) => bound_fields(fields@, fields@.len(), sc),
        _ => sc,
    }
}

/// The scope with the variables of the first `n` patterns.
pub open spec fn bound_all(ps: Seq<Pattern>, n: nat, sc: Locals) -> Locals
    decreases ps, n,
{
    if n == 0 || n > ps.len() {
        sc
    } else {
        bound(ps[n - 1], bound_all(ps, (n - 1) as nat, sc))
    }
}

/// The scope with the variables of the first `n` field patterns.
pub open spec fn bound_fields(fs: Seq<(String, Pattern)>, n: nat, sc: Locals) -> Locals
    decreases fs, n,
{
    if n == 0 || n > fs.len() {
        sc
    } else {
        bound(fs[n - 1].1, bound_fields(fs, (n - 1) as nat, sc))
    }
}

/// The scope with the names of the first `n` lambda parameters.
pub open spec fn bound_params(ps: Seq<(String, Ty)>, n: nat, sc: Locals) -> Locals
    decreases n,
{
    if n == 0 || n > ps.len() {
        sc
    } else {
        bound_params(ps, (n - 1) as nat, sc).push(ps[n - 1].0@)
    }
}

/// `inner` is `outer` with more names on top.
pub open spec fn extends(inner: Locals, outer: Locals) -> bool {
    inner.len() >= outer.len() && inner.take(outer.len() as int) == outer
}

proof fn lemma_extends_trans(a: Locals, b: Locals, c: Locals)
    requires
        extends(a, b),
        extends(b, c),
    ensures
        extends(a, c),
{
    assert(a.take(c.len() as int) =~= a.take(b.len() as int).take(c.len() as int));
}

/// The local binders in scope.
pub struct Scope {
    stack: Vec<String>,
}

impl Scope {
    /// The names in scope, innermost last.
    pub closed spec fn view(&self) -> Locals {
        views(self.stack@)
    }

    /// The empty scope.
    pub fn new() -> (r: Scope)
        ensures
            r@ == Seq::<Seq<char>>::empty(),
    {
        let r = Scope { stack: Vec::new() };
        assert(r@ =~= Seq::empty());
        r
    }

    /// Current binder depth: capture before entering a region, restore after.
    pub fn depth(&self) -> (r: usize)
        ensures
            r == self@.len(),
    {
        self.stack.len()
    }

    /// Brings a name into scope.
    pub fn push(&mut self, name: &str)
        ensures
            final(self)@ == old(self)@.push(name@),
            extends(final(self)@, old(self)@),
    {
        let ghost before = self.stack@;
        self.stack.push(name.to_owned());
        proof {
            assert(self@ =~= views(before).push(name@));
            assert(self@.take(views(before).len() as int) =~= views(before));
        }
    }

    /// Drops every binder introduced after `depth` (leaving the region).
    pub fn truncate(&mut self, depth: usize)
        requires
            depth <= old(self)@.len(),
        ensures
            final(self)@ == old(self)@.take(depth as int),
    {
        let ghost before = self.stack@;
        self.stack.truncate(depth);
        assert(self@ =~= views(before).take(depth as int));
    }

    /// Whether `name` is bound by a local (and so shadows a top-level function of
    /// the same name).
    pub fn is_local(&self, name: &str) -> (r: bool)
        ensures
            r == self@.contains(name@),
    {
        proof {
            lemma_has_name(self.stack@, name@);
        }
        contains_name(&self.stack, name)
    }

    /// Binds every variable that a pattern introduces.
    pub fn bind_pattern(&mut self, pat: &Pattern)
        ensures
            final(self)@ == bound(*pat, old(self)@),
            extends(final(self)@, old(self)@),
        decreases pat, 0nat,
    {
        assert(self@.take(self@.len() as int) =~= self@);
        match &pat.kind {
            PatternKind::Var(name) => self.push(name.as_str()),
            PatternKind::Ctor(_, subs) => self.bind_all(subs, subs.len()),
            PatternKind::Record(_, fields) => self.bind_fields(fields, fields.len()),
            _ => {},
        }
    }

    fn bind_all(&mut self, ps: &Vec<Pattern>, n: usize)
        requires
            n <= ps@.len(),
        ensures
            final(self)@ == bound_all(ps@, n as nat, old(self)@),
            extends(final(self)@, old(self)@),
        decreases ps@, n,
    {
        assert(self@.take(self@.len() as int) =~= self@);
        if n > 0 {
            let ghost start = self@;
            self.bind_all(ps, n - 1);
            let ghost mid = self@;
            self.bind_pattern(&ps[n - 1]);
            proof {
                lemma_extends_trans(self@, mid, start);
            }
        }
    }

    fn bind_fields(&mut self, fs: &Vec<(String, Pattern)>, n: usize)
        requires
            n <= fs@.len(),
        ensures
            final(self)@ == bound_fields(fs@, n as nat, old(self)@),
            extends(final(self)@, old(self)@),
        decreases fs@, n,
    {
        assert(self@.take(self@.len() as int) =~= self@);
        if n > 0 {
            let ghost start = self@;
            self.bind_fields(fs, n - 1);
            let ghost mid = self@;
            self.bind_pattern(&fs[n - 1].1);
            proof {
                lemma_extends_trans(self@, mid, start);
            }
        }
    }

    fn bind_params(&mut self, ps: &Vec<(String, Ty)>)
        ensures
            final(self)@ == bound_params(ps@, ps@.len(), old(self)@),
            extends(final(self)@, old(self)@),
    {
        let ghost start = self@;
        assert(self@.take(self@.len() as int) =~= self@);
        let mut i: usize = 0;
        while i < ps.len()
            invariant
                i <= ps@.len(),
                self@ == bound_params(ps@, i as nat, start),
                extends(self@, start),
            decreases ps@.len() - i,
        {
            let ghost mid = self@;
            self.push(ps[i].0.as_str());
            proof {
                lemma_extends_trans(self@, mid, start);
            }
            i = i + 1;
        }
    }
}

// ---------------------------------------------------------------------------
// The walk
// ---------------------------------------------------------------------------

/// The references with one more, unless a local shadows the name.
pub open spec fn noted(
    name: Seq<char>,
    span: Span,
    args: Seq<Span>,
    sc: Locals,
    acc: Seq<RefV>,
) -> Seq<RefV> {
    if sc.contains(name) {
        acc
    } else {
        acc.push(RefV { name, span, args })
    }
}

/// The spans of a list of expressions.
pub open spec fn spans_of(es: Seq<Expr>) -> Seq<Span> {
    es.map_values(|e: Expr| e.span)
}

/// The references of an expression in source order, after those of `acc`.
/// Constructor applications are data and not references.
pub open spec fn refs_in(e: Expr, sc: Locals, acc: Seq<RefV>) -> Seq<RefV>
    decreases e, 0nat,
{
    match e.kind {
        ExprKind::Call(name, args) => refs_all(
            args@,
            args@.len(),
            sc,
            noted(name@, e.span, spans_of(args@), sc, acc),
        ),
        ExprKind::Var(name) => noted(name@, e.span, Seq::empty(), sc, acc),
        ExprKind::Ctor(_, args) => refs_all(args@, args@.len(), sc, acc),
        ExprKind::Record(_, fields) => refs_fields(fields@, fields@.len(), sc, acc),
        ExprKind::Field(obj, _) => refs_in(*obj, sc, acc),
        ExprKind::Update(base, ups) => refs_fields(ups@, ups@.len(), sc, refs_in(*base, sc, acc)),
        ExprKind::Lambda(params, body, _) => refs_in(
            *body,
            bound_params(params@, params@.len(), sc),
            acc,
        ),
        ExprKind::Apply(callee, args, _) => refs_all(
            args@,
            args@.len(),
            sc,
            refs_in(*callee, sc, acc),
        ),
        ExprKind::Unary(_, inner) => refs_in(*inner, sc, acc),
        ExprKind::Binary(_, l, r) => refs_in(*r, sc, refs_in(*l, sc, acc)),
        ExprKind::If(c, t, f) => refs_in(*f, sc, refs_in(*t, sc, refs_in(*c, sc, acc))),
        ExprKind::Match(scrut, arms) => refs_arms(
            arms@,
            arms@.len(),
            sc,
            refs_in(*scrut, sc, acc),
        ),
        ExprKind::Block(stmts, last) => refs_in(
            *last,
            after_stmts(stmts@, stmts@.len(), sc),
            refs_stmts(stmts@, stmts@.len(), sc, acc),
        ),
        _ => acc,
    }
}

/// The references of the first `n` expressions.
pub open spec fn refs_all(es: Seq<Expr>, n: nat, sc: Locals, acc: Seq<RefV>) -> Seq<RefV>
    decreases es, n,
{
    if n == 0 || n > es.len() {
        acc
    } else {
        refs_in(es[n - 1], sc, refs_all(es, (n - 1) as nat, sc, acc))
    }
}

/// The references of the first `n` field values.
pub open spec fn refs_fields(
    fs: Seq<(String, Expr)>,
    n: nat,
    sc: Locals,
    acc: Seq<RefV>,
) -> Seq<RefV>
    decreases fs, n,
{
    if n == 0 || n > fs.len() {
        acc
    } else {
        refs_in(fs[n - 1].1, sc, refs_fields(fs, (n - 1) as nat, sc, acc))
    }
}

/// The references of the first `n` arms, each with its pattern's variables in
/// scope.
pub open spec fn refs_arms(arms: Seq<Arm>, n: nat, sc: Locals, acc: Seq<RefV>) -> Seq<RefV>
    decreases arms, n,
{
    if n == 0 || n > arms.len() {
        acc
    } else {
        refs_in(
            arms[n - 1].body,
            bound(arms[n - 1].pat, sc),
            refs_arms(arms, (n - 1) as nat, sc, acc),
        )
    }
}

/// The scope after the first `n` statements: a `let` holds for the rest of the
/// block.
pub open spec fn after_stmts(stmts: Seq<Stmt>, n: nat, sc: Locals) -> Locals
    decreases n,
{
    if n == 0 || n > stmts.len() {
        sc
    } else {
        let before = after_stmts(stmts, (n - 1) as nat, sc);
        match stmts[n - 1].kind {
            StmtKind::Let { name, name_span, ann, value } => before.push(name@),
            StmtKind::Expr(_) => before,
        }
    }
}

/// The references of the first `n` statements; a bound value is evaluated before
/// its name comes into scope.
pub open spec fn refs_stmts(stmts: Seq<Stmt>, n: nat, sc: Locals, acc: Seq<RefV>) -> Seq<RefV>
    decreases stmts, n,
{
    if n == 0 || n > stmts.len() {
        acc
    } else {
        let before = refs_stmts(stmts, (n - 1) as nat, sc, acc);
        let inner = after_stmts(stmts, (n - 1) as nat, sc);
        match stmts[n - 1].kind {
            StmtKind::Let { name, name_span, ann, value } => refs_in(value, inner, before),
            StmtKind::Expr(ex) => refs_in(ex, inner, before),
        }
    }
}

fn spans(es: &Vec<Expr>) -> (r: Vec<Span>)
    ensures
        r@ == spans_of(es@),
{
    let mut r: Vec<Span> = Vec::new();
    let mut i: usize = 0;
    while i < es.len()
        invariant
            i <= es@.len(),
            r@.len() == i,
            forall|j: int| 0 <= j < i ==> #[trigger] r@[j] == es@[j].span,
        decreases es@.len() - i,
    {
        r.push(es[i].span);
        i = i + 1;
    }
    assert(r@ =~= spans_of(es@));
    r
}

fn note(name: &str, span: Span, args: Vec<Span>, scope: &Scope, out: &mut Vec<CallRef>)
    ensures
        refs_view(final(out)@) == noted(name@, span, args@, scope@, refs_view(old(out)@)),
{
    if !scope.is_local(name) {
        let ghost before = out@;
        out.push(CallRef { name: name.to_owned(), span, args });
        assert(refs_view(out@) =~= refs_view(before).push(RefV { name: name@, span, args: args@ }));
    }
}

/// Walks an expression and appends its references. The scope is left as it was.
pub fn collect_refs(e: &Expr, scope: &mut Scope, out: &mut Vec<CallRef>)
    ensures
        final(scope)@ == old(scope)@,
        refs_view(final(out)@) == refs_in(*e, old(scope)@, refs_view(old(out)@)),
    decreases e, 0nat,
{
    match &e.kind {
        ExprKind::Call(name, args) => {
            note(name.as_str(), e.span, spans(args), scope, out);
            collect_all(args, args.len(), scope, out);
        },
        ExprKind::Var(name) => {
            let none: Vec<Span> = Vec::new();
            note(name.as_str(), e.span, none, scope, out);
        },
        ExprKind::Ctor(_, args) => collect_all(args, args.len(), scope, out),
        ExprKind::Record(_, fields) => collect_fields(fields, fields.len(), scope, out),
        ExprKind::Field(obj, _) => collect_refs(obj, scope, out),
        ExprKind::Update(base, ups) => {
            collect_refs(base, scope, out);
            collect_fields(ups, ups.len(), scope, out);
        },
        ExprKind::Lambda(params, body, _) => {
            let depth: usize = scope.depth();
            scope.bind_params(params);
            collect_refs(body, scope, out);
            scope.truncate(depth);
        },
        ExprKind::Apply(callee, args, _) => {
            collect_refs(callee, scope, out);
            collect_all(args, args.len(), scope, out);
        },
        ExprKind::Unary(_, inner) => collect_refs(inner, scope, out),
        ExprKind::Binary(_, l, r) => {
            collect_refs(l, scope, out);
            collect_refs(r, scope, out);
        },
        ExprKind::If(c, t, f) => {
            collect_refs(c, scope, out);
            collect_refs(t, scope, out);
            collect_refs(f, scope, out);
        },
        ExprKind::Match(scrut, arms) => {
            collect_refs(scrut, scope, out);
            collect_arms(arms, arms.len(), scope, out);
        },
        ExprKind::Block(stmts, last) => {
            let depth: usize = scope.depth();
            collect_stmts(stmts, stmts.len(), scope, out);
            collect_refs(last, scope, out);
            scope.truncate(depth);
        },
        _ => {},
    }
}

fn collect_all(es: &Vec<Expr>, n: usize, scope: &mut Scope, out: &mut Vec<CallRef>)
    requires
        n <= es@.len(),
    ensures
        final(scope)@ == old(scope)@,
        refs_view(final(out)@) == refs_all(es@, n as nat, old(scope)@, refs_view(old(out)@)),
    decreases es@, n,
{
    if n > 0 {
        collect_all(es, n - 1, scope, out);
        collect_refs(&es[n - 1], scope, out);
    }
}

fn collect_fields(fs: &Vec<(String, Expr)>, n: usize, scope: &mut Scope, out: &mut Vec<CallRef>)
    requires
        n <= fs@.len(),
    ensures
        final(scope)@ == old(scope)@,
        refs_view(final(out)@) == refs_fields(fs@, n as nat, old(scope)@, refs_view(old(out)@)),
    decreases fs@, n,
{
    if n > 0 {
        collect_fields(fs, n - 1, scope, out);
        collect_refs(&fs[n - 1].1, scope, out);
    }
}

fn collect_arms(arms: &Vec<Arm>, n: usize, scope: &mut Scope, out: &mut Vec<CallRef>)
    requires
        n <= arms@.len(),
    ensures
        final(scope)@ == old(scope)@,
        refs_view(final(out)@) == refs_arms(arms@, n as nat, old(scope)@, refs_view(old(out)@)),
    decreases arms@, n,
{
    if n > 0 {
        collect_arms(arms, n - 1, scope, out);
        let depth: usize = scope.depth();
        scope.bind_pattern(&arms[n - 1].pat);
        collect_refs(&arms[n - 1].body, scope, out);
        scope.truncate(depth);
    }
}

fn collect_stmts(stmts: &Vec<Stmt>, n: usize, scope: &mut Scope, out: &mut Vec<CallRef>)
    requires
        n <= stmts@.len(),
    ensures
        final(scope)@ == after_stmts(stmts@, n as nat, old(scope)@),
        extends(final(scope)@, old(scope)@),
        refs_view(final(out)@) == refs_stmts(stmts@, n as nat, old(scope)@, refs_view(old(out)@)),
    decreases stmts@, n,
{
    assert(scope@.take(scope@.len() as int) =~= scope@);
    if n > 0 {
        let ghost start = scope@;
        collect_stmts(stmts, n - 1, scope, out);
        let ghost mid = scope@;
        match &stmts[n - 1].kind {
            StmtKind::Let { name, name_span, ann, value } => {
                collect_refs(value, scope, out);
                scope.push(name.as_str());
                proof {
                    lemma_extends_trans(scope@, mid, start);
                }
            },
            StmtKind::Expr(ex) => collect_refs(ex, scope, out),
        }
    }
}

} // verus!
