//! The names that occur free in an expression, by the grammar alone.
//!
//! Nothing here walks with a scope: an occurrence is free if it stands in some part
//! of the expression, at any depth, and no binder around it binds its name.

use vstd::prelude::*;

use crate::analyze::refs::{
    after_stmts, bound, bound_all, bound_fields, bound_params, noted, refs_all, refs_arms,
    refs_fields, refs_in, refs_stmts, spans_of, Locals, RefV,
};
use crate::ast::{Arm, Expr, ExprKind, Pattern, PatternKind, Stmt, StmtKind, Ty};

verus! {

/// Whether a pattern binds the name, itself or in one of its parts.
pub open spec fn binds(p: Pattern, name: Seq<char>) -> bool
    decreases p,
{
    match p.kind {
        PatternKind::Var(n) => n@ == name,
        PatternKind::Ctor(_, subs) => exists|k: int|
            0 <= k < subs@.len() && binds(#[trigger] subs@[k], name),
        PatternKind::Record(_, fields) => exists|k: int|
            0 <= k < fields@.len() && binds((#[trigger] fields@[k]).1, name),
        _ => false,
    }
}

/// Whether one of the parameters has the name.
pub open spec fn takes(ps: Seq<(String, Ty)>, name: Seq<char>) -> bool {
    exists|k: int| 0 <= k < ps.len() && (#[trigger] ps[k]).0@ == name
}

/// Whether a statement is a `let` of the name.
pub open spec fn is_let(s: Stmt, name: Seq<char>) -> bool {
    match s.kind {
        StmtKind::Let { name: n, name_span, ann, value } => n@ == name,
        StmtKind::Expr(_) => false,
    }
}

/// Whether one of the statements from `i` up to `j` is a `let` of the name.
pub open spec fn lets(ss: Seq<Stmt>, i: int, j: int, name: Seq<char>) -> bool {
    exists|k: int| i <= k < j && is_let(#[trigger] ss[k], name)
}

/// The expression that a statement evaluates.
pub open spec fn evaluated(s: Stmt) -> Expr {
    match s.kind {
        StmtKind::Let { name, name_span, ann, value } => value,
        StmtKind::Expr(e) => e,
    }
}

/// Whether an occurrence stands at the head of an expression: a bare name, or a call
/// with the spans of its arguments.
pub open spec fn stands_at(e: Expr, r: RefV) -> bool {
    match e.kind {
        ExprKind::Var(name) => r.name == name@ && r.span == e.span && r.args.len() == 0,
        ExprKind::Call(name, args) => {
            &&& r.name == name@
            &&& r.span == e.span
            &&& r.args.len() == args@.len()
            &&& forall|k: int| 0 <= k < args@.len() ==> #[trigger] r.args[k] == args@[k].span
        },
        _ => false,
    }
}

/// Whether an occurrence stands free in an expression: at its head, or free in a
/// part of it that is not in the scope of a binder of the name. A `let` holds for the
/// statements after it and for the last expression, a parameter for the body, and a
/// pattern variable for its arm.
pub open spec fn free_at(e: Expr, r: RefV) -> bool
    decreases e,
{
    ||| stands_at(e, r)
    ||| match e.kind {
        ExprKind::Call(_, args) => exists|k: int|
            0 <= k < args@.len() && free_at(#[trigger] args@[k], r),
        ExprKind::Ctor(_, args) => exists|k: int|
            0 <= k < args@.len() && free_at(#[trigger] args@[k], r),
        ExprKind::Record(_, fs) => exists|k: int|
            0 <= k < fs@.len() && free_at((#[trigger] fs@[k]).1, r),
        ExprKind::Field(obj, _) => free_at(*obj, r),
        ExprKind::Update(base, ups) => free_at(*base, r) || exists|k: int|
            0 <= k < ups@.len() && free_at((#[trigger] ups@[k]).1, r),
        ExprKind::Lambda(ps, body, _) => !takes(ps@, r.name) && free_at(*body, r),
        ExprKind::Apply(callee, args, _) => free_at(*callee, r) || exists|k: int|
            0 <= k < args@.len() && free_at(#[trigger] args@[k], r),
        ExprKind::Unary(_, x) => free_at(*x, r),
        ExprKind::Binary(_, a, b) => free_at(*a, r) || free_at(*b, r),
        ExprKind::If(c, t, f) => free_at(*c, r) || free_at(*t, r) || free_at(*f, r),
        ExprKind::Match(x, arms) => free_at(*x, r) || exists|k: int|
            0 <= k < arms@.len() && !binds((#[trigger] arms@[k]).pat, r.name) && free_at(
                arms@[k].body,
                r,
            ),
        ExprKind::Block(ss, last) => (exists|k: int|
            0 <= k < ss@.len() && !lets(ss@, 0, k, r.name) && free_at(
                evaluated(#[trigger] ss@[k]),
                r,
            )) || !lets(ss@, 0, ss@.len() as int, r.name) && free_at(*last, r),
        _ => false,
    }
}

// ---------------------------------------------------------------------------
// Scopes
// ---------------------------------------------------------------------------

proof fn lemma_pushed(sc: Locals, n: Seq<char>, name: Seq<char>)
    ensures
        sc.push(n).contains(name) <==> sc.contains(name) || n == name,
{
    let t = sc.push(n);
    if sc.contains(name) {
        let k = choose|k: int| 0 <= k < sc.len() && sc[k] == name;
        assert(t[k] == name);
    }
    assert(t[sc.len() as int] == n);
    if t.contains(name) {
        let k = choose|k: int| 0 <= k < t.len() && t[k] == name;
        if k < sc.len() {
            assert(sc[k] == name);
        }
    }
}

/// The scope of a pattern holds the names that the pattern binds.
pub proof fn lemma_bound(p: Pattern, sc: Locals, name: Seq<char>)
    ensures
        bound(p, sc).contains(name) <==> sc.contains(name) || binds(p, name),
    decreases p, 0nat,
{
    match p.kind {
        PatternKind::Var(n) => {
            lemma_pushed(sc, n@, name);
        },
        PatternKind::Ctor(_, subs) => {
            lemma_bound_all(subs@, subs@.len(), sc, name);
        },
        PatternKind::Record(_, fields) => {
            lemma_bound_fields(fields@, fields@.len(), sc, name);
        },
        _ => {},
    }
}

proof fn lemma_bound_all(ps: Seq<Pattern>, n: nat, sc: Locals, name: Seq<char>)
    requires
        n <= ps.len(),
    ensures
        bound_all(ps, n, sc).contains(name) <==> sc.contains(name) || exists|k: int|
            0 <= k < n && binds(#[trigger] ps[k], name),
    decreases ps, n,
{
    if n > 0 {
        let before = bound_all(ps, (n - 1) as nat, sc);
        lemma_bound_all(ps, (n - 1) as nat, sc, name);
        lemma_bound(ps[n - 1], before, name);
        if binds(ps[n - 1], name) {
            assert(bound_all(ps, n, sc).contains(name));
        }
    }
}

proof fn lemma_bound_fields(fs: Seq<(String, Pattern)>, n: nat, sc: Locals, name: Seq<char>)
    requires
        n <= fs.len(),
    ensures
        bound_fields(fs, n, sc).contains(name) <==> sc.contains(name) || exists|k: int|
            0 <= k < n && binds((#[trigger] fs[k]).1, name),
    decreases fs, n,
{
    if n > 0 {
        let before = bound_fields(fs, (n - 1) as nat, sc);
        lemma_bound_fields(fs, (n - 1) as nat, sc, name);
        lemma_bound(fs[n - 1].1, before, name);
        if exists|k: int| 0 <= k < n - 1 && binds((#[trigger] fs[k]).1, name) {
            let k = choose|k: int| 0 <= k < n - 1 && binds((#[trigger] fs[k]).1, name);
            assert(binds(fs[k].1, name));
        }
    }
}

proof fn lemma_bound_params(ps: Seq<(String, Ty)>, n: nat, sc: Locals, name: Seq<char>)
    requires
        n <= ps.len(),
    ensures
        bound_params(ps, n, sc).contains(name) <==> sc.contains(name) || exists|k: int|
            0 <= k < n && (#[trigger] ps[k]).0@ == name,
    decreases n,
{
    if n > 0 {
        let before = bound_params(ps, (n - 1) as nat, sc);
        lemma_bound_params(ps, (n - 1) as nat, sc, name);
        lemma_pushed(before, ps[n - 1].0@, name);
        if exists|k: int| 0 <= k < n - 1 && (#[trigger] ps[k]).0@ == name {
            let k = choose|k: int| 0 <= k < n - 1 && (#[trigger] ps[k]).0@ == name;
            assert(ps[k].0@ == name);
        }
    }
}

proof fn lemma_after(ss: Seq<Stmt>, n: nat, sc: Locals, name: Seq<char>)
    requires
        n <= ss.len(),
    ensures
        after_stmts(ss, n, sc).contains(name) <==> sc.contains(name) || lets(ss, 0, n as int, name),
    decreases n,
{
    if n > 0 {
        let before = after_stmts(ss, (n - 1) as nat, sc);
        lemma_after(ss, (n - 1) as nat, sc, name);
        if let StmtKind::Let { name: m, name_span, ann, value } = ss[n - 1].kind {
            lemma_pushed(before, m@, name);
        }
        if lets(ss, 0, n - 1, name) {
            let k = choose|k: int| 0 <= k < n - 1 && is_let(#[trigger] ss[k], name);
            assert(is_let(ss[k], name));
        }
        if is_let(ss[n - 1], name) {
            assert(lets(ss, 0, n as int, name));
        }
    }
}

// ---------------------------------------------------------------------------
// References
// ---------------------------------------------------------------------------

proof fn lemma_noted(e: Expr, name: Seq<char>, args: Seq<crate::ast::Span>, sc: Locals, acc: Seq<RefV>, r: RefV)
    ensures
        noted(name, e.span, args, sc, acc).contains(r) <==> acc.contains(r) || (!sc.contains(name)
            && r == (RefV { name, span: e.span, args })),
{
    let x = RefV { name, span: e.span, args };
    let t = acc.push(x);
    if acc.contains(r) {
        let k = choose|k: int| 0 <= k < acc.len() && acc[k] == r;
        assert(t[k] == r);
    }
    assert(t[acc.len() as int] == x);
    if t.contains(r) {
        let k = choose|k: int| 0 <= k < t.len() && t[k] == r;
        if k < acc.len() {
            assert(acc[k] == r);
        }
    }
}

/// The references that are collected from an expression are its free occurrences, in
/// whatever part they stand, unless the name is local; none is left out and none is
/// made up.
#[verifier::rlimit(60)]
pub proof fn references_are_free_occurrences(e: Expr, sc: Locals, acc: Seq<RefV>, r: RefV)
    ensures
        refs_in(e, sc, acc).contains(r) <==> acc.contains(r) || (!sc.contains(r.name) && free_at(
            e,
            r,
        )),
    decreases e, 0nat,
{
    match e.kind {
        ExprKind::Var(name) => {
            lemma_noted(e, name@, Seq::empty(), sc, acc, r);
            assert(r.args.len() == 0 ==> r.args =~= Seq::empty());
        },
        ExprKind::Call(name, args) => {
            let spans = spans_of(args@);
            let mid = noted(name@, e.span, spans, sc, acc);
            lemma_noted(e, name@, spans, sc, acc, r);
            lemma_all(args@, args@.len(), sc, mid, r);
            if stands_at(e, r) {
                assert(r.args =~= spans);
            }
        },
        ExprKind::Ctor(_, args) => {
            lemma_all(args@, args@.len(), sc, acc, r);
        },
        ExprKind::Record(_, fs) => {
            lemma_fields(fs@, fs@.len(), sc, acc, r);
        },
        ExprKind::Field(obj, _) => {
            references_are_free_occurrences(*obj, sc, acc, r);
        },
        ExprKind::Update(base, ups) => {
            references_are_free_occurrences(*base, sc, acc, r);
            lemma_fields(ups@, ups@.len(), sc, refs_in(*base, sc, acc), r);
        },
        ExprKind::Lambda(ps, body, _) => {
            let inner = bound_params(ps@, ps@.len(), sc);
            lemma_bound_params(ps@, ps@.len(), sc, r.name);
            references_are_free_occurrences(*body, inner, acc, r);
        },
        ExprKind::Apply(callee, args, _) => {
            references_are_free_occurrences(*callee, sc, acc, r);
            lemma_all(args@, args@.len(), sc, refs_in(*callee, sc, acc), r);
        },
        ExprKind::Unary(_, x) => {
            references_are_free_occurrences(*x, sc, acc, r);
        },
        ExprKind::Binary(_, a, b) => {
            references_are_free_occurrences(*a, sc, acc, r);
            references_are_free_occurrences(*b, sc, refs_in(*a, sc, acc), r);
        },
        ExprKind::If(c, t, f) => {
            let s1 = refs_in(*c, sc, acc);
            let s2 = refs_in(*t, sc, s1);
            references_are_free_occurrences(*c, sc, acc, r);
            references_are_free_occurrences(*t, sc, s1, r);
            references_are_free_occurrences(*f, sc, s2, r);
        },
        ExprKind::Match(x, arms) => {
            references_are_free_occurrences(*x, sc, acc, r);
            lemma_arms(arms@, arms@.len(), sc, refs_in(*x, sc, acc), r);
        },
        ExprKind::Block(ss, last) => {
            let inner = after_stmts(ss@, ss@.len(), sc);
            lemma_stmts(ss@, ss@.len(), sc, acc, r);
            lemma_after(ss@, ss@.len(), sc, r.name);
            references_are_free_occurrences(
                *last,
                inner,
                refs_stmts(ss@, ss@.len(), sc, acc),
                r,
            );
        },
        _ => {},
    }
}

proof fn lemma_all(es: Seq<Expr>, n: nat, sc: Locals, acc: Seq<RefV>, r: RefV)
    requires
        n <= es.len(),
    ensures
        refs_all(es, n, sc, acc).contains(r) <==> acc.contains(r) || (!sc.contains(r.name)
            && exists|k: int| 0 <= k < n && free_at(#[trigger] es[k], r)),
    decreases es, n,
{
    if n > 0 {
        let before = refs_all(es, (n - 1) as nat, sc, acc);
        lemma_all(es, (n - 1) as nat, sc, acc, r);
        references_are_free_occurrences(es[n - 1], sc, before, r);
    }
}

proof fn lemma_fields(fs: Seq<(String, Expr)>, n: nat, sc: Locals, acc: Seq<RefV>, r: RefV)
    requires
        n <= fs.len(),
    ensures
        refs_fields(fs, n, sc, acc).contains(r) <==> acc.contains(r) || (!sc.contains(r.name)
            && exists|k: int| 0 <= k < n && free_at((#[trigger] fs[k]).1, r)),
    decreases fs, n,
{
    if n > 0 {
        let before = refs_fields(fs, (n - 1) as nat, sc, acc);
        lemma_fields(fs, (n - 1) as nat, sc, acc, r);
        references_are_free_occurrences(fs[n - 1].1, sc, before, r);
        if exists|k: int| 0 <= k < n - 1 && free_at((#[trigger] fs[k]).1, r) {
            let k = choose|k: int| 0 <= k < n - 1 && free_at((#[trigger] fs[k]).1, r);
            assert(free_at(fs[k].1, r));
        }
    }
}

proof fn lemma_arms(arms: Seq<Arm>, n: nat, sc: Locals, acc: Seq<RefV>, r: RefV)
    requires
        n <= arms.len(),
    ensures
        refs_arms(arms, n, sc, acc).contains(r) <==> acc.contains(r) || (!sc.contains(r.name)
            && exists|k: int|
            0 <= k < n && !binds((#[trigger] arms[k]).pat, r.name) && free_at(arms[k].body, r)),
    decreases arms, n,
{
    if n > 0 {
        let before = refs_arms(arms, (n - 1) as nat, sc, acc);
        let arm = arms[n - 1];
        lemma_arms(arms, (n - 1) as nat, sc, acc, r);
        lemma_bound(arm.pat, sc, r.name);
        references_are_free_occurrences(arm.body, bound(arm.pat, sc), before, r);
        if exists|k: int|
            0 <= k < n - 1 && !binds((#[trigger] arms[k]).pat, r.name) && free_at(arms[k].body, r) {
            let k = choose|k: int|
                0 <= k < n - 1 && !binds((#[trigger] arms[k]).pat, r.name) && free_at(
                    arms[k].body,
                    r,
                );
            assert(!binds(arms[k].pat, r.name));
        }
    }
}

proof fn lemma_stmts(ss: Seq<Stmt>, n: nat, sc: Locals, acc: Seq<RefV>, r: RefV)
    requires
        n <= ss.len(),
    ensures
        refs_stmts(ss, n, sc, acc).contains(r) <==> acc.contains(r) || (!sc.contains(r.name)
            && exists|k: int|
            0 <= k < n && !lets(ss, 0, k, r.name) && free_at(evaluated(#[trigger] ss[k]), r)),
    decreases ss, n,
{
    if n > 0 {
        let before = refs_stmts(ss, (n - 1) as nat, sc, acc);
        let inner = after_stmts(ss, (n - 1) as nat, sc);
        lemma_stmts(ss, (n - 1) as nat, sc, acc, r);
        lemma_after(ss, (n - 1) as nat, sc, r.name);
        match ss[n - 1].kind {
            StmtKind::Let { name, name_span, ann, value } => {
                references_are_free_occurrences(value, inner, before, r);
            },
            StmtKind::Expr(ex) => {
                references_are_free_occurrences(ex, inner, before, r);
            },
        }
        if exists|k: int|
            0 <= k < n - 1 && !lets(ss, 0, k, r.name) && free_at(evaluated(#[trigger] ss[k]), r) {
            let k = choose|k: int|
                0 <= k < n - 1 && !lets(ss, 0, k, r.name) && free_at(
                    evaluated(#[trigger] ss[k]),
                    r,
                );
            assert(free_at(evaluated(ss[k]), r));
        }
    }
}

} // verus!
