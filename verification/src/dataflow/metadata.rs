//! Types are metadata of the data-flow: they change no definition, no use, no dead
//! binding and no shadowing.

use vstd::prelude::*;

use crate::ast::{Arm, Expr, ExprKind, FnDecl, Param, Pattern, PatternKind, Span, Stmt, StmtKind, Ty};
use crate::dataflow::{
    binding_added, comes_after, dead, fields_declared, finished, flow_of, innermost,
    lambda_declared, ordered, params_declared, pattern_declared, patterns_declared, used, walked, walked_all, walked_arms,
    walked_fields, walked_stmts, BindV, DfCx, DfSt,
};

verus! {

/// A binding without its type.
pub open spec fn untyped(b: BindV) -> BindV {
    BindV { ty: None, ..b }
}

/// Whether two lists of bindings differ in types alone.
pub open spec fn same_bindings(a: Seq<BindV>, b: Seq<BindV>) -> bool {
    &&& a.len() == b.len()
    &&& forall|i: int| 0 <= i < a.len() ==> untyped(#[trigger] a[i]) == untyped(b[i])
}

/// Whether every entry in scope is a binding.
pub open spec fn in_scope_is_bound(st: DfSt) -> bool {
    forall|i: int| 0 <= i < st.scope.len() ==> (#[trigger] st.scope[i]).id < st.bindings.len()
}

/// Whether two states differ in types alone.
pub open spec fn same_but_types(a: DfSt, b: DfSt) -> bool {
    &&& in_scope_is_bound(a)
    &&& a.scope == b.scope
    &&& a.shadows == b.shadows
    &&& same_bindings(a.bindings, b.bindings)
}

/// With another table of types a function has the same bindings at the same places,
/// with the same uses, the same dead bindings and the same shadowings.
pub proof fn types_are_metadata(f: FnDecl, cx: DfCx, other: DfCx)
    requires
        cx.lambda_params == other.lambda_params,
    ensures
        ({
            let a = flow_of(f, cx);
            let b = flow_of(f, other);
            &&& a.name == b.name
            &&& same_bindings(a.bindings, b.bindings)
            &&& a.unused_bindings == b.unused_bindings
            &&& a.shadows == b.shadows
        }),
{
    let start = params_declared(f.params@, f.params@.len());
    lemma_params(f.params@, f.params@.len());
    lemma_walked(f.body, start, start, cx, other);
    let a = flow_of(f, cx);
    let b = flow_of(f, other);
    let wa = walked(f.body, start, cx).bindings;
    let wb = walked(f.body, start, other).bindings;
    let fa = wa.map_values(|x: BindV| finished(x, cx.types));
    let fb = wb.map_values(|x: BindV| finished(x, other.types));
    assert forall|i: int| 0 <= i < fa.len() implies untyped(#[trigger] fa[i]) == untyped(fb[i]) by {
        assert(untyped(wa[i]) == untyped(wb[i]));
    }
    lemma_ordered(fa, fb, fa.len());
    lemma_dead(a.bindings, b.bindings, a.bindings.len());
}

proof fn lemma_ordered(a: Seq<BindV>, b: Seq<BindV>, n: nat)
    requires
        same_bindings(a, b),
        n <= a.len(),
    ensures
        same_bindings(ordered(a, n), ordered(b, n)),
    decreases n,
{
    if n > 0 {
        lemma_ordered(a, b, (n - 1) as nat);
        assert(untyped(a[n - 1]) == untyped(b[n - 1]));
        lemma_added(
            ordered(a, (n - 1) as nat),
            ordered(b, (n - 1) as nat),
            a[n - 1],
            b[n - 1],
        );
    }
}

proof fn lemma_added(a: Seq<BindV>, b: Seq<BindV>, x: BindV, y: BindV)
    requires
        same_bindings(a, b),
        untyped(x) == untyped(y),
    ensures
        same_bindings(binding_added(a, x), binding_added(b, y)),
    decreases a.len(),
{
    if a.len() > 0 {
        assert(untyped(a[a.len() - 1]) == untyped(b[b.len() - 1]));
        assert(a.last().kind == untyped(a.last()).kind && a.last().def == untyped(a.last()).def);
        assert(b.last().kind == untyped(b.last()).kind && b.last().def == untyped(b.last()).def);
        assert(x.kind == untyped(x).kind && x.def == untyped(x).def);
        assert(y.kind == untyped(y).kind && y.def == untyped(y).def);
        if comes_after(a.last(), x) {
            let c = a.drop_last();
            let d = b.drop_last();
            assert forall|i: int| 0 <= i < c.len() implies untyped(#[trigger] c[i]) == untyped(
                d[i],
            ) by {
                assert(untyped(a[i]) == untyped(b[i]));
            }
            lemma_added(c, d, x, y);
        }
    }
}

proof fn lemma_params(ps: Seq<Param>, n: nat)
    ensures
        in_scope_is_bound(params_declared(ps, n)),
    decreases n,
{
    if n > 0 && n <= ps.len() {
        lemma_params(ps, (n - 1) as nat);
    }
}

proof fn lemma_innermost(st: DfSt, n: nat, name: Seq<char>)
    requires
        in_scope_is_bound(st),
        n <= st.scope.len(),
    ensures
        innermost(st.scope.take(n as int), name) matches Some(e) ==> e.id < st.bindings.len(),
    decreases n,
{
    if n > 0 {
        let t = st.scope.take(n as int);
        assert(t.drop_last() =~= st.scope.take(n - 1));
        assert(t.last() == st.scope[n - 1]);
        lemma_innermost(st, (n - 1) as nat, name);
    }
}

proof fn lemma_dead(a: Seq<BindV>, b: Seq<BindV>, n: nat)
    requires
        same_bindings(a, b),
        n <= a.len(),
    ensures
        dead(a, n) == dead(b, n),
    decreases n,
{
    if n > 0 {
        lemma_dead(a, b, (n - 1) as nat);
        assert(untyped(a[n - 1]) == untyped(b[n - 1]));
    }
}

proof fn lemma_used(a: DfSt, b: DfSt, name: Seq<char>, span: Span)
    requires
        same_but_types(a, b),
    ensures
        same_but_types(used(a, name, span), used(b, name, span)),
{
    lemma_innermost(a, a.scope.len(), name);
    assert(a.scope.take(a.scope.len() as int) =~= a.scope);
    if let Some(e) = innermost(a.scope, name) {
        if span.located() {
            assert(untyped(a.bindings[e.id as int]) == untyped(b.bindings[e.id as int]));
        }
    }
}

proof fn lemma_pattern(p: Pattern, a: DfSt, b: DfSt, cx: DfCx, other: DfCx)
    requires
        same_but_types(a, b),
    ensures
        same_but_types(pattern_declared(p, a, cx), pattern_declared(p, b, other)),
    decreases p, 0nat,
{
    match p.kind {
        PatternKind::Ctor(_, subs) => {
            lemma_patterns(subs@, subs@.len(), a, b, cx, other);
        },
        PatternKind::Record(_, fs) => {
            lemma_field_patterns(fs@, fs@.len(), a, b, cx, other);
        },
        _ => {},
    }
}

proof fn lemma_patterns(ps: Seq<Pattern>, n: nat, a: DfSt, b: DfSt, cx: DfCx, other: DfCx)
    requires
        same_but_types(a, b),
    ensures
        same_but_types(patterns_declared(ps, n, a, cx), patterns_declared(ps, n, b, other)),
    decreases ps, n,
{
    if n > 0 && n <= ps.len() {
        lemma_patterns(ps, (n - 1) as nat, a, b, cx, other);
        lemma_pattern(
            ps[n - 1],
            patterns_declared(ps, (n - 1) as nat, a, cx),
            patterns_declared(ps, (n - 1) as nat, b, other),
            cx,
            other,
        );
    }
}

proof fn lemma_field_patterns(
    fs: Seq<(String, Pattern)>,
    n: nat,
    a: DfSt,
    b: DfSt,
    cx: DfCx,
    other: DfCx,
)
    requires
        same_but_types(a, b),
    ensures
        same_but_types(fields_declared(fs, n, a, cx), fields_declared(fs, n, b, other)),
    decreases fs, n,
{
    if n > 0 && n <= fs.len() {
        lemma_field_patterns(fs, (n - 1) as nat, a, b, cx, other);
        lemma_pattern(
            fs[n - 1].1,
            fields_declared(fs, (n - 1) as nat, a, cx),
            fields_declared(fs, (n - 1) as nat, b, other),
            cx,
            other,
        );
    }
}

proof fn lemma_lambda(
    ps: Seq<(String, Ty)>,
    n: nat,
    body: Span,
    a: DfSt,
    b: DfSt,
    cx: DfCx,
    other: DfCx,
)
    requires
        same_but_types(a, b),
        cx.lambda_params == other.lambda_params,
    ensures
        same_but_types(
            lambda_declared(ps, n, body, a, cx),
            lambda_declared(ps, n, body, b, other),
        ),
    decreases n,
{
    if n > 0 && n <= ps.len() {
        lemma_lambda(ps, (n - 1) as nat, body, a, b, cx, other);
    }
}

proof fn lemma_walked(e: Expr, a: DfSt, b: DfSt, cx: DfCx, other: DfCx)
    requires
        same_but_types(a, b),
        cx.lambda_params == other.lambda_params,
    ensures
        same_but_types(walked(e, a, cx), walked(e, b, other)),
    decreases e, 0nat,
{
    match e.kind {
        ExprKind::Var(name) => {
            lemma_used(a, b, name@, e.span);
        },
        ExprKind::Call(name, args) => {
            lemma_used(a, b, name@, e.span);
            lemma_all(
                args@,
                args@.len(),
                used(a, name@, e.span),
                used(b, name@, e.span),
                cx,
                other,
            );
        },
        ExprKind::Ctor(_, args) => {
            lemma_all(args@, args@.len(), a, b, cx, other);
        },
        ExprKind::Record(_, fs) => {
            lemma_fields(fs@, fs@.len(), a, b, cx, other);
        },
        ExprKind::Field(obj, _) => {
            lemma_walked(*obj, a, b, cx, other);
        },
        ExprKind::Update(base, ups) => {
            lemma_walked(*base, a, b, cx, other);
            lemma_fields(
                ups@,
                ups@.len(),
                walked(*base, a, cx),
                walked(*base, b, other),
                cx,
                other,
            );
        },
        ExprKind::Lambda(ps, body, _) => {
            lemma_lambda(ps@, ps@.len(), body.span, a, b, cx, other);
            lemma_walked(
                *body,
                lambda_declared(ps@, ps@.len(), body.span, a, cx),
                lambda_declared(ps@, ps@.len(), body.span, b, other),
                cx,
                other,
            );
        },
        ExprKind::Apply(callee, args, _) => {
            lemma_walked(*callee, a, b, cx, other);
            lemma_all(
                args@,
                args@.len(),
                walked(*callee, a, cx),
                walked(*callee, b, other),
                cx,
                other,
            );
        },
        ExprKind::Unary(_, inner) => {
            lemma_walked(*inner, a, b, cx, other);
        },
        ExprKind::Binary(_, l, r) => {
            lemma_walked(*l, a, b, cx, other);
            lemma_walked(*r, walked(*l, a, cx), walked(*l, b, other), cx, other);
        },
        ExprKind::If(c, t, f) => {
            let (a1, b1) = (walked(*c, a, cx), walked(*c, b, other));
            lemma_walked(*c, a, b, cx, other);
            lemma_walked(*t, a1, b1, cx, other);
            lemma_walked(*f, walked(*t, a1, cx), walked(*t, b1, other), cx, other);
        },
        ExprKind::Match(scrut, arms) => {
            lemma_walked(*scrut, a, b, cx, other);
            lemma_arms(
                arms@,
                arms@.len(),
                walked(*scrut, a, cx),
                walked(*scrut, b, other),
                cx,
                other,
            );
        },
        ExprKind::Block(stmts, last) => {
            lemma_stmts(stmts@, stmts@.len(), a, b, cx, other);
            lemma_walked(
                *last,
                walked_stmts(stmts@, stmts@.len(), a, cx),
                walked_stmts(stmts@, stmts@.len(), b, other),
                cx,
                other,
            );
        },
        _ => {},
    }
}

proof fn lemma_all(es: Seq<Expr>, n: nat, a: DfSt, b: DfSt, cx: DfCx, other: DfCx)
    requires
        same_but_types(a, b),
        cx.lambda_params == other.lambda_params,
    ensures
        same_but_types(walked_all(es, n, a, cx), walked_all(es, n, b, other)),
    decreases es, n,
{
    if n > 0 && n <= es.len() {
        lemma_all(es, (n - 1) as nat, a, b, cx, other);
        lemma_walked(
            es[n - 1],
            walked_all(es, (n - 1) as nat, a, cx),
            walked_all(es, (n - 1) as nat, b, other),
            cx,
            other,
        );
    }
}

proof fn lemma_fields(fs: Seq<(String, Expr)>, n: nat, a: DfSt, b: DfSt, cx: DfCx, other: DfCx)
    requires
        same_but_types(a, b),
        cx.lambda_params == other.lambda_params,
    ensures
        same_but_types(walked_fields(fs, n, a, cx), walked_fields(fs, n, b, other)),
    decreases fs, n,
{
    if n > 0 && n <= fs.len() {
        lemma_fields(fs, (n - 1) as nat, a, b, cx, other);
        lemma_walked(
            fs[n - 1].1,
            walked_fields(fs, (n - 1) as nat, a, cx),
            walked_fields(fs, (n - 1) as nat, b, other),
            cx,
            other,
        );
    }
}

proof fn lemma_arms(arms: Seq<Arm>, n: nat, a: DfSt, b: DfSt, cx: DfCx, other: DfCx)
    requires
        same_but_types(a, b),
        cx.lambda_params == other.lambda_params,
    ensures
        same_but_types(walked_arms(arms, n, a, cx), walked_arms(arms, n, b, other)),
    decreases arms, n,
{
    if n > 0 && n <= arms.len() {
        let a1 = walked_arms(arms, (n - 1) as nat, a, cx);
        let b1 = walked_arms(arms, (n - 1) as nat, b, other);
        let arm = arms[n - 1];
        lemma_arms(arms, (n - 1) as nat, a, b, cx, other);
        lemma_pattern(arm.pat, a1, b1, cx, other);
        lemma_walked(
            arm.body,
            pattern_declared(arm.pat, a1, cx),
            pattern_declared(arm.pat, b1, other),
            cx,
            other,
        );
    }
}

proof fn lemma_stmts(ss: Seq<Stmt>, n: nat, a: DfSt, b: DfSt, cx: DfCx, other: DfCx)
    requires
        same_but_types(a, b),
        cx.lambda_params == other.lambda_params,
    ensures
        same_but_types(walked_stmts(ss, n, a, cx), walked_stmts(ss, n, b, other)),
    decreases ss, n,
{
    if n > 0 && n <= ss.len() {
        let a1 = walked_stmts(ss, (n - 1) as nat, a, cx);
        let b1 = walked_stmts(ss, (n - 1) as nat, b, other);
        lemma_stmts(ss, (n - 1) as nat, a, b, cx, other);
        match ss[n - 1].kind {
            StmtKind::Let { name, name_span, ann, value } => {
                lemma_walked(value, a1, b1, cx, other);
            },
            StmtKind::Expr(ex) => {
                lemma_walked(ex, a1, b1, cx, other);
            },
        }
    }
}

} // verus!
