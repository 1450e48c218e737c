//! Definitions and uses by the grammar alone: a binder's uses are the occurrences of
//! its name that stand free in the region where it holds.

use vstd::prelude::*;

use crate::analyze::free::{binds, evaluated, free_at, is_let, lets, stands_at, takes};
use crate::analyze::refs::RefV;
use crate::analyze::{pos_lt, positions_sorted, type_at};
use crate::ast::{Arm, Expr, ExprKind, FnDecl, Param, Pattern, PatternKind, Span, Stmt, StmtKind, Ty};
use crate::dataflow::{
    annotated, bindings_in_source_order, dead, declared, either, fields_declared, finished, flow_of,
    innermost, lambda_declared, lambda_span, left, let_type, params_declared, pattern_declared,
    patterns_declared, sorted_uses, used, walked, walked_all, walked_arms, walked_fields,
    walked_stmts, BindKind, BindV, DfCx, DfSt, EntryV,
};
use crate::types::shown;

verus! {

/// A binder: its name, its kind, where it is defined, and its type.
pub struct BinderV {
    pub name: Seq<char>,
    pub kind: BindKind,
    pub span: Span,
    pub ty: Option<Seq<char>>,
}

/// A binder with the occurrences that stand free in its region.
pub struct DefV {
    pub binder: BinderV,
    pub region: spec_fn(RefV) -> bool,
}

/// The free occurrences of an expression.
pub open spec fn occurrences(e: Expr) -> spec_fn(RefV) -> bool {
    |r: RefV| free_at(e, r)
}

/// The occurrences of other names.
pub open spec fn without(u: spec_fn(RefV) -> bool, name: Seq<char>) -> spec_fn(RefV) -> bool {
    |r: RefV| r.name != name && u(r)
}

/// The occurrences that none of the first `n` binders binds.
pub open spec fn without_all(
    u: spec_fn(RefV) -> bool,
    bs: Seq<BinderV>,
    n: nat,
) -> spec_fn(RefV) -> bool
    decreases n,
{
    if n == 0 || n > bs.len() {
        u
    } else {
        without_all(without(u, bs[n - 1].name), bs, (n - 1) as nat)
    }
}

/// The definitions of the first `n` binders that hold for one region: each has the
/// occurrences that no later one binds.
pub open spec fn defs_of(bs: Seq<BinderV>, n: nat, u: spec_fn(RefV) -> bool) -> Seq<DefV>
    decreases n,
{
    if n == 0 || n > bs.len() {
        Seq::empty()
    } else {
        defs_of(bs, (n - 1) as nat, without(u, bs[n - 1].name)).push(
            DefV { binder: bs[n - 1], region: u },
        )
    }
}

/// Whether a position is that of an occurrence of the name.
pub open spec fn read_at(u: spec_fn(RefV) -> bool, name: Seq<char>, pos: (u32, u32)) -> bool {
    exists|r: RefV| #[trigger]
        u(r) && r.name == name && r.span.start_line != 0 && (r.span.start_line, r.span.start_col)
            == pos
}

/// The parameters of a lambda.
pub open spec fn lambda_binders(ps: Seq<(String, Ty)>, body: Span, cx: DfCx) -> Seq<BinderV> {
    Seq::new(
        ps.len(),
        |k: int|
            {
                let span = lambda_span(cx.lambda_params, body, k);
                BinderV {
                    name: ps[k].0@,
                    kind: BindKind::LambdaParam,
                    span,
                    ty: either(annotated(ps[k].1), type_at(cx.types, span)),
                }
            },
    )
}

/// The variables of a pattern, in order.
pub open spec fn pattern_binders(p: Pattern, cx: DfCx) -> Seq<BinderV>
    decreases p, 0nat,
{
    match p.kind {
        PatternKind::Var(n) => seq![
            BinderV {
                name: n@,
                kind: BindKind::MatchBinder,
                span: p.span,
                ty: type_at(cx.types, p.span),
            },
        ],
        PatternKind::Ctor(_, subs) => patterns_binders(subs@, subs@.len(), cx),
        PatternKind::Record(_, fs) => field_binders(fs@, fs@.len(), cx),
        _ => Seq::empty(),
    }
}

/// The variables of the first `n` patterns.
pub open spec fn patterns_binders(ps: Seq<Pattern>, n: nat, cx: DfCx) -> Seq<BinderV>
    decreases ps, n,
{
    if n == 0 || n > ps.len() {
        Seq::empty()
    } else {
        patterns_binders(ps, (n - 1) as nat, cx) + pattern_binders(ps[n - 1], cx)
    }
}

/// The variables of the first `n` field patterns.
pub open spec fn field_binders(fs: Seq<(String, Pattern)>, n: nat, cx: DfCx) -> Seq<BinderV>
    decreases fs, n,
{
    if n == 0 || n > fs.len() {
        Seq::empty()
    } else {
        field_binders(fs, (n - 1) as nat, cx) + pattern_binders(fs[n - 1].1, cx)
    }
}

/// Whether an occurrence stands free in a block from its statement `k` on.
pub open spec fn free_from(e: Expr, k: int, r: RefV) -> bool {
    match e.kind {
        ExprKind::Block(ss, last) => (exists|m: int|
            k <= m < ss@.len() && !lets(ss@, k, m, r.name) && free_at(
                evaluated(#[trigger] ss@[m]),
                r,
            )) || !lets(ss@, k, ss@.len() as int, r.name) && free_at(*last, r),
        _ => false,
    }
}

/// The occurrences that stand free in a block from its statement `k` on.
pub open spec fn later(e: Expr, k: nat) -> spec_fn(RefV) -> bool {
    |r: RefV| free_from(e, k as int, r)
}

/// The number of statements of a block.
pub open spec fn block_len(e: Expr) -> nat {
    match e.kind {
        ExprKind::Block(ss, _) => ss@.len(),
        _ => 0,
    }
}

/// The definitions in an expression, in all of its parts.
pub open spec fn defs(e: Expr, cx: DfCx) -> Seq<DefV>
    decreases e, block_len(e) + 1,
{
    match e.kind {
        ExprKind::Call(_, args) => defs_all(args@, args@.len(), cx),
        ExprKind::Ctor(_, args) => defs_all(args@, args@.len(), cx),
        ExprKind::Record(_, fs) => defs_fields(fs@, fs@.len(), cx),
        ExprKind::Field(obj, _) => defs(*obj, cx),
        ExprKind::Update(base, ups) => defs(*base, cx) + defs_fields(ups@, ups@.len(), cx),
        ExprKind::Lambda(ps, body, _) => defs_of(
            lambda_binders(ps@, body.span, cx),
            ps@.len(),
            occurrences(*body),
        ) + defs(*body, cx),
        ExprKind::Apply(callee, args, _) => defs(*callee, cx) + defs_all(args@, args@.len(), cx),
        ExprKind::Unary(_, x) => defs(*x, cx),
        ExprKind::Binary(_, a, b) => defs(*a, cx) + defs(*b, cx),
        ExprKind::If(c, t, f) => defs(*c, cx) + defs(*t, cx) + defs(*f, cx),
        ExprKind::Match(x, arms) => defs(*x, cx) + defs_arms(arms@, arms@.len(), cx),
        ExprKind::Block(_, _) => defs_from(e, 0, cx),
        _ => Seq::empty(),
    }
}

/// The definitions in the first `n` expressions.
pub open spec fn defs_all(es: Seq<Expr>, n: nat, cx: DfCx) -> Seq<DefV>
    decreases es, n,
{
    if n == 0 || n > es.len() {
        Seq::empty()
    } else {
        defs_all(es, (n - 1) as nat, cx) + defs(es[n - 1], cx)
    }
}

/// The definitions in the first `n` field values.
pub open spec fn defs_fields(fs: Seq<(String, Expr)>, n: nat, cx: DfCx) -> Seq<DefV>
    decreases fs, n,
{
    if n == 0 || n > fs.len() {
        Seq::empty()
    } else {
        defs_fields(fs, (n - 1) as nat, cx) + defs(fs[n - 1].1, cx)
    }
}

/// The definitions in the first `n` arms.
pub open spec fn defs_arms(arms: Seq<Arm>, n: nat, cx: DfCx) -> Seq<DefV>
    decreases arms, n,
{
    if n == 0 || n > arms.len() {
        Seq::empty()
    } else {
        let arm = arms[n - 1];
        let bs = pattern_binders(arm.pat, cx);
        defs_arms(arms, (n - 1) as nat, cx) + (defs_of(bs, bs.len(), occurrences(arm.body)) + defs(
            arm.body,
            cx,
        ))
    }
}

/// The binder of a `let`.
pub open spec fn let_binder(s: Stmt, cx: DfCx) -> BinderV {
    match s.kind {
        StmtKind::Let { name, name_span, ann, value } => BinderV {
            name: name@,
            kind: BindKind::Let,
            span: name_span,
            ty: let_type(ann, value.span, name_span, cx),
        },
        StmtKind::Expr(_) => arbitrary(),
    }
}

/// The definitions in a block from its statement `k` on. A `let` holds for what comes
/// after it.
pub open spec fn defs_from(e: Expr, k: nat, cx: DfCx) -> Seq<DefV>
    decreases e, block_len(e) - k,
{
    match e.kind {
        ExprKind::Block(ss, last) => if k >= ss@.len() {
            defs(*last, cx)
        } else {
            match ss@[k as int].kind {
                StmtKind::Let { name, name_span, ann, value } => defs(value, cx) + (seq![
                    DefV {
                        binder: let_binder(ss@[k as int], cx),
                        region: later(e, k + 1),
                    },
                ] + defs_from(e, k + 1, cx)),
                StmtKind::Expr(x) => defs(x, cx) + defs_from(e, k + 1, cx),
            }
        },
        _ => Seq::empty(),
    }
}

/// The parameters of a function.
pub open spec fn param_binders(ps: Seq<Param>) -> Seq<BinderV> {
    Seq::new(
        ps.len(),
        |k: int|
            BinderV {
                name: ps[k].name@,
                kind: BindKind::Param,
                span: ps[k].span,
                ty: Some(shown(ps[k].ty)),
            },
    )
}

/// The definitions in a function: its parameters, which hold for the body, and those
/// in the body.
pub open spec fn fn_defs(f: FnDecl, cx: DfCx) -> Seq<DefV> {
    defs_of(param_binders(f.params@), f.params@.len(), occurrences(f.body)) + defs(f.body, cx)
}

// ---------------------------------------------------------------------------
// What a walk records
// ---------------------------------------------------------------------------

/// Whether a binding is that of a definition, with its uses so far.
pub open spec fn is_of(b: BindV, d: DefV) -> bool {
    &&& b.name == d.binder.name
    &&& b.kind == d.binder.kind
    &&& b.def_span == d.binder.span
    &&& b.def == (d.binder.span.start_line, d.binder.span.start_col)
    &&& b.ty == d.binder.ty
    &&& forall|pos: (u32, u32)| #[trigger]
        b.uses.contains(pos) <==> read_at(d.region, d.binder.name, pos)
}

/// Whether two states of a binding differ in its uses alone.
spec fn same_binder(a: BindV, b: BindV) -> bool {
    a.name == b.name && a.kind == b.kind && a.def_span == b.def_span && a.def == b.def && a.ty
        == b.ty
}

/// Whether an occurrence of a name whose innermost binding is `i` is at the position.
spec fn gains(scope: Seq<EntryV>, i: int, u: spec_fn(RefV) -> bool, pos: (u32, u32)) -> bool {
    exists|r: RefV| #[trigger]
        u(r) && r.span.start_line != 0 && (r.span.start_line, r.span.start_col) == pos && innermost(
            scope,
            r.name,
        ) is Some && innermost(scope, r.name)->0.id == i
}

spec fn bounded(st: DfSt) -> bool {
    forall|k: int| 0 <= k < st.scope.len() ==> (#[trigger] st.scope[k]).id < st.bindings.len()
}

/// Whether a part of the walk leads from a state to another by recording the
/// definitions and the occurrences.
spec fn records(st: DfSt, s1: DfSt, ds: Seq<DefV>, u: spec_fn(RefV) -> bool) -> bool {
    &&& s1.scope == st.scope
    &&& s1.bindings.len() == st.bindings.len() + ds.len()
    &&& forall|i: int|
        0 <= i < st.bindings.len() ==> same_binder(#[trigger] s1.bindings[i], st.bindings[i])
    &&& forall|i: int, pos: (u32, u32)|
        0 <= i < st.bindings.len() ==> (#[trigger] s1.bindings[i].uses.contains(pos)
            <==> st.bindings[i].uses.contains(pos) || gains(st.scope, i, u, pos))
    &&& forall|j: int|
        0 <= j < ds.len() ==> is_of(s1.bindings[st.bindings.len() + j], #[trigger] ds[j])
}

proof fn lemma_innermost(scope: Seq<EntryV>, name: Seq<char>)
    ensures
        innermost(scope, name) matches Some(e) ==> e.name == name && exists|k: int|
            0 <= k < scope.len() && #[trigger] scope[k] == e,
    decreases scope.len(),
{
    if scope.len() > 0 && scope.last().name != name {
        lemma_innermost(scope.drop_last(), name);
        if innermost(scope.drop_last(), name) is Some {
            let e = innermost(scope.drop_last(), name)->0;
            let k = choose|k: int|
                0 <= k < scope.drop_last().len() && #[trigger] scope.drop_last()[k] == e;
            assert(scope[k] == e);
        }
    } else if scope.len() > 0 {
        assert(scope[scope.len() - 1] == scope.last());
    }
}

proof fn lemma_no_gain(st: DfSt, i: int, u: spec_fn(RefV) -> bool, pos: (u32, u32))
    requires
        bounded(st),
        i >= st.bindings.len(),
    ensures
        !gains(st.scope, i, u, pos),
{
    if gains(st.scope, i, u, pos) {
        let r = choose|r: RefV| #[trigger]
            u(r) && r.span.start_line != 0 && (r.span.start_line, r.span.start_col) == pos
                && innermost(st.scope, r.name) is Some && innermost(st.scope, r.name)->0.id == i;
        lemma_innermost(st.scope, r.name);
    }
}

proof fn lemma_gains(
    scope: Seq<EntryV>,
    i: int,
    u: spec_fn(RefV) -> bool,
    v: spec_fn(RefV) -> bool,
    pos: (u32, u32),
)
    requires
        forall|r: RefV| #[trigger] u(r) ==> v(r),
        gains(scope, i, u, pos),
    ensures
        gains(scope, i, v, pos),
{
    let r = choose|r: RefV| #[trigger]
        u(r) && r.span.start_line != 0 && (r.span.start_line, r.span.start_col) == pos && innermost(
            scope,
            r.name,
        ) is Some && innermost(scope, r.name)->0.id == i;
    assert(v(r));
}

/// The same occurrences under another description.
proof fn lemma_same(
    st: DfSt,
    s1: DfSt,
    ds: Seq<DefV>,
    u: spec_fn(RefV) -> bool,
    v: spec_fn(RefV) -> bool,
)
    requires
        records(st, s1, ds, u),
        forall|r: RefV| #[trigger] u(r) ==> v(r),
        forall|r: RefV| #[trigger] v(r) ==> u(r),
    ensures
        records(st, s1, ds, v),
{
    assert forall|i: int, pos: (u32, u32)| 0 <= i < st.bindings.len() implies (
    #[trigger] s1.bindings[i].uses.contains(pos) <==> st.bindings[i].uses.contains(pos) || gains(
        st.scope,
        i,
        v,
        pos,
    )) by {
        if gains(st.scope, i, u, pos) {
            lemma_gains(st.scope, i, u, v, pos);
        }
        if gains(st.scope, i, v, pos) {
            lemma_gains(st.scope, i, v, u, pos);
        }
    }
}

/// Nothing is recorded where nothing occurs.
proof fn lemma_nothing(st: DfSt, u: spec_fn(RefV) -> bool)
    requires
        forall|r: RefV| !#[trigger] u(r),
    ensures
        records(st, st, Seq::empty(), u),
{
}

/// One part of the walk after another.
proof fn lemma_then(
    st: DfSt,
    s1: DfSt,
    s2: DfSt,
    d1: Seq<DefV>,
    d2: Seq<DefV>,
    u: spec_fn(RefV) -> bool,
    v: spec_fn(RefV) -> bool,
)
    requires
        bounded(st),
        records(st, s1, d1, u),
        records(s1, s2, d2, v),
    ensures
        bounded(s1),
        records(st, s2, d1 + d2, |r: RefV| u(r) || v(r)),
{
    let w = |r: RefV| u(r) || v(r);
    let ds = d1 + d2;
    let n = st.bindings.len();
    assert forall|i: int| 0 <= i < n implies same_binder(
        #[trigger] s2.bindings[i],
        st.bindings[i],
    ) by {
        assert(same_binder(s1.bindings[i], st.bindings[i]));
    }
    assert forall|i: int, pos: (u32, u32)| 0 <= i < n implies (
    #[trigger] s2.bindings[i].uses.contains(pos) <==> st.bindings[i].uses.contains(pos) || gains(
        st.scope,
        i,
        w,
        pos,
    )) by {
        assert(s1.bindings[i].uses.contains(pos) <==> st.bindings[i].uses.contains(pos) || gains(
            st.scope,
            i,
            u,
            pos,
        ));
        if gains(st.scope, i, u, pos) {
            lemma_gains(st.scope, i, u, w, pos);
        }
        if gains(st.scope, i, v, pos) {
            lemma_gains(st.scope, i, v, w, pos);
        }
        if gains(st.scope, i, w, pos) {
            let r = choose|r: RefV| #[trigger]
                w(r) && r.span.start_line != 0 && (r.span.start_line, r.span.start_col) == pos
                    && innermost(st.scope, r.name) is Some && innermost(st.scope, r.name)->0.id
                    == i;
            if u(r) {
                assert(gains(st.scope, i, u, pos));
            } else {
                assert(v(r));
                assert(gains(st.scope, i, v, pos));
            }
        }
    }
    assert forall|j: int| 0 <= j < ds.len() implies is_of(
        s2.bindings[n + j],
        #[trigger] ds[j],
    ) by {
        if j < d1.len() {
            let b = s1.bindings[n + j];
            assert(is_of(b, d1[j]));
            assert(same_binder(s2.bindings[n + j], b));
            assert forall|pos: (u32, u32)| #[trigger]
                s2.bindings[n + j].uses.contains(pos) <==> read_at(
                    d1[j].region,
                    d1[j].binder.name,
                    pos,
                ) by {
                lemma_no_gain(st, n + j, v, pos);
                assert(s2.bindings[n + j].uses.contains(pos) <==> b.uses.contains(pos) || gains(
                    s1.scope,
                    n + j,
                    v,
                    pos,
                ));
            }
        } else {
            assert(is_of(s2.bindings[s1.bindings.len() + (j - d1.len())], d2[j - d1.len()]));
        }
    }
}

/// One binder around a region.
proof fn lemma_region(
    st: DfSt,
    b: BinderV,
    s1: DfSt,
    ds: Seq<DefV>,
    u: spec_fn(RefV) -> bool,
)
    requires
        bounded(st),
        records(declared(st, b.name, b.kind, b.span, b.ty), s1, ds, u),
    ensures
        bounded(declared(st, b.name, b.kind, b.span, b.ty)),
        records(
            st,
            left(s1, st.scope.len()),
            seq![DefV { binder: b, region: u }] + ds,
            without(u, b.name),
        ),
{
    let s0 = declared(st, b.name, b.kind, b.span, b.ty);
    let out = left(s1, st.scope.len());
    let v = without(u, b.name);
    let n = st.bindings.len();
    let all = seq![DefV { binder: b, region: u }] + ds;
    assert(out.scope =~= st.scope);
    assert(s0.scope.drop_last() =~= st.scope);
    assert forall|i: int, pos: (u32, u32)| 0 <= i < n implies (
    #[trigger] out.bindings[i].uses.contains(pos) <==> st.bindings[i].uses.contains(pos) || gains(
        st.scope,
        i,
        v,
        pos,
    )) by {
        assert(s1.bindings[i].uses.contains(pos) <==> s0.bindings[i].uses.contains(pos) || gains(
            s0.scope,
            i,
            u,
            pos,
        ));
        if gains(s0.scope, i, u, pos) {
            let r = choose|r: RefV| #[trigger]
                u(r) && r.span.start_line != 0 && (r.span.start_line, r.span.start_col) == pos
                    && innermost(s0.scope, r.name) is Some && innermost(s0.scope, r.name)->0.id
                    == i;
            assert(v(r));
        }
        if gains(st.scope, i, v, pos) {
            let r = choose|r: RefV| #[trigger]
                v(r) && r.span.start_line != 0 && (r.span.start_line, r.span.start_col) == pos
                    && innermost(st.scope, r.name) is Some && innermost(st.scope, r.name)->0.id
                    == i;
            assert(u(r));
        }
    }
    assert forall|i: int| 0 <= i < n implies same_binder(
        #[trigger] out.bindings[i],
        st.bindings[i],
    ) by {
        assert(same_binder(s1.bindings[i], s0.bindings[i]));
    }
    assert forall|j: int| 0 <= j < all.len() implies is_of(
        out.bindings[n + j],
        #[trigger] all[j],
    ) by {
        if j == 0 {
            assert(same_binder(s1.bindings[n as int], s0.bindings[n as int]));
            assert forall|pos: (u32, u32)| #[trigger]
                out.bindings[n as int].uses.contains(pos) <==> read_at(u, b.name, pos) by {
                assert(s1.bindings[n as int].uses.contains(pos)
                    <==> s0.bindings[n as int].uses.contains(pos) || gains(
                    s0.scope,
                    n as int,
                    u,
                    pos,
                ));
                if gains(s0.scope, n as int, u, pos) {
                    let r = choose|r: RefV| #[trigger]
                        u(r) && r.span.start_line != 0 && (r.span.start_line, r.span.start_col)
                            == pos && innermost(s0.scope, r.name) is Some && innermost(
                            s0.scope,
                            r.name,
                        )->0.id == n as int;
                    if r.name != b.name {
                        lemma_innermost(st.scope, r.name);
                    }
                }
                if read_at(u, b.name, pos) {
                    let r = choose|r: RefV| #[trigger]
                        u(r) && r.name == b.name && r.span.start_line != 0 && (
                        r.span.start_line,
                        r.span.start_col,
                    ) == pos;
                    assert(gains(s0.scope, n as int, u, pos));
                }
            }
        } else {
            assert(is_of(s1.bindings[s0.bindings.len() + (j - 1)], ds[j - 1]));
        }
    }
}

/// The state with the first `n` binders.
spec fn all_declared(bs: Seq<BinderV>, n: nat, st: DfSt) -> DfSt
    decreases n,
{
    if n == 0 || n > bs.len() {
        st
    } else {
        let b = bs[n - 1];
        declared(all_declared(bs, (n - 1) as nat, st), b.name, b.kind, b.span, b.ty)
    }
}

proof fn lemma_declared(bs: Seq<BinderV>, n: nat, st: DfSt)
    requires
        n <= bs.len(),
        bounded(st),
    ensures
        bounded(all_declared(bs, n, st)),
        all_declared(bs, n, st).scope.len() == st.scope.len() + n,
        all_declared(bs, n, st).scope.take(st.scope.len() as int) == st.scope,
    decreases n,
{
    if n > 0 {
        lemma_declared(bs, (n - 1) as nat, st);
        let before = all_declared(bs, (n - 1) as nat, st);
        assert(all_declared(bs, n, st).scope.take(st.scope.len() as int) =~= before.scope.take(
            st.scope.len() as int,
        ));
    } else {
        assert(st.scope.take(st.scope.len() as int) =~= st.scope);
    }
}

/// The first `n` binders around a region.
proof fn lemma_regions(
    st: DfSt,
    bs: Seq<BinderV>,
    n: nat,
    s1: DfSt,
    ds: Seq<DefV>,
    u: spec_fn(RefV) -> bool,
)
    requires
        n <= bs.len(),
        bounded(st),
        records(all_declared(bs, n, st), s1, ds, u),
    ensures
        records(st, left(s1, st.scope.len()), defs_of(bs, n, u) + ds, without_all(u, bs, n)),
    decreases n,
{
    lemma_declared(bs, n, st);
    if n == 0 {
        assert(left(s1, st.scope.len()).scope =~= st.scope);
        assert(left(s1, st.scope.len()) == s1);
        assert(defs_of(bs, n, u) + ds =~= ds);
    } else {
        let b = bs[n - 1];
        let before = all_declared(bs, (n - 1) as nat, st);
        lemma_declared(bs, (n - 1) as nat, st);
        lemma_region(before, b, s1, ds, u);
        let mid = left(s1, before.scope.len());
        let d1 = seq![DefV { binder: b, region: u }] + ds;
        lemma_regions(st, bs, (n - 1) as nat, mid, d1, without(u, b.name));
        assert(left(mid, st.scope.len()).scope =~= left(s1, st.scope.len()).scope);
        assert(left(mid, st.scope.len()) == left(s1, st.scope.len()));
        assert(defs_of(bs, (n - 1) as nat, without(u, b.name)) + d1 =~= defs_of(bs, n, u) + ds);
    }
}

proof fn lemma_without_all(u: spec_fn(RefV) -> bool, bs: Seq<BinderV>, n: nat, r: RefV)
    requires
        n <= bs.len(),
    ensures
        without_all(u, bs, n)(r) <==> u(r) && !exists|k: int|
            0 <= k < n && (#[trigger] bs[k]).name == r.name,
    decreases n,
{
    if n > 0 {
        lemma_without_all(without(u, bs[n - 1].name), bs, (n - 1) as nat, r);
        if exists|k: int| 0 <= k < n - 1 && (#[trigger] bs[k]).name == r.name {
            let k = choose|k: int| 0 <= k < n - 1 && (#[trigger] bs[k]).name == r.name;
            assert(bs[k].name == r.name);
        }
    }
}

// ---------------------------------------------------------------------------
// Binders
// ---------------------------------------------------------------------------

proof fn lemma_concat(a: Seq<BinderV>, b: Seq<BinderV>, n: nat, st: DfSt)
    requires
        n <= b.len(),
    ensures
        all_declared(a + b, a.len() + n, st) == all_declared(b, n, all_declared(a, a.len(), st)),
    decreases n,
{
    if n > 0 {
        lemma_concat(a, b, (n - 1) as nat, st);
        assert((a + b)[a.len() + n - 1] == b[n - 1]);
    } else {
        lemma_head(a, b, a.len(), st);
    }
}

proof fn lemma_head(a: Seq<BinderV>, b: Seq<BinderV>, n: nat, st: DfSt)
    requires
        n <= a.len(),
    ensures
        all_declared(a + b, n, st) == all_declared(a, n, st),
    decreases n,
{
    if n > 0 {
        lemma_head(a, b, (n - 1) as nat, st);
        assert((a + b)[n - 1] == a[n - 1]);
    }
}

proof fn lemma_pattern(p: Pattern, st: DfSt, cx: DfCx)
    ensures
        pattern_declared(p, st, cx) == all_declared(
            pattern_binders(p, cx),
            pattern_binders(p, cx).len(),
            st,
        ),
    decreases p, 0nat,
{
    match p.kind {
        PatternKind::Var(n) => {
            let bs = pattern_binders(p, cx);
            assert(bs.len() == 1);
            reveal_with_fuel(all_declared, 2);
        },
        PatternKind::Ctor(_, subs) => {
            lemma_patterns(subs@, subs@.len(), st, cx);
        },
        PatternKind::Record(_, fs) => {
            lemma_field_patterns(fs@, fs@.len(), st, cx);
        },
        _ => {},
    }
}

proof fn lemma_patterns(ps: Seq<Pattern>, n: nat, st: DfSt, cx: DfCx)
    ensures
        patterns_declared(ps, n, st, cx) == all_declared(
            patterns_binders(ps, n, cx),
            patterns_binders(ps, n, cx).len(),
            st,
        ),
    decreases ps, n,
{
    if 0 < n <= ps.len() {
        let a = patterns_binders(ps, (n - 1) as nat, cx);
        let b = pattern_binders(ps[n - 1], cx);
        lemma_patterns(ps, (n - 1) as nat, st, cx);
        lemma_pattern(ps[n - 1], patterns_declared(ps, (n - 1) as nat, st, cx), cx);
        lemma_concat(a, b, b.len(), st);
    }
}

proof fn lemma_field_patterns(fs: Seq<(String, Pattern)>, n: nat, st: DfSt, cx: DfCx)
    ensures
        fields_declared(fs, n, st, cx) == all_declared(
            field_binders(fs, n, cx),
            field_binders(fs, n, cx).len(),
            st,
        ),
    decreases fs, n,
{
    if 0 < n <= fs.len() {
        let a = field_binders(fs, (n - 1) as nat, cx);
        let b = pattern_binders(fs[n - 1].1, cx);
        lemma_field_patterns(fs, (n - 1) as nat, st, cx);
        lemma_pattern(fs[n - 1].1, fields_declared(fs, (n - 1) as nat, st, cx), cx);
        lemma_concat(a, b, b.len(), st);
    }
}

proof fn lemma_lambda(ps: Seq<(String, Ty)>, n: nat, body: Span, st: DfSt, cx: DfCx)
    requires
        n <= ps.len(),
    ensures
        lambda_declared(ps, n, body, st, cx) == all_declared(
            lambda_binders(ps, body, cx),
            n,
            st,
        ),
    decreases n,
{
    if n > 0 {
        lemma_lambda(ps, (n - 1) as nat, body, st, cx);
    }
}

proof fn lemma_params(ps: Seq<Param>, n: nat)
    requires
        n <= ps.len(),
    ensures
        params_declared(ps, n) == all_declared(param_binders(ps), n, params_declared(ps, 0)),
    decreases n,
{
    if n > 0 {
        lemma_params(ps, (n - 1) as nat);
    }
}

/// A pattern binds the names of its variables.
proof fn lemma_binds(p: Pattern, cx: DfCx, name: Seq<char>)
    ensures
        binds(p, name) <==> exists|k: int|
            0 <= k < pattern_binders(p, cx).len() && (#[trigger] pattern_binders(p, cx)[k]).name
                == name,
    decreases p, 0nat,
{
    match p.kind {
        PatternKind::Var(n) => {
            assert(pattern_binders(p, cx)[0].name == n@);
        },
        PatternKind::Ctor(_, subs) => {
            lemma_all_bind(subs@, subs@.len(), cx, name);
        },
        PatternKind::Record(_, fs) => {
            lemma_fields_bind(fs@, fs@.len(), cx, name);
        },
        _ => {},
    }
}

proof fn lemma_joined(a: Seq<BinderV>, b: Seq<BinderV>, name: Seq<char>)
    ensures
        (exists|k: int| 0 <= k < (a + b).len() && (#[trigger] (a + b)[k]).name == name) <==> (
        exists|k: int| 0 <= k < a.len() && (#[trigger] a[k]).name == name) || (exists|k: int|
            0 <= k < b.len() && (#[trigger] b[k]).name == name),
{
    let t = a + b;
    if exists|k: int| 0 <= k < t.len() && (#[trigger] t[k]).name == name {
        let k = choose|k: int| 0 <= k < t.len() && (#[trigger] t[k]).name == name;
        if k < a.len() {
            assert(a[k].name == name);
        } else {
            assert(b[k - a.len()].name == name);
        }
    }
    if exists|k: int| 0 <= k < a.len() && (#[trigger] a[k]).name == name {
        let k = choose|k: int| 0 <= k < a.len() && (#[trigger] a[k]).name == name;
        assert(t[k].name == name);
    }
    if exists|k: int| 0 <= k < b.len() && (#[trigger] b[k]).name == name {
        let k = choose|k: int| 0 <= k < b.len() && (#[trigger] b[k]).name == name;
        assert(t[a.len() + k].name == name);
    }
}

proof fn lemma_all_bind(ps: Seq<Pattern>, n: nat, cx: DfCx, name: Seq<char>)
    requires
        n <= ps.len(),
    ensures
        (exists|k: int| 0 <= k < n && binds(#[trigger] ps[k], name)) <==> exists|k: int|
            0 <= k < patterns_binders(ps, n, cx).len() && (#[trigger] patterns_binders(
                ps,
                n,
                cx,
            )[k]).name == name,
    decreases ps, n,
{
    if n > 0 {
        lemma_all_bind(ps, (n - 1) as nat, cx, name);
        lemma_binds(ps[n - 1], cx, name);
        lemma_joined(
            patterns_binders(ps, (n - 1) as nat, cx),
            pattern_binders(ps[n - 1], cx),
            name,
        );
        if exists|k: int| 0 <= k < n - 1 && binds(#[trigger] ps[k], name) {
            let k = choose|k: int| 0 <= k < n - 1 && binds(#[trigger] ps[k], name);
            assert(binds(ps[k], name));
        }
    }
}

proof fn lemma_fields_bind(fs: Seq<(String, Pattern)>, n: nat, cx: DfCx, name: Seq<char>)
    requires
        n <= fs.len(),
    ensures
        (exists|k: int| 0 <= k < n && binds((#[trigger] fs[k]).1, name)) <==> exists|k: int|
            0 <= k < field_binders(fs, n, cx).len() && (#[trigger] field_binders(fs, n, cx)[k]).name
                == name,
    decreases fs, n,
{
    if n > 0 {
        lemma_fields_bind(fs, (n - 1) as nat, cx, name);
        lemma_binds(fs[n - 1].1, cx, name);
        lemma_joined(
            field_binders(fs, (n - 1) as nat, cx),
            pattern_binders(fs[n - 1].1, cx),
            name,
        );
        if exists|k: int| 0 <= k < n - 1 && binds((#[trigger] fs[k]).1, name) {
            let k = choose|k: int| 0 <= k < n - 1 && binds((#[trigger] fs[k]).1, name);
            assert(binds(fs[k].1, name));
        }
    }
}

// ---------------------------------------------------------------------------
// The walk
// ---------------------------------------------------------------------------

spec fn heads(e: Expr) -> spec_fn(RefV) -> bool {
    |r: RefV| stands_at(e, r)
}

spec fn some_of(es: Seq<Expr>, n: nat) -> spec_fn(RefV) -> bool {
    |r: RefV| exists|k: int| 0 <= k < n && free_at(#[trigger] es[k], r)
}

spec fn some_field(fs: Seq<(String, Expr)>, n: nat) -> spec_fn(RefV) -> bool {
    |r: RefV| exists|k: int| 0 <= k < n && free_at((#[trigger] fs[k]).1, r)
}

spec fn some_arm(arms: Seq<Arm>, n: nat) -> spec_fn(RefV) -> bool {
    |r: RefV|
        exists|k: int|
            0 <= k < n && !binds((#[trigger] arms[k]).pat, r.name) && free_at(arms[k].body, r)
}

/// A read of a name is recorded with its innermost binding.
proof fn lemma_used(e: Expr, name: Seq<char>, st: DfSt)
    requires
        bounded(st),
        exists|r: RefV| stands_at(e, r),
        forall|r: RefV| #[trigger] stands_at(e, r) ==> r.name == name && r.span == e.span,
    ensures
        records(st, used(st, name, e.span), Seq::empty(), heads(e)),
{
    let s1 = used(st, name, e.span);
    let u = heads(e);
    let o = choose|r: RefV| stands_at(e, r);
    let at = (e.span.start_line, e.span.start_col);
    lemma_innermost(st.scope, name);
    assert forall|i: int, pos: (u32, u32)| 0 <= i < st.bindings.len() implies (
    #[trigger] s1.bindings[i].uses.contains(pos) <==> st.bindings[i].uses.contains(pos) || gains(
        st.scope,
        i,
        u,
        pos,
    )) by {
        if gains(st.scope, i, u, pos) {
            let r = choose|r: RefV| #[trigger]
                u(r) && r.span.start_line != 0 && (r.span.start_line, r.span.start_col) == pos
                    && innermost(st.scope, r.name) is Some && innermost(st.scope, r.name)->0.id
                    == i;
            assert(stands_at(e, r));
            let b = st.bindings[i].uses;
            assert(s1.bindings[i].uses == b.push(at));
            assert(b.push(at)[b.len() as int] == pos);
        }
        if st.bindings[i].uses.contains(pos) {
            let b = st.bindings[i].uses;
            let k = choose|k: int| 0 <= k < b.len() && b[k] == pos;
            assert(s1.bindings[i].uses[k] == pos);
        }
        if s1.bindings[i].uses.contains(pos) && !st.bindings[i].uses.contains(pos) {
            let b = st.bindings[i].uses;
            assert(s1.bindings[i].uses == b.push(at));
            let k = choose|k: int| 0 <= k < b.push(at).len() && b.push(at)[k] == pos;
            if k < b.len() {
                assert(b[k] == pos);
            }
            assert(pos == at);
            assert(u(o));
            assert(gains(st.scope, i, u, pos));
        }
    }
}

proof fn lemma_heads(e: Expr)
    ensures
        e.kind matches ExprKind::Var(name) ==> (exists|r: RefV| stands_at(e, r)) && forall|r: RefV|
            #[trigger] stands_at(e, r) ==> r.name == name@ && r.span == e.span,
        e.kind matches ExprKind::Call(name, args) ==> (exists|r: RefV| stands_at(e, r)) && forall|
            r: RefV,
        |
            #[trigger] stands_at(e, r) ==> r.name == name@ && r.span == e.span,
        !(e.kind is Var) && !(e.kind is Call) ==> forall|r: RefV| !#[trigger] stands_at(e, r),
{
    match e.kind {
        ExprKind::Var(name) => {
            let r = RefV { name: name@, span: e.span, args: Seq::empty() };
            assert(stands_at(e, r));
        },
        ExprKind::Call(name, args) => {
            let spans = args@.map_values(|x: Expr| x.span);
            let r = RefV { name: name@, span: e.span, args: spans };
            assert(stands_at(e, r));
        },
        _ => {},
    }
}

/// Every part of an expression is walked: the walk records the definitions in the
/// expression with their uses, and each free occurrence with the innermost binding of
/// its name.
#[verifier::rlimit(60)]
proof fn lemma_walk(e: Expr, st: DfSt, cx: DfCx)
    requires
        bounded(st),
    ensures
        records(st, walked(e, st, cx), defs(e, cx), occurrences(e)),
    decreases e, block_len(e) + 2,
{
    let u = occurrences(e);
    let end = walked(e, st, cx);
    lemma_heads(e);
    match e.kind {
        ExprKind::Var(name) => {
            lemma_used(e, name@, st);
            lemma_same(st, end, Seq::empty(), heads(e), u);
        },
        ExprKind::Call(name, args) => {
            let s1 = used(st, name@, e.span);
            lemma_used(e, name@, st);
            assert(bounded(s1));
            lemma_walk_all(args@, args@.len(), s1, cx);
            let d = defs_all(args@, args@.len(), cx);
            let v = some_of(args@, args@.len());
            lemma_then(st, s1, end, Seq::empty(), d, heads(e), v);
            assert(Seq::<DefV>::empty() + d =~= d);
            lemma_same(st, end, d, |r: RefV| heads(e)(r) || v(r), u);
        },
        ExprKind::Ctor(_, args) => {
            lemma_walk_all(args@, args@.len(), st, cx);
            lemma_same(st, end, defs(e, cx), some_of(args@, args@.len()), u);
        },
        ExprKind::Record(_, fs) => {
            lemma_walk_fields(fs@, fs@.len(), st, cx);
            lemma_same(st, end, defs(e, cx), some_field(fs@, fs@.len()), u);
        },
        ExprKind::Field(obj, _) => {
            lemma_walk(*obj, st, cx);
            lemma_same(st, end, defs(e, cx), occurrences(*obj), u);
        },
        ExprKind::Update(base, ups) => {
            let s1 = walked(*base, st, cx);
            let v = some_field(ups@, ups@.len());
            lemma_walk(*base, st, cx);
            assert(bounded(s1));
            lemma_walk_fields(ups@, ups@.len(), s1, cx);
            lemma_then(
                st,
                s1,
                end,
                defs(*base, cx),
                defs_fields(ups@, ups@.len(), cx),
                occurrences(*base),
                v,
            );
            lemma_same(st, end, defs(e, cx), |r: RefV| occurrences(*base)(r) || v(r), u);
        },
        ExprKind::Lambda(ps, body, _) => {
            let bs = lambda_binders(ps@, body.span, cx);
            let inner = all_declared(bs, ps@.len(), st);
            lemma_lambda(ps@, ps@.len(), body.span, st, cx);
            lemma_declared(bs, ps@.len(), st);
            lemma_walk(*body, inner, cx);
            lemma_regions(
                st,
                bs,
                ps@.len(),
                walked(*body, inner, cx),
                defs(*body, cx),
                occurrences(*body),
            );
            let v = without_all(occurrences(*body), bs, ps@.len());
            assert forall|r: RefV| #[trigger] v(r) <==> u(r) by {
                lemma_without_all(occurrences(*body), bs, ps@.len(), r);
                if takes(ps@, r.name) {
                    let k = choose|k: int| 0 <= k < ps@.len() && (#[trigger] ps@[k]).0@ == r.name;
                    assert(bs[k].name == r.name);
                }
                if exists|k: int| 0 <= k < ps@.len() && (#[trigger] bs[k]).name == r.name {
                    let k = choose|k: int| 0 <= k < ps@.len() && (#[trigger] bs[k]).name == r.name;
                    assert(ps@[k].0@ == r.name);
                }
            }
            lemma_same(st, end, defs(e, cx), v, u);
        },
        ExprKind::Apply(callee, args, _) => {
            let s1 = walked(*callee, st, cx);
            let v = some_of(args@, args@.len());
            lemma_walk(*callee, st, cx);
            assert(bounded(s1));
            lemma_walk_all(args@, args@.len(), s1, cx);
            lemma_then(
                st,
                s1,
                end,
                defs(*callee, cx),
                defs_all(args@, args@.len(), cx),
                occurrences(*callee),
                v,
            );
            lemma_same(st, end, defs(e, cx), |r: RefV| occurrences(*callee)(r) || v(r), u);
        },
        ExprKind::Unary(_, x) => {
            lemma_walk(*x, st, cx);
            lemma_same(st, end, defs(e, cx), occurrences(*x), u);
        },
        ExprKind::Binary(_, a, b) => {
            let s1 = walked(*a, st, cx);
            lemma_walk(*a, st, cx);
            assert(bounded(s1));
            lemma_walk(*b, s1, cx);
            lemma_then(st, s1, end, defs(*a, cx), defs(*b, cx), occurrences(*a), occurrences(*b));
            lemma_same(
                st,
                end,
                defs(e, cx),
                |r: RefV| occurrences(*a)(r) || occurrences(*b)(r),
                u,
            );
        },
        ExprKind::If(c, t, f) => {
            let s1 = walked(*c, st, cx);
            let s2 = walked(*t, s1, cx);
            let v = |r: RefV| occurrences(*c)(r) || occurrences(*t)(r);
            lemma_walk(*c, st, cx);
            assert(bounded(s1));
            lemma_walk(*t, s1, cx);
            lemma_then(st, s1, s2, defs(*c, cx), defs(*t, cx), occurrences(*c), occurrences(*t));
            assert(bounded(s2));
            lemma_walk(*f, s2, cx);
            lemma_then(
                st,
                s2,
                end,
                defs(*c, cx) + defs(*t, cx),
                defs(*f, cx),
                v,
                occurrences(*f),
            );
            lemma_same(st, end, defs(e, cx), |r: RefV| v(r) || occurrences(*f)(r), u);
        },
        ExprKind::Match(x, arms) => {
            let s1 = walked(*x, st, cx);
            let v = some_arm(arms@, arms@.len());
            lemma_walk(*x, st, cx);
            assert(bounded(s1));
            lemma_walk_arms(arms@, arms@.len(), s1, cx);
            lemma_then(
                st,
                s1,
                end,
                defs(*x, cx),
                defs_arms(arms@, arms@.len(), cx),
                occurrences(*x),
                v,
            );
            lemma_same(st, end, defs(e, cx), |r: RefV| occurrences(*x)(r) || v(r), u);
        },
        ExprKind::Block(ss, last) => {
            lemma_tail(e, ss@.len(), st, cx);
            lemma_walk_from(e, 0, st, cx);
            assert(tail(e, 0, st, cx) == walked(*last, walked_stmts(ss@, ss@.len(), st, cx), cx));
            lemma_same(st, end, defs(e, cx), later(e, 0), u);
        },
        _ => {
            lemma_nothing(st, u);
        },
    }
}

proof fn lemma_walk_all(es: Seq<Expr>, n: nat, st: DfSt, cx: DfCx)
    requires
        bounded(st),
        n <= es.len(),
    ensures
        records(st, walked_all(es, n, st, cx), defs_all(es, n, cx), some_of(es, n)),
    decreases es, n,
{
    if n == 0 {
        lemma_nothing(st, some_of(es, 0));
    } else {
        let m = (n - 1) as nat;
        let s1 = walked_all(es, m, st, cx);
        let x = es[n - 1];
        lemma_walk_all(es, m, st, cx);
        assert(bounded(s1));
        lemma_walk(x, s1, cx);
        let end = walked(x, s1, cx);
        lemma_then(st, s1, end, defs_all(es, m, cx), defs(x, cx), some_of(es, m), occurrences(x));
        let v = |r: RefV| some_of(es, m)(r) || occurrences(x)(r);
        assert forall|r: RefV| #[trigger] some_of(es, n)(r) implies v(r) by {
            let k = choose|k: int| 0 <= k < n && free_at(#[trigger] es[k], r);
            if k < m {
                assert(some_of(es, m)(r));
            }
        }
        assert forall|r: RefV| #[trigger] v(r) implies some_of(es, n)(r) by {
            if some_of(es, m)(r) {
                let k = choose|k: int| 0 <= k < m && free_at(#[trigger] es[k], r);
                assert(free_at(es[k], r));
            } else {
                assert(free_at(es[n - 1], r));
            }
        }
        lemma_same(st, end, defs_all(es, n, cx), v, some_of(es, n));
    }
}

proof fn lemma_walk_fields(fs: Seq<(String, Expr)>, n: nat, st: DfSt, cx: DfCx)
    requires
        bounded(st),
        n <= fs.len(),
    ensures
        records(st, walked_fields(fs, n, st, cx), defs_fields(fs, n, cx), some_field(fs, n)),
    decreases fs, n,
{
    if n == 0 {
        lemma_nothing(st, some_field(fs, 0));
    } else {
        let m = (n - 1) as nat;
        let s1 = walked_fields(fs, m, st, cx);
        let x = fs[n - 1].1;
        lemma_walk_fields(fs, m, st, cx);
        assert(bounded(s1));
        lemma_walk(x, s1, cx);
        let end = walked(x, s1, cx);
        lemma_then(
            st,
            s1,
            end,
            defs_fields(fs, m, cx),
            defs(x, cx),
            some_field(fs, m),
            occurrences(x),
        );
        let v = |r: RefV| some_field(fs, m)(r) || occurrences(x)(r);
        assert forall|r: RefV| #[trigger] some_field(fs, n)(r) implies v(r) by {
            let k = choose|k: int| 0 <= k < n && free_at((#[trigger] fs[k]).1, r);
            if k < m {
                assert(some_field(fs, m)(r));
            }
        }
        assert forall|r: RefV| #[trigger] v(r) implies some_field(fs, n)(r) by {
            if some_field(fs, m)(r) {
                let k = choose|k: int| 0 <= k < m && free_at((#[trigger] fs[k]).1, r);
                assert(free_at(fs[k].1, r));
            } else {
                assert(free_at(fs[n - 1].1, r));
            }
        }
        lemma_same(st, end, defs_fields(fs, n, cx), v, some_field(fs, n));
    }
}

proof fn lemma_walk_arms(arms: Seq<Arm>, n: nat, st: DfSt, cx: DfCx)
    requires
        bounded(st),
        n <= arms.len(),
    ensures
        records(st, walked_arms(arms, n, st, cx), defs_arms(arms, n, cx), some_arm(arms, n)),
    decreases arms, n,
{
    if n == 0 {
        lemma_nothing(st, some_arm(arms, 0));
    } else {
        let m = (n - 1) as nat;
        let s1 = walked_arms(arms, m, st, cx);
        let arm = arms[n - 1];
        let bs = pattern_binders(arm.pat, cx);
        let inner = all_declared(bs, bs.len(), s1);
        lemma_walk_arms(arms, m, st, cx);
        assert(bounded(s1));
        lemma_pattern(arm.pat, s1, cx);
        lemma_declared(bs, bs.len(), s1);
        lemma_walk(arm.body, inner, cx);
        let body = walked(arm.body, inner, cx);
        let end = left(body, s1.scope.len());
        let d = defs_of(bs, bs.len(), occurrences(arm.body)) + defs(arm.body, cx);
        let w = without_all(occurrences(arm.body), bs, bs.len());
        lemma_regions(s1, bs, bs.len(), body, defs(arm.body, cx), occurrences(arm.body));
        lemma_then(st, s1, end, defs_arms(arms, m, cx), d, some_arm(arms, m), w);
        let v = |r: RefV| some_arm(arms, m)(r) || w(r);
        assert forall|r: RefV| #[trigger] w(r) <==> !binds(arm.pat, r.name) && free_at(
            arm.body,
            r,
        ) by {
            lemma_without_all(occurrences(arm.body), bs, bs.len(), r);
            lemma_binds(arm.pat, cx, r.name);
        }
        assert forall|r: RefV| #[trigger] some_arm(arms, n)(r) implies v(r) by {
            let k = choose|k: int|
                0 <= k < n && !binds((#[trigger] arms[k]).pat, r.name) && free_at(arms[k].body, r);
            if k < m {
                assert(some_arm(arms, m)(r));
            } else {
                assert(w(r));
            }
        }
        assert forall|r: RefV| #[trigger] v(r) implies some_arm(arms, n)(r) by {
            if some_arm(arms, m)(r) {
                let k = choose|k: int|
                    0 <= k < m && !binds((#[trigger] arms[k]).pat, r.name) && free_at(
                        arms[k].body,
                        r,
                    );
                assert(!binds(arms[k].pat, r.name));
            } else {
                assert(w(r));
                assert(!binds(arms[n - 1].pat, r.name));
            }
        }
        lemma_same(st, end, defs_arms(arms, n, cx), v, some_arm(arms, n));
    }
}

/// The state after a block from its statement `k` on.
spec fn tail(e: Expr, k: nat, st: DfSt, cx: DfCx) -> DfSt
    decreases block_len(e) - k,
{
    match e.kind {
        ExprKind::Block(ss, last) => if k >= ss@.len() {
            walked(*last, st, cx)
        } else {
            tail(e, k + 1, step(ss@[k as int], st, cx), cx)
        },
        _ => st,
    }
}

/// The state after a statement.
spec fn step(s: Stmt, st: DfSt, cx: DfCx) -> DfSt {
    match s.kind {
        StmtKind::Let { name, name_span, ann, value } => declared(
            walked(value, st, cx),
            name@,
            BindKind::Let,
            name_span,
            let_type(ann, value.span, name_span, cx),
        ),
        StmtKind::Expr(x) => walked(x, st, cx),
    }
}

proof fn lemma_tail(e: Expr, k: nat, st: DfSt, cx: DfCx)
    requires
        e.kind is Block,
        k <= block_len(e),
    ensures
        e.kind matches ExprKind::Block(ss, last) ==> tail(e, 0, st, cx) == tail(
            e,
            k,
            walked_stmts(ss@, k, st, cx),
            cx,
        ),
    decreases k,
{
    if k > 0 {
        lemma_tail(e, (k - 1) as nat, st, cx);
    }
}

proof fn lemma_later(e: Expr, k: nat, r: RefV)
    requires
        e.kind is Block,
        k < block_len(e),
    ensures
        e.kind matches ExprKind::Block(ss, last) ==> (free_from(e, k as int, r) <==> free_at(
            evaluated(ss@[k as int]),
            r,
        ) || (!is_let(ss@[k as int], r.name) && free_from(e, k as int + 1, r))),
{
    if let ExprKind::Block(ss, last) = e.kind {
        let s = ss@;
        let i = k as int;
        assert forall|m: int| i < m <= s.len() implies (#[trigger] lets(s, i, m, r.name)
            <==> is_let(s[i], r.name) || lets(s, i + 1, m, r.name)) by {
            if lets(s, i, m, r.name) {
                let q = choose|q: int| i <= q < m && is_let(#[trigger] s[q], r.name);
                if q > i {
                    assert(is_let(s[q], r.name));
                }
            }
            if is_let(s[i], r.name) {
                assert(lets(s, i, m, r.name));
            }
            if lets(s, i + 1, m, r.name) {
                let q = choose|q: int| i + 1 <= q < m && is_let(#[trigger] s[q], r.name);
                assert(is_let(s[q], r.name));
            }
        }
        assert(!lets(s, i, i, r.name));
        if exists|m: int|
            i <= m < s.len() && !lets(s, i, m, r.name) && free_at(evaluated(#[trigger] s[m]), r) {
            let m = choose|m: int|
                i <= m < s.len() && !lets(s, i, m, r.name) && free_at(
                    evaluated(#[trigger] s[m]),
                    r,
                );
            if m > i {
                assert(lets(s, i, m, r.name) <==> is_let(s[i], r.name) || lets(
                    s,
                    i + 1,
                    m,
                    r.name,
                ));
                assert(free_at(evaluated(s[m]), r));
            }
        }
        if !is_let(s[i], r.name) && exists|m: int|
            i + 1 <= m < s.len() && !lets(s, i + 1, m, r.name) && free_at(
                evaluated(#[trigger] s[m]),
                r,
            ) {
            let m = choose|m: int|
                i + 1 <= m < s.len() && !lets(s, i + 1, m, r.name) && free_at(
                    evaluated(#[trigger] s[m]),
                    r,
                );
            assert(lets(s, i, m, r.name) <==> is_let(s[i], r.name) || lets(s, i + 1, m, r.name));
            assert(free_at(evaluated(s[m]), r));
        }
        if free_at(evaluated(s[i]), r) {
            assert(!lets(s, i, i, r.name) && free_at(evaluated(s[i]), r));
        }
        assert(lets(s, i, s.len() as int, r.name) <==> is_let(s[i], r.name) || lets(
            s,
            i + 1,
            s.len() as int,
            r.name,
        ));
    }
}

#[verifier::rlimit(40)]
proof fn lemma_walk_from(e: Expr, k: nat, st: DfSt, cx: DfCx)
    requires
        bounded(st),
        e.kind is Block,
        k <= block_len(e),
    ensures
        tail(e, k, st, cx).scope.len() >= st.scope.len(),
        records(st, left(tail(e, k, st, cx), st.scope.len()), defs_from(e, k, cx), later(e, k)),
    decreases e, block_len(e) - k,
{
    if let ExprKind::Block(ss, last) = e.kind {
        let u = later(e, k);
        if k == ss@.len() {
            let end = walked(*last, st, cx);
            lemma_walk(*last, st, cx);
            assert(left(end, st.scope.len()).scope =~= st.scope);
            assert(left(end, st.scope.len()) == end);
            assert forall|r: RefV| #[trigger] u(r) <==> occurrences(*last)(r) by {
                assert(!lets(ss@, k as int, k as int, r.name));
            }
            lemma_same(st, end, defs(*last, cx), occurrences(*last), u);
        } else {
            let s = ss@[k as int];
            let x = evaluated(s);
            let s1 = walked(x, st, cx);
            let d = st.scope.len();
            lemma_walk(x, st, cx);
            assert(bounded(s1));
            assert forall|r: RefV| #[trigger] u(r) <==> occurrences(x)(r) || (!is_let(s, r.name)
                && later(e, k + 1)(r)) by {
                lemma_later(e, k, r);
            }
            match s.kind {
                StmtKind::Let { name, name_span, ann, value } => {
                    let b = let_binder(s, cx);
                    let s2 = declared(s1, b.name, b.kind, b.span, b.ty);
                    assert(bounded(s2));
                    lemma_walk_from(e, k + 1, s2, cx);
                    let t = tail(e, k + 1, s2, cx);
                    let mid = left(t, s2.scope.len());
                    lemma_region(s1, b, mid, defs_from(e, k + 1, cx), later(e, k + 1));
                    let end = left(t, d);
                    assert(left(mid, d).scope =~= end.scope);
                    assert(left(mid, d) == end);
                    let d2 = seq![DefV { binder: b, region: later(e, k + 1) }] + defs_from(
                        e,
                        k + 1,
                        cx,
                    );
                    let w = without(later(e, k + 1), b.name);
                    lemma_then(st, s1, end, defs(x, cx), d2, occurrences(x), w);
                    lemma_same(
                        st,
                        end,
                        defs(x, cx) + d2,
                        |r: RefV| occurrences(x)(r) || w(r),
                        u,
                    );
                },
                StmtKind::Expr(ex) => {
                    lemma_walk_from(e, k + 1, s1, cx);
                    let end = left(tail(e, k + 1, s1, cx), d);
                    let w = later(e, k + 1);
                    lemma_then(
                        st,
                        s1,
                        end,
                        defs(x, cx),
                        defs_from(e, k + 1, cx),
                        occurrences(x),
                        w,
                    );
                    lemma_same(
                        st,
                        end,
                        defs(x, cx) + defs_from(e, k + 1, cx),
                        |r: RefV| occurrences(x)(r) || w(r),
                        u,
                    );
                },
            }
        }
    }
}

// ---------------------------------------------------------------------------
// Laws
// ---------------------------------------------------------------------------

/// Positions in strictly increasing order.
pub open spec fn increase(s: Seq<(u32, u32)>) -> bool {
    forall|i: int, j: int| 0 <= i < j < s.len() ==> pos_lt(#[trigger] s[i], #[trigger] s[j])
}

/// Whether a binding reports a definition: what it binds and where, and as its uses
/// exactly the positions at which its name occurs free in its region, in order. It is
/// unused if and only if there are none. A type that the definition has is reported.
pub open spec fn reports(b: BindV, d: DefV) -> bool {
    &&& b.name == d.binder.name
    &&& b.kind == d.binder.kind
    &&& b.def_span == d.binder.span
    &&& b.def == (d.binder.span.start_line, d.binder.span.start_col)
    &&& d.binder.ty is Some ==> b.ty == d.binder.ty
    &&& increase(b.uses)
    &&& forall|pos: (u32, u32)| #[trigger]
        b.uses.contains(pos) <==> read_at(d.region, d.binder.name, pos)
    &&& b.unused <==> forall|pos: (u32, u32)| !#[trigger] read_at(d.region, d.binder.name, pos)
}

proof fn lemma_sorted(uses: Seq<(u32, u32)>, n: nat)
    requires
        n <= uses.len(),
    ensures
        increase(sorted_uses(uses, n)),
        forall|q: (u32, u32)| #[trigger]
            sorted_uses(uses, n).contains(q) <==> exists|k: int|
                0 <= k < n && #[trigger] uses[k] == q,
    decreases n,
{
    if n > 0 {
        let before = sorted_uses(uses, (n - 1) as nat);
        lemma_sorted(uses, (n - 1) as nat);
        positions_sorted(before, uses[n - 1]);
        assert forall|q: (u32, u32)| #[trigger]
            sorted_uses(uses, n).contains(q) <==> exists|k: int|
                0 <= k < n && #[trigger] uses[k] == q by {
            if before.contains(q) {
                let k = choose|k: int| 0 <= k < n - 1 && #[trigger] uses[k] == q;
                assert(uses[k] == q);
            }
            if exists|k: int| 0 <= k < n && #[trigger] uses[k] == q {
                let k = choose|k: int| 0 <= k < n && #[trigger] uses[k] == q;
                if k < n - 1 {
                    assert(before.contains(q));
                }
            }
        }
    }
}

proof fn lemma_finished(b: BindV, d: DefV, cx: DfCx)
    requires
        is_of(b, d),
    ensures
        reports(finished(b, cx.types), d),
{
    let f = finished(b, cx.types);
    lemma_sorted(b.uses, b.uses.len());
    assert forall|pos: (u32, u32)| #[trigger] f.uses.contains(pos) <==> read_at(
        d.region,
        d.binder.name,
        pos,
    ) by {
        assert(b.uses.contains(pos) <==> read_at(d.region, d.binder.name, pos));
        if f.uses.contains(pos) {
            let k = choose|k: int| 0 <= k < b.uses.len() && #[trigger] b.uses[k] == pos;
            assert(b.uses.contains(pos));
        }
        if b.uses.contains(pos) {
            let k = choose|k: int| 0 <= k < b.uses.len() && b.uses[k] == pos;
            assert(b.uses[k] == pos);
        }
    }
    if f.unused {
        assert forall|pos: (u32, u32)| !#[trigger] read_at(d.region, d.binder.name, pos) by {
            assert(!f.uses.contains(pos));
        }
    } else {
        assert(f.uses.contains(f.uses[0]));
    }
}

/// The bindings that a function reports are its definitions, in whatever part of the
/// body they stand: each definition is reported, each binding is that of one, and the
/// uses of a binding are exactly the reads of its name in its region. So a binding is
/// reported as unused only if no part of its region reads it.
pub proof fn bindings_are_the_definitions(f: FnDecl, cx: DfCx)
    ensures
        ({
            let bs = flow_of(f, cx).bindings;
            let ds = fn_defs(f, cx);
            &&& bs.len() == ds.len()
            &&& forall|j: int|
                0 <= j < ds.len() ==> exists|i: int|
                    0 <= i < bs.len() && reports(#[trigger] bs[i], #[trigger] ds[j])
            &&& forall|i: int|
                0 <= i < bs.len() ==> exists|j: int|
                    0 <= j < ds.len() && reports(#[trigger] bs[i], #[trigger] ds[j])
        }),
{
    broadcast use vstd::seq_lib::group_to_multiset_ensures;

    let n = f.params@.len();
    let pb = param_binders(f.params@);
    let st0 = params_declared(f.params@, 0);
    let st1 = params_declared(f.params@, n);
    let st = walked(f.body, st1, cx);
    let ds = fn_defs(f, cx);
    lemma_params(f.params@, n);
    lemma_declared(pb, n, st0);
    lemma_walk(f.body, st1, cx);
    lemma_regions(st0, pb, n, st, defs(f.body, cx), occurrences(f.body));
    let out = left(st, 0);
    assert(out.bindings == st.bindings);
    let all = st.bindings.map_values(|b: BindV| finished(b, cx.types));
    let bs = flow_of(f, cx).bindings;
    assert forall|j: int| 0 <= j < ds.len() implies reports(all[j], #[trigger] ds[j]) by {
        assert(is_of(out.bindings[st0.bindings.len() + j], ds[j]));
        lemma_finished(st.bindings[j], ds[j], cx);
    }
    bindings_in_source_order(f, cx);
    assert(bs.to_multiset().len() == bs.len());
    assert(all.to_multiset().len() == all.len());
    assert forall|j: int| 0 <= j < ds.len() implies exists|i: int|
        0 <= i < bs.len() && reports(#[trigger] bs[i], #[trigger] ds[j]) by {
        assert(all.contains(all[j]));
        assert(bs.to_multiset().count(all[j]) > 0);
        assert(bs.contains(all[j]));
        let i = choose|i: int| 0 <= i < bs.len() && bs[i] == all[j];
        assert(reports(bs[i], ds[j]));
    }
    assert forall|i: int| 0 <= i < bs.len() implies exists|j: int|
        0 <= j < ds.len() && reports(#[trigger] bs[i], #[trigger] ds[j]) by {
        assert(bs.contains(bs[i]));
        assert(all.to_multiset().count(bs[i]) > 0);
        assert(all.contains(bs[i]));
        let j = choose|j: int| 0 <= j < all.len() && all[j] == bs[i];
        assert(reports(bs[i], ds[j]));
    }
}

/// The binding that reports a definition.
pub proof fn lemma_binding_of(f: FnDecl, cx: DfCx, j: int) -> (i: int)
    requires
        0 <= j < fn_defs(f, cx).len(),
    ensures
        0 <= i < flow_of(f, cx).bindings.len(),
        reports(flow_of(f, cx).bindings[i], fn_defs(f, cx)[j]),
{
    bindings_are_the_definitions(f, cx);
    let d = fn_defs(f, cx)[j];
    choose|i: int|
        0 <= i < flow_of(f, cx).bindings.len() && reports(
            #[trigger] flow_of(f, cx).bindings[i],
            d,
        )
}

/// The definition that a binding reports.
pub proof fn lemma_definition_of(f: FnDecl, cx: DfCx, i: int) -> (j: int)
    requires
        0 <= i < flow_of(f, cx).bindings.len(),
    ensures
        0 <= j < fn_defs(f, cx).len(),
        reports(flow_of(f, cx).bindings[i], fn_defs(f, cx)[j]),
{
    bindings_are_the_definitions(f, cx);
    let b = flow_of(f, cx).bindings[i];
    choose|j: int| 0 <= j < fn_defs(f, cx).len() && reports(b, #[trigger] fn_defs(f, cx)[j])
}

proof fn lemma_dead(bs: Seq<BindV>, n: nat, x: (Seq<char>, (u32, u32)))
    requires
        n <= bs.len(),
    ensures
        dead(bs, n).contains(x) <==> exists|i: int|
            0 <= i < n && (#[trigger] bs[i]).unused && (bs[i].name, bs[i].def) == x,
    decreases n,
{
    if n > 0 {
        let before = dead(bs, (n - 1) as nat);
        let b = bs[n - 1];
        lemma_dead(bs, (n - 1) as nat, x);
        if b.unused {
            let t = before.push((b.name, b.def));
            assert(t[before.len() as int] == (b.name, b.def));
            if before.contains(x) {
                let k = choose|k: int| 0 <= k < before.len() && before[k] == x;
                assert(t[k] == x);
            }
            if t.contains(x) {
                let k = choose|k: int| 0 <= k < t.len() && t[k] == x;
                if k < before.len() {
                    assert(before[k] == x);
                }
            }
        }
        if exists|i: int| 0 <= i < n - 1 && (#[trigger] bs[i]).unused && (bs[i].name, bs[i].def) == x {
            let i = choose|i: int|
                0 <= i < n - 1 && (#[trigger] bs[i]).unused && (bs[i].name, bs[i].def) == x;
            assert(bs[i].unused);
        }
    }
}

proof fn lemma_is_dead(d: DefV)
    ensures
        is_dead(d) <==> forall|pos: (u32, u32)| !#[trigger] read_at(
            d.region,
            d.binder.name,
            pos,
        ),
{
    if is_dead(d) {
        assert forall|pos: (u32, u32)| !#[trigger] read_at(d.region, d.binder.name, pos) by {
            if read_at(d.region, d.binder.name, pos) {
                let u = d.region;
                let r = choose|r: RefV| #[trigger]
                    u(r) && r.name == d.binder.name && r.span.start_line != 0 && (
                    r.span.start_line,
                    r.span.start_col,
                ) == pos;
                assert((d.region)(r));
            }
        }
    }
    if forall|pos: (u32, u32)| !#[trigger] read_at(d.region, d.binder.name, pos) {
        assert forall|r: RefV| #[trigger]
            (d.region)(r) && r.name == d.binder.name implies r.span.start_line == 0 by {
            assert(!read_at(
                d.region,
                d.binder.name,
                (r.span.start_line, r.span.start_col),
            ));
        }
    }
}

/// The dead bindings of a function are its definitions that nothing in their regions
/// reads.
pub proof fn dead_bindings_are_unread(f: FnDecl, cx: DfCx, x: (Seq<char>, (u32, u32)))
    ensures
        flow_of(f, cx).unused_bindings.contains(x) <==> exists|j: int|
            0 <= j < fn_defs(f, cx).len() && is_dead(#[trigger] fn_defs(f, cx)[j]) && x == (
                fn_defs(f, cx)[j].binder.name,
                (
                    fn_defs(f, cx)[j].binder.span.start_line,
                    fn_defs(f, cx)[j].binder.span.start_col,
                ),
            ),
{
    let bs = flow_of(f, cx).bindings;
    let ds = fn_defs(f, cx);
    lemma_dead(bs, bs.len(), x);
    if flow_of(f, cx).unused_bindings.contains(x) {
        let i = choose|i: int|
            0 <= i < bs.len() && (#[trigger] bs[i]).unused && (bs[i].name, bs[i].def) == x;
        let j = lemma_definition_of(f, cx, i);
        lemma_is_dead(ds[j]);
        assert(is_dead(ds[j]));
    }
    if exists|j: int|
        0 <= j < ds.len() && is_dead(#[trigger] ds[j]) && x == (
            ds[j].binder.name,
            (ds[j].binder.span.start_line, ds[j].binder.span.start_col),
        ) {
        let j = choose|j: int|
            0 <= j < ds.len() && is_dead(#[trigger] ds[j]) && x == (
                ds[j].binder.name,
                (ds[j].binder.span.start_line, ds[j].binder.span.start_col),
            );
        let i = lemma_binding_of(f, cx, j);
        lemma_is_dead(ds[j]);
        assert(bs[i].unused);
    }
}

/// Whether no occurrence of a definition's name stands in its region at a position.
pub open spec fn is_dead(d: DefV) -> bool {
    forall|r: RefV| #[trigger]
        (d.region)(r) && r.name == d.binder.name ==> r.span.start_line == 0
}

} // verus!
