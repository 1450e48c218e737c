//! Per-function variable data-flow.
//!
//! For every local binding (a parameter, a `let`, a lambda parameter, or a
//! match-arm pattern variable) this layer computes where the binding is
//! introduced and the exact set of places where the variable is read, plus the
//! binding's type and whether it is dead.
//!
//! Every binding is assigned exactly once, so def-use chains are exact: a use
//! binds to the one lexically innermost binding of that name.

use vstd::prelude::*;
use vstd::string::*;

use crate::analyze::{
    add_pos, is_source_name, lookup_type, pos_added, pos_lt, positions_sorted, source_name, type_at,
};
use crate::ast::{
    Arm, BinderSpans, Expr, ExprKind, FnDecl, Item, Param, Pattern, PatternKind, Program, Span,
    Stmt, StmtKind, Ty,
};
use crate::diagnostics::opt_view;
use crate::text::{str_eq, views};
use crate::types::{show, shown};

pub mod metadata;
pub mod report;
pub mod uses;

pub use crate::dataflow::report::{
    to_json, unused_let_warnings, warnings_for_source, CheckedSource, W_UNUSED_PARAMETER,
    W_UNUSED_VARIABLE,
};

verus! {

/// The kind of a local binding.
#[derive(Debug, Clone, Copy, PartialEq, Eq, Structural)]
pub enum BindKind {
    /// A function parameter.
    Param,
    /// A `let` binding inside a block.
    Let,
    /// A lambda parameter.
    LambdaParam,
    /// A match-arm pattern variable.
    MatchBinder,
}

impl BindKind {
    /// The stable name of the kind.
    pub open spec fn named(self) -> Seq<char> {
        match self {
            BindKind::Param => "param"@,
            BindKind::Let => "let"@,
            BindKind::LambdaParam => "lambda_param"@,
            BindKind::MatchBinder => "match_binder"@,
        }
    }

    /// The stable string used in the JSON `kind` field.
    pub fn as_str(self) -> (r: &'static str)
        ensures
            r@ == self.named(),
    {
        match self {
            BindKind::Param => "param",
            BindKind::Let => "let",
            BindKind::LambdaParam => "lambda_param",
            BindKind::MatchBinder => "match_binder",
        }
    }
}

/// One local binding's data-flow facts.
#[derive(Debug, PartialEq)]
pub struct Binding {
    pub name: String,
    pub kind: BindKind,
    /// 1-based `(line, col)` of the binder's definition site. `(0, 0)` for a
    /// synthesized binder.
    pub def: (u32, u32),
    /// The full binder span.
    pub def_span: Span,
    /// The binding's rendered type, if known.
    pub ty: Option<String>,
    /// Every source location where this variable is read, sorted, without
    /// repetitions.
    pub uses: Vec<(u32, u32)>,
    /// Whether the binding is never read.
    pub unused: bool,
}

/// A binding, as a model.
pub struct BindV {
    pub name: Seq<char>,
    pub kind: BindKind,
    pub def: (u32, u32),
    pub def_span: Span,
    pub ty: Option<Seq<char>>,
    pub uses: Seq<(u32, u32)>,
    pub unused: bool,
}

impl Binding {
    /// The binding's model.
    pub open spec fn view(&self) -> BindV {
        BindV {
            name: self.name@,
            kind: self.kind,
            def: self.def,
            def_span: self.def_span,
            ty: opt_view(self.ty),
            uses: self.uses@,
            unused: self.unused,
        }
    }

    /// The number of distinct read sites.
    pub fn use_count(&self) -> (r: usize)
        ensures
            r == self.uses@.len(),
    {
        self.uses.len()
    }
}

/// The models of a list of bindings.
pub open spec fn binding_views(v: Seq<Binding>) -> Seq<BindV> {
    v.map_values(|b: Binding| b@)
}

/// An inner binding whose name shadows an outer one in scope.
#[derive(Debug, PartialEq)]
pub struct Shadow {
    pub name: String,
    /// `(line, col)` of the inner (shadowing) binding's definition.
    pub inner: (u32, u32),
    /// `(line, col)` of the outer (shadowed) binding's definition.
    pub outer: (u32, u32),
}

/// A shadowing, as a model.
pub struct ShadowV {
    pub name: Seq<char>,
    pub inner: (u32, u32),
    pub outer: (u32, u32),
}

impl Shadow {
    /// The shadowing's model.
    pub open spec fn view(&self) -> ShadowV {
        ShadowV { name: self.name@, inner: self.inner, outer: self.outer }
    }
}

/// The models of a list of shadowings.
pub open spec fn shadow_views(v: Seq<Shadow>) -> Seq<ShadowV> {
    v.map_values(|s: Shadow| s@)
}

/// Per-function data-flow.
#[derive(Debug, PartialEq)]
pub struct FnDataFlow {
    pub name: String,
    /// All local bindings: the parameters, then the others in the source order of
    /// their definitions.
    pub bindings: Vec<Binding>,
    /// The dead bindings, in binding order, with their definition sites.
    pub unused_bindings: Vec<(String, (u32, u32))>,
    /// The shadowings, in the order of their discovery.
    pub shadows: Vec<Shadow>,
}

/// The data-flow of a function, as a model.
pub struct FlowV {
    pub name: Seq<char>,
    pub bindings: Seq<BindV>,
    pub unused_bindings: Seq<(Seq<char>, (u32, u32))>,
    pub shadows: Seq<ShadowV>,
}

/// The contents of a list of located names.
pub open spec fn located_views(v: Seq<(String, (u32, u32))>) -> Seq<(Seq<char>, (u32, u32))> {
    v.map_values(|p: (String, (u32, u32))| (p.0@, p.1))
}

impl FnDataFlow {
    /// The data-flow's model.
    pub open spec fn view(&self) -> FlowV {
        FlowV {
            name: self.name@,
            bindings: binding_views(self.bindings@),
            unused_bindings: located_views(self.unused_bindings@),
            shadows: shadow_views(self.shadows@),
        }
    }
}

impl Clone for Binding {
    fn clone(&self) -> (r: Binding)
        ensures
            r@ == self@,
    {
        let mut uses: Vec<(u32, u32)> = Vec::new();
        let mut i: usize = 0;
        while i < self.uses.len()
            invariant
                i <= self.uses@.len(),
                uses@ == self.uses@.take(i as int),
            decreases self.uses@.len() - i,
        {
            uses.push(self.uses[i]);
            i = i + 1;
            assert(uses@ =~= self.uses@.take(i as int));
        }
        assert(uses@ =~= self.uses@);
        Binding {
            name: self.name.clone(),
            kind: self.kind,
            def: self.def,
            def_span: self.def_span,
            ty: match &self.ty {
                Some(t) => Some(t.clone()),
                None => None,
            },
            uses,
            unused: self.unused,
        }
    }
}

impl Clone for Shadow {
    fn clone(&self) -> (r: Shadow)
        ensures
            r@ == self@,
    {
        Shadow { name: self.name.clone(), inner: self.inner, outer: self.outer }
    }
}

impl Clone for FnDataFlow {
    fn clone(&self) -> (r: FnDataFlow)
        ensures
            r@ == self@,
    {
        let mut bindings: Vec<Binding> = Vec::new();
        let mut i: usize = 0;
        while i < self.bindings.len()
            invariant
                i <= self.bindings@.len(),
                binding_views(bindings@) =~= binding_views(self.bindings@).take(i as int),
            decreases self.bindings@.len() - i,
        {
            let ghost before = bindings@;
            bindings.push(self.bindings[i].clone());
            i = i + 1;
            assert(binding_views(bindings@) =~= binding_views(before).push(bindings@.last()@));
        }
        let mut unused_bindings: Vec<(String, (u32, u32))> = Vec::new();
        let mut i: usize = 0;
        while i < self.unused_bindings.len()
            invariant
                i <= self.unused_bindings@.len(),
                located_views(unused_bindings@) =~= located_views(self.unused_bindings@).take(
                    i as int,
                ),
            decreases self.unused_bindings@.len() - i,
        {
            let ghost before = unused_bindings@;
            let u: &(String, (u32, u32)) = &self.unused_bindings[i];
            unused_bindings.push((u.0.clone(), u.1));
            i = i + 1;
            assert(located_views(unused_bindings@) =~= located_views(before).push((u.0@, u.1)));
        }
        let mut shadows: Vec<Shadow> = Vec::new();
        let mut i: usize = 0;
        while i < self.shadows.len()
            invariant
                i <= self.shadows@.len(),
                shadow_views(shadows@) =~= shadow_views(self.shadows@).take(i as int),
            decreases self.shadows@.len() - i,
        {
            let ghost before = shadows@;
            shadows.push(self.shadows[i].clone());
            i = i + 1;
            assert(shadow_views(shadows@) =~= shadow_views(before).push(shadows@.last()@));
        }
        let r = FnDataFlow { name: self.name.clone(), bindings, unused_bindings, shadows };
        assert(r@.bindings =~= self@.bindings);
        assert(r@.unused_bindings =~= self@.unused_bindings);
        assert(r@.shadows =~= self@.shadows);
        r
    }
}

/// The models of a list of data-flows.
pub open spec fn flow_views(v: Seq<FnDataFlow>) -> Seq<FlowV> {
    v.map_values(|f: FnDataFlow| f@)
}

// ---------------------------------------------------------------------------
// The walk, as a model
// ---------------------------------------------------------------------------

/// A binding in scope: its position among the bindings and its definition site.
pub struct EntryV {
    pub name: Seq<char>,
    pub id: nat,
    pub def: (u32, u32),
}

/// The state of the walk.
pub struct DfSt {
    pub bindings: Seq<BindV>,
    pub scope: Seq<EntryV>,
    pub shadows: Seq<ShadowV>,
}

/// The tables that the walk reads.
pub struct DfCx {
    pub types: Seq<(Span, String)>,
    pub lambda_params: Seq<(Span, usize, Span)>,
}

/// The innermost binding of a name in scope.
pub open spec fn innermost(scope: Seq<EntryV>, name: Seq<char>) -> Option<EntryV>
    decreases scope.len(),
{
    if scope.len() == 0 {
        None
    } else if scope.last().name == name {
        Some(scope.last())
    } else {
        innermost(scope.drop_last(), name)
    }
}

/// The state with one more binding; a binding of the same name in scope is
/// shadowed.
pub open spec fn declared(
    st: DfSt,
    name: Seq<char>,
    kind: BindKind,
    span: Span,
    ty: Option<Seq<char>>,
) -> DfSt {
    let def = (span.start_line, span.start_col);
    DfSt {
        bindings: st.bindings.push(
            BindV { name, kind, def, def_span: span, ty, uses: Seq::empty(), unused: true },
        ),
        scope: st.scope.push(EntryV { name, id: st.bindings.len(), def }),
        shadows: match innermost(st.scope, name) {
            Some(outer) => st.shadows.push(ShadowV { name, inner: def, outer: outer.def }),
            None => st.shadows,
        },
    }
}

/// The state with a read of a name: it counts for the innermost binding in scope.
pub open spec fn used(st: DfSt, name: Seq<char>, span: Span) -> DfSt {
    match innermost(st.scope, name) {
        Some(e) => if span.located() {
            let b = st.bindings[e.id as int];
            DfSt {
                bindings: st.bindings.update(
                    e.id as int,
                    BindV { uses: b.uses.push((span.start_line, span.start_col)), ..b },
                ),
                ..st
            }
        } else {
            st
        },
        None => st,
    }
}

/// The state at the end of a region that was entered at scope depth `d`.
pub open spec fn left(st: DfSt, d: nat) -> DfSt {
    if d <= st.scope.len() {
        DfSt { scope: st.scope.take(d as int), ..st }
    } else {
        st
    }
}

/// The rendered type of an annotation; a bare type variable is none.
pub open spec fn annotated(t: Ty) -> Option<Seq<char>> {
    match t {
        Ty::Var(_) => None,
        _ => Some(shown(t)),
    }
}

/// The first of two types that is known.
pub open spec fn either(a: Option<Seq<char>>, b: Option<Seq<char>>) -> Option<Seq<char>> {
    match a {
        Some(_) => a,
        None => b,
    }
}

/// The span of a lambda parameter: the first entry of the body's span and the
/// index counts.
pub open spec fn lambda_span(table: Seq<(Span, usize, Span)>, body: Span, i: int) -> Span
    decreases table.len(),
{
    if table.len() == 0 {
        Span { start_line: 0, start_col: 0, end_line: 0, end_col: 0 }
    } else if table[0].0 == body && table[0].1 == i {
        table[0].2
    } else {
        lambda_span(table.drop_first(), body, i)
    }
}

/// The state with the variables of a pattern.
pub open spec fn pattern_declared(p: Pattern, st: DfSt, cx: DfCx) -> DfSt
    decreases p, 0nat,
{
    match p.kind {
        PatternKind::Var(n) => declared(
            st,
            n@,
            BindKind::MatchBinder,
            p.span,
            type_at(cx.types, p.span),
        ),
        PatternKind::Ctor(_, subs) => patterns_declared(subs@, subs@.len(), st, cx),
        PatternKind::Record(_, fs) => fields_declared(fs@, fs@.len(), st, cx),
        _ => st,
    }
}

/// The state with the variables of the first `n` patterns.
pub open spec fn patterns_declared(ps: Seq<Pattern>, n: nat, st: DfSt, cx: DfCx) -> DfSt
    decreases ps, n,
{
    if n == 0 || n > ps.len() {
        st
    } else {
        pattern_declared(ps[n - 1], patterns_declared(ps, (n - 1) as nat, st, cx), cx)
    }
}

/// The state with the variables of the first `n` field patterns.
pub open spec fn fields_declared(fs: Seq<(String, Pattern)>, n: nat, st: DfSt, cx: DfCx) -> DfSt
    decreases fs, n,
{
    if n == 0 || n > fs.len() {
        st
    } else {
        pattern_declared(fs[n - 1].1, fields_declared(fs, (n - 1) as nat, st, cx), cx)
    }
}

/// The state with the first `n` parameters of a lambda.
pub open spec fn lambda_declared(
    ps: Seq<(String, Ty)>,
    n: nat,
    body: Span,
    st: DfSt,
    cx: DfCx,
) -> DfSt
    decreases n,
{
    if n == 0 || n > ps.len() {
        st
    } else {
        let span = lambda_span(cx.lambda_params, body, n - 1);
        declared(
            lambda_declared(ps, (n - 1) as nat, body, st, cx),
            ps[n - 1].0@,
            BindKind::LambdaParam,
            span,
            either(annotated(ps[n - 1].1), type_at(cx.types, span)),
        )
    }
}

/// The type of a `let`: its annotation, else the type of its value, else the type
/// at its name.
pub open spec fn let_type(ann: Option<Ty>, value: Span, name: Span, cx: DfCx) -> Option<Seq<char>> {
    either(
        match ann {
            Some(t) => annotated(t),
            None => None,
        },
        either(type_at(cx.types, value), type_at(cx.types, name)),
    )
}

/// The state after an expression.
pub open spec fn walked(e: Expr, st: DfSt, cx: DfCx) -> DfSt
    decreases e, 0nat,
{
    let d = st.scope.len();
    match e.kind {
        ExprKind::Var(name) => used(st, name@, e.span),
        ExprKind::Call(name, args) => walked_all(
            args@,
            args@.len(),
            used(st, name@, e.span),
            cx,
        ),
        ExprKind::Ctor(_, args) => walked_all(args@, args@.len(), st, cx),
        ExprKind::Record(_, fs) => walked_fields(fs@, fs@.len(), st, cx),
        ExprKind::Field(obj, _) => walked(*obj, st, cx),
        ExprKind::Update(base, ups) => walked_fields(ups@, ups@.len(), walked(*base, st, cx), cx),
        ExprKind::Lambda(ps, body, _) => left(
            walked(*body, lambda_declared(ps@, ps@.len(), body.span, st, cx), cx),
            d,
        ),
        ExprKind::Apply(callee, args, _) => walked_all(
            args@,
            args@.len(),
            walked(*callee, st, cx),
            cx,
        ),
        ExprKind::Unary(_, inner) => walked(*inner, st, cx),
        ExprKind::Binary(_, l, r) => walked(*r, walked(*l, st, cx), cx),
        ExprKind::If(c, t, f) => walked(*f, walked(*t, walked(*c, st, cx), cx), cx),
        ExprKind::Match(scrut, arms) => walked_arms(
            arms@,
            arms@.len(),
            walked(*scrut, st, cx),
            cx,
        ),
        ExprKind::Block(stmts, last) => left(
            walked(*last, walked_stmts(stmts@, stmts@.len(), st, cx), cx),
            d,
        ),
        _ => st,
    }
}

/// The state after the first `n` expressions.
pub open spec fn walked_all(es: Seq<Expr>, n: nat, st: DfSt, cx: DfCx) -> DfSt
    decreases es, n,
{
    if n == 0 || n > es.len() {
        st
    } else {
        walked(es[n - 1], walked_all(es, (n - 1) as nat, st, cx), cx)
    }
}

/// The state after the first `n` field values.
pub open spec fn walked_fields(fs: Seq<(String, Expr)>, n: nat, st: DfSt, cx: DfCx) -> DfSt
    decreases fs, n,
{
    if n == 0 || n > fs.len() {
        st
    } else {
        walked(fs[n - 1].1, walked_fields(fs, (n - 1) as nat, st, cx), cx)
    }
}

/// The state after the first `n` arms; each arm is a region.
pub open spec fn walked_arms(arms: Seq<Arm>, n: nat, st: DfSt, cx: DfCx) -> DfSt
    decreases arms, n,
{
    if n == 0 || n > arms.len() {
        st
    } else {
        let before = walked_arms(arms, (n - 1) as nat, st, cx);
        let arm = arms[n - 1];
        left(
            walked(arm.body, pattern_declared(arm.pat, before, cx), cx),
            before.scope.len(),
        )
    }
}

/// The state after the first `n` statements. The value of a `let` is walked
/// before its name comes into scope.
pub open spec fn walked_stmts(stmts: Seq<Stmt>, n: nat, st: DfSt, cx: DfCx) -> DfSt
    decreases stmts, n,
{
    if n == 0 || n > stmts.len() {
        st
    } else {
        let before = walked_stmts(stmts, (n - 1) as nat, st, cx);
        match stmts[n - 1].kind {
            StmtKind::Let { name, name_span, ann, value } => declared(
                walked(value, before, cx),
                name@,
                BindKind::Let,
                name_span,
                let_type(ann, value.span, name_span, cx),
            ),
            StmtKind::Expr(ex) => walked(ex, before, cx),
        }
    }
}

/// The state with the first `n` parameters of a function.
pub open spec fn params_declared(ps: Seq<Param>, n: nat) -> DfSt
    decreases n,
{
    if n == 0 || n > ps.len() {
        DfSt { bindings: Seq::empty(), scope: Seq::empty(), shadows: Seq::empty() }
    } else {
        let p = ps[n - 1];
        declared(
            params_declared(ps, (n - 1) as nat),
            p.name@,
            BindKind::Param,
            p.span,
            Some(shown(p.ty)),
        )
    }
}

/// The sorted positions of the first `n` uses, without repetitions.
pub open spec fn sorted_uses(uses: Seq<(u32, u32)>, n: nat) -> Seq<(u32, u32)>
    decreases n,
{
    if n == 0 || n > uses.len() {
        Seq::empty()
    } else {
        pos_added(sorted_uses(uses, (n - 1) as nat), uses[n - 1])
    }
}

/// The type that was recorded for a span that starts at a position: the first
/// entry counts.
pub open spec fn type_starting(types: Seq<(Span, String)>, p: (u32, u32)) -> Option<Seq<char>>
    decreases types.len(),
{
    if types.len() == 0 {
        None
    } else if types[0].0.start_line == p.0 && types[0].0.start_col == p.1 {
        Some(types[0].1@)
    } else {
        type_starting(types.drop_first(), p)
    }
}

/// A binding after the walk: its uses sorted, and its type, where none is known,
/// taken from its first use.
pub open spec fn finished(b: BindV, types: Seq<(Span, String)>) -> BindV {
    let uses = sorted_uses(b.uses, b.uses.len());
    BindV {
        uses,
        unused: uses.len() == 0,
        ty: if b.ty is None && uses.len() > 0 {
            type_starting(types, uses[0])
        } else {
            b.ty
        },
        ..b
    }
}

/// Whether `x` comes after `b` in the list of bindings: parameters come first, and
/// the other bindings are in the order of their definitions.
pub open spec fn comes_after(x: BindV, b: BindV) -> bool {
    x.kind != BindKind::Param && (b.kind == BindKind::Param || pos_lt(b.def, x.def))
}

/// A list of bindings with one more, before those that come after it.
pub open spec fn binding_added(s: Seq<BindV>, b: BindV) -> Seq<BindV>
    decreases s.len(),
{
    if s.len() == 0 || !comes_after(s.last(), b) {
        s.push(b)
    } else {
        binding_added(s.drop_last(), b).push(s.last())
    }
}

/// The first `n` bindings in their order.
pub open spec fn ordered(bs: Seq<BindV>, n: nat) -> Seq<BindV>
    decreases n,
{
    if n == 0 || n > bs.len() {
        Seq::empty()
    } else {
        binding_added(ordered(bs, (n - 1) as nat), bs[n - 1])
    }
}

/// The dead ones among the first `n` bindings.
pub open spec fn dead(bs: Seq<BindV>, n: nat) -> Seq<(Seq<char>, (u32, u32))>
    decreases n,
{
    if n == 0 || n > bs.len() {
        Seq::empty()
    } else {
        let before = dead(bs, (n - 1) as nat);
        if bs[n - 1].unused {
            before.push((bs[n - 1].name, bs[n - 1].def))
        } else {
            before
        }
    }
}

/// The data-flow of a function.
pub open spec fn flow_of(f: FnDecl, cx: DfCx) -> FlowV {
    let st = walked(f.body, params_declared(f.params@, f.params@.len()), cx);
    let all = st.bindings.map_values(|b: BindV| finished(b, cx.types));
    let bindings = ordered(all, all.len());
    FlowV {
        name: f.name@,
        bindings,
        unused_bindings: dead(bindings, bindings.len()),
        shadows: st.shadows,
    }
}

/// The data-flows of the user functions among the first `n` items.
pub open spec fn flows_of(
    items: Seq<Item>,
    n: nat,
    prelude: Seq<Seq<char>>,
    cx: DfCx,
) -> Seq<FlowV>
    decreases n,
{
    if n == 0 || n > items.len() {
        Seq::empty()
    } else {
        let before = flows_of(items, (n - 1) as nat, prelude, cx);
        match items[n - 1] {
            Item::Fn(f) => if is_source_name(prelude, f.name@) {
                before.push(flow_of(f, cx))
            } else {
                before
            },
            Item::Type(_) => before,
        }
    }
}

// ---------------------------------------------------------------------------
// The walk
// ---------------------------------------------------------------------------

/// A binding in scope.
struct ScopeEntry {
    name: String,
    id: usize,
    def: (u32, u32),
}

impl ScopeEntry {
    spec fn view(&self) -> EntryV {
        EntryV { name: self.name@, id: self.id as nat, def: self.def }
    }
}

spec fn entry_views(v: Seq<ScopeEntry>) -> Seq<EntryV> {
    v.map_values(|e: ScopeEntry| e@)
}

/// The walk: the tables, the bindings found, the scope and the shadowings.
struct DfWalk<'a> {
    types: &'a Vec<(Span, String)>,
    binders: &'a BinderSpans,
    bindings: Vec<Binding>,
    scope: Vec<ScopeEntry>,
    shadows: Vec<Shadow>,
}

impl<'a> DfWalk<'a> {
    spec fn view(&self) -> DfSt {
        DfSt {
            bindings: binding_views(self.bindings@),
            scope: entry_views(self.scope@),
            shadows: shadow_views(self.shadows@),
        }
    }

    spec fn cx(&self) -> DfCx {
        DfCx { types: self.types@, lambda_params: self.binders.lambda_params@ }
    }

    /// Every entry in scope is a binding.
    spec fn wf(&self) -> bool {
        forall|i: int| 0 <= i < self.scope@.len() ==> (#[trigger] self.scope@[i]).id < self.bindings@.len()
    }

    fn lookup_type(&self, span: Span) -> (r: Option<String>)
        ensures
            opt_view(r) == type_at(self.types@, span),
    {
        lookup_type(self.types, span)
    }

    /// The position in the scope of the innermost binding of a name.
    fn find(&self, name: &str) -> (r: Option<usize>)
        ensures
            match r {
                Some(i) => i < self.scope@.len() && innermost(self@.scope, name@) == Some(
                    self.scope@[i as int]@,
                ),
                None => innermost(self@.scope, name@) is None,
            },
    {
        let mut i: usize = self.scope.len();
        assert(self@.scope.take(i as int) =~= self@.scope);
        while i > 0
            invariant
                i <= self.scope@.len(),
                innermost(self@.scope, name@) == innermost(self@.scope.take(i as int), name@),
            decreases i,
        {
            proof {
                let t = self@.scope.take(i as int);
                assert(t.drop_last() =~= self@.scope.take(i - 1));
                assert(t.last() == self.scope@[i - 1]@);
            }
            i = i - 1;
            if str_eq(self.scope[i].name.as_str(), name) {
                return Some(i);
            }
        }
        None
    }

    /// Introduce a new binding, recording a shadowing if a binding of the same
    /// name is in scope.
    fn declare(&mut self, name: &str, kind: BindKind, def_span: Span, ty: Option<String>)
        requires
            old(self).wf(),
        ensures
            final(self).wf(),
            final(self).types == old(self).types,
            final(self).binders == old(self).binders,
            final(self)@ == declared(old(self)@, name@, kind, def_span, opt_view(ty)),
    {
        let ghost st0 = self@;
        let def: (u32, u32) = (def_span.start_line, def_span.start_col);
        if let Some(i) = self.find(name) {
            let outer: (u32, u32) = self.scope[i].def;
            let ghost before = self.shadows@;
            self.shadows.push(Shadow { name: name.to_owned(), inner: def, outer });
            assert(shadow_views(self.shadows@) =~= shadow_views(before).push(
                ShadowV { name: name@, inner: def, outer },
            ));
        }
        let id: usize = self.bindings.len();
        let ghost bs = self.bindings@;
        self.bindings.push(
            Binding {
                name: name.to_owned(),
                kind,
                def,
                def_span,
                ty,
                uses: Vec::new(),
                unused: true,
            },
        );
        let ghost sc = self.scope@;
        self.scope.push(ScopeEntry { name: name.to_owned(), id, def });
        proof {
            let b = self.bindings@.last()@;
            assert(b.uses =~= Seq::empty());
            assert(binding_views(self.bindings@) =~= binding_views(bs).push(b));
            assert(entry_views(self.scope@) =~= entry_views(sc).push(self.scope@.last()@));
            assert forall|i: int| 0 <= i < self.scope@.len() implies (#[trigger] self.scope@[i]).id
                < self.bindings@.len() by {
                if i < sc.len() {
                    assert(sc[i].id < bs.len());
                }
            }
            assert(self@ == declared(st0, name@, kind, def_span, opt_view(ty)));
        }
    }

    /// Record a read of `name` at `span` against the innermost binding in scope,
    /// if there is one.
    fn use_var(&mut self, name: &str, span: Span)
        requires
            old(self).wf(),
        ensures
            final(self).wf(),
            final(self).types == old(self).types,
            final(self).binders == old(self).binders,
            final(self)@ == used(old(self)@, name@, span),
    {
        if span.is_none() {
            return;
        }
        if let Some(i) = self.find(name) {
            let id: usize = self.scope[i].id;
            let ghost bs = self.bindings@;
            let mut b: Binding = self.bindings.remove(id);
            let ghost b0 = b@;
            let ghost uses0 = b.uses@;
            b.uses.push((span.start_line, span.start_col));
            self.bindings.insert(id, b);
            proof {
                assert(b@ == BindV { uses: uses0.push((span.start_line, span.start_col)), ..b0 });
                assert(binding_views(self.bindings@) =~= binding_views(bs).update(id as int, b@));
            }
        }
    }

    /// Leave the region that was entered at the scope depth.
    fn leave(&mut self, depth: usize)
        requires
            old(self).wf(),
        ensures
            final(self).wf(),
            final(self).types == old(self).types,
            final(self).binders == old(self).binders,
            final(self)@ == left(old(self)@, depth as nat),
    {
        let ghost sc = self.scope@;
        self.scope.truncate(depth);
        proof {
            if depth <= sc.len() {
                assert(entry_views(self.scope@) =~= entry_views(sc).take(depth as int));
                assert forall|i: int| 0 <= i < self.scope@.len() implies (
                #[trigger] self.scope@[i]).id < self.bindings@.len() by {
                    assert(sc[i].id < self.bindings@.len());
                }
            }
        }
    }

    /// Bind every variable that a match pattern introduces.
    fn bind_pattern(&mut self, pat: &Pattern)
        requires
            old(self).wf(),
        ensures
            final(self).wf(),
            final(self).types == old(self).types,
            final(self).binders == old(self).binders,
            final(self)@ == pattern_declared(*pat, old(self)@, old(self).cx()),
        decreases pat, 0nat,
    {
        match &pat.kind {
            PatternKind::Var(name) => {
                let ty: Option<String> = self.lookup_type(pat.span);
                self.declare(name.as_str(), BindKind::MatchBinder, pat.span, ty);
            },
            PatternKind::Ctor(_, subs) => self.bind_patterns(subs, subs.len()),
            PatternKind::Record(_, fs) => self.bind_fields(fs, fs.len()),
            _ => {},
        }
    }

    fn bind_patterns(&mut self, ps: &Vec<Pattern>, n: usize)
        requires
            old(self).wf(),
            n <= ps@.len(),
        ensures
            final(self).wf(),
            final(self).types == old(self).types,
            final(self).binders == old(self).binders,
            final(self)@ == patterns_declared(ps@, n as nat, old(self)@, old(self).cx()),
        decreases ps@, n,
    {
        if n > 0 {
            self.bind_patterns(ps, n - 1);
            self.bind_pattern(&ps[n - 1]);
        }
    }

    fn bind_fields(&mut self, fs: &Vec<(String, Pattern)>, n: usize)
        requires
            old(self).wf(),
            n <= fs@.len(),
        ensures
            final(self).wf(),
            final(self).types == old(self).types,
            final(self).binders == old(self).binders,
            final(self)@ == fields_declared(fs@, n as nat, old(self)@, old(self).cx()),
        decreases fs@, n,
    {
        if n > 0 {
            self.bind_fields(fs, n - 1);
            self.bind_pattern(&fs[n - 1].1);
        }
    }

    fn find_lambda_span(&self, body: Span, i: usize) -> (r: Span)
        ensures
            r == lambda_span(self.binders.lambda_params@, body, i as int),
    {
        let table: &Vec<(Span, usize, Span)> = &self.binders.lambda_params;
        let mut k: usize = 0;
        assert(table@.skip(0) =~= table@);
        while k < table.len()
            invariant
                k <= table@.len(),
                table == &self.binders.lambda_params,
                lambda_span(table@, body, i as int) == lambda_span(
                    table@.skip(k as int),
                    body,
                    i as int,
                ),
            decreases table@.len() - k,
        {
            let row: (Span, usize, Span) = table[k];
            assert(table@.skip(k as int)[0] == row);
            if row.0 == body && row.1 == i {
                return row.2;
            }
            assert(table@.skip(k as int).drop_first() =~= table@.skip(k + 1));
            k = k + 1;
        }
        Span::none()
    }

    fn bind_lambda(&mut self, ps: &Vec<(String, Ty)>, body: Span)
        requires
            old(self).wf(),
        ensures
            final(self).wf(),
            final(self).types == old(self).types,
            final(self).binders == old(self).binders,
            final(self)@ == lambda_declared(ps@, ps@.len(), body, old(self)@, old(self).cx()),
    {
        let ghost st0 = self@;
        let ghost cx = self.cx();
        let mut i: usize = 0;
        while i < ps.len()
            invariant
                i <= ps@.len(),
                self.wf(),
                self.types == old(self).types,
                self.binders == old(self).binders,
                cx == self.cx(),
                self@ == lambda_declared(ps@, i as nat, body, st0, cx),
            decreases ps@.len() - i,
        {
            let span: Span = self.find_lambda_span(body, i);
            let ty: Option<String> = match render_ty(&ps[i].1) {
                Some(t) => Some(t),
                None => self.lookup_type(span),
            };
            self.declare(ps[i].0.as_str(), BindKind::LambdaParam, span, ty);
            i = i + 1;
        }
    }

    /// Walk an expression, collecting bindings and uses.
    fn walk(&mut self, e: &Expr)
        requires
            old(self).wf(),
        ensures
            final(self).wf(),
            final(self).types == old(self).types,
            final(self).binders == old(self).binders,
            final(self)@ == walked(*e, old(self)@, old(self).cx()),
        decreases e, 0nat,
    {
        match &e.kind {
            ExprKind::Var(name) => self.use_var(name.as_str(), e.span),
            ExprKind::Call(name, args) => {
                self.use_var(name.as_str(), e.span);
                self.walk_all(args, args.len());
            },
            ExprKind::Ctor(_, args) => self.walk_all(args, args.len()),
            ExprKind::Record(_, fs) => self.walk_fields(fs, fs.len()),
            ExprKind::Field(obj, _) => self.walk(obj),
            ExprKind::Update(base, ups) => {
                self.walk(base);
                self.walk_fields(ups, ups.len());
            },
            ExprKind::Lambda(ps, body, _) => {
                let depth: usize = self.scope.len();
                self.bind_lambda(ps, body.span);
                self.walk(body);
                self.leave(depth);
            },
            ExprKind::Apply(callee, args, _) => {
                self.walk(callee);
                self.walk_all(args, args.len());
            },
            ExprKind::Unary(_, inner) => self.walk(inner),
            ExprKind::Binary(_, l, r) => {
                self.walk(l);
                self.walk(r);
            },
            ExprKind::If(c, t, f) => {
                self.walk(c);
                self.walk(t);
                self.walk(f);
            },
            ExprKind::Match(scrut, arms) => {
                self.walk(scrut);
                self.walk_arms(arms, arms.len());
            },
            ExprKind::Block(stmts, last) => {
                let depth: usize = self.scope.len();
                self.walk_stmts(stmts, stmts.len());
                self.walk(last);
                self.leave(depth);
            },
            _ => {},
        }
    }

    fn walk_all(&mut self, es: &Vec<Expr>, n: usize)
        requires
            old(self).wf(),
            n <= es@.len(),
        ensures
            final(self).wf(),
            final(self).types == old(self).types,
            final(self).binders == old(self).binders,
            final(self)@ == walked_all(es@, n as nat, old(self)@, old(self).cx()),
        decreases es@, n,
    {
        if n > 0 {
            self.walk_all(es, n - 1);
            self.walk(&es[n - 1]);
        }
    }

    fn walk_fields(&mut self, fs: &Vec<(String, Expr)>, n: usize)
        requires
            old(self).wf(),
            n <= fs@.len(),
        ensures
            final(self).wf(),
            final(self).types == old(self).types,
            final(self).binders == old(self).binders,
            final(self)@ == walked_fields(fs@, n as nat, old(self)@, old(self).cx()),
        decreases fs@, n,
    {
        if n > 0 {
            self.walk_fields(fs, n - 1);
            self.walk(&fs[n - 1].1);
        }
    }

    fn walk_arms(&mut self, arms: &Vec<Arm>, n: usize)
        requires
            old(self).wf(),
            n <= arms@.len(),
        ensures
            final(self).wf(),
            final(self).types == old(self).types,
            final(self).binders == old(self).binders,
            final(self)@ == walked_arms(arms@, n as nat, old(self)@, old(self).cx()),
        decreases arms@, n,
    {
        if n > 0 {
            self.walk_arms(arms, n - 1);
            let depth: usize = self.scope.len();
            self.bind_pattern(&arms[n - 1].pat);
            self.walk(&arms[n - 1].body);
            self.leave(depth);
        }
    }

    fn walk_stmts(&mut self, stmts: &Vec<Stmt>, n: usize)
        requires
            old(self).wf(),
            n <= stmts@.len(),
        ensures
            final(self).wf(),
            final(self).types == old(self).types,
            final(self).binders == old(self).binders,
            final(self)@ == walked_stmts(stmts@, n as nat, old(self)@, old(self).cx()),
        decreases stmts@, n,
    {
        if n > 0 {
            self.walk_stmts(stmts, n - 1);
            match &stmts[n - 1].kind {
                StmtKind::Let { name, name_span, ann, value } => {
                    self.walk(value);
                    let given: Option<String> = match ann {
                        Some(t) => render_ty(t),
                        None => None,
                    };
                    let ty: Option<String> = match given {
                        Some(t) => Some(t),
                        None => match self.lookup_type(value.span) {
                            Some(t) => Some(t),
                            None => self.lookup_type(*name_span),
                        },
                    };
                    self.declare(name.as_str(), BindKind::Let, *name_span, ty);
                },
                StmtKind::Expr(ex) => self.walk(ex),
            }
        }
    }
}

/// Render a type, or nothing for a bare type variable, which would be noise.
fn render_ty(t: &Ty) -> (r: Option<String>)
    ensures
        opt_view(r) == annotated(*t),
{
    match t {
        Ty::Var(_) => None,
        _ => Some(show(t)),
    }
}

fn find_type_starting(types: &Vec<(Span, String)>, p: (u32, u32)) -> (r: Option<String>)
    ensures
        opt_view(r) == type_starting(types@, p),
{
    let mut i: usize = 0;
    assert(types@.skip(0) =~= types@);
    while i < types.len()
        invariant
            i <= types@.len(),
            type_starting(types@, p) == type_starting(types@.skip(i as int), p),
        decreases types@.len() - i,
    {
        if types[i].0.start_line == p.0 && types[i].0.start_col == p.1 {
            return Some(types[i].1.clone());
        }
        assert(types@.skip(i as int).drop_first() =~= types@.skip(i + 1));
        i = i + 1;
    }
    None
}

fn finish(b: Binding, types: &Vec<(Span, String)>) -> (r: Binding)
    ensures
        r@ == finished(b@, types@),
{
    let mut uses: Vec<(u32, u32)> = Vec::new();
    let mut i: usize = 0;
    while i < b.uses.len()
        invariant
            i <= b.uses@.len(),
            uses@ == sorted_uses(b.uses@, i as nat),
        decreases b.uses@.len() - i,
    {
        add_pos(&mut uses, b.uses[i]);
        i = i + 1;
    }
    let unused: bool = uses.len() == 0;
    let ty: Option<String> = match b.ty {
        Some(t) => Some(t),
        None => {
            if uses.len() > 0 {
                find_type_starting(types, uses[0])
            } else {
                None
            }
        },
    };
    Binding {
        name: b.name,
        kind: b.kind,
        def: b.def,
        def_span: b.def_span,
        ty,
        uses,
        unused,
    }
}

fn add_binding(v: &mut Vec<Binding>, b: Binding)
    ensures
        binding_views(final(v)@) == binding_added(binding_views(old(v)@), b@),
    decreases old(v)@.len(),
{
    let ghost start = v@;
    let n: usize = v.len();
    let after: bool = n > 0 && v[n - 1].kind != BindKind::Param && (b.kind == BindKind::Param || b.def.0
        < v[n - 1].def.0 || (b.def.0 == v[n - 1].def.0 && b.def.1 < v[n - 1].def.1));
    proof {
        if n > 0 {
            assert(binding_views(start).last() == start.last()@);
        }
    }
    if !after {
        v.push(b);
        assert(binding_views(v@) =~= binding_views(start).push(b@));
        return;
    }
    if let Some(last) = v.pop() {
        assert(binding_views(v@) =~= binding_views(start).drop_last());
        add_binding(v, b);
        let ghost before = v@;
        v.push(last);
        assert(binding_views(v@) =~= binding_views(before).push(last@));
    }
}

/// Compute the data-flow of a single function: bind its parameters, walk the
/// body, then settle each binding's uses, type and deadness.
fn analyze_fn(f: &FnDecl, types: &Vec<(Span, String)>, binders: &BinderSpans) -> (r: FnDataFlow)
    ensures
        r@ == flow_of(*f, DfCx { types: types@, lambda_params: binders.lambda_params@ }),
{
    let ghost cx = DfCx { types: types@, lambda_params: binders.lambda_params@ };
    let mut w = DfWalk {
        types,
        binders,
        bindings: Vec::new(),
        scope: Vec::new(),
        shadows: Vec::new(),
    };
    let mut i: usize = 0;
    proof {
        assert(w@.bindings =~= Seq::empty());
        assert(w@.scope =~= Seq::empty());
        assert(w@.shadows =~= Seq::empty());
    }
    while i < f.params.len()
        invariant
            i <= f.params@.len(),
            w.wf(),
            w.types == types,
            w.binders == binders,
            w@ == params_declared(f.params@, i as nat),
        decreases f.params@.len() - i,
    {
        let ty: Option<String> = Some(show(&f.params[i].ty));
        w.declare(f.params[i].name.as_str(), BindKind::Param, f.params[i].span, ty);
        i = i + 1;
    }
    w.walk(&f.body);
    let ghost st = w@;
    let mut rest: Vec<Binding> = w.bindings;
    let ghost all = binding_views(rest@);
    let mut bindings: Vec<Binding> = Vec::new();
    let ghost done = all.map_values(|b: BindV| finished(b, cx.types));
    let total: usize = rest.len();
    let mut k: usize = 0;
    assert(all.skip(0) =~= all);
    assert(binding_views(bindings@) =~= Seq::empty());
    while k < total
        invariant
            k <= total,
            total == all.len(),
            rest@.len() == total - k,
            cx.types == types@,
            done == all.map_values(|b: BindV| finished(b, cx.types)),
            binding_views(rest@) == all.skip(k as int),
            binding_views(bindings@) == ordered(done, k as nat),
        decreases total - k,
    {
        let ghost rest0 = rest@;
        assert(binding_views(rest0)[0] == rest0[0]@);
        let b: Binding = rest.remove(0);
        let fin: Binding = finish(b, types);
        proof {
            assert(all.skip(k as int)[0] == all[k as int]);
            assert(b@ == all[k as int]);
            assert(fin@ == done[k as int]);
            assert forall|j: int| 0 <= j < rest@.len() implies binding_views(rest@)[j] == all.skip(
                k + 1,
            )[j] by {
                assert(binding_views(rest0)[j + 1] == all.skip(k as int)[j + 1]);
            }
            assert(binding_views(rest@) =~= all.skip(k + 1));
        }
        add_binding(&mut bindings, fin);
        k = k + 1;
    }
    let mut unused_bindings: Vec<(String, (u32, u32))> = Vec::new();
    let ghost listed = binding_views(bindings@);
    let mut m: usize = 0;
    assert(located_views(unused_bindings@) =~= Seq::empty());
    while m < bindings.len()
        invariant
            m <= bindings@.len(),
            listed == binding_views(bindings@),
            located_views(unused_bindings@) == dead(listed, m as nat),
        decreases bindings@.len() - m,
    {
        assert(listed[m as int] == bindings@[m as int]@);
        if bindings[m].unused {
            let ghost before = unused_bindings@;
            unused_bindings.push((bindings[m].name.clone(), bindings[m].def));
            assert(located_views(unused_bindings@) =~= located_views(before).push(
                (listed[m as int].name, listed[m as int].def),
            ));
        }
        m = m + 1;
    }
    FnDataFlow { name: f.name.clone(), bindings, unused_bindings, shadows: w.shadows }
}

/// Compute per-function data-flow for every user function. `types` is the
/// recorded types by span; `binders` locates the lambda parameters. Prelude and
/// compiler-generated functions are skipped.
pub fn analyze(
    program: &Program,
    prelude_names: &Vec<String>,
    types: &Vec<(Span, String)>,
    binders: &BinderSpans,
) -> (r: Vec<FnDataFlow>)
    ensures
        flow_views(r@) == flows_of(
            program.items@,
            program.items@.len(),
            views(prelude_names@),
            DfCx { types: types@, lambda_params: binders.lambda_params@ },
        ),
{
    let ghost cx = DfCx { types: types@, lambda_params: binders.lambda_params@ };
    let mut out: Vec<FnDataFlow> = Vec::new();
    let mut i: usize = 0;
    assert(flow_views(out@) =~= Seq::empty());
    while i < program.items.len()
        invariant
            i <= program.items@.len(),
            cx == (DfCx { types: types@, lambda_params: binders.lambda_params@ }),
            flow_views(out@) == flows_of(
                program.items@,
                i as nat,
                views(prelude_names@),
                cx,
            ),
        decreases program.items@.len() - i,
    {
        if let Item::Fn(f) = &program.items[i] {
            if source_name(prelude_names, f.name.as_str()) {
                let flow: FnDataFlow = analyze_fn(f, types, binders);
                let ghost before = out@;
                out.push(flow);
                assert(flow_views(out@) =~= flow_views(before).push(flow@));
            }
        }
        i = i + 1;
    }
    out
}

// ---------------------------------------------------------------------------
// Laws
// ---------------------------------------------------------------------------

/// The uses of a binding are sorted, none is repeated, and they are the reads
/// that the walk recorded, no more and no fewer.
pub proof fn uses_are_reads(reads: Seq<(u32, u32)>)
    ensures
        ({
            let uses = sorted_uses(reads, reads.len());
            &&& forall|i: int, j: int|
                0 <= i < j < uses.len() ==> pos_lt(#[trigger] uses[i], #[trigger] uses[j])
            &&& forall|p: (u32, u32)| #[trigger] uses.contains(p) <==> reads.contains(p)
        }),
{
    lemma_sorted_uses(reads, reads.len());
    assert(reads.take(reads.len() as int) =~= reads);
}

proof fn lemma_sorted_uses(reads: Seq<(u32, u32)>, n: nat)
    requires
        n <= reads.len(),
    ensures
        ({
            let uses = sorted_uses(reads, n);
            &&& forall|i: int, j: int|
                0 <= i < j < uses.len() ==> pos_lt(#[trigger] uses[i], #[trigger] uses[j])
            &&& forall|p: (u32, u32)|
                #[trigger] uses.contains(p) <==> reads.take(n as int).contains(p)
        }),
    decreases n,
{
    if n > 0 {
        lemma_sorted_uses(reads, (n - 1) as nat);
        positions_sorted(sorted_uses(reads, (n - 1) as nat), reads[n - 1]);
        let t = reads.take(n as int);
        let s = reads.take(n - 1);
        assert(t =~= s.push(reads[n - 1]));
        assert forall|p: (u32, u32)| #[trigger] t.contains(p) <==> s.contains(p) || p == reads[n
            - 1] by {
            if s.contains(p) {
                assert(t[s.index_of(p)] == p);
            }
            assert(t[n - 1] == reads[n - 1]);
        }
    }
}

/// A binding is reported as unused exactly when it has no use, and it is without
/// uses exactly when the walk recorded no read of it.
pub proof fn unused_iff_unread(b: BindV, types: Seq<(Span, String)>)
    ensures
        finished(b, types).unused <==> finished(b, types).uses.len() == 0,
        finished(b, types).unused <==> b.uses.len() == 0,
{
    uses_are_reads(b.uses);
    let uses = finished(b, types).uses;
    if b.uses.len() > 0 {
        assert(b.uses.contains(b.uses[0]));
        assert(uses.contains(b.uses[0]));
    }
    if uses.len() > 0 {
        assert(uses.contains(uses[0]));
    }
}

/// The list of dead bindings holds the unused bindings, no more and no fewer.
pub proof fn dead_are_unused(bs: Seq<BindV>, d: (Seq<char>, (u32, u32)))
    ensures
        dead(bs, bs.len()).contains(d) <==> exists|i: int|
            0 <= i < bs.len() && (#[trigger] bs[i]).unused && d == (bs[i].name, bs[i].def),
{
    lemma_dead(bs, bs.len(), d);
}

proof fn lemma_dead(bs: Seq<BindV>, n: nat, d: (Seq<char>, (u32, u32)))
    requires
        n <= bs.len(),
    ensures
        dead(bs, n).contains(d) <==> exists|i: int|
            0 <= i < n && (#[trigger] bs[i]).unused && d == (bs[i].name, bs[i].def),
    decreases n,
{
    if n > 0 {
        lemma_dead(bs, (n - 1) as nat, d);
        let before = dead(bs, (n - 1) as nat);
        let b = bs[n - 1];
        if b.unused {
            let all = before.push((b.name, b.def));
            if before.contains(d) {
                assert(all[before.index_of(d)] == d);
            }
            assert(all[before.len() as int] == (b.name, b.def));
        }
    }
}

/// Whether parameters come first in a list of bindings, and the others are in the
/// source order of their definitions.
pub open spec fn in_source_order(s: Seq<BindV>) -> bool {
    forall|i: int, j: int| 0 <= i < j < s.len() ==> !comes_after(#[trigger] s[i], #[trigger] s[j])
}

proof fn lemma_binding_added(s: Seq<BindV>, x: BindV)
    requires
        in_source_order(s),
    ensures
        in_source_order(binding_added(s, x)),
        binding_added(s, x).to_multiset() == s.to_multiset().insert(x),
    decreases s.len(),
{
    broadcast use vstd::seq_lib::group_to_multiset_ensures;

    let t = binding_added(s, x);
    if s.len() == 0 || !comes_after(s.last(), x) {
        assert forall|i: int, j: int| 0 <= i < j < t.len() implies !comes_after(
            #[trigger] t[i],
            #[trigger] t[j],
        ) by {
            if j == s.len() && i < s.len() - 1 {
                assert(!comes_after(s[i], s[s.len() - 1]));
            }
        }
    } else {
        let d = s.drop_last();
        let u = binding_added(d, x);
        lemma_binding_added(d, x);
        assert(s =~= d.push(s.last()));
        assert(t.to_multiset() =~= s.to_multiset().insert(x));
        assert forall|i: int, j: int| 0 <= i < j < t.len() implies !comes_after(
            #[trigger] t[i],
            #[trigger] t[j],
        ) by {
            if j < u.len() {
                assert(!comes_after(u[i], u[j]));
            } else {
                assert(u.to_multiset().count(u[i]) > 0) by {
                    assert(u.contains(u[i]));
                }
                if u[i] != x {
                    assert(d.contains(u[i]));
                    let k = choose|k: int| 0 <= k < d.len() && d[k] == u[i];
                    assert(!comes_after(s[k], s[s.len() - 1]));
                }
            }
        }
    }
}

proof fn lemma_ordered(bs: Seq<BindV>, n: nat)
    requires
        n <= bs.len(),
    ensures
        in_source_order(ordered(bs, n)),
        ordered(bs, n).to_multiset() == bs.take(n as int).to_multiset(),
    decreases n,
{
    broadcast use vstd::seq_lib::group_to_multiset_ensures;

    if n > 0 {
        lemma_ordered(bs, (n - 1) as nat);
        lemma_binding_added(ordered(bs, (n - 1) as nat), bs[n - 1]);
        assert(bs.take(n as int) =~= bs.take(n - 1).push(bs[n - 1]));
    } else {
        assert(bs.take(0) =~= Seq::empty());
    }
}

/// The bindings of a function are those that its walk introduces, each once: the
/// parameters first, then the others in the source order of their definitions.
pub proof fn bindings_in_source_order(f: FnDecl, cx: DfCx)
    ensures
        in_source_order(flow_of(f, cx).bindings),
        flow_of(f, cx).bindings.to_multiset() == walked(
            f.body,
            params_declared(f.params@, f.params@.len()),
            cx,
        ).bindings.map_values(|b: BindV| finished(b, cx.types)).to_multiset(),
{
    let st = walked(f.body, params_declared(f.params@, f.params@.len()), cx);
    let all = st.bindings.map_values(|b: BindV| finished(b, cx.types));
    lemma_ordered(all, all.len());
    assert(all.take(all.len() as int) =~= all);
}

/// Scoping is lexical: an expression leaves the scope as it found it.
pub proof fn scope_is_lexical(e: Expr, st: DfSt, cx: DfCx)
    ensures
        walked(e, st, cx).scope == st.scope,
    decreases e, 0nat,
{
    let d = st.scope.len();
    match e.kind {
        ExprKind::Call(name, args) => {
            lemma_all_scope(args@, args@.len(), used(st, name@, e.span), cx);
        },
        ExprKind::Ctor(_, args) => {
            lemma_all_scope(args@, args@.len(), st, cx);
        },
        ExprKind::Record(_, fs) => {
            lemma_fields_scope(fs@, fs@.len(), st, cx);
        },
        ExprKind::Field(obj, _) => {
            scope_is_lexical(*obj, st, cx);
        },
        ExprKind::Update(base, ups) => {
            scope_is_lexical(*base, st, cx);
            lemma_fields_scope(ups@, ups@.len(), walked(*base, st, cx), cx);
        },
        ExprKind::Lambda(ps, body, _) => {
            let inner = lambda_declared(ps@, ps@.len(), body.span, st, cx);
            lemma_lambda_scope(ps@, ps@.len(), body.span, st, cx);
            scope_is_lexical(*body, inner, cx);
            assert(inner.scope.take(d as int) =~= st.scope);
        },
        ExprKind::Apply(callee, args, _) => {
            scope_is_lexical(*callee, st, cx);
            lemma_all_scope(args@, args@.len(), walked(*callee, st, cx), cx);
        },
        ExprKind::Unary(_, inner) => {
            scope_is_lexical(*inner, st, cx);
        },
        ExprKind::Binary(_, l, r) => {
            scope_is_lexical(*l, st, cx);
            scope_is_lexical(*r, walked(*l, st, cx), cx);
        },
        ExprKind::If(c, t, f) => {
            let a = walked(*c, st, cx);
            let b = walked(*t, a, cx);
            scope_is_lexical(*c, st, cx);
            scope_is_lexical(*t, a, cx);
            scope_is_lexical(*f, b, cx);
        },
        ExprKind::Match(scrut, arms) => {
            scope_is_lexical(*scrut, st, cx);
            lemma_arms_scope(arms@, arms@.len(), walked(*scrut, st, cx), cx);
        },
        ExprKind::Block(stmts, last) => {
            let inner = walked_stmts(stmts@, stmts@.len(), st, cx);
            lemma_stmts_scope(stmts@, stmts@.len(), st, cx);
            scope_is_lexical(*last, inner, cx);
            assert(inner.scope.take(d as int) =~= st.scope);
        },
        _ => {},
    }
}

proof fn lemma_all_scope(es: Seq<Expr>, n: nat, st: DfSt, cx: DfCx)
    ensures
        walked_all(es, n, st, cx).scope == st.scope,
    decreases es, n,
{
    if n > 0 && n <= es.len() {
        lemma_all_scope(es, (n - 1) as nat, st, cx);
        scope_is_lexical(es[n - 1], walked_all(es, (n - 1) as nat, st, cx), cx);
    }
}

proof fn lemma_fields_scope(fs: Seq<(String, Expr)>, n: nat, st: DfSt, cx: DfCx)
    ensures
        walked_fields(fs, n, st, cx).scope == st.scope,
    decreases fs, n,
{
    if n > 0 && n <= fs.len() {
        lemma_fields_scope(fs, (n - 1) as nat, st, cx);
        scope_is_lexical(fs[n - 1].1, walked_fields(fs, (n - 1) as nat, st, cx), cx);
    }
}

proof fn lemma_arms_scope(arms: Seq<Arm>, n: nat, st: DfSt, cx: DfCx)
    ensures
        walked_arms(arms, n, st, cx).scope == st.scope,
    decreases arms, n,
{
    if n > 0 && n <= arms.len() {
        let before = walked_arms(arms, (n - 1) as nat, st, cx);
        let arm = arms[n - 1];
        let inner = pattern_declared(arm.pat, before, cx);
        lemma_arms_scope(arms, (n - 1) as nat, st, cx);
        lemma_pattern_scope(arm.pat, before, cx);
        scope_is_lexical(arm.body, inner, cx);
        assert(inner.scope.take(before.scope.len() as int) =~= before.scope);
    }
}

proof fn lemma_stmts_scope(stmts: Seq<Stmt>, n: nat, st: DfSt, cx: DfCx)
    ensures
        extends(st, walked_stmts(stmts, n, st, cx)),
    decreases stmts, n,
{
    if n > 0 && n <= stmts.len() {
        let before = walked_stmts(stmts, (n - 1) as nat, st, cx);
        lemma_stmts_scope(stmts, (n - 1) as nat, st, cx);
        match stmts[n - 1].kind {
            StmtKind::Let { name, name_span, ann, value } => {
                scope_is_lexical(value, before, cx);
            },
            StmtKind::Expr(ex) => {
                scope_is_lexical(ex, before, cx);
            },
        }
    }
}

/// Whether a state's scope continues another's.
spec fn extends(a: DfSt, b: DfSt) -> bool {
    &&& a.scope.len() <= b.scope.len()
    &&& forall|i: int| 0 <= i < a.scope.len() ==> #[trigger] b.scope[i] == a.scope[i]
}

proof fn lemma_lambda_scope(ps: Seq<(String, Ty)>, n: nat, body: Span, st: DfSt, cx: DfCx)
    ensures
        extends(st, lambda_declared(ps, n, body, st, cx)),
    decreases n,
{
    if n > 0 && n <= ps.len() {
        lemma_lambda_scope(ps, (n - 1) as nat, body, st, cx);
    }
}

proof fn lemma_pattern_scope(p: Pattern, st: DfSt, cx: DfCx)
    ensures
        extends(st, pattern_declared(p, st, cx)),
    decreases p, 0nat,
{
    match p.kind {
        PatternKind::Ctor(_, subs) => {
            lemma_patterns_scope(subs@, subs@.len(), st, cx);
        },
        PatternKind::Record(_, fs) => {
            lemma_field_patterns_scope(fs@, fs@.len(), st, cx);
        },
        _ => {},
    }
}

proof fn lemma_patterns_scope(ps: Seq<Pattern>, n: nat, st: DfSt, cx: DfCx)
    ensures
        extends(st, patterns_declared(ps, n, st, cx)),
    decreases ps, n,
{
    if n > 0 && n <= ps.len() {
        lemma_patterns_scope(ps, (n - 1) as nat, st, cx);
        lemma_pattern_scope(ps[n - 1], patterns_declared(ps, (n - 1) as nat, st, cx), cx);
    }
}

proof fn lemma_field_patterns_scope(fs: Seq<(String, Pattern)>, n: nat, st: DfSt, cx: DfCx)
    ensures
        extends(st, fields_declared(fs, n, st, cx)),
    decreases fs, n,
{
    if n > 0 && n <= fs.len() {
        lemma_field_patterns_scope(fs, (n - 1) as nat, st, cx);
        lemma_pattern_scope(fs[n - 1].1, fields_declared(fs, (n - 1) as nat, st, cx), cx);
    }
}

} // verus!
