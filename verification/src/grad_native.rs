//! Native (C) reverse-mode autodiff: a traced source-to-source compilation of the
//! function `f` passed to `grad(f, x)`.
//!
//! Per `grad` call site a C helper is emitted,
//!
//! ```c
//! static void* af_vec_grad$N(void* x);  /* AriaVector* -> AriaVector* (gradient) */
//! ```
//!
//! whose body builds one tape leaf per coordinate of the input vector, evaluates a
//! traced compilation of `f`'s body (each supported scalar or vector operation is
//! recorded on the tape), seeds the scalar result's adjoint, sweeps the tape in
//! reverse, and returns the leaves' adjoints as a fresh vector.
//!
//! Supported inside `f` ([`model`] says what each emits; anything else is rejected
//! with a `grad: ...` message):
//!   * scalars: Float and Int literals, Float locals, `+ - * /`, unary `-`, and
//!     `vec_get`, `vec_dot`, `vec_norm`;
//!   * vectors: the input vector, vector locals, `vec_add`, `vec_sub`, `vec_scale`,
//!     `vec_from_array([..])`, `vec_push`;
//!   * `let` bindings of either kind;
//!   * `if`/`else` and `match` on a concrete Int, Bool or Float, differentiated
//!     through the taken branch;
//!   * calls of other, non-recursive top-level functions, which are inlined.

use vstd::prelude::*;
use vstd::string::*;

use crate::ast::model::{
    arms_view, copy_float, copy_opt_ty, copy_pat, copy_sig, copy_typed, expr_view, exprs_view,
    fields_view, lemma_arms_view, lemma_exprs_view, lemma_fields_view, lemma_stmts_view, pat_view,
    stmt_view, stmts_view, ArmV, ExprV, KindV, StmtKindV, StmtV,
};
use crate::ast::{Arm, Expr, ExprKind, FnDecl, Item, Program, Span, Stmt, StmtKind};
use crate::c_backend::mangle::{cfn, fn_name};
use crate::grad_native::model::{function, traced, CapV, TValV, TrCx, TrSt};
use crate::grad_native::tracer::{cap_views, find_fn, scope_view, Scope, TVal, Tracer};
use crate::text::{dec, fill1, fmt, put1, put2, str_eq, usize_text, views};

pub mod branches;
pub mod calculus;
pub mod captures;
pub mod conditions;
pub mod laws;
pub mod model;
pub mod tracer;

verus! {

/// One `grad` call site, rewritten to a `vec_grad$N(x, <captures..>)` builtin call.
#[derive(Debug)]
pub struct GradSite {
    /// The generated helper's name, e.g. `vec_grad$0`.
    pub helper: String,
    /// The complete C definition of the helper.
    pub c_def: String,
    /// The captured free variables of `f`, in the order in which the helper takes
    /// them as extra parameters: the name, and whether it is a vector.
    pub captures: Vec<(String, bool)>,
}

/// A call site, as a model.
pub struct SiteV {
    pub helper: Seq<char>,
    pub c_def: Seq<char>,
    pub captures: Seq<(Seq<char>, bool)>,
}

/// The contents of a list of captures.
pub open spec fn captures_view(v: Seq<(String, bool)>) -> Seq<(Seq<char>, bool)> {
    v.map_values(|p: (String, bool)| (p.0@, p.1))
}

impl GradSite {
    /// The call site's model.
    pub open spec fn view(&self) -> SiteV {
        SiteV {
            helper: self.helper@,
            c_def: self.c_def@,
            captures: captures_view(self.captures@),
        }
    }
}

/// The models of a list of call sites.
pub open spec fn site_views(v: Seq<GradSite>) -> Seq<SiteV> {
    v.map_values(|s: GradSite| s@)
}

// ---------------------------------------------------------------------------
// The helper
// ---------------------------------------------------------------------------

/// The parameters for the first `n` captures, after the input vector.
pub open spec fn params_code(caps: Seq<(Seq<char>, bool)>, n: nat) -> Seq<char>
    decreases n,
{
    if n == 0 || n > caps.len() {
        "void* $x"@
    } else {
        params_code(caps, (n - 1) as nat) + fmt(
            if caps[n - 1].1 {
                ", void* $cap_{}"@
            } else {
                ", double $cap_{}"@
            },
            seq![caps[n - 1].0],
        )
    }
}

/// The releases of the captured vectors among the first `n` captures.
pub open spec fn drops_code(caps: Seq<(Seq<char>, bool)>, n: nat, out: Seq<char>) -> Seq<char>
    decreases n,
{
    if n == 0 || n > caps.len() {
        out
    } else {
        let before = drops_code(caps, (n - 1) as nat, out);
        if caps[n - 1].1 {
            before + fmt("    aria_vec_drop($cap_{});\n"@, seq![caps[n - 1].0])
        } else {
            before
        }
    }
}

/// The captures with their kinds, in the order of their discovery.
pub open spec fn capture_kinds(caps: Seq<CapV>) -> Seq<(Seq<char>, bool)> {
    caps.map_values(|c: CapV| (c.name, c.vector))
}

/// The definition of a helper whose trace ended in a state and a node.
pub open spec fn helper_text(helper: Seq<char>, st: TrSt, node: Seq<char>) -> Seq<char> {
    let caps = capture_kinds(st.caps);
    let a = "/* reverse-mode autodiff: traced `grad` over the native AriaTape */\n"@ + fmt(
        "static void* {}({}) {\n"@,
        seq![fn_name(helper), params_code(caps, caps.len())],
    );
    let b = a + "    AriaTape $tp; aria_tape_init(&$tp);\n"@
        + "    AriaVector* $xv = (AriaVector*)$x;\n"@
        + "    AriaTVec $leaves = aria_tvec_alloc($xv->len);\n"@
        + "    for (int64_t $i = 0; $i < $xv->len; $i++) $leaves.ids[$i] = aria_tape_leaf(&$tp, $xv->elems[$i]);\n"@;
    let c = b + st.prologue + st.body + fmt("    aria_tape_backward(&$tp, {});\n"@, seq![node]);
    let d = c + "    void* $g = aria_tvec_to_grad(&$tp, &$leaves);\n"@
        + "    aria_tvec_free(&$leaves);\n"@ + "    aria_tape_free(&$tp);\n"@
        + "    aria_vec_drop($x);  /* grad consumes its input vector */\n"@;
    drops_code(caps, caps.len(), d) + "    return $g;\n"@ + "}\n"@
}

/// The state in which a trace starts.
pub open spec fn start() -> TrSt {
    TrSt { caps: Seq::empty(), tmp: 0, body: Seq::empty(), prologue: Seq::empty() }
}

/// The definition and the captures of the helper for a function of one parameter.
pub open spec fn helper_of(helper: Seq<char>, param: Seq<char>, body: ExprV, cx: TrCx) -> Result<
    (Seq<char>, Seq<(Seq<char>, bool)>),
    Seq<char>,
> {
    match traced(
        body,
        seq![(param, TValV::Vector("$leaves"@))],
        Seq::empty(),
        start(),
        cx,
    ) {
        Err(m) => Err(m),
        Ok((TValV::Scalar(node), st)) => Ok((helper_text(helper, st, node), capture_kinds(st.caps))),
        Ok((TValV::Vector(_), _)) => Err(
            "grad: `f` must return a Float (scalar), but it returns a Vector"@,
        ),
        Ok(_) => Err(
            "grad: `f` must return a Float (differentiated scalar), but it returns a concrete Int/Bool"@,
        ),
    }
}

/// Emit the complete C definition of one helper, with the captured free variables
/// that it takes as extra parameters after `x`.
fn compile_helper(
    helper: &str,
    param: &str,
    body: &Expr,
    items: &Vec<Item>,
    wide: &Vec<(i64, String)>,
) -> (r: Result<(String, Vec<(String, bool)>), String>)
    ensures
        match helper_of(
            helper@,
            param@,
            expr_view(*body),
            TrCx { items: items@, wide: wide@ },
        ) {
            Ok((c_def, caps)) => r is Ok && r->Ok_0.0@ == c_def && captures_view(r->Ok_0.1@) == caps,
            Err(m) => r is Err && r->Err_0@ == m,
        },
{
    let mut tr = Tracer {
        items,
        wide,
        caps: Vec::new(),
        tmp: 0,
        body: String::new(),
        prologue: String::new(),
    };
    let mut scope: Scope = Vec::new();
    scope.push((param.to_owned(), TVal::Vector("$leaves".to_owned())));
    let stack: Vec<String> = Vec::new();
    proof {
        assert(tr.body@ =~= Seq::<char>::empty());
        assert(cap_views(tr.caps@) =~= Seq::<CapV>::empty());
        assert(views(stack@) =~= Seq::<Seq<char>>::empty());
        assert(scope_view(scope@) =~= seq![(param@, TValV::Vector("$leaves"@))]);
        assert(tr@ == start());
    }
    let node: String = match tr.trace(body, &scope, &stack)? {
        TVal::Scalar(s) => s,
        TVal::Vector(_) => return Err(
            "grad: `f` must return a Float (scalar), but it returns a Vector".to_owned(),
        ),
        _ => return Err(
            "grad: `f` must return a Float (differentiated scalar), but it returns a concrete Int/Bool".to_owned(),
        ),
    };
    let ghost st = tr@;
    let ghost kinds = capture_kinds(st.caps);
    let mut captures: Vec<(String, bool)> = Vec::new();
    let mut i: usize = 0;
    while i < tr.caps.len()
        invariant
            i <= tr.caps@.len(),
            captures@.len() == i,
            forall|j: int|
                0 <= j < i ==> (#[trigger] captures@[j]).0@ == tr.caps@[j].name@ && captures@[j].1
                    == tr.caps@[j].vector,
        decreases tr.caps@.len() - i,
    {
        captures.push((tr.caps[i].name.clone(), tr.caps[i].vector));
        i = i + 1;
    }
    assert(captures_view(captures@) =~= kinds);
    let cname: String = cfn(helper);
    let mut sig: String = "void* $x".to_owned();
    let mut i: usize = 0;
    while i < captures.len()
        invariant
            i <= captures@.len(),
            captures_view(captures@) == kinds,
            sig@ == params_code(kinds, i as nat),
        decreases captures@.len() - i,
    {
        assert(kinds[i as int] == (captures@[i as int].0@, captures@[i as int].1));
        if captures[i].1 {
            put1(&mut sig, ", void* $cap_{}", captures[i].0.as_str());
        } else {
            put1(&mut sig, ", double $cap_{}", captures[i].0.as_str());
        }
        i = i + 1;
    }
    let mut out: String =
        "/* reverse-mode autodiff: traced `grad` over the native AriaTape */\n".to_owned();
    put2(&mut out, "static void* {}({}) {\n", cname.as_str(), sig.as_str());
    out.append("    AriaTape $tp; aria_tape_init(&$tp);\n");
    out.append("    AriaVector* $xv = (AriaVector*)$x;\n");
    out.append("    AriaTVec $leaves = aria_tvec_alloc($xv->len);\n");
    out.append(
        "    for (int64_t $i = 0; $i < $xv->len; $i++) $leaves.ids[$i] = aria_tape_leaf(&$tp, $xv->elems[$i]);\n",
    );
    out.append(tr.prologue.as_str());
    out.append(tr.body.as_str());
    put1(&mut out, "    aria_tape_backward(&$tp, {});\n", node.as_str());
    out.append("    void* $g = aria_tvec_to_grad(&$tp, &$leaves);\n");
    out.append("    aria_tvec_free(&$leaves);\n");
    out.append("    aria_tape_free(&$tp);\n");
    out.append("    aria_vec_drop($x);  /* grad consumes its input vector */\n");
    let ghost swept = out@;
    let mut i: usize = 0;
    while i < captures.len()
        invariant
            i <= captures@.len(),
            captures_view(captures@) == kinds,
            out@ == drops_code(kinds, i as nat, swept),
        decreases captures@.len() - i,
    {
        assert(kinds[i as int] == (captures@[i as int].0@, captures@[i as int].1));
        if captures[i].1 {
            put1(&mut out, "    aria_vec_drop($cap_{});\n", captures[i].0.as_str());
        }
        i = i + 1;
    }
    out.append("    return $g;\n");
    out.append("}\n");
    Ok((out, captures))
}

// ---------------------------------------------------------------------------
// The rewriting, as a model
// ---------------------------------------------------------------------------

/// The parameter and the body of the `f` of a `grad` call: a lambda literal, or a
/// top-level function of one parameter.
pub open spec fn resolved(f: ExprV, cx: TrCx) -> Result<(Seq<char>, ExprV), Seq<char>> {
    match f.kind {
        KindV::Lambda(ps, body, _) => if ps.len() != 1 {
            Err("grad: `f` must take exactly one Vector argument"@)
        } else {
            Ok((ps[0].0, *body))
        },
        KindV::Var(name) => match function(cx, name) {
            Some(fd) => if fd.params@.len() == 1 {
                Ok((fd.params@[0].name@, expr_view(fd.body)))
            } else {
                Err(
                    fmt(
                        "grad: the function `{}` passed to grad must take exactly one Vector argument"@,
                        seq![name],
                    ),
                )
            },
            None => Err(
                fmt(
                    "grad: `f` must be a lambda literal or a top-level function, not `{}` (native backend); use the interpreter `aria run` for the general case"@,
                    seq![name],
                ),
            ),
        },
        _ => Err(
            "grad: `f` must be a lambda literal `\\v -> ..` or a named top-level function on the native backend; use the interpreter `aria run` for the general case"@,
        ),
    }
}

/// The variables of the first `n` captures, as generated expressions.
pub open spec fn capture_args(caps: Seq<(Seq<char>, bool)>) -> Seq<ExprV> {
    caps.map_values(
        |c: (Seq<char>, bool)| ExprV {
            kind: KindV::Var(c.0),
            span: Span { start_line: 0, start_col: 0, end_line: 0, end_col: 0 },
        },
    )
}

/// A `grad` call with rewritten arguments, as a call of its helper.
pub open spec fn grad_call(args: Seq<ExprV>, span: Span, sites: Seq<SiteV>, cx: TrCx) -> Result<
    (ExprV, SiteV),
    Seq<char>,
> {
    if args.len() != 2 {
        Err("grad expects (f: (Vector) -> Float, x: Vector)"@)
    } else {
        match resolved(args[0], cx) {
            Err(m) => Err(m),
            Ok((param, body)) => {
                let helper = fmt("vec_grad${}"@, seq![dec(sites.len() as int)]);
                match helper_of(helper, param, body, cx) {
                    Err(m) => Err(m),
                    Ok((c_def, captures)) => Ok(
                        (
                            ExprV {
                                kind: KindV::Call(helper, seq![args[1]] + capture_args(captures)),
                                span,
                            },
                            SiteV { helper, c_def, captures },
                        ),
                    ),
                }
            },
        }
    }
}

/// How far a rewriting has come: the sites found, and why a call was refused.
pub struct RwV {
    pub sites: Seq<SiteV>,
    pub refused: Option<Seq<char>>,
}

/// A `grad` call whose arguments are rewritten, once it is its turn. A refused call
/// stays, and so does every call after it.
pub open spec fn grad_step(args: Seq<ExprV>, span: Span, st: RwV, cx: TrCx) -> (ExprV, RwV) {
    let kept = ExprV { kind: KindV::Call("grad"@, args), span };
    if st.refused is Some {
        (kept, st)
    } else {
        match grad_call(args, span, st.sites, cx) {
            Err(m) => (kept, RwV { sites: st.sites, refused: Some(m) }),
            Ok((x, site)) => (x, RwV { sites: st.sites.push(site), refused: None }),
        }
    }
}

/// An expression with its `grad` calls rewritten, inner ones first, up to the first
/// that is refused.
pub open spec fn rewritten(e: ExprV, st: RwV, cx: TrCx) -> (ExprV, RwV)
    decreases e, 0nat,
{
    let span = e.span;
    match e.kind {
        KindV::Ctor(n, args) => {
            let (xs, s) = rewritten_all(args, args.len(), st, cx);
            (ExprV { kind: KindV::Ctor(n, xs), span }, s)
        },
        KindV::Call(n, args) => {
            let (xs, s) = rewritten_all(args, args.len(), st, cx);
            if n == "grad"@ {
                grad_step(xs, span, s, cx)
            } else {
                (ExprV { kind: KindV::Call(n, xs), span }, s)
            }
        },
        KindV::Lambda(ps, body, sig) => {
            let (b, s) = rewritten(*body, st, cx);
            (ExprV { kind: KindV::Lambda(ps, Box::new(b), sig), span }, s)
        },
        KindV::Apply(c, args, ty) => {
            let (c1, s) = rewritten(*c, st, cx);
            let (xs, s1) = rewritten_all(args, args.len(), s, cx);
            (ExprV { kind: KindV::Apply(Box::new(c1), xs, ty), span }, s1)
        },
        KindV::Record(n, fs) => {
            let (xs, s) = rewritten_fields(fs, fs.len(), st, cx);
            (ExprV { kind: KindV::Record(n, xs), span }, s)
        },
        KindV::Field(o, n) => {
            let (o1, s) = rewritten(*o, st, cx);
            (ExprV { kind: KindV::Field(Box::new(o1), n), span }, s)
        },
        KindV::Update(b, fs) => {
            let (b1, s) = rewritten(*b, st, cx);
            let (xs, s1) = rewritten_fields(fs, fs.len(), s, cx);
            (ExprV { kind: KindV::Update(Box::new(b1), xs), span }, s1)
        },
        KindV::Unary(op, x) => {
            let (x1, s) = rewritten(*x, st, cx);
            (ExprV { kind: KindV::Unary(op, Box::new(x1)), span }, s)
        },
        KindV::Binary(op, l, r) => {
            let (l1, s) = rewritten(*l, st, cx);
            let (r1, s1) = rewritten(*r, s, cx);
            (ExprV { kind: KindV::Binary(op, Box::new(l1), Box::new(r1)), span }, s1)
        },
        KindV::If(c, t, f) => {
            let (c1, s) = rewritten(*c, st, cx);
            let (t1, s1) = rewritten(*t, s, cx);
            let (f1, s2) = rewritten(*f, s1, cx);
            (ExprV { kind: KindV::If(Box::new(c1), Box::new(t1), Box::new(f1)), span }, s2)
        },
        KindV::Match(x, arms) => {
            let (x1, s) = rewritten(*x, st, cx);
            let (as1, s1) = rewritten_arms(arms, arms.len(), s, cx);
            (ExprV { kind: KindV::Match(Box::new(x1), as1), span }, s1)
        },
        KindV::Block(stmts, last) => {
            let (ss, s) = rewritten_stmts(stmts, stmts.len(), st, cx);
            let (l1, s1) = rewritten(*last, s, cx);
            (ExprV { kind: KindV::Block(ss, Box::new(l1)), span }, s1)
        },
        _ => (e, st),
    }
}

/// The first `n` expressions rewritten.
pub open spec fn rewritten_all(es: Seq<ExprV>, n: nat, st: RwV, cx: TrCx) -> (Seq<ExprV>, RwV)
    decreases es, n,
{
    if n == 0 || n > es.len() {
        (Seq::empty(), st)
    } else {
        let (xs, s) = rewritten_all(es, (n - 1) as nat, st, cx);
        let (x, s1) = rewritten(es[n - 1], s, cx);
        (xs.push(x), s1)
    }
}

/// The first `n` field values rewritten.
pub open spec fn rewritten_fields(
    fs: Seq<(Seq<char>, ExprV)>,
    n: nat,
    st: RwV,
    cx: TrCx,
) -> (Seq<(Seq<char>, ExprV)>, RwV)
    decreases fs, n,
{
    if n == 0 || n > fs.len() {
        (Seq::empty(), st)
    } else {
        let (xs, s) = rewritten_fields(fs, (n - 1) as nat, st, cx);
        let (x, s1) = rewritten(fs[n - 1].1, s, cx);
        (xs.push((fs[n - 1].0, x)), s1)
    }
}

/// The first `n` arms rewritten.
pub open spec fn rewritten_arms(arms: Seq<ArmV>, n: nat, st: RwV, cx: TrCx) -> (Seq<ArmV>, RwV)
    decreases arms, n,
{
    if n == 0 || n > arms.len() {
        (Seq::empty(), st)
    } else {
        let (xs, s) = rewritten_arms(arms, (n - 1) as nat, st, cx);
        let (x, s1) = rewritten(arms[n - 1].body, s, cx);
        (xs.push(ArmV { pat: arms[n - 1].pat, body: x }), s1)
    }
}

/// The first `n` statements rewritten.
pub open spec fn rewritten_stmts(ss: Seq<StmtV>, n: nat, st: RwV, cx: TrCx) -> (Seq<StmtV>, RwV)
    decreases ss, n,
{
    if n == 0 || n > ss.len() {
        (Seq::empty(), st)
    } else {
        let (xs, s) = rewritten_stmts(ss, (n - 1) as nat, st, cx);
        let span = ss[n - 1].span;
        match ss[n - 1].kind {
            StmtKindV::Let { name, name_span, ann, value } => {
                let (v, s1) = rewritten(value, s, cx);
                let kind = StmtKindV::Let { name, name_span, ann, value: v };
                (xs.push(StmtV { kind, span }), s1)
            },
            StmtKindV::Expr(ex) => {
                let (v, s1) = rewritten(ex, s, cx);
                (xs.push(StmtV { kind: StmtKindV::Expr(v), span }), s1)
            },
        }
    }
}

/// The bodies of the functions among the first `n` items, rewritten one after the
/// other.
pub open spec fn rewritten_bodies(items: Seq<Item>, n: nat, cx: TrCx) -> (Seq<Option<ExprV>>, RwV)
    decreases n,
{
    if n == 0 || n > items.len() {
        (Seq::empty(), RwV { sites: Seq::empty(), refused: None })
    } else {
        let (bs, s) = rewritten_bodies(items, (n - 1) as nat, cx);
        match items[n - 1] {
            Item::Fn(f) => {
                let (b, s1) = rewritten(expr_view(f.body), s, cx);
                (bs.push(Some(b)), s1)
            },
            Item::Type(_) => (bs.push(None), s),
        }
    }
}

/// An item with a new body: a function keeps all but its body, and a type stays.
pub open spec fn rebodied(before: Item, after: Item, body: Option<ExprV>) -> bool {
    match (before, after) {
        (Item::Fn(f), Item::Fn(g)) => {
            &&& g.name == f.name
            &&& g.line == f.line
            &&& g.pure == f.pure
            &&& g.type_params == f.type_params
            &&& g.bounds == f.bounds
            &&& g.params == f.params
            &&& g.ret == f.ret
            &&& body == Some(expr_view(g.body))
        },
        _ => before == after && body is None,
    }
}

// ---------------------------------------------------------------------------
// The rewriting
// ---------------------------------------------------------------------------

/// Resolve the `f` argument of `grad` to its parameter and its body.
fn resolve_f<'x>(f: &'x Expr, items: &'x Vec<Item>) -> (r: Result<(&'x str, &'x Expr), String>)
    ensures
        forall|wide: Seq<(i64, String)>|
            match #[trigger] resolved(expr_view(*f), TrCx { items: items@, wide }) {
                Ok((param, body)) => r is Ok && r->Ok_0.0@ == param && expr_view(*r->Ok_0.1)
                    == body,
                Err(m) => r is Err && r->Err_0@ == m,
            },
{
    match &f.kind {
        ExprKind::Lambda(params, body, _) => {
            if params.len() != 1 {
                return Err("grad: `f` must take exactly one Vector argument".to_owned());
            }
            Ok((params[0].0.as_str(), body))
        },
        ExprKind::Var(name) => match find_fn(items, name.as_str()) {
            Some(fd) => {
                if fd.params.len() == 1 {
                    Ok((fd.params[0].name.as_str(), &fd.body))
                } else {
                    Err(
                        fill1(
                            "grad: the function `{}` passed to grad must take exactly one Vector argument",
                            name.as_str(),
                        ),
                    )
                }
            },
            None => Err(
                fill1(
                    "grad: `f` must be a lambda literal or a top-level function, not `{}` (native backend); use the interpreter `aria run` for the general case",
                    name.as_str(),
                ),
            ),
        },
        _ => Err(
            "grad: `f` must be a lambda literal `\\v -> ..` or a named top-level function on the native backend; use the interpreter `aria run` for the general case".to_owned(),
        ),
    }
}

proof fn lemma_push_expr(es: Seq<Expr>, e: Expr)
    ensures
        exprs_view(es.push(e), es.len() + 1) == exprs_view(es, es.len()).push(expr_view(e)),
{
    lemma_exprs_view(es, es.len());
    lemma_exprs_view(es.push(e), es.len() + 1);
    assert(exprs_view(es.push(e), es.len() + 1) =~= exprs_view(es, es.len()).push(expr_view(e)));
}

proof fn lemma_push_field(fs: Seq<(String, Expr)>, f: (String, Expr))
    ensures
        fields_view(fs.push(f), fs.len() + 1) == fields_view(fs, fs.len()).push(
            (f.0@, expr_view(f.1)),
        ),
{
    lemma_fields_view(fs, fs.len());
    lemma_fields_view(fs.push(f), fs.len() + 1);
    assert(fields_view(fs.push(f), fs.len() + 1) =~= fields_view(fs, fs.len()).push(
        (f.0@, expr_view(f.1)),
    ));
}

proof fn lemma_push_arm(arms: Seq<Arm>, a: Arm)
    ensures
        arms_view(arms.push(a), arms.len() + 1) == arms_view(arms, arms.len()).push(
            ArmV { pat: pat_view(a.pat), body: expr_view(a.body) },
        ),
{
    lemma_arms_view(arms, arms.len());
    lemma_arms_view(arms.push(a), arms.len() + 1);
    assert(arms_view(arms.push(a), arms.len() + 1) =~= arms_view(arms, arms.len()).push(
        ArmV { pat: pat_view(a.pat), body: expr_view(a.body) },
    ));
}

proof fn lemma_push_stmt(ss: Seq<Stmt>, s: Stmt)
    ensures
        stmts_view(ss.push(s), ss.len() + 1) == stmts_view(ss, ss.len()).push(stmt_view(s)),
{
    lemma_stmts_view(ss, ss.len());
    lemma_stmts_view(ss.push(s), ss.len() + 1);
    assert(stmts_view(ss.push(s), ss.len() + 1) =~= stmts_view(ss, ss.len()).push(stmt_view(s)));
}

/// The rewriting of one program.
struct Rewriter<'a> {
    items: &'a Vec<Item>,
    wide: &'a Vec<(i64, String)>,
    sites: Vec<GradSite>,
    refused: Option<String>,
}

impl<'a> Rewriter<'a> {
    spec fn cx(&self) -> TrCx {
        TrCx { items: self.items@, wide: self.wide@ }
    }

    spec fn view(&self) -> RwV {
        RwV {
            sites: site_views(self.sites@),
            refused: match self.refused {
                Some(m) => Some(m@),
                None => None,
            },
        }
    }

    /// Make the helper of a `grad` call whose arguments are rewritten.
    fn make_helper(&self, args: &Vec<Expr>) -> (r: Result<GradSite, String>)
        ensures
            forall|span: Span|
                match #[trigger] grad_call(
                    exprs_view(args@, args@.len()),
                    span,
                    site_views(self.sites@),
                    self.cx(),
                ) {
                    Ok((_, site)) => r is Ok && r->Ok_0@ == site && args@.len() == 2,
                    Err(m) => r is Err && r->Err_0@ == m,
                },
    {
        proof {
            lemma_exprs_view(args@, args@.len());
        }
        if args.len() != 2 {
            return Err("grad expects (f: (Vector) -> Float, x: Vector)".to_owned());
        }
        let n: String = usize_text(self.sites.len());
        let helper: String = fill1("vec_grad${}", n.as_str());
        let (param, body) = resolve_f(&args[0], self.items)?;
        let h: &str = helper.as_str();
        let (c_def, captures) = compile_helper(h, param, body, self.items, self.wide)?;
        Ok(GradSite { helper, c_def, captures })
    }

    /// Rewrite one `grad` call whose arguments are rewritten.
    fn rewrite_call(&mut self, args: Vec<Expr>, span: Span) -> (r: Expr)
        ensures
            final(self).items == old(self).items,
            final(self).wide == old(self).wide,
            (expr_view(r), final(self)@) == grad_step(
                exprs_view(args@, args@.len()),
                span,
                old(self)@,
                old(self).cx(),
            ),
    {
        if self.refused.is_some() {
            return Expr { kind: ExprKind::Call("grad".to_owned(), args), span };
        }
        let site: GradSite = match self.make_helper(&args) {
            Ok(site) => site,
            Err(m) => {
                assert(grad_call(
                    exprs_view(args@, args@.len()),
                    span,
                    self@.sites,
                    self.cx(),
                ) is Err);
                self.refused = Some(m);
                return Expr { kind: ExprKind::Call("grad".to_owned(), args), span };
            },
        };
        assert(grad_call(exprs_view(args@, args@.len()), span, self@.sites, self.cx()) is Ok);
        let mut args: Vec<Expr> = args;
        proof {
            lemma_exprs_view(args@, args@.len());
        }
        let ghost given = exprs_view(args@, args@.len());
        let x: Expr = args.remove(1);
        assert(expr_view(x) == given[1]);
        let mut call_args: Vec<Expr> = Vec::new();
        call_args.push(x);
        let ghost kinds = captures_view(site.captures@);
        let ghost tail = capture_args(kinds);
        assert(call_args@.len() == 1);
        let mut i: usize = 0;
        while i < site.captures.len()
            invariant
                i <= site.captures@.len(),
                kinds == captures_view(site.captures@),
                tail == capture_args(kinds),
                call_args@.len() == i + 1,
                expr_view(call_args@[0]) == given[1],
                forall|j: int|
                    0 <= j < i ==> expr_view(#[trigger] call_args@[j + 1]) == tail[j],
            decreases site.captures@.len() - i,
        {
            let ghost before = call_args@;
            call_args.push(Expr::synth(ExprKind::Var(site.captures[i].0.clone())));
            assert forall|j: int| 0 <= j < i + 1 implies expr_view(#[trigger] call_args@[j + 1])
                == tail[j] by {
                if j < i {
                    assert(call_args@[j + 1] == before[j + 1]);
                }
            }
            i = i + 1;
        }
        proof {
            lemma_exprs_view(call_args@, call_args@.len());
            assert forall|k: int| 0 <= k < call_args@.len() implies exprs_view(
                call_args@,
                call_args@.len(),
            )[k] == (seq![given[1]] + tail)[k] by {
                if k > 0 {
                    assert(expr_view(call_args@[(k - 1) + 1]) == tail[k - 1]);
                }
            }
            assert(exprs_view(call_args@, call_args@.len()) =~= seq![given[1]] + tail);
        }
        let helper: String = site.helper.clone();
        let ghost before = self.sites@;
        self.sites.push(site);
        assert(site_views(self.sites@) =~= site_views(before).push(site@));
        Expr { kind: ExprKind::Call(helper, call_args), span }
    }

    /// Rewrite the `grad` calls inside `e`: the children first, then the node.
    #[verifier::rlimit(50)]
    fn rewrite_expr(&mut self, e: &Expr) -> (r: Expr)
        ensures
            final(self).items == old(self).items,
            final(self).wide == old(self).wide,
            (expr_view(r), final(self)@) == rewritten(expr_view(*e), old(self)@, old(self).cx()),
        decreases e, 0nat,
    {
        let span: Span = e.span;
        let kind: ExprKind = match &e.kind {
            ExprKind::Int(n) => ExprKind::Int(*n),
            ExprKind::Float(f) => ExprKind::Float(copy_float(f)),
            ExprKind::Bool(b) => ExprKind::Bool(*b),
            ExprKind::Str(s) => ExprKind::Str(s.clone()),
            ExprKind::Unit => ExprKind::Unit,
            ExprKind::Var(n) => ExprKind::Var(n.clone()),
            ExprKind::Ctor(n, args) => {
                let xs: Vec<Expr> = self.rewrite_all(args);
                ExprKind::Ctor(n.clone(), xs)
            },
            ExprKind::Call(n, args) => {
                let xs: Vec<Expr> = self.rewrite_all(args);
                if str_eq(n.as_str(), "grad") {
                    return self.rewrite_call(xs, span);
                }
                ExprKind::Call(n.clone(), xs)
            },
            ExprKind::Lambda(ps, body, sig) => {
                let b: Expr = self.rewrite_expr(body);
                ExprKind::Lambda(copy_typed(ps), Box::new(b), copy_sig(sig))
            },
            ExprKind::Apply(c, args, ty) => {
                let c1: Expr = self.rewrite_expr(c);
                let xs: Vec<Expr> = self.rewrite_all(args);
                ExprKind::Apply(Box::new(c1), xs, copy_opt_ty(ty))
            },
            ExprKind::Record(n, fs) => {
                let xs: Vec<(String, Expr)> = self.rewrite_fields(fs);
                ExprKind::Record(n.clone(), xs)
            },
            ExprKind::Field(o, n) => {
                let o1: Expr = self.rewrite_expr(o);
                ExprKind::Field(Box::new(o1), n.clone())
            },
            ExprKind::Update(b, fs) => {
                let b1: Expr = self.rewrite_expr(b);
                let xs: Vec<(String, Expr)> = self.rewrite_fields(fs);
                ExprKind::Update(Box::new(b1), xs)
            },
            ExprKind::Unary(op, x) => {
                let x1: Expr = self.rewrite_expr(x);
                ExprKind::Unary(*op, Box::new(x1))
            },
            ExprKind::Binary(op, l, r) => {
                let l1: Expr = self.rewrite_expr(l);
                let r1: Expr = self.rewrite_expr(r);
                ExprKind::Binary(*op, Box::new(l1), Box::new(r1))
            },
            ExprKind::If(c, t, f) => {
                let c1: Expr = self.rewrite_expr(c);
                let t1: Expr = self.rewrite_expr(t);
                let f1: Expr = self.rewrite_expr(f);
                ExprKind::If(Box::new(c1), Box::new(t1), Box::new(f1))
            },
            ExprKind::Match(x, arms) => {
                let x1: Expr = self.rewrite_expr(x);
                let as1: Vec<Arm> = self.rewrite_arms(arms);
                ExprKind::Match(Box::new(x1), as1)
            },
            ExprKind::Block(stmts, last) => {
                let ss: Vec<Stmt> = self.rewrite_stmts(stmts);
                let l1: Expr = self.rewrite_expr(last);
                ExprKind::Block(ss, Box::new(l1))
            },
        };
        Expr { kind, span }
    }

    fn rewrite_all(&mut self, es: &Vec<Expr>) -> (r: Vec<Expr>)
        ensures
            final(self).items == old(self).items,
            final(self).wide == old(self).wide,
            (exprs_view(r@, r@.len()), final(self)@) == rewritten_all(
                exprs_view(es@, es@.len()),
                exprs_view(es@, es@.len()).len(),
                old(self)@,
                old(self).cx(),
            ),
        decreases es@, es@.len(), 1nat,
    {
        proof {
            lemma_exprs_view(es@, es@.len());
        }
        self.rewrite_upto(es, es.len())
    }

    fn rewrite_upto(&mut self, es: &Vec<Expr>, n: usize) -> (r: Vec<Expr>)
        requires
            n <= es@.len(),
        ensures
            final(self).items == old(self).items,
            final(self).wide == old(self).wide,
            (exprs_view(r@, r@.len()), final(self)@) == rewritten_all(
                exprs_view(es@, es@.len()),
                n as nat,
                old(self)@,
                old(self).cx(),
            ),
        decreases es@, n, 0nat,
    {
        proof {
            lemma_exprs_view(es@, es@.len());
        }
        if n == 0 {
            return Vec::new();
        }
        let mut xs: Vec<Expr> = self.rewrite_upto(es, n - 1);
        let next: Expr = self.rewrite_expr(&es[n - 1]);
        proof {
            lemma_push_expr(xs@, next);
        }
        xs.push(next);
        xs
    }

    fn rewrite_fields(&mut self, fs: &Vec<(String, Expr)>) -> (r: Vec<(String, Expr)>)
        ensures
            final(self).items == old(self).items,
            final(self).wide == old(self).wide,
            (fields_view(r@, r@.len()), final(self)@) == rewritten_fields(
                fields_view(fs@, fs@.len()),
                fields_view(fs@, fs@.len()).len(),
                old(self)@,
                old(self).cx(),
            ),
        decreases fs@, fs@.len(), 1nat,
    {
        proof {
            lemma_fields_view(fs@, fs@.len());
        }
        self.rewrite_fields_upto(fs, fs.len())
    }

    fn rewrite_fields_upto(&mut self, fs: &Vec<(String, Expr)>, n: usize) -> (r: Vec<(String, Expr)>)
        requires
            n <= fs@.len(),
        ensures
            final(self).items == old(self).items,
            final(self).wide == old(self).wide,
            (fields_view(r@, r@.len()), final(self)@) == rewritten_fields(
                fields_view(fs@, fs@.len()),
                n as nat,
                old(self)@,
                old(self).cx(),
            ),
        decreases fs@, n, 0nat,
    {
        proof {
            lemma_fields_view(fs@, fs@.len());
        }
        if n == 0 {
            return Vec::new();
        }
        let mut xs: Vec<(String, Expr)> = self.rewrite_fields_upto(fs, n - 1);
        let x: Expr = self.rewrite_expr(&fs[n - 1].1);
        let next: (String, Expr) = (fs[n - 1].0.clone(), x);
        proof {
            lemma_push_field(xs@, next);
        }
        xs.push(next);
        xs
    }

    fn rewrite_arms(&mut self, arms: &Vec<Arm>) -> (r: Vec<Arm>)
        ensures
            final(self).items == old(self).items,
            final(self).wide == old(self).wide,
            (arms_view(r@, r@.len()), final(self)@) == rewritten_arms(
                arms_view(arms@, arms@.len()),
                arms_view(arms@, arms@.len()).len(),
                old(self)@,
                old(self).cx(),
            ),
        decreases arms@, arms@.len(), 1nat,
    {
        proof {
            lemma_arms_view(arms@, arms@.len());
        }
        self.rewrite_arms_upto(arms, arms.len())
    }

    fn rewrite_arms_upto(&mut self, arms: &Vec<Arm>, n: usize) -> (r: Vec<Arm>)
        requires
            n <= arms@.len(),
        ensures
            final(self).items == old(self).items,
            final(self).wide == old(self).wide,
            (arms_view(r@, r@.len()), final(self)@) == rewritten_arms(
                arms_view(arms@, arms@.len()),
                n as nat,
                old(self)@,
                old(self).cx(),
            ),
        decreases arms@, n, 0nat,
    {
        proof {
            lemma_arms_view(arms@, arms@.len());
        }
        if n == 0 {
            return Vec::new();
        }
        let mut xs: Vec<Arm> = self.rewrite_arms_upto(arms, n - 1);
        let body: Expr = self.rewrite_expr(&arms[n - 1].body);
        let next: Arm = Arm { pat: copy_pat(&arms[n - 1].pat), body };
        proof {
            lemma_push_arm(xs@, next);
        }
        xs.push(next);
        xs
    }

    fn rewrite_stmts(&mut self, ss: &Vec<Stmt>) -> (r: Vec<Stmt>)
        ensures
            final(self).items == old(self).items,
            final(self).wide == old(self).wide,
            (stmts_view(r@, r@.len()), final(self)@) == rewritten_stmts(
                stmts_view(ss@, ss@.len()),
                stmts_view(ss@, ss@.len()).len(),
                old(self)@,
                old(self).cx(),
            ),
        decreases ss@, ss@.len(), 1nat,
    {
        proof {
            lemma_stmts_view(ss@, ss@.len());
        }
        self.rewrite_stmts_upto(ss, ss.len())
    }

    fn rewrite_stmts_upto(&mut self, ss: &Vec<Stmt>, n: usize) -> (r: Vec<Stmt>)
        requires
            n <= ss@.len(),
        ensures
            final(self).items == old(self).items,
            final(self).wide == old(self).wide,
            (stmts_view(r@, r@.len()), final(self)@) == rewritten_stmts(
                stmts_view(ss@, ss@.len()),
                n as nat,
                old(self)@,
                old(self).cx(),
            ),
        decreases ss@, n, 0nat,
    {
        proof {
            lemma_stmts_view(ss@, ss@.len());
        }
        if n == 0 {
            return Vec::new();
        }
        let mut xs: Vec<Stmt> = self.rewrite_stmts_upto(ss, n - 1);
        let kind: StmtKind = match &ss[n - 1].kind {
            StmtKind::Let { name, name_span, ann, value } => {
                let v: Expr = self.rewrite_expr(value);
                StmtKind::Let {
                    name: name.clone(),
                    name_span: *name_span,
                    ann: copy_opt_ty(ann),
                    value: v,
                }
            },
            StmtKind::Expr(ex) => {
                let v: Expr = self.rewrite_expr(ex);
                StmtKind::Expr(v)
            },
        };
        let next: Stmt = Stmt { kind, span: ss[n - 1].span };
        proof {
            lemma_push_stmt(xs@, next);
        }
        xs.push(next);
        xs
    }
}

/// The models of a list of optional bodies.
spec fn body_views(v: Seq<Option<Expr>>) -> Seq<Option<ExprV>> {
    v.map_values(
        |b: Option<Expr>|
            match b {
                Some(e) => Some(expr_view(e)),
                None => None,
            },
    )
}

/// Rewrite every `grad(f, x)` in `program` to a `vec_grad$N(x, <captures..>)` call
/// and return the generated helpers. On an unsupported `f` the message says why;
/// the calls before it are then rewritten, and it and those after it are not.
///
/// `wide` renders the integer literals beyond 2^53 as the nearest doubles.
pub fn rewrite_grad(program: &mut Program, wide: &Vec<(i64, String)>) -> (r: Result<
    Vec<GradSite>,
    String,
>)
    ensures
        ({
            let (bodies, st) = rewritten_bodies(
                old(program).items@,
                old(program).items@.len(),
                TrCx { items: old(program).items@, wide: wide@ },
            );
            &&& match st.refused {
                None => r is Ok && site_views(r->Ok_0@) == st.sites,
                Some(m) => r is Err && r->Err_0@ == m,
            }
            &&& final(program).items@.len() == old(program).items@.len()
            &&& forall|i: int|
                0 <= i < old(program).items@.len() ==> rebodied(
                    old(program).items@[i],
                    #[trigger] final(program).items@[i],
                    bodies[i],
                )
        }),
{
    let ghost cx = TrCx { items: program.items@, wide: wide@ };
    let ghost items0 = program.items@;
    let mut bodies: Vec<Option<Expr>> = Vec::new();
    let (sites, refused): (Vec<GradSite>, Option<String>) = {
        let mut rw = Rewriter { items: &program.items, wide, sites: Vec::new(), refused: None };
        let mut i: usize = 0;
        assert(site_views(rw.sites@) =~= Seq::<SiteV>::empty());
        assert(body_views(bodies@) =~= Seq::<Option<ExprV>>::empty());
        while i < program.items.len()
            invariant
                i <= program.items@.len(),
                program.items@ == items0,
                cx == (TrCx { items: items0, wide: wide@ }),
                rw.items == &program.items,
                rw.wide == wide,
                rewritten_bodies(items0, i as nat, cx) == (body_views(bodies@), rw@),
            decreases program.items@.len() - i,
        {
            let ghost before = bodies@;
            match &program.items[i] {
                Item::Fn(f) => {
                    let b: Expr = rw.rewrite_expr(&f.body);
                    bodies.push(Some(b));
                    assert(body_views(bodies@) =~= body_views(before).push(Some(expr_view(b))));
                },
                Item::Type(_) => {
                    bodies.push(None);
                    assert(body_views(bodies@) =~= body_views(before).push(None));
                },
            }
            i = i + 1;
        }
        (rw.sites, rw.refused)
    };
    let ghost views = body_views(bodies@);
    let mut rest: Vec<Item> = Vec::new();
    core::mem::swap(&mut program.items, &mut rest);
    proof {
        lemma_bodies_len(items0, items0.len(), cx);
    }
    while rest.len() > 0
        invariant
            rest@.len() == bodies@.len(),
            rest@.len() + program.items@.len() == items0.len(),
            views.len() == items0.len(),
            rest@ =~= items0.skip(program.items@.len() as int),
            body_views(bodies@) =~= views.skip(program.items@.len() as int),
            forall|j: int|
                0 <= j < program.items@.len() ==> rebodied(
                    items0[j],
                    #[trigger] program.items@[j],
                    views[j],
                ),
            forall|j: int| 0 <= j < items0.len() ==> ((#[trigger] items0[j]) is Fn <==> views[j] is Some),
        decreases rest@.len(),
    {
        let ghost k = program.items@.len() as int;
        let ghost rest0 = rest@;
        let ghost bodies0 = bodies@;
        let item: Item = rest.remove(0);
        let body: Option<Expr> = bodies.remove(0);
        proof {
            assert(rest0[0] == items0[k]);
            assert(body_views(bodies0)[0] == views[k]);
            assert(rest@ =~= items0.skip(k + 1));
            assert forall|j: int| 0 <= j < bodies@.len() implies body_views(bodies@)[j]
                == views.skip(k + 1)[j] by {
                assert(body_views(bodies0)[j + 1] == views.skip(k)[j + 1]);
            }
        }
        let next: Item = match item {
            Item::Fn(f) => match body {
                Some(b) => Item::Fn(
                    FnDecl {
                        name: f.name,
                        line: f.line,
                        pure: f.pure,
                        type_params: f.type_params,
                        bounds: f.bounds,
                        params: f.params,
                        ret: f.ret,
                        body: b,
                    },
                ),
                None => Item::Fn(f),
            },
            Item::Type(t) => Item::Type(t),
        };
        program.items.push(next);
    }
    match refused {
        None => Ok(sites),
        Some(m) => Err(m),
    }
}

proof fn lemma_bodies_len(items: Seq<Item>, n: nat, cx: TrCx)
    requires
        n <= items.len(),
    ensures
        ({
            let bs = rewritten_bodies(items, n, cx).0;
            &&& bs.len() == n
            &&& forall|j: int| 0 <= j < n ==> ((#[trigger] items[j]) is Fn <==> bs[j] is Some)
        }),
    decreases n,
{
    if n > 0 {
        lemma_bodies_len(items, (n - 1) as nat, cx);
    }
}

} // verus!
