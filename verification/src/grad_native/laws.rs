//! What holds of the rewriting of `grad` calls as a whole.

use vstd::prelude::*;
use vstd::string::*;

use crate::ast::model::{expr_view, ArmV, ExprV, KindV, StmtKindV, StmtV};
use crate::ast::Item;
use crate::grad_native::model::TrCx;
use crate::grad_native::{
    capture_args, grad_call, lemma_bodies_len, rewritten, rewritten_all, rewritten_arms,
    rewritten_bodies, rewritten_fields, rewritten_stmts, RwV, SiteV,
};
use crate::text::{dec, fmt, fmt_at};

verus! {

/// Whether an expression holds no `grad` call.
pub open spec fn gradless(e: ExprV) -> bool
    decreases e, 0nat,
{
    match e.kind {
        KindV::Ctor(_, args) => gradless_all(args, args.len()),
        KindV::Call(n, args) => n != "grad"@ && gradless_all(args, args.len()),
        KindV::Lambda(_, body, _) => gradless(*body),
        KindV::Apply(c, args, _) => gradless(*c) && gradless_all(args, args.len()),
        KindV::Record(_, fs) => gradless_fields(fs, fs.len()),
        KindV::Field(o, _) => gradless(*o),
        KindV::Update(b, fs) => gradless(*b) && gradless_fields(fs, fs.len()),
        KindV::Unary(_, x) => gradless(*x),
        KindV::Binary(_, l, r) => gradless(*l) && gradless(*r),
        KindV::If(c, t, f) => gradless(*c) && gradless(*t) && gradless(*f),
        KindV::Match(x, arms) => gradless(*x) && gradless_arms(arms, arms.len()),
        KindV::Block(ss, last) => gradless_stmts(ss, ss.len()) && gradless(*last),
        _ => true,
    }
}

/// Whether the first `n` expressions hold no `grad` call.
pub open spec fn gradless_all(es: Seq<ExprV>, n: nat) -> bool
    decreases es, n,
{
    n == 0 || n > es.len() || gradless_all(es, (n - 1) as nat) && gradless(es[n - 1])
}

/// Whether the first `n` field values hold no `grad` call.
pub open spec fn gradless_fields(fs: Seq<(Seq<char>, ExprV)>, n: nat) -> bool
    decreases fs, n,
{
    n == 0 || n > fs.len() || gradless_fields(fs, (n - 1) as nat) && gradless(fs[n - 1].1)
}

/// Whether the first `n` arms hold no `grad` call.
pub open spec fn gradless_arms(arms: Seq<ArmV>, n: nat) -> bool
    decreases arms, n,
{
    n == 0 || n > arms.len() || gradless_arms(arms, (n - 1) as nat) && gradless(arms[n - 1].body)
}

/// Whether the first `n` statements hold no `grad` call.
pub open spec fn gradless_stmts(ss: Seq<StmtV>, n: nat) -> bool
    decreases ss, n,
{
    n == 0 || n > ss.len() || gradless_stmts(ss, (n - 1) as nat) && match ss[n - 1].kind {
        StmtKindV::Let { name, name_span, ann, value } => gradless(value),
        StmtKindV::Expr(ex) => gradless(ex),
    }
}

// ---------------------------------------------------------------------------
// Without `grad`, nothing changes
// ---------------------------------------------------------------------------

/// An expression without `grad` calls is returned unchanged, and no site is added.
pub proof fn gradless_unchanged(e: ExprV, st: RwV, cx: TrCx)
    requires
        gradless(e),
    ensures
        rewritten(e, st, cx) == (e, st),
{
    lemma_unchanged(e, st, cx);
}

/// After a refused call nothing is rewritten any more, and the message stays.
pub proof fn refusal_ends_the_rewriting(e: ExprV, st: RwV, cx: TrCx)
    requires
        st.refused is Some,
    ensures
        rewritten(e, st, cx) == (e, st),
{
    lemma_unchanged(e, st, cx);
}

#[verifier::rlimit(30)]
proof fn lemma_unchanged(e: ExprV, st: RwV, cx: TrCx)
    requires
        gradless(e) || st.refused is Some,
    ensures
        rewritten(e, st, cx) == (e, st),
    decreases e, 0nat,
{
    match e.kind {
        KindV::Ctor(_, args) => {
            lemma_all_unchanged(args, args.len(), st, cx);
            assert(args.take(args.len() as int) =~= args);
        },
        KindV::Call(_, args) => {
            lemma_all_unchanged(args, args.len(), st, cx);
            assert(args.take(args.len() as int) =~= args);
        },
        KindV::Lambda(_, body, _) => {
            lemma_unchanged(*body, st, cx);
        },
        KindV::Apply(c, args, _) => {
            lemma_unchanged(*c, st, cx);
            lemma_all_unchanged(args, args.len(), st, cx);
            assert(args.take(args.len() as int) =~= args);
        },
        KindV::Record(_, fs) => {
            lemma_fields_unchanged(fs, fs.len(), st, cx);
            assert(fs.take(fs.len() as int) =~= fs);
        },
        KindV::Field(o, _) => {
            lemma_unchanged(*o, st, cx);
        },
        KindV::Update(b, fs) => {
            lemma_unchanged(*b, st, cx);
            lemma_fields_unchanged(fs, fs.len(), st, cx);
            assert(fs.take(fs.len() as int) =~= fs);
        },
        KindV::Unary(_, x) => {
            lemma_unchanged(*x, st, cx);
        },
        KindV::Binary(_, l, r) => {
            lemma_unchanged(*l, st, cx);
            lemma_unchanged(*r, st, cx);
        },
        KindV::If(c, t, f) => {
            lemma_unchanged(*c, st, cx);
            lemma_unchanged(*t, st, cx);
            lemma_unchanged(*f, st, cx);
        },
        KindV::Match(x, arms) => {
            lemma_unchanged(*x, st, cx);
            lemma_arms_unchanged(arms, arms.len(), st, cx);
            assert(arms.take(arms.len() as int) =~= arms);
        },
        KindV::Block(ss, last) => {
            lemma_stmts_unchanged(ss, ss.len(), st, cx);
            assert(ss.take(ss.len() as int) =~= ss);
            lemma_unchanged(*last, st, cx);
        },
        _ => {},
    }
}

proof fn lemma_all_unchanged(es: Seq<ExprV>, n: nat, st: RwV, cx: TrCx)
    requires
        n <= es.len(),
        gradless_all(es, n) || st.refused is Some,
    ensures
        rewritten_all(es, n, st, cx) == (es.take(n as int), st),
    decreases es, n,
{
    if n > 0 {
        lemma_all_unchanged(es, (n - 1) as nat, st, cx);
        lemma_unchanged(es[n - 1], st, cx);
        assert(es.take(n as int) =~= es.take(n - 1).push(es[n - 1]));
    } else {
        assert(es.take(0) =~= Seq::<ExprV>::empty());
    }
}

proof fn lemma_fields_unchanged(
    fs: Seq<(Seq<char>, ExprV)>,
    n: nat,
    st: RwV,
    cx: TrCx,
)
    requires
        n <= fs.len(),
        gradless_fields(fs, n) || st.refused is Some,
    ensures
        rewritten_fields(fs, n, st, cx) == (fs.take(n as int), st),
    decreases fs, n,
{
    if n > 0 {
        lemma_fields_unchanged(fs, (n - 1) as nat, st, cx);
        lemma_unchanged(fs[n - 1].1, st, cx);
        assert(fs.take(n as int) =~= fs.take(n - 1).push(fs[n - 1]));
    } else {
        assert(fs.take(0) =~= Seq::<(Seq<char>, ExprV)>::empty());
    }
}

proof fn lemma_arms_unchanged(arms: Seq<ArmV>, n: nat, st: RwV, cx: TrCx)
    requires
        n <= arms.len(),
        gradless_arms(arms, n) || st.refused is Some,
    ensures
        rewritten_arms(arms, n, st, cx) == (arms.take(n as int), st),
    decreases arms, n,
{
    if n > 0 {
        lemma_arms_unchanged(arms, (n - 1) as nat, st, cx);
        lemma_unchanged(arms[n - 1].body, st, cx);
        assert(arms.take(n as int) =~= arms.take(n - 1).push(arms[n - 1]));
    } else {
        assert(arms.take(0) =~= Seq::<ArmV>::empty());
    }
}

proof fn lemma_stmts_unchanged(ss: Seq<StmtV>, n: nat, st: RwV, cx: TrCx)
    requires
        n <= ss.len(),
        gradless_stmts(ss, n) || st.refused is Some,
    ensures
        rewritten_stmts(ss, n, st, cx) == (ss.take(n as int), st),
    decreases ss, n,
{
    if n > 0 {
        lemma_stmts_unchanged(ss, (n - 1) as nat, st, cx);
        match ss[n - 1].kind {
            StmtKindV::Let { name, name_span, ann, value } => {
                lemma_unchanged(value, st, cx);
            },
            StmtKindV::Expr(ex) => {
                lemma_unchanged(ex, st, cx);
            },
        }
        assert(ss.take(n as int) =~= ss.take(n - 1).push(ss[n - 1]));
    } else {
        assert(ss.take(0) =~= Seq::<StmtV>::empty());
    }
}

/// A program without `grad` calls keeps its bodies and has no site.
pub proof fn gradless_program_unchanged(items: Seq<Item>, n: nat, cx: TrCx)
    requires
        n <= items.len(),
        forall|i: int|
            0 <= i < n && (#[trigger] items[i]) is Fn ==> gradless(
                expr_view(items[i]->Fn_0.body),
            ),
    ensures
        ({
            let (bodies, st) = rewritten_bodies(items, n, cx);
            &&& st.refused is None
            &&& st.sites.len() == 0
            &&& bodies.len() == n
            &&& forall|i: int|
                0 <= i < n && (#[trigger] items[i]) is Fn ==> bodies[i] == Some(
                    expr_view(items[i]->Fn_0.body),
                )
        }),
    decreases n,
{
    if n > 0 {
        gradless_program_unchanged(items, (n - 1) as nat, cx);
        if let Item::Fn(f) = items[n - 1] {
            let st = rewritten_bodies(items, (n - 1) as nat, cx).1;
            gradless_unchanged(expr_view(f.body), st, cx);
        }
    }
}

/// Once a call among the first `k` items is refused, the program is refused with
/// that message, and the functions after those items keep their bodies.
pub proof fn refused_program_keeps_the_rest(items: Seq<Item>, k: nat, n: nat, cx: TrCx)
    requires
        k <= n <= items.len(),
        rewritten_bodies(items, k, cx).1.refused is Some,
    ensures
        ({
            let (bodies, st) = rewritten_bodies(items, n, cx);
            &&& st == rewritten_bodies(items, k, cx).1
            &&& bodies.len() == n
            &&& bodies.take(k as int) == rewritten_bodies(items, k, cx).0
            &&& forall|i: int|
                k <= i < n && (#[trigger] items[i]) is Fn ==> bodies[i] == Some(
                    expr_view(items[i]->Fn_0.body),
                )
        }),
    decreases n - k,
{
    lemma_bodies_len(items, n, cx);
    if k < n {
        refused_program_keeps_the_rest(items, k, (n - 1) as nat, cx);
        let before = rewritten_bodies(items, (n - 1) as nat, cx).0;
        if let Item::Fn(f) = items[n - 1] {
            refusal_ends_the_rewriting(
                expr_view(f.body),
                rewritten_bodies(items, (n - 1) as nat, cx).1,
                cx,
            );
        }
        assert(rewritten_bodies(items, n, cx).0.take(k as int) =~= before.take(k as int));
    } else {
        let head = rewritten_bodies(items, k, cx).0;
        assert(head.take(k as int) =~= head);
    }
}

// ---------------------------------------------------------------------------
// Afterwards, no `grad` is left, and the sites are numbered
// ---------------------------------------------------------------------------

/// The name of the helper at a position.
pub open spec fn helper_name(i: int) -> Seq<char> {
    fmt("vec_grad${}"@, seq![dec(i)])
}

/// Whether every helper is named by its position.
pub open spec fn numbered(sites: Seq<SiteV>) -> bool {
    forall|i: int| 0 <= i < sites.len() ==> (#[trigger] sites[i]).helper == helper_name(i)
}

/// Whether a list of sites continues another.
pub open spec fn continues(a: Seq<SiteV>, b: Seq<SiteV>) -> bool {
    &&& a.len() <= b.len()
    &&& forall|i: int| 0 <= i < a.len() ==> #[trigger] b[i] == a[i]
}

proof fn lemma_helper_is_no_grad(i: int)
    ensures
        helper_name(i) != "grad"@,
{
    reveal_strlit("vec_grad${}");
    reveal_strlit("grad");
    reveal(fmt);
    let t = "vec_grad${}"@;
    assert(fmt_at(t, 0, seq![dec(i)], 0)[0] == 'v');
    assert("grad"@[0] == 'g');
}

proof fn lemma_vars_gradless(caps: Seq<(Seq<char>, bool)>, x: ExprV, n: nat)
    requires
        n <= caps.len() + 1,
        gradless(x),
    ensures
        gradless_all(seq![x] + capture_args(caps), n),
    decreases n,
{
    if n > 0 {
        lemma_vars_gradless(caps, x, (n - 1) as nat);
        let es = seq![x] + capture_args(caps);
        if n > 1 {
            assert(es[n - 1] == capture_args(caps)[n - 2]);
            assert(es[n - 1].kind == KindV::Var(caps[n - 2].0));
        } else {
            assert(es[0] == x);
        }
        assert(gradless(es[n - 1]));
    }
}

/// Where no call is refused, no `grad` call is left. The sites found before stay in
/// any case, and each new one is named by its position, so no two helpers share a
/// name's number.
#[verifier::rlimit(60)]
pub proof fn no_grad_is_left(e: ExprV, st: RwV, cx: TrCx)
    requires
        numbered(st.sites),
    ensures
        rewritten(e, st, cx).1.refused is None ==> st.refused is None && gradless(
            rewritten(e, st, cx).0,
        ),
        continues(st.sites, rewritten(e, st, cx).1.sites),
        numbered(rewritten(e, st, cx).1.sites),
    decreases e, 0nat,
{
    match e.kind {
        KindV::Ctor(_, args) => {
            lemma_all_left(args, args.len(), st, cx);
        },
        KindV::Call(n, args) => {
            lemma_all_left(args, args.len(), st, cx);
            let (xs, s) = rewritten_all(args, args.len(), st, cx);
            if n == "grad"@ && s.refused is None {
                if let Ok((x, site)) = grad_call(xs, e.span, s.sites, cx) {
                    assert(gradless_all(xs, 2) && gradless_all(xs, 1));
                    lemma_helper_is_no_grad(s.sites.len() as int);
                    lemma_vars_gradless(site.captures, xs[1], site.captures.len() + 1);
                    assert(site.helper == helper_name(s.sites.len() as int));
                }
            }
        },
        KindV::Lambda(_, body, _) => {
            no_grad_is_left(*body, st, cx);
        },
        KindV::Apply(c, args, _) => {
            no_grad_is_left(*c, st, cx);
            lemma_all_left(args, args.len(), rewritten(*c, st, cx).1, cx);
        },
        KindV::Record(_, fs) => {
            lemma_fields_left(fs, fs.len(), st, cx);
        },
        KindV::Field(o, _) => {
            no_grad_is_left(*o, st, cx);
        },
        KindV::Update(b, fs) => {
            no_grad_is_left(*b, st, cx);
            lemma_fields_left(fs, fs.len(), rewritten(*b, st, cx).1, cx);
        },
        KindV::Unary(_, x) => {
            no_grad_is_left(*x, st, cx);
        },
        KindV::Binary(_, l, r) => {
            no_grad_is_left(*l, st, cx);
            no_grad_is_left(*r, rewritten(*l, st, cx).1, cx);
        },
        KindV::If(c, t, f) => {
            no_grad_is_left(*c, st, cx);
            let s1 = rewritten(*c, st, cx).1;
            no_grad_is_left(*t, s1, cx);
            let s2 = rewritten(*t, s1, cx).1;
            no_grad_is_left(*f, s2, cx);
        },
        KindV::Match(x, arms) => {
            no_grad_is_left(*x, st, cx);
            lemma_arms_left(arms, arms.len(), rewritten(*x, st, cx).1, cx);
        },
        KindV::Block(ss, last) => {
            lemma_stmts_left(ss, ss.len(), st, cx);
            no_grad_is_left(*last, rewritten_stmts(ss, ss.len(), st, cx).1, cx);
        },
        _ => {},
    }
}

proof fn lemma_prefix(a: Seq<ExprV>, b: Seq<ExprV>, n: nat)
    requires
        n <= a.len(),
        n <= b.len(),
        forall|i: int| 0 <= i < n ==> a[i] == b[i],
    ensures
        gradless_all(a, n) == gradless_all(b, n),
    decreases n,
{
    if n > 0 {
        lemma_prefix(a, b, (n - 1) as nat);
    }
}

proof fn lemma_all_left(es: Seq<ExprV>, n: nat, st: RwV, cx: TrCx)
    requires
        n <= es.len(),
        numbered(st.sites),
    ensures
        rewritten_all(es, n, st, cx).0.len() == n,
        rewritten_all(es, n, st, cx).1.refused is None ==> st.refused is None && gradless_all(
            rewritten_all(es, n, st, cx).0, n,
        ),
        continues(st.sites, rewritten_all(es, n, st, cx).1.sites),
        numbered(rewritten_all(es, n, st, cx).1.sites),
    decreases es, n,
{
    if n > 0 {
        lemma_all_left(es, (n - 1) as nat, st, cx);
        let (xs, s) = rewritten_all(es, (n - 1) as nat, st, cx);
        no_grad_is_left(es[n - 1], s, cx);
        lemma_prefix(xs, rewritten_all(es, n, st, cx).0, (n - 1) as nat);
    }
}

proof fn lemma_fields_prefix(
    a: Seq<(Seq<char>, ExprV)>,
    b: Seq<(Seq<char>, ExprV)>,
    n: nat,
)
    requires
        n <= a.len(),
        n <= b.len(),
        forall|i: int| 0 <= i < n ==> a[i] == b[i],
    ensures
        gradless_fields(a, n) == gradless_fields(b, n),
    decreases n,
{
    if n > 0 {
        lemma_fields_prefix(a, b, (n - 1) as nat);
    }
}

proof fn lemma_fields_left(fs: Seq<(Seq<char>, ExprV)>, n: nat, st: RwV, cx: TrCx)
    requires
        n <= fs.len(),
        numbered(st.sites),
    ensures
        rewritten_fields(fs, n, st, cx).0.len() == n,
        rewritten_fields(fs, n, st, cx).1.refused is None ==> st.refused is None && gradless_fields(
            rewritten_fields(fs, n, st, cx).0, n,
        ),
        continues(st.sites, rewritten_fields(fs, n, st, cx).1.sites),
        numbered(rewritten_fields(fs, n, st, cx).1.sites),
    decreases fs, n,
{
    if n > 0 {
        lemma_fields_left(fs, (n - 1) as nat, st, cx);
        let (xs, s) = rewritten_fields(fs, (n - 1) as nat, st, cx);
        no_grad_is_left(fs[n - 1].1, s, cx);
        lemma_fields_prefix(xs, rewritten_fields(fs, n, st, cx).0, (n - 1) as nat);
    }
}

proof fn lemma_arms_prefix(a: Seq<ArmV>, b: Seq<ArmV>, n: nat)
    requires
        n <= a.len(),
        n <= b.len(),
        forall|i: int| 0 <= i < n ==> a[i] == b[i],
    ensures
        gradless_arms(a, n) == gradless_arms(b, n),
    decreases n,
{
    if n > 0 {
        lemma_arms_prefix(a, b, (n - 1) as nat);
    }
}

proof fn lemma_arms_left(arms: Seq<ArmV>, n: nat, st: RwV, cx: TrCx)
    requires
        n <= arms.len(),
        numbered(st.sites),
    ensures
        rewritten_arms(arms, n, st, cx).0.len() == n,
        rewritten_arms(arms, n, st, cx).1.refused is None ==> st.refused is None && gradless_arms(
            rewritten_arms(arms, n, st, cx).0, n,
        ),
        continues(st.sites, rewritten_arms(arms, n, st, cx).1.sites),
        numbered(rewritten_arms(arms, n, st, cx).1.sites),
    decreases arms, n,
{
    if n > 0 {
        lemma_arms_left(arms, (n - 1) as nat, st, cx);
        let (xs, s) = rewritten_arms(arms, (n - 1) as nat, st, cx);
        no_grad_is_left(arms[n - 1].body, s, cx);
        lemma_arms_prefix(xs, rewritten_arms(arms, n, st, cx).0, (n - 1) as nat);
    }
}

proof fn lemma_stmts_prefix(a: Seq<StmtV>, b: Seq<StmtV>, n: nat)
    requires
        n <= a.len(),
        n <= b.len(),
        forall|i: int| 0 <= i < n ==> a[i] == b[i],
    ensures
        gradless_stmts(a, n) == gradless_stmts(b, n),
    decreases n,
{
    if n > 0 {
        lemma_stmts_prefix(a, b, (n - 1) as nat);
    }
}

proof fn lemma_stmts_left(ss: Seq<StmtV>, n: nat, st: RwV, cx: TrCx)
    requires
        n <= ss.len(),
        numbered(st.sites),
    ensures
        rewritten_stmts(ss, n, st, cx).0.len() == n,
        rewritten_stmts(ss, n, st, cx).1.refused is None ==> st.refused is None && gradless_stmts(
            rewritten_stmts(ss, n, st, cx).0, n,
        ),
        continues(st.sites, rewritten_stmts(ss, n, st, cx).1.sites),
        numbered(rewritten_stmts(ss, n, st, cx).1.sites),
    decreases ss, n,
{
    if n > 0 {
        lemma_stmts_left(ss, (n - 1) as nat, st, cx);
        let (xs, s) = rewritten_stmts(ss, (n - 1) as nat, st, cx);
        match ss[n - 1].kind {
            StmtKindV::Let { name, name_span, ann, value } => {
                no_grad_is_left(value, s, cx);
            },
            StmtKindV::Expr(ex) => {
                no_grad_is_left(ex, s, cx);
            },
        }
        lemma_stmts_prefix(xs, rewritten_stmts(ss, n, st, cx).0, (n - 1) as nat);
    }
}

} // verus!
