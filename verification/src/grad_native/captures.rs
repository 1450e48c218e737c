//! A helper's captured parameters: no name occurs twice among them, so the
//! parameters of the helper and the arguments of its call line up by name.

use vstd::prelude::*;

use crate::ast::model::{expr_view, ArmV, ExprV, KindV, PatKindV, StmtKindV, StmtV};
use crate::ast::UnOp;
use crate::grad_native::model::{
    array_elems, bind_code, branches_code, captured, concrete, concrete_stmts, concrete_var,
    emit, find_cap, fresh, function, ids_code, is_capture, join_code, joint_kind, traced, traced_arg,
    traced_args, traced_arms, traced_call, traced_scalar, traced_scalars, traced_stmts, traced_vec,
    BranchV, CapV, FValV, ScopeV, TValV, TrCx, TrSt, MAX_INLINE_DEPTH,
};
use crate::grad_native::{helper_of, start};
use crate::text::{dec, fmt};

verus! {

/// Whether no two captures share a name.
pub open spec fn distinct(caps: Seq<CapV>) -> bool {
    forall|i: int, j: int| 0 <= i < j < caps.len() ==> (#[trigger] caps[i]).name != (#[trigger] caps[j]).name
}

/// The captures of a helper have distinct names.
pub proof fn helper_captures_distinct(helper: Seq<char>, param: Seq<char>, body: ExprV, cx: TrCx)
    ensures
        match helper_of(helper, param, body, cx) {
            Ok((_, caps)) => forall|i: int, j: int|
                0 <= i < j < caps.len() ==> (#[trigger] caps[i]).0 != (#[trigger] caps[j]).0,
            Err(_) => true,
        },
{
    let scope: ScopeV = seq![(param, TValV::Vector("$leaves"@))];
    lemma_traced(body, scope, Seq::empty(), start(), cx);
    if let Ok((_, caps)) = helper_of(helper, param, body, cx) {
        let st = traced(body, scope, Seq::empty(), start(), cx)->Ok_0.1;
        assert forall|i: int, j: int| 0 <= i < j < caps.len() implies (#[trigger] caps[i]).0 != (
        #[trigger] caps[j]).0 by {
            assert(st.caps[i].name != st.caps[j].name);
        }
    }
}

proof fn lemma_absent(caps: Seq<CapV>, name: Seq<char>)
    requires
        find_cap(caps, name) is None,
    ensures
        forall|i: int| 0 <= i < caps.len() ==> (#[trigger] caps[i]).name != name,
    decreases caps.len(),
{
    if caps.len() > 0 {
        lemma_absent(caps.drop_last(), name);
        assert forall|i: int| 0 <= i < caps.len() implies (#[trigger] caps[i]).name != name by {
            if i < caps.len() - 1 {
                assert(caps.drop_last()[i] == caps[i]);
            }
        }
    }
}

proof fn lemma_captured(name: Seq<char>, vector: bool, st: TrSt)
    requires
        distinct(st.caps),
    ensures
        captured(name, vector, st) is Ok ==> distinct(captured(name, vector, st)->Ok_0.1.caps),
{
    if find_cap(st.caps, name) is None {
        lemma_absent(st.caps, name);
    }
}

proof fn lemma_var(name: Seq<char>, scope: ScopeV, st: TrSt, cx: TrCx)
    requires
        distinct(st.caps),
    ensures
        concrete_var(name, scope, st, cx) is Ok ==> distinct(
            concrete_var(name, scope, st, cx)->Ok_0.1.caps,
        ),
{
    if find_cap(st.caps, name) is None {
        lemma_absent(st.caps, name);
    }
}

proof fn lemma_ids(t: Seq<char>, ids: Seq<Seq<char>>, n: nat, st: TrSt)
    ensures
        ids_code(t, ids, n, st).caps == st.caps,
    decreases n,
{
    if n > 0 && n <= ids.len() {
        lemma_ids(t, ids, (n - 1) as nat, st);
    }
}

proof fn lemma_branches(res: Seq<char>, bs: Seq<BranchV>, n: nat, st: TrSt)
    ensures
        branches_code(res, bs, n, st).caps == st.caps,
    decreases n,
{
    if n > 0 && n <= bs.len() {
        lemma_branches(res, bs, (n - 1) as nat, st);
    }
}

proof fn lemma_join(bs: Seq<BranchV>, trap: bool, st: TrSt)
    ensures
        join_code(bs, trap, st) is Ok ==> join_code(bs, trap, st)->Ok_0.1.caps == st.caps,
{
    if let Ok(vector) = joint_kind(bs, bs.len()) {
        if let Ok((res, s1)) = fresh(st) {
            let s2 = emit(
                s1,
                if vector {
                    fmt("    AriaTVec {};\n"@, seq![res])
                } else {
                    fmt("    int64_t {};\n"@, seq![res])
                },
            );
            lemma_branches(res, bs, bs.len(), s2);
        }
    }
}

proof fn lemma_traced(e: ExprV, scope: ScopeV, stack: Seq<Seq<char>>, st: TrSt, cx: TrCx)
    requires
        distinct(st.caps),
    ensures
        traced(e, scope, stack, st, cx) is Ok ==> distinct(
            traced(e, scope, stack, st, cx)->Ok_0.1.caps,
        ),
    decreases MAX_INLINE_DEPTH - stack.len(), e, 1nat,
{
    match e.kind {
        KindV::Unary(UnOp::Neg, x) => {
            lemma_scalar(*x, scope, stack, st, cx);
        },
        KindV::Binary(op, l, r) => {
            lemma_scalar(*l, scope, stack, st, cx);
            if let Ok((a, s1)) = traced_scalar(*l, scope, stack, st, cx) {
                lemma_scalar(*r, scope, stack, s1, cx);
            }
        },
        KindV::Call(name, args) => {
            lemma_call(name, args, scope, stack, st, cx);
        },
        KindV::Block(stmts, last) => {
            lemma_stmts(stmts, stmts.len(), scope, stack, st, cx);
            if let Ok((inner, s1)) = traced_stmts(stmts, stmts.len(), scope, stack, st, cx) {
                lemma_traced(*last, inner, stack, s1, cx);
            }
        },
        KindV::If(c, t, f) => {
            lemma_concrete(*c, scope, stack, st, cx);
            if let Ok((FValV::Bool(cond), s1)) = concrete(*c, scope, stack, st, cx) {
                let b1 = TrSt { body: Seq::empty(), ..s1 };
                lemma_traced(*t, scope, stack, b1, cx);
                if let Ok((tv, s2)) = traced(*t, scope, stack, b1, cx) {
                    let b2 = TrSt { body: Seq::empty(), ..s2 };
                    lemma_traced(*f, scope, stack, b2, cx);
                    if let Ok((fv, s3)) = traced(*f, scope, stack, b2, cx) {
                        lemma_join(
                            seq![
                                (
                                    fmt("if ({})"@, seq![cond]),
                                    s2.body,
                                    tv,
                                ),
                                ("else"@, s3.body, fv),
                            ],
                            false,
                            TrSt { body: s1.body, ..s3 },
                        );
                    }
                }
            }
        },
        KindV::Match(scrut, arms) => {
            if arms.len() > 0 {
                lemma_concrete(*scrut, scope, stack, st, cx);
                if let Ok((sv, s1)) = concrete(*scrut, scope, stack, st, cx) {
                    lemma_arms(arms, arms.len(), sv, scope, stack, s1, cx);
                    if let Ok((bs, closed, s2)) = traced_arms(
                        arms,
                        arms.len(),
                        sv,
                        scope,
                        stack,
                        s1,
                        cx,
                    ) {
                        lemma_join(bs, !closed, s2);
                    }
                }
            }
        },
        _ => {},
    }
}

proof fn lemma_scalar(e: ExprV, scope: ScopeV, stack: Seq<Seq<char>>, st: TrSt, cx: TrCx)
    requires
        distinct(st.caps),
    ensures
        traced_scalar(e, scope, stack, st, cx) is Ok ==> distinct(
            traced_scalar(e, scope, stack, st, cx)->Ok_0.1.caps,
        ),
    decreases MAX_INLINE_DEPTH - stack.len(), e, 2nat,
{
    if is_capture(e, scope, cx) {
        lemma_captured(e.kind->Var_0, false, st);
    } else {
        lemma_traced(e, scope, stack, st, cx);
    }
}

proof fn lemma_vec(e: ExprV, scope: ScopeV, stack: Seq<Seq<char>>, st: TrSt, cx: TrCx)
    requires
        distinct(st.caps),
    ensures
        traced_vec(e, scope, stack, st, cx) is Ok ==> distinct(
            traced_vec(e, scope, stack, st, cx)->Ok_0.1.caps,
        ),
    decreases MAX_INLINE_DEPTH - stack.len(), e, 2nat,
{
    if is_capture(e, scope, cx) {
        lemma_captured(e.kind->Var_0, true, st);
    } else {
        lemma_traced(e, scope, stack, st, cx);
    }
}

proof fn lemma_arg(e: ExprV, scope: ScopeV, stack: Seq<Seq<char>>, st: TrSt, cx: TrCx)
    requires
        distinct(st.caps),
    ensures
        traced_arg(e, scope, stack, st, cx) is Ok ==> distinct(
            traced_arg(e, scope, stack, st, cx)->Ok_0.1.caps,
        ),
    decreases MAX_INLINE_DEPTH - stack.len(), e, 2nat,
{
    if is_capture(e, scope, cx) && find_cap(st.caps, e.kind->Var_0) is Some {
        lemma_captured(e.kind->Var_0, find_cap(st.caps, e.kind->Var_0)->0.vector, st);
    } else {
        lemma_traced(e, scope, stack, st, cx);
    }
}

proof fn lemma_scalars(
    es: Seq<ExprV>,
    n: nat,
    scope: ScopeV,
    stack: Seq<Seq<char>>,
    st: TrSt,
    cx: TrCx,
)
    requires
        distinct(st.caps),
    ensures
        traced_scalars(es, n, scope, stack, st, cx) is Ok ==> distinct(
            traced_scalars(es, n, scope, stack, st, cx)->Ok_0.1.caps,
        ),
    decreases MAX_INLINE_DEPTH - stack.len(), es, n,
{
    if n > 0 && n <= es.len() {
        lemma_scalars(es, (n - 1) as nat, scope, stack, st, cx);
        if let Ok((ids, s1)) = traced_scalars(es, (n - 1) as nat, scope, stack, st, cx) {
            lemma_scalar(es[n - 1], scope, stack, s1, cx);
        }
    }
}

proof fn lemma_args(
    es: Seq<ExprV>,
    n: nat,
    scope: ScopeV,
    stack: Seq<Seq<char>>,
    st: TrSt,
    cx: TrCx,
)
    requires
        distinct(st.caps),
    ensures
        traced_args(es, n, scope, stack, st, cx) is Ok ==> distinct(
            traced_args(es, n, scope, stack, st, cx)->Ok_0.1.caps,
        ),
    decreases MAX_INLINE_DEPTH - stack.len(), es, n,
{
    if n > 0 && n <= es.len() {
        lemma_args(es, (n - 1) as nat, scope, stack, st, cx);
        if let Ok((vs, s1)) = traced_args(es, (n - 1) as nat, scope, stack, st, cx) {
            lemma_arg(es[n - 1], scope, stack, s1, cx);
        }
    }
}

#[verifier::rlimit(40)]
proof fn lemma_call(
    name: Seq<char>,
    args: Seq<ExprV>,
    scope: ScopeV,
    stack: Seq<Seq<char>>,
    st: TrSt,
    cx: TrCx,
)
    requires
        distinct(st.caps),
    ensures
        traced_call(name, args, scope, stack, st, cx) is Ok ==> distinct(
            traced_call(name, args, scope, stack, st, cx)->Ok_0.1.caps,
        ),
    decreases MAX_INLINE_DEPTH - stack.len(), args, args.len() + 1,
{
    if args.len() > 0 {
        lemma_vec(args[0], scope, stack, st, cx);
        if args.len() > 1 {
            if let Ok((v, s1)) = traced_vec(args[0], scope, stack, st, cx) {
                lemma_vec(args[1], scope, stack, s1, cx);
                lemma_scalar(args[1], scope, stack, s1, cx);
            }
        }
        if let Some(elems) = array_elems(args[0]) {
            lemma_scalars(elems, elems.len(), scope, stack, st, cx);
            if let Ok((ids, s1)) = traced_scalars(elems, elems.len(), scope, stack, st, cx) {
                if let Ok((t, s2)) = fresh(s1) {
                    lemma_ids(
                        t,
                        ids,
                        ids.len(),
                        emit(
                            s2,
                            fmt(
                                "    AriaTVec {} = aria_tvec_alloc({});\n"@,
                                seq![t, dec(ids.len() as int)],
                            ),
                        ),
                    );
                }
            }
        }
    }
    if let Some(f) = function(cx, name) {
        if !stack.contains(name) && stack.len() < MAX_INLINE_DEPTH {
            lemma_args(args, args.len(), scope, stack, st, cx);
            if let Ok((vs, s1)) = traced_args(args, args.len(), scope, stack, st, cx) {
                lemma_traced(
                    expr_view(f.body),
                    Seq::new(vs.len(), |i: int| (f.params@[i].name@, vs[i])),
                    stack.push(name),
                    s1,
                    cx,
                );
            }
        }
    }
}

proof fn lemma_stmts(
    ss: Seq<StmtV>,
    n: nat,
    scope: ScopeV,
    stack: Seq<Seq<char>>,
    st: TrSt,
    cx: TrCx,
)
    requires
        distinct(st.caps),
    ensures
        traced_stmts(ss, n, scope, stack, st, cx) is Ok ==> distinct(
            traced_stmts(ss, n, scope, stack, st, cx)->Ok_0.1.caps,
        ),
    decreases MAX_INLINE_DEPTH - stack.len(), ss, n,
{
    if n > 0 && n <= ss.len() {
        lemma_stmts(ss, (n - 1) as nat, scope, stack, st, cx);
        if let Ok((inner, s1)) = traced_stmts(ss, (n - 1) as nat, scope, stack, st, cx) {
            match ss[n - 1].kind {
                StmtKindV::Let { name, name_span, ann, value } => {
                    lemma_traced(value, inner, stack, s1, cx);
                },
                StmtKindV::Expr(ex) => {
                    lemma_traced(ex, inner, stack, s1, cx);
                },
            }
        }
    }
}

proof fn lemma_arms(
    arms: Seq<ArmV>,
    n: nat,
    sv: FValV,
    scope: ScopeV,
    stack: Seq<Seq<char>>,
    st: TrSt,
    cx: TrCx,
)
    requires
        distinct(st.caps),
    ensures
        traced_arms(arms, n, sv, scope, stack, st, cx) is Ok ==> distinct(
            traced_arms(arms, n, sv, scope, stack, st, cx)->Ok_0.2.caps,
        ),
    decreases MAX_INLINE_DEPTH - stack.len(), arms, n,
{
    if n > 0 && n <= arms.len() {
        lemma_arms(arms, (n - 1) as nat, sv, scope, stack, st, cx);
        if let Ok((bs, closed, s1)) = traced_arms(
            arms,
            (n - 1) as nat,
            sv,
            scope,
            stack,
            st,
            cx,
        ) {
            let arm = arms[n - 1];
            let begin = TrSt { body: Seq::empty(), ..s1 };
            if let PatKindV::Var(name) = arm.pat.kind {
                if let Ok((v, s2)) = bind_code(sv, begin) {
                    lemma_traced(arm.body, scope.push((name, v)), stack, s2, cx);
                }
            } else {
                lemma_traced(arm.body, scope, stack, begin, cx);
            }
        }
    }
}

proof fn lemma_concrete(e: ExprV, scope: ScopeV, stack: Seq<Seq<char>>, st: TrSt, cx: TrCx)
    requires
        distinct(st.caps),
    ensures
        concrete(e, scope, stack, st, cx) is Ok ==> distinct(
            concrete(e, scope, stack, st, cx)->Ok_0.1.caps,
        ),
    decreases MAX_INLINE_DEPTH - stack.len(), e, 1nat,
{
    match e.kind {
        KindV::Var(name) => {
            lemma_var(name, scope, st, cx);
        },
        KindV::Unary(_, x) => {
            lemma_concrete(*x, scope, stack, st, cx);
        },
        KindV::Binary(op, l, r) => {
            lemma_concrete(*l, scope, stack, st, cx);
            if let Ok((a, s1)) = concrete(*l, scope, stack, st, cx) {
                lemma_concrete(*r, scope, stack, s1, cx);
            }
        },
        KindV::Call(name, args) => {
            if args.len() == 1 {
                lemma_vec(args[0], scope, stack, st, cx);
            }
        },
        KindV::Block(stmts, last) => {
            lemma_concrete_stmts(stmts, stmts.len(), scope, stack, st, cx);
            if let Ok((inner, s1)) = concrete_stmts(stmts, stmts.len(), scope, stack, st, cx) {
                lemma_concrete(*last, inner, stack, s1, cx);
            }
        },
        _ => {},
    }
}

proof fn lemma_concrete_stmts(
    ss: Seq<StmtV>,
    n: nat,
    scope: ScopeV,
    stack: Seq<Seq<char>>,
    st: TrSt,
    cx: TrCx,
)
    requires
        distinct(st.caps),
    ensures
        concrete_stmts(ss, n, scope, stack, st, cx) is Ok ==> distinct(
            concrete_stmts(ss, n, scope, stack, st, cx)->Ok_0.1.caps,
        ),
    decreases MAX_INLINE_DEPTH - stack.len(), ss, n,
{
    if n > 0 && n <= ss.len() {
        lemma_concrete_stmts(ss, (n - 1) as nat, scope, stack, st, cx);
        if let Ok((inner, s1)) = concrete_stmts(ss, (n - 1) as nat, scope, stack, st, cx) {
            if let StmtKindV::Let { name, name_span, ann, value } = ss[n - 1].kind {
                lemma_concrete(value, inner, stack, s1, cx);
            }
        }
    }
}

} // verus!
