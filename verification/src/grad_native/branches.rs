//! Constants, branches and vector calls in a trace.

use vstd::prelude::*;
use vstd::string::*;

use crate::ast::model::{ExprV, KindV};
use crate::ast::UnOp;
use crate::c_backend::meaning::{exact, int_meaning, towards_zero, Outcome};
use crate::grad_native::calculus::smooth;
use crate::grad_native::model::{
    branches_code, concrete, const_int, dot_code, emit, fresh, get_code, head_code, join_code,
    joint_kind, local_name, magnitude, push_code, quotient, scale_code, traced,
    traced_call, traced_scalar, traced_vec, zip_code, BranchV, FValV, ScopeV, TValV, TrCx, TrSt,
};
use crate::text::pieces::{hole, lemma_fill1, lemma_fill2};
use crate::text::{dec, fmt};

verus! {

// ---------------------------------------------------------------------------
// Constant indices
// ---------------------------------------------------------------------------

/// The value of a constant expression, as the language gives it: none where it is no
/// constant, or where computing it would trap.
pub open spec fn constant_value(e: ExprV) -> Option<int>
    decreases e,
{
    match e.kind {
        KindV::Int(n) => Some(n as int),
        KindV::Unary(UnOp::Neg, x) => match constant_value(*x) {
            Some(n) => computed(exact(-n)),
            None => None,
        },
        KindV::Binary(op, l, r) => match (constant_value(*l), constant_value(*r)) {
            (Some(a), Some(b)) => if smooth(op) {
                computed(int_meaning(op, a, b))
            } else {
                None
            },
            _ => None,
        },
        _ => None,
    }
}

/// The value of an outcome.
pub open spec fn computed(o: Outcome) -> Option<int> {
    match o {
        Outcome::Value(v) => Some(v),
        Outcome::Trap(_) => None,
    }
}

proof fn lemma_rounding(a: int, b: int)
    requires
        b != 0,
    ensures
        quotient(a, b) == towards_zero(a, b),
{
    let m = magnitude(a) as int;
    let n = magnitude(b) as int;
    if m == 0 {
        assert(0int / n == 0) by (nonlinear_arith)
            requires
                n > 0,
        ;
    }
}

/// A constant index has the value that the language gives the expression.
pub proof fn constants_have_their_value(e: ExprV)
    ensures
        const_int(e) == constant_value(e),
    decreases e,
{
    match e.kind {
        KindV::Unary(UnOp::Neg, x) => {
            constants_have_their_value(*x);
        },
        KindV::Binary(op, l, r) => {
            constants_have_their_value(*l);
            constants_have_their_value(*r);
            if let (Some(a), Some(b)) = (const_int(*l), const_int(*r)) {
                if b != 0 {
                    lemma_rounding(a, b);
                }
            }
        },
        _ => {},
    }
}

// ---------------------------------------------------------------------------
// Branches
// ---------------------------------------------------------------------------

/// One branch of a chain: its head, its statements, and the assignment of its value to
/// the shared result.
pub open spec fn branch_text(
    head: Seq<char>,
    body: Seq<char>,
    res: Seq<char>,
    v: TValV,
) -> Seq<char> {
    head + (body + (("        "@ + (res + (" = "@ + (local_name(v) + ";\n"@)))) + "    }\n"@))
}

/// The declaration of the shared result.
pub open spec fn result_line(res: Seq<char>, vector: bool) -> Seq<char> {
    (if vector {
        "    AriaTVec "@
    } else {
        "    int64_t "@
    }) + (res + ";\n"@)
}

proof fn lemma_assign(res: Seq<char>, v: Seq<char>)
    ensures
        fmt("        {} = {};\n"@, seq![res, v]) == "        "@ + (res + (" = "@ + (v + ";\n"@))),
{
    reveal_strlit("        {} = {};\n");
    reveal_strlit("        ");
    reveal_strlit(" = ");
    reveal_strlit(";\n");
    assert("        {} = {};\n"@ =~= "        "@ + (hole() + (" = "@ + (hole() + ";\n"@))));
    lemma_fill2("        "@, " = "@, ";\n"@, res, v);
    assert("        "@ + (res + (" = "@ + (v + ";\n"@))) =~= "        "@ + (res + (" = "@ + (v + ";\n"@))));
}

proof fn lemma_vector_result(res: Seq<char>)
    ensures
        fmt("    AriaTVec {};\n"@, seq![res]) == "    AriaTVec "@ + (res + ";\n"@),
{
    reveal_strlit("    AriaTVec {};\n");
    reveal_strlit("    AriaTVec ");
    reveal_strlit(";\n");
    assert("    AriaTVec {};\n"@ =~= "    AriaTVec "@ + (hole() + ";\n"@));
    lemma_fill1("    AriaTVec "@, ";\n"@, res);
    assert("    AriaTVec "@ + (res + ";\n"@) =~= "    AriaTVec "@ + (res + ";\n"@));
}

proof fn lemma_scalar_result(res: Seq<char>)
    ensures
        fmt("    int64_t {};\n"@, seq![res]) == "    int64_t "@ + (res + ";\n"@),
{
    reveal_strlit("    int64_t {};\n");
    reveal_strlit("    int64_t ");
    reveal_strlit(";\n");
    assert("    int64_t {};\n"@ =~= "    int64_t "@ + (hole() + ";\n"@));
    lemma_fill1("    int64_t "@, ";\n"@, res);
    assert("    int64_t "@ + (res + ";\n"@) =~= "    int64_t "@ + (res + ";\n"@));
}

proof fn lemma_guard(c: Seq<char>)
    ensures
        fmt("if ({})"@, seq![c]) == "if ("@ + (c + ")"@),
{
    reveal_strlit("if ({})");
    reveal_strlit(")");
    reveal_strlit("if (");
    assert("if ({})"@ =~= "if ("@ + (hole() + ")"@));
    lemma_fill1("if ("@, ")"@, c);
    assert("if ("@ + (c + ")"@) =~= "if ("@ + (c + ")"@));
}

proof fn lemma_head(guard: Seq<char>)
    ensures
        fmt("    {} {\n"@, seq![guard]) == "    "@ + (guard + " {\n"@),
{
    reveal_strlit("    {} {\n");
    reveal_strlit("    ");
    reveal_strlit(" {\n");
    assert("    {} {\n"@ =~= "    "@ + (hole() + " {\n"@));
    lemma_fill1("    "@, " {\n"@, guard);
}

proof fn lemma_branch(st: TrSt, head: Seq<char>, body: Seq<char>, res: Seq<char>, v: TValV)
    ensures
        emit(
            emit(
                emit(emit(st, head), body),
                fmt("        {} = {};\n"@, seq![res, local_name(v)]),
            ),
            "    }\n"@,
        ) == (TrSt { body: st.body + branch_text(head, body, res, v), ..st }),
{
    lemma_assign(res, local_name(v));
    let a = "        "@ + (res + (" = "@ + (local_name(v) + ";\n"@)));
    assert((((st.body + head) + body) + a) + "    }\n"@ =~= st.body + (head + (body + (a
        + "    }\n"@))));
}

/// A conditional inside `f` tests its condition in C: the statements and the value of
/// the first branch are those where it holds, those of the second where it does not.
/// Both assign to one shared result, of the kind that both have.
pub proof fn conditionals_follow_their_condition(
    e: ExprV,
    c: ExprV,
    yes: ExprV,
    no: ExprV,
    scope: ScopeV,
    stack: Seq<Seq<char>>,
    st: TrSt,
    cx: TrCx,
)
    requires
        e.kind == KindV::If(Box::new(c), Box::new(yes), Box::new(no)),
    ensures
        traced(e, scope, stack, st, cx) matches Ok((n, end)) ==> {
            let (fv, s1) = concrete(c, scope, stack, st, cx)->Ok_0;
            let (yv, s2) = traced(
                yes,
                scope,
                stack,
                TrSt { body: Seq::empty(), ..s1 },
                cx,
            )->Ok_0;
            let (nv, s3) = traced(no, scope, stack, TrSt { body: Seq::empty(), ..s2 }, cx)->Ok_0;
            let res = local_name(n);
            &&& concrete(c, scope, stack, st, cx) is Ok
            &&& fv matches FValV::Bool(cond) && end.body == (s1.body + result_line(res, n is Vector))
                + (branch_text("    if ("@ + (cond + ") {\n"@), s2.body, res, yv) + branch_text(
                "    else {\n"@,
                s3.body,
                res,
                nv,
            ))
            &&& (n is Vector && yv is Vector && nv is Vector) || (n is Scalar && yv is Scalar
                && nv is Scalar)
        },
{
    if let Ok((n, end)) = traced(e, scope, stack, st, cx) {
        let (fv, s1) = concrete(c, scope, stack, st, cx)->Ok_0;
        let cond = fv->Bool_0;
        let (yv, s2) = traced(yes, scope, stack, TrSt { body: Seq::empty(), ..s1 }, cx)->Ok_0;
        let (nv, s3) = traced(no, scope, stack, TrSt { body: Seq::empty(), ..s2 }, cx)->Ok_0;
        let guard = fmt("if ({})"@, seq![cond]);
        let bs = seq![(guard, s2.body, yv), ("else"@, s3.body, nv)];
        let start = TrSt { body: s1.body, ..s3 };
        lemma_guard(cond);
        lemma_join(bs, start);
        let (res, t1) = fresh(start)->Ok_0;
        reveal_strlit("else");
        reveal_strlit("if (");
        assert(guard[0] == 'i');
        assert("else"@[0] == 'e');
        lemma_head(guard);
        reveal_strlit("    ");
        reveal_strlit("    if (");
        reveal_strlit(")");
        reveal_strlit(" {\n");
        reveal_strlit(") {\n");
        assert("    if ("@ =~= "    "@ + "if ("@);
        assert(") {\n"@ =~= ")"@ + " {\n"@);
        assert("    "@ + (("if ("@ + (cond + ")"@)) + " {\n"@) =~= ("    "@ + "if ("@) + (cond + (")"@
            + " {\n"@)));
    }
}

proof fn lemma_join(bs: Seq<BranchV>, st: TrSt)
    requires
        bs.len() == 2,
        join_code(bs, false, st) is Ok,
    ensures
        ({
            let (n, end) = join_code(bs, false, st)->Ok_0;
            let res = local_name(n);
            &&& fresh(st) is Ok
            &&& end.body == (st.body + result_line(res, n is Vector)) + (branch_text(
                head_code(0, bs[0].0),
                bs[0].1,
                res,
                bs[0].2,
            ) + branch_text(head_code(1, bs[1].0), bs[1].1, res, bs[1].2))
            &&& (n is Vector && bs[0].2 is Vector && bs[1].2 is Vector) || (n is Scalar
                && bs[0].2 is Scalar && bs[1].2 is Scalar)
        }),
{
    reveal_with_fuel(branches_code, 4);
    reveal_with_fuel(joint_kind, 4);
    let (res, s1) = fresh(st)->Ok_0;
    let vector = joint_kind(bs, 2)->Ok_0;
    lemma_vector_result(res);
    lemma_scalar_result(res);
    let s2 = emit(s1, result_line(res, vector));
    assert(branches_code(res, bs, 0, s2) == s2);
    lemma_branch(s2, head_code(0, bs[0].0), bs[0].1, res, bs[0].2);
    let s3 = branches_code(res, bs, 1, s2);
    lemma_branch(s3, head_code(1, bs[1].0), bs[1].1, res, bs[1].2);
    let x = branch_text(head_code(0, bs[0].0), bs[0].1, res, bs[0].2);
    let y = branch_text(head_code(1, bs[1].0), bs[1].1, res, bs[1].2);
    assert((s2.body + x) + y =~= s2.body + (x + y));
}

// ---------------------------------------------------------------------------
// Vector calls
// ---------------------------------------------------------------------------

proof fn lemma_vector_names()
    ensures
        "vec_get"@.len() == 7 && "vec_get"@[4] == 'g',
        "vec_dot"@.len() == 7 && "vec_dot"@[4] == 'd',
        "vec_norm"@.len() == 8 && "vec_norm"@[4] == 'n',
        "vec_add"@.len() == 7 && "vec_add"@[4] == 'a',
        "vec_sub"@.len() == 7 && "vec_sub"@[4] == 's',
        "vec_scale"@.len() == 9,
        "vec_push"@.len() == 8 && "vec_push"@[4] == 'p',
        "vec_from_array"@.len() == 14,
{
    reveal_strlit("vec_get");
    reveal_strlit("vec_dot");
    reveal_strlit("vec_norm");
    reveal_strlit("vec_add");
    reveal_strlit("vec_sub");
    reveal_strlit("vec_scale");
    reveal_strlit("vec_push");
    reveal_strlit("vec_from_array");
}

/// A call on two vectors traces the first argument, then the second, and then the
/// operation of its name on them, in their order.
pub proof fn vector_pairs_keep_their_order(
    x: ExprV,
    y: ExprV,
    scope: ScopeV,
    stack: Seq<Seq<char>>,
    st: TrSt,
    cx: TrCx,
)
    ensures
        ({
            let first = traced_vec(x, scope, stack, st, cx);
            let second = traced_vec(y, scope, stack, first->Ok_0.1, cx);
            let (a, b) = (first->Ok_0.0, second->Ok_0.0);
            let (t, s) = fresh(second->Ok_0.1)->Ok_0;
            let ready = first is Ok && second is Ok && fresh(second->Ok_0.1) is Ok;
            let args = seq![x, y];
            &&& ready ==> traced_call("vec_sub"@, args, scope, stack, st, cx) == Ok::<
                (TValV, TrSt),
                Seq<char>,
            >(zip_code(true, a, b, t, s))
            &&& ready ==> traced_call("vec_add"@, args, scope, stack, st, cx) == Ok::<
                (TValV, TrSt),
                Seq<char>,
            >(zip_code(false, a, b, t, s))
            &&& ready ==> traced_call("vec_dot"@, args, scope, stack, st, cx) == Ok::<
                (TValV, TrSt),
                Seq<char>,
            >(dot_code(a, b, t, s))
            &&& !ready ==> traced_call("vec_sub"@, args, scope, stack, st, cx) is Err
                && traced_call("vec_add"@, args, scope, stack, st, cx) is Err && traced_call(
                "vec_dot"@,
                args,
                scope,
                stack,
                st,
                cx,
            ) is Err
        }),
{
    lemma_vector_names();
}

/// A call on a vector and a scalar traces the vector, then the scalar, and then the
/// operation of its name on them; a component is taken at the constant index.
pub proof fn vector_and_scalar_keep_their_order(
    x: ExprV,
    y: ExprV,
    scope: ScopeV,
    stack: Seq<Seq<char>>,
    st: TrSt,
    cx: TrCx,
)
    ensures
        ({
            let first = traced_vec(x, scope, stack, st, cx);
            let second = traced_scalar(y, scope, stack, first->Ok_0.1, cx);
            let (a, b) = (first->Ok_0.0, second->Ok_0.0);
            let (t, s) = fresh(second->Ok_0.1)->Ok_0;
            let ready = first is Ok && second is Ok && fresh(second->Ok_0.1) is Ok;
            let (u, v) = fresh(first->Ok_0.1)->Ok_0;
            let indexed = first is Ok && constant_value(y) is Some && fresh(first->Ok_0.1) is Ok;
            let args = seq![x, y];
            &&& ready ==> traced_call("vec_scale"@, args, scope, stack, st, cx) == Ok::<
                (TValV, TrSt),
                Seq<char>,
            >(scale_code(a, b, t, s))
            &&& ready ==> traced_call("vec_push"@, args, scope, stack, st, cx) == Ok::<
                (TValV, TrSt),
                Seq<char>,
            >(push_code(a, b, t, s))
            &&& indexed ==> traced_call("vec_get"@, args, scope, stack, st, cx) == Ok::<
                (TValV, TrSt),
                Seq<char>,
            >(get_code(a, dec(constant_value(y)->0), u, v))
            &&& !indexed ==> traced_call("vec_get"@, args, scope, stack, st, cx) is Err
        }),
{
    lemma_vector_names();
    constants_have_their_value(y);
}

} // verus!
