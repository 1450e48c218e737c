//! The order of statements, literals that are no numbers, and operations on arrays,
//! maps and sets.

use vstd::prelude::*;
use vstd::string::*;

use crate::ast::{BinOp, FloatLit, UnOp};
use crate::c_backend::body::{bind_code, iexpr_code};
use crate::c_backend::builtins::{array_op, suffix_kinds, ArrayOp, MapSetOp};
use crate::c_backend::emit::{
    array_code, counted, element_slot, enumerated_code, map_set_fn, map_set_value, prim_code,
    unary_code, St,
};
use crate::c_backend::env::{atom_code, float_literal, type_of_var, CxV};
use crate::c_backend::infer::type_of_bind;
use crate::c_backend::kinds::{CType, ElemKind, SlotKind};
use crate::c_backend::mangle::var_name;
use crate::ir::{Atom, Bind, IExpr};
use crate::text::pieces::{
    hole, lemma_fill2, lemma_fill3, lemma_fill4, lemma_fill5, lemma_fill6,
};
use crate::text::{dec, digit, fmt};

verus! {

// ---------------------------------------------------------------------------
// Expressions
// ---------------------------------------------------------------------------

/// An assignment on a line of its own.
pub open spec fn assignment(x: Seq<char>, ex: Seq<char>, ind: Seq<char>) -> Seq<char> {
    ind + (x + (" = "@ + (ex + ";\n"@)))
}

proof fn lemma_assignment(ind: Seq<char>, x: Seq<char>, e: Seq<char>)
    ensures
        fmt("{}{} = {};\n"@, seq![ind, x, e]) == ind + (x + (" = "@ + (e + ";\n"@))),
{
    reveal_strlit("{}{} = {};\n");
    reveal_strlit(" = ");
    reveal_strlit(";\n");
    assert("{}{} = {};\n"@ =~= Seq::<char>::empty() + (hole() + (Seq::<char>::empty() + (hole() + (" = "@ + (hole() + ";\n"@))))));
    lemma_fill3(Seq::<char>::empty(), Seq::<char>::empty(), " = "@, ";\n"@, ind, x, e);
    assert(Seq::<char>::empty() + (ind + (Seq::<char>::empty() + (x + (" = "@ + (e + ";\n"@))))) =~= ind + (x + (" = "@ + (e + ";\n"@))));
}

proof fn lemma_declared(ind: Seq<char>, t: Seq<char>, x: Seq<char>)
    ensures
        fmt("{}{} {};\n"@, seq![ind, t, x]) == ind + (t + (" "@ + (x + ";\n"@))),
{
    reveal_strlit("{}{} {};\n");
    reveal_strlit(" ");
    reveal_strlit(";\n");
    assert("{}{} {};\n"@ =~= Seq::<char>::empty() + (hole() + (Seq::<char>::empty() + (hole() + (" "@ + (hole() + ";\n"@))))));
    lemma_fill3(Seq::<char>::empty(), Seq::<char>::empty(), " "@, ";\n"@, ind, t, x);
    assert(Seq::<char>::empty() + (ind + (Seq::<char>::empty() + (t + (" "@ + (x + ";\n"@))))) =~= ind + (t + (" "@ + (x + ";\n"@))));
}

/// An expression assigns its value to the result. A `let` declares its variable, with
/// the type of what is bound, computes it, and only then comes the body, in which the
/// variable has that type. A dup or drop counts its own variable before the body.
pub proof fn expressions_run_in_order(
    a: Atom,
    x: String,
    bind: Bind,
    body: IExpr,
    result: Seq<char>,
    st: St,
    cx: CxV,
    ind: Seq<char>,
)
    ensures
        iexpr_code(IExpr::Ret(a), result, st, cx, ind) matches Ok(end) ==> (atom_code(
            a,
            st.types,
            cx.lits,
        ) matches Ok((_, ex)) && end == (St {
            out: st.out + assignment(result, ex, ind),
            ..st
        })),
        iexpr_code(
            IExpr::Let(x, bind, Box::new(body)),
            result,
            st,
            cx,
            ind,
        ) matches Ok(end) ==> {
            let t = type_of_bind(bind, st.types, cx)->Ok_0;
            let s0 = St {
                out: st.out + (ind + (t.declared() + (" "@ + (var_name(x@) + ";\n"@)))),
                ..st
            };
            let s1 = bind_code(bind, var_name(x@), s0, cx, ind)->Ok_0;
            &&& type_of_bind(bind, st.types, cx) is Ok
            &&& bind_code(bind, var_name(x@), s0, cx, ind) is Ok
            &&& iexpr_code(
                body,
                result,
                St { types: s1.types.insert(x@, t), ..s1 },
                cx,
                ind,
            ) == Ok::<St, Seq<char>>(end)
        },
        iexpr_code(IExpr::Dup(x, Box::new(body)), result, st, cx, ind) matches Ok(end) ==> (
        type_of_var(st.types, x@) matches Ok(t) && iexpr_code(
            body,
            result,
            counted(st, t, "dup"@, x@, ind),
            cx,
            ind,
        ) == Ok::<St, Seq<char>>(end)),
        iexpr_code(IExpr::Drop(x, Box::new(body)), result, st, cx, ind) matches Ok(end) ==> (
        type_of_var(st.types, x@) matches Ok(t) && iexpr_code(
            body,
            result,
            counted(st, t, "drop"@, x@, ind),
            cx,
            ind,
        ) == Ok::<St, Seq<char>>(end)),
{
    if let Ok((_, ex)) = atom_code(a, st.types, cx.lits) {
        lemma_assignment(ind, result, ex);
    }
    if let Ok(t) = type_of_bind(bind, st.types, cx) {
        lemma_declared(ind, t.declared(), var_name(x@));
    }
}

/// What is bound to an operator is the operator on its own operands, in their order;
/// what is bound to an atom is the atom.
pub proof fn operators_are_bound(
    op: BinOp,
    un: UnOp,
    l: Atom,
    r: Atom,
    dst: Seq<char>,
    st: St,
    cx: CxV,
    ind: Seq<char>,
)
    ensures
        bind_code(Bind::Prim(op, l, r), dst, st, cx, ind) == prim_code(
            op,
            l,
            r,
            dst,
            st,
            cx.lits,
            ind,
        ),
        bind_code(Bind::Unary(un, l), dst, st, cx, ind) == unary_code(
            un,
            l,
            dst,
            st,
            cx.lits,
            ind,
        ),
        bind_code(Bind::Atom(l), dst, st, cx, ind) matches Ok(end) ==> (atom_code(
            l,
            st.types,
            cx.lits,
        ) matches Ok((_, ex)) && end == (St {
            out: st.out + assignment(dst, ex, ind),
            ..st
        })),
{
    if let Ok((_, ex)) = atom_code(l, st.types, cx.lits) {
        lemma_assignment(ind, dst, ex);
    }
}

// ---------------------------------------------------------------------------
// Floats that are no numbers
// ---------------------------------------------------------------------------

/// What dividing a number by zero gives in IEEE arithmetic.
pub enum ByZero {
    NotANumber,
    PlusInfinity,
    MinusInfinity,
}

/// A number divided by zero.
pub open spec fn by_zero(n: int) -> ByZero {
    if n == 0 {
        ByZero::NotANumber
    } else if n > 0 {
        ByZero::PlusInfinity
    } else {
        ByZero::MinusInfinity
    }
}

/// A literal that is no finite number is written as a quotient by zero that gives it; a
/// finite one as it is rendered.
pub proof fn literals_denote_their_float(f: FloatLit)
    ensures
        f.is_nan() || f.is_infinite() ==> exists|n: int|
            {
                &&& float_literal(f) == "("@ + (dec(n) + ".0/0.0)"@)
                &&& #[trigger] by_zero(n) == (if f.is_nan() {
                    ByZero::NotANumber
                } else if f.is_negative() {
                    ByZero::MinusInfinity
                } else {
                    ByZero::PlusInfinity
                })
            },
        !f.is_nan() && !f.is_infinite() ==> float_literal(f) == f.scientific@,
{
    reveal_strlit("(");
    reveal_strlit(".0/0.0)");
    reveal_strlit("(0.0/0.0)");
    reveal_strlit("(-1.0/0.0)");
    reveal_strlit("(1.0/0.0)");
    assert(digit(0) == '0' && digit(1) == '1');
    assert(dec(0) =~= seq!['0']);
    assert(dec(1) =~= seq!['1']);
    assert(dec(-1) =~= seq!['-', '1']);
    assert("("@ + (dec(0) + ".0/0.0)"@) =~= "(0.0/0.0)"@);
    assert("("@ + (dec(1) + ".0/0.0)"@) =~= "(1.0/0.0)"@);
    assert("("@ + (dec(-1) + ".0/0.0)"@) =~= "(-1.0/0.0)"@);
    assert(by_zero(0) == ByZero::NotANumber);
    assert(by_zero(1) == ByZero::PlusInfinity);
    assert(by_zero(-1) == ByZero::MinusInfinity);
}

// ---------------------------------------------------------------------------
// Arrays
// ---------------------------------------------------------------------------

proof fn lemma_len(ind: Seq<char>, dst: Seq<char>, a: Seq<char>)
    ensures
        fmt("{}{} = aria_array_len({});\n"@, seq![ind, dst, a]) == ind + (dst + (" = aria_array_len("@ + (a + ");\n"@))),
{
    reveal_strlit("{}{} = aria_array_len({});\n");
    reveal_strlit(" = aria_array_len(");
    reveal_strlit(");\n");
    assert("{}{} = aria_array_len({});\n"@ =~= Seq::<char>::empty() + (hole() + (Seq::<char>::empty() + (hole() + (" = aria_array_len("@ + (hole() + ");\n"@))))));
    lemma_fill3(Seq::<char>::empty(), Seq::<char>::empty(), " = aria_array_len("@, ");\n"@, ind, dst, a);
    assert(Seq::<char>::empty() + (ind + (Seq::<char>::empty() + (dst + (" = aria_array_len("@ + (a + ");\n"@))))) =~= ind + (dst + (" = aria_array_len("@ + (a + ");\n"@))));
}

proof fn lemma_get(a: Seq<char>, i: Seq<char>)
    ensures
        fmt("aria_array_get({}, {})"@, seq![a, i]) == "aria_array_get("@ + (a + (", "@ + (i + ")"@))),
{
    reveal_strlit("aria_array_get({}, {})");
    reveal_strlit(")");
    reveal_strlit(", ");
    reveal_strlit("aria_array_get(");
    assert("aria_array_get({}, {})"@ =~= "aria_array_get("@ + (hole() + (", "@ + (hole() + ")"@))));
    lemma_fill2("aria_array_get("@, ", "@, ")"@, a, i);
    assert("aria_array_get("@ + (a + (", "@ + (i + ")"@))) =~= "aria_array_get("@ + (a + (", "@ + (i + ")"@))));
}

proof fn lemma_put(ind: Seq<char>, dst: Seq<char>, a: Seq<char>, i: Seq<char>, v: Seq<char>)
    ensures
        fmt("{}{} = aria_array_set({}, {}, {});\n"@, seq![ind, dst, a, i, v]) == ind + (dst + (" = aria_array_set("@ + (a + (", "@ + (i + (", "@ + (v + ");\n"@))))))),
{
    reveal_strlit("{}{} = aria_array_set({}, {}, {});\n");
    reveal_strlit(" = aria_array_set(");
    reveal_strlit(");\n");
    reveal_strlit(", ");
    assert("{}{} = aria_array_set({}, {}, {});\n"@ =~= Seq::<char>::empty() + (hole() + (Seq::<char>::empty() + (hole() + (" = aria_array_set("@ + (hole() + (", "@ + (hole() + (", "@ + (hole() + ");\n"@))))))))));
    lemma_fill5(Seq::<char>::empty(), Seq::<char>::empty(), " = aria_array_set("@, ", "@, ", "@, ");\n"@, ind, dst, a, i, v);
    assert(Seq::<char>::empty() + (ind + (Seq::<char>::empty() + (dst + (" = aria_array_set("@ + (a + (", "@ + (i + (", "@ + (v + ");\n"@))))))))) =~= ind + (dst + (" = aria_array_set("@ + (a + (", "@ + (i + (", "@ + (v + ");\n"@))))))));
}

proof fn lemma_push(ind: Seq<char>, dst: Seq<char>, a: Seq<char>, v: Seq<char>, k: Seq<char>)
    ensures
        fmt("{}{} = aria_array_push({}, {}, INT64_C({}));\n"@, seq![ind, dst, a, v, k]) == ind + (dst + (" = aria_array_push("@ + (a + (", "@ + (v + (", INT64_C("@ + (k + "));\n"@))))))),
{
    reveal_strlit("{}{} = aria_array_push({}, {}, INT64_C({}));\n");
    reveal_strlit(" = aria_array_push(");
    reveal_strlit("));\n");
    reveal_strlit(", ");
    reveal_strlit(", INT64_C(");
    assert("{}{} = aria_array_push({}, {}, INT64_C({}));\n"@ =~= Seq::<char>::empty() + (hole() + (Seq::<char>::empty() + (hole() + (" = aria_array_push("@ + (hole() + (", "@ + (hole() + (", INT64_C("@ + (hole() + "));\n"@))))))))));
    lemma_fill5(Seq::<char>::empty(), Seq::<char>::empty(), " = aria_array_push("@, ", "@, ", INT64_C("@, "));\n"@, ind, dst, a, v, k);
    assert(Seq::<char>::empty() + (ind + (Seq::<char>::empty() + (dst + (" = aria_array_push("@ + (a + (", "@ + (v + (", INT64_C("@ + (k + "));\n"@))))))))) =~= ind + (dst + (" = aria_array_push("@ + (a + (", "@ + (v + (", INT64_C("@ + (k + "));\n"@))))))));
}

proof fn lemma_new(ind: Seq<char>, dst: Seq<char>, k: Seq<char>)
    ensures
        fmt("{}{} = aria_array_new(INT64_C({}));\n"@, seq![ind, dst, k]) == ind + (dst + (" = aria_array_new(INT64_C("@ + (k + "));\n"@))),
{
    reveal_strlit("{}{} = aria_array_new(INT64_C({}));\n");
    reveal_strlit(" = aria_array_new(INT64_C(");
    reveal_strlit("));\n");
    assert("{}{} = aria_array_new(INT64_C({}));\n"@ =~= Seq::<char>::empty() + (hole() + (Seq::<char>::empty() + (hole() + (" = aria_array_new(INT64_C("@ + (hole() + "));\n"@))))));
    lemma_fill3(Seq::<char>::empty(), Seq::<char>::empty(), " = aria_array_new(INT64_C("@, "));\n"@, ind, dst, k);
    assert(Seq::<char>::empty() + (ind + (Seq::<char>::empty() + (dst + (" = aria_array_new(INT64_C("@ + (k + "));\n"@))))) =~= ind + (dst + (" = aria_array_new(INT64_C("@ + (k + "));\n"@))));
}

/// A call of a function of the runtime with up to three arguments.
pub open spec fn call_text(f: Seq<char>, args: Seq<Seq<char>>) -> Seq<char> {
    f + ("("@ + ((if args.len() == 1 {
        args[0]
    } else if args.len() == 2 {
        args[0] + (", "@ + args[1])
    } else {
        args[0] + (", "@ + (args[1] + (", "@ + args[2])))
    }) + ")"@))
}

/// The number of a kind as a C integer.
pub open spec fn kind_text(kind: ElemKind) -> Seq<char> {
    "INT64_C("@ + (dec(kind.code_of()) + ")"@)
}

proof fn lemma_array_names(base: Seq<char>)
    ensures
        array_op(base) == Some(ArrayOp::New) ==> "aria_"@ + base == "aria_array_new"@,
        array_op(base) == Some(ArrayOp::Len) ==> "aria_"@ + base == "aria_array_len"@,
        array_op(base) == Some(ArrayOp::Get) ==> "aria_"@ + base == "aria_array_get"@,
        array_op(base) == Some(ArrayOp::Put) ==> "aria_"@ + base == "aria_array_set"@,
        array_op(base) == Some(ArrayOp::Push) ==> "aria_"@ + base == "aria_array_push"@,
{
    reveal_strlit("aria_");
    reveal_strlit("array_new");
    reveal_strlit("array_len");
    reveal_strlit("array_get");
    reveal_strlit("array_set");
    reveal_strlit("array_push");
    reveal_strlit("aria_array_new");
    reveal_strlit("aria_array_len");
    reveal_strlit("aria_array_get");
    reveal_strlit("aria_array_set");
    reveal_strlit("aria_array_push");
    assert("aria_"@ + "array_new"@ =~= "aria_array_new"@);
    assert("aria_"@ + "array_len"@ =~= "aria_array_len"@);
    assert("aria_"@ + "array_get"@ =~= "aria_array_get"@);
    assert("aria_"@ + "array_set"@ =~= "aria_array_set"@);
    assert("aria_"@ + "array_push"@ =~= "aria_array_push"@);
}

/// An operation on an array calls the function of the runtime that is named after its
/// builtin, with the array first, then the index, then the value in its slot; a value
/// that is read comes out of its slot.
pub proof fn array_operations_keep_their_order(
    base: Seq<char>,
    op: ArrayOp,
    kind: ElemKind,
    args: Seq<Atom>,
    dst: Seq<char>,
    st: St,
    lits: Seq<Seq<char>>,
    ind: Seq<char>,
)
    requires
        array_op(base) == Some(op),
        op != ArrayOp::Lit,
    ensures
        array_code(op, kind, args, dst, st, lits, ind) matches Ok(end) ==> {
            let f = "aria_"@ + base;
            let (t0, a0) = atom_code(args[0], st.types, lits)->Ok_0;
            let (t1, a1) = atom_code(args[1], st.types, lits)->Ok_0;
            let (t2, a2) = atom_code(args[2], st.types, lits)->Ok_0;
            let value = match op {
                ArrayOp::New => call_text(f, seq![kind_text(kind)]),
                ArrayOp::Len => call_text(f, seq![a0]),
                ArrayOp::Get => SlotKind::holding(kind.ctype()).decoded(
                    call_text(f, seq![a0, a1]),
                ),
                ArrayOp::Put => call_text(f, seq![a0, a1, element_slot(kind, t2, a2)->Ok_0]),
                _ => call_text(
                    f,
                    seq![a0, element_slot(kind, t1, a1)->Ok_0, kind_text(kind)],
                ),
            };
            end == (St { out: st.out + assignment(dst, value, ind), ..st })
        },
{
    if let Ok(end) = array_code(op, kind, args, dst, st, lits, ind) {
        lemma_array_names(base);
        let (t0, a0) = atom_code(args[0], st.types, lits)->Ok_0;
        let (t1, a1) = atom_code(args[1], st.types, lits)->Ok_0;
        let (t2, a2) = atom_code(args[2], st.types, lits)->Ok_0;
        let k = dec(kind.code_of());
        lemma_array_texts(dst, a0, a1, element_slot(kind, t2, a2)->Ok_0, k, ind);
        lemma_array_texts(dst, a0, element_slot(kind, t1, a1)->Ok_0, a2, k, ind);
        let r = SlotKind::holding(kind.ctype()).decoded(call_text("aria_array_get"@, seq![a0, a1]));
        lemma_assignment(ind, dst, r);
    }
}

proof fn lemma_array_texts(
    dst: Seq<char>,
    a: Seq<char>,
    i: Seq<char>,
    v: Seq<char>,
    k: Seq<char>,
    ind: Seq<char>,
)
    ensures
        fmt("{}{} = aria_array_new(INT64_C({}));\n"@, seq![ind, dst, k]) == assignment(
            dst,
            call_text("aria_array_new"@, seq!["INT64_C("@ + (k + ")"@)]),
            ind,
        ),
        fmt("{}{} = aria_array_len({});\n"@, seq![ind, dst, a]) == assignment(
            dst,
            call_text("aria_array_len"@, seq![a]),
            ind,
        ),
        fmt("aria_array_get({}, {})"@, seq![a, i]) == call_text("aria_array_get"@, seq![a, i]),
        fmt("{}{} = aria_array_set({}, {}, {});\n"@, seq![ind, dst, a, i, v]) == assignment(
            dst,
            call_text("aria_array_set"@, seq![a, i, v]),
            ind,
        ),
        fmt("{}{} = aria_array_push({}, {}, INT64_C({}));\n"@, seq![ind, dst, a, i, k])
            == assignment(
            dst,
            call_text("aria_array_push"@, seq![a, i, "INT64_C("@ + (k + ")"@)]),
            ind,
        ),
{
    lemma_new(ind, dst, k);
    lemma_len(ind, dst, a);
    lemma_get(a, i);
    lemma_put(ind, dst, a, i, v);
    lemma_push(ind, dst, a, i, k);
    reveal_strlit(" = ");
    reveal_strlit("(");
    reveal_strlit(")");
    reveal_strlit(";\n");
    reveal_strlit(");\n");
    reveal_strlit("));\n");
    reveal_strlit("INT64_C(");
    reveal_strlit(", ");
    reveal_strlit(", INT64_C(");
    reveal_strlit("aria_array_new");
    reveal_strlit("aria_array_len");
    reveal_strlit("aria_array_get");
    reveal_strlit("aria_array_set");
    reveal_strlit("aria_array_push");
    reveal_strlit("aria_array_get(");
    reveal_strlit(" = aria_array_new(INT64_C(");
    reveal_strlit(" = aria_array_len(");
    reveal_strlit(" = aria_array_set(");
    reveal_strlit(" = aria_array_push(");
    assert(" = aria_array_new(INT64_C("@ =~= " = "@ + ("aria_array_new"@ + ("("@ + "INT64_C("@)));
    assert(" = aria_array_len("@ =~= " = "@ + ("aria_array_len"@ + "("@));
    assert(" = aria_array_set("@ =~= " = "@ + ("aria_array_set"@ + "("@));
    assert(" = aria_array_push("@ =~= " = "@ + ("aria_array_push"@ + "("@));
    assert("aria_array_get("@ =~= "aria_array_get"@ + "("@);
    assert(", INT64_C("@ =~= ", "@ + "INT64_C("@);
    assert(");\n"@ =~= ")"@ + ";\n"@);
    assert("));\n"@ =~= ")"@ + (")"@ + ";\n"@));
    lemma_call_parts(" = "@, "aria_array_new"@, "INT64_C("@ + (k + ")"@), ";\n"@);
    lemma_call_parts(" = "@, "aria_array_len"@, a, ";\n"@);
    lemma_call_parts(" = "@, "aria_array_set"@, a + (", "@ + (i + (", "@ + v))), ";\n"@);
    let kt = "INT64_C("@ + (k + ")"@);
    lemma_call_parts(" = "@, "aria_array_push"@, a + (", "@ + (i + (", "@ + kt))), ";\n"@);
    let e = ")"@ + ";\n"@;
    assert(("INT64_C("@ + (k + ")"@)) + e =~= "INT64_C("@ + (k + (")"@ + e)));
    assert((a + (", "@ + (i + (", "@ + v)))) + e =~= a + (", "@ + (i + (", "@ + (v + e)))));
    assert((a + (", "@ + (i + (", "@ + kt)))) + e =~= a + (", "@ + (i + ((", "@ + "INT64_C("@) + (k
        + (")"@ + e))))));
    let open = " = "@ + ("aria_array_new"@ + "("@);
    assert(open + ("INT64_C("@ + (k + (")"@ + e))) =~= (" = "@ + ("aria_array_new"@ + ("("@
        + "INT64_C("@))) + (k + (")"@ + e)));
    assert(("aria_array_get"@ + "("@) + (a + (", "@ + (i + ")"@))) =~= "aria_array_get"@ + ("("@ + ((a
        + (", "@ + i)) + ")"@)));
}

proof fn lemma_call_parts(eq: Seq<char>, f: Seq<char>, x: Seq<char>, end: Seq<char>)
    ensures
        eq + ((f + ("("@ + (x + ")"@))) + end) == (eq + (f + "("@)) + (x + (")"@ + end)),
{
    assert(eq + ((f + ("("@ + (x + ")"@))) + end) =~= (eq + (f + "("@)) + (x + (")"@ + end)));
}

// ---------------------------------------------------------------------------
// Maps and sets
// ---------------------------------------------------------------------------

proof fn lemma_keyed(f: Seq<char>, m: Seq<char>, k: Seq<char>, v: Seq<char>, c: Seq<char>, d: Seq<char>)
    ensures
        fmt("{}({}, {}, {}, INT64_C({}), INT64_C({}))"@, seq![f, m, k, v, c, d]) == f + ("("@ + (m + (", "@ + (k + (", "@ + (v + (", INT64_C("@ + (c + ("), INT64_C("@ + (d + "))"@)))))))))),
{
    reveal_strlit("{}({}, {}, {}, INT64_C({}), INT64_C({}))");
    reveal_strlit("(");
    reveal_strlit("))");
    reveal_strlit("), INT64_C(");
    reveal_strlit(", ");
    reveal_strlit(", INT64_C(");
    assert("{}({}, {}, {}, INT64_C({}), INT64_C({}))"@ =~= Seq::<char>::empty() + (hole() + ("("@ + (hole() + (", "@ + (hole() + (", "@ + (hole() + (", INT64_C("@ + (hole() + ("), INT64_C("@ + (hole() + "))"@))))))))))));
    lemma_fill6(Seq::<char>::empty(), "("@, ", "@, ", "@, ", INT64_C("@, "), INT64_C("@, "))"@, f, m, k, v, c, d);
    assert(Seq::<char>::empty() + (f + ("("@ + (m + (", "@ + (k + (", "@ + (v + (", INT64_C("@ + (c + ("), INT64_C("@ + (d + "))"@))))))))))) =~= f + ("("@ + (m + (", "@ + (k + (", "@ + (v + (", INT64_C("@ + (c + ("), INT64_C("@ + (d + "))"@)))))))))));
}

proof fn lemma_member(f: Seq<char>, m: Seq<char>, k: Seq<char>, c: Seq<char>)
    ensures
        fmt("{}({}, {}, INT64_C({}))"@, seq![f, m, k, c]) == f + ("("@ + (m + (", "@ + (k + (", INT64_C("@ + (c + "))"@)))))),
{
    reveal_strlit("{}({}, {}, INT64_C({}))");
    reveal_strlit("(");
    reveal_strlit("))");
    reveal_strlit(", ");
    reveal_strlit(", INT64_C(");
    assert("{}({}, {}, INT64_C({}))"@ =~= Seq::<char>::empty() + (hole() + ("("@ + (hole() + (", "@ + (hole() + (", INT64_C("@ + (hole() + "))"@))))))));
    lemma_fill4(Seq::<char>::empty(), "("@, ", "@, ", INT64_C("@, "))"@, f, m, k, c);
    assert(Seq::<char>::empty() + (f + ("("@ + (m + (", "@ + (k + (", INT64_C("@ + (c + "))"@))))))) =~= f + ("("@ + (m + (", "@ + (k + (", INT64_C("@ + (c + "))"@)))))));
}

proof fn lemma_alone(f: Seq<char>, m: Seq<char>)
    ensures
        fmt("{}({})"@, seq![f, m]) == f + ("("@ + (m + ")"@)),
{
    reveal_strlit("{}({})");
    reveal_strlit("(");
    reveal_strlit(")");
    assert("{}({})"@ =~= Seq::<char>::empty() + (hole() + ("("@ + (hole() + ")"@))));
    lemma_fill2(Seq::<char>::empty(), "("@, ")"@, f, m);
    assert(Seq::<char>::empty() + (f + ("("@ + (m + ")"@))) =~= f + ("("@ + (m + ")"@)));
}

proof fn lemma_listed(f: Seq<char>, m: Seq<char>, c: Seq<char>, d: Seq<char>)
    ensures
        fmt("{}({}, INT64_C({}), INT64_C({}))"@, seq![f, m, c, d]) == f + ("("@ + (m + (", INT64_C("@ + (c + ("), INT64_C("@ + (d + "))"@)))))),
{
    reveal_strlit("{}({}, INT64_C({}), INT64_C({}))");
    reveal_strlit("(");
    reveal_strlit("))");
    reveal_strlit("), INT64_C(");
    reveal_strlit(", INT64_C(");
    assert("{}({}, INT64_C({}), INT64_C({}))"@ =~= Seq::<char>::empty() + (hole() + ("("@ + (hole() + (", INT64_C("@ + (hole() + ("), INT64_C("@ + (hole() + "))"@))))))));
    lemma_fill4(Seq::<char>::empty(), "("@, ", INT64_C("@, "), INT64_C("@, "))"@, f, m, c, d);
    assert(Seq::<char>::empty() + (f + ("("@ + (m + (", INT64_C("@ + (c + ("), INT64_C("@ + (d + "))"@))))))) =~= f + ("("@ + (m + (", INT64_C("@ + (c + ("), INT64_C("@ + (d + "))"@)))))));
}

proof fn lemma_made_map(f: Seq<char>, c: Seq<char>, d: Seq<char>)
    ensures
        fmt("{}(INT64_C({}), INT64_C({}))"@, seq![f, c, d]) == f + ("(INT64_C("@ + (c + ("), INT64_C("@ + (d + "))"@)))),
{
    reveal_strlit("{}(INT64_C({}), INT64_C({}))");
    reveal_strlit("(INT64_C(");
    reveal_strlit("))");
    reveal_strlit("), INT64_C(");
    assert("{}(INT64_C({}), INT64_C({}))"@ =~= Seq::<char>::empty() + (hole() + ("(INT64_C("@ + (hole() + ("), INT64_C("@ + (hole() + "))"@))))));
    lemma_fill3(Seq::<char>::empty(), "(INT64_C("@, "), INT64_C("@, "))"@, f, c, d);
    assert(Seq::<char>::empty() + (f + ("(INT64_C("@ + (c + ("), INT64_C("@ + (d + "))"@))))) =~= f + ("(INT64_C("@ + (c + ("), INT64_C("@ + (d + "))"@)))));
}

proof fn lemma_made_set(f: Seq<char>, c: Seq<char>)
    ensures
        fmt("{}(INT64_C({}))"@, seq![f, c]) == f + ("(INT64_C("@ + (c + "))"@)),
{
    reveal_strlit("{}(INT64_C({}))");
    reveal_strlit("(INT64_C(");
    reveal_strlit("))");
    assert("{}(INT64_C({}))"@ =~= Seq::<char>::empty() + (hole() + ("(INT64_C("@ + (hole() + "))"@))));
    lemma_fill2(Seq::<char>::empty(), "(INT64_C("@, "))"@, f, c);
    assert(Seq::<char>::empty() + (f + ("(INT64_C("@ + (c + "))"@))) =~= f + ("(INT64_C("@ + (c + "))"@)));
}

/// A value in its slot, as an argument.
pub open spec fn slot_of(t: CType, ex: Seq<char>) -> Seq<char> {
    SlotKind::holding(t).encoded(ex)
}

/// The code of a type's slot, as an argument.
pub open spec fn code_text(t: CType) -> Seq<char> {
    dec(SlotKind::holding(t).code_of())
}

/// An operation on a map or a set hands over the container first, then the key or the
/// element, then the value, each in the slot of its type; then the code of the key's
/// slot and that of the value's. A default that comes back is read out of its slot.
pub proof fn map_operations_keep_their_order(
    op: MapSetOp,
    name: Seq<char>,
    ts: Seq<CType>,
    exs: Seq<Seq<char>>,
)
    ensures
        ({
            let f = map_set_fn(op);
            let keyed = f + ("("@ + (exs[0] + (", "@ + (slot_of(ts[1], exs[1]) + (", "@ + (slot_of(
                ts[2],
                exs[2],
            ) + (", INT64_C("@ + (code_text(ts[1]) + ("), INT64_C("@ + (code_text(ts[2])
                + "))"@))))))))));
            let member = f + ("("@ + (exs[0] + (", "@ + (slot_of(ts[1], exs[1]) + (", INT64_C("@ + (
            code_text(ts[1]) + "))"@))))));
            let alone = f + ("("@ + (exs[0] + ")"@));
            let value = map_set_value(op, name, ts, exs);
            &&& op == MapSetOp::MapInsert ==> value == keyed
            &&& op == MapSetOp::MapGetOr ==> value == SlotKind::holding(ts[2]).decoded(keyed)
            &&& op == MapSetOp::MapHas || op == MapSetOp::MapRemove || op == MapSetOp::SetAdd || op
                == MapSetOp::SetHas || op == MapSetOp::SetRemove ==> value == member
            &&& op == MapSetOp::MapLen || op == MapSetOp::MapShow || op == MapSetOp::SetLen || op
                == MapSetOp::SetShow ==> value == alone
            &&& op == MapSetOp::MapNew ==> value == f + ("(INT64_C("@ + (dec(
                suffix_kinds(name).0.code_of(),
            ) + ("), INT64_C("@ + (dec(suffix_kinds(name).1.code_of()) + "))"@))))
            &&& op == MapSetOp::SetNew ==> value == f + ("(INT64_C("@ + (dec(
                suffix_kinds(name).0.code_of(),
            ) + "))"@))
        }),
{
    let f = map_set_fn(op);
    let k = slot_of(ts[1], exs[1]);
    let v = slot_of(ts[2], exs[2]);
    lemma_keyed(f, exs[0], k, v, code_text(ts[1]), code_text(ts[2]));
    lemma_member(f, exs[0], k, code_text(ts[1]));
    lemma_alone(f, exs[0]);
    let (a, b) = suffix_kinds(name);
    lemma_made_map(f, dec(a.code_of()), dec(b.code_of()));
    lemma_made_set(f, dec(a.code_of()));
}

/// The keys of a map are listed by the kind of its keys, the values by the kind of its
/// values, and the elements of a set by theirs.
pub proof fn listings_go_by_their_kind(
    name: Seq<char>,
    m: Seq<char>,
    k: SlotKind,
    v: SlotKind,
)
    ensures
        ({
            let ts = seq![CType::Dict(k, v)];
            let set = seq![CType::Bag(k)];
            let exs = seq![m];
            &&& map_set_value(MapSetOp::MapKeys, name, ts, exs) == listing(
                map_set_fn(MapSetOp::MapKeys),
                m,
                k,
            )
            &&& map_set_value(MapSetOp::MapValues, name, ts, exs) == listing(
                map_set_fn(MapSetOp::MapValues),
                m,
                v,
            )
            &&& map_set_value(MapSetOp::SetToArray, name, set, exs) == listing(
                map_set_fn(MapSetOp::SetToArray),
                m,
                k,
            )
        }),
{
    lemma_listed(map_set_fn(MapSetOp::MapKeys), m, dec(k.code_of()), enumerated_code(k));
    lemma_listed(map_set_fn(MapSetOp::MapValues), m, dec(v.code_of()), enumerated_code(v));
    lemma_listed(map_set_fn(MapSetOp::SetToArray), m, dec(k.code_of()), enumerated_code(k));
}

/// The listing of a container's slots of a kind.
pub open spec fn listing(f: Seq<char>, m: Seq<char>, k: SlotKind) -> Seq<char> {
    f + ("("@ + (m + (", INT64_C("@ + (dec(k.code_of()) + ("), INT64_C("@ + (dec(
        ElemKind::holding(k.ctype()).code_of(),
    ) + "))"@))))))
}

} // verus!
