//! How values lie in slots, and how branches are laid out.

use vstd::prelude::*;
use vstd::string::*;

use crate::ast::{BinOp, UnOp};
use crate::c_backend::body::{bind_code, branch_code, deeper};
use crate::c_backend::emit::{counted, equality_fn, managed_stem, St};
use crate::c_backend::env::{atom_code, type_of_atom, CxV, Types};
use crate::c_backend::infer::type_of_bind;
use crate::c_backend::kinds::{CType, ElemKind, SlotKind};
use crate::c_backend::mangle::var_name;
use crate::c_backend::meaning::{
    compared_by, defined, heap_of, lemma_compared, meaning, unary_defined, Outcome, World,
};
use crate::grad_native::model::{c_op, infix};
use crate::ir::{Atom, Bind, IExpr};
use crate::text::pieces::{hole, lemma_fill1, lemma_fill2, lemma_fill3, lemma_fill4};
use crate::text::fmt;

verus! {

// ---------------------------------------------------------------------------
// Kinds
// ---------------------------------------------------------------------------

/// Whether a type says what its elements are.
pub open spec fn container(t: CType) -> bool {
    t is Array || t is Dict || t is Bag
}

/// The kind of a type's slot tells the type again, but for what a container holds;
/// exactly the reference-counted values are pointers in C.
pub proof fn kinds_tell_the_type(t: CType, k: ElemKind, s: SlotKind)
    ensures
        !container(t) ==> ElemKind::holding(t).ctype() == t && SlotKind::holding(t).ctype() == t,
        t is Array <==> ElemKind::holding(t) == ElemKind::Array,
        t is Dict <==> ElemKind::holding(t) == ElemKind::Dict,
        t is Bag <==> ElemKind::holding(t) == ElemKind::Bag,
        ElemKind::holding(k.ctype()) == k,
        SlotKind::holding(s.ctype()) == s,
        SlotKind::holding(t).ctype() == ElemKind::holding(t).ctype(),
        t.managed() <==> t.declared() == "void*"@,
        t == CType::Float <==> t.declared() == "double"@,
{
    reveal_strlit("void*");
    reveal_strlit("double");
    reveal_strlit("int64_t");
    assert("void*"@.len() == 5 && "double"@.len() == 6 && "int64_t"@.len() == 7);
}

/// A suffix means the same to an array and to a map or set, no two suffixes mean the
/// same, and every kind has one. What is no suffix of an array is a cell to a map.
pub proof fn suffixes_are_kinds(c: char, d: char, k: ElemKind)
    ensures
        ElemKind::tagged(c) matches Some(e) ==> SlotKind::tagged(c).ctype() == e.ctype(),
        ElemKind::tagged(c) is Some && ElemKind::tagged(c) == ElemKind::tagged(d) ==> c == d,
        ElemKind::tagged(c) is None ==> SlotKind::tagged(c) == SlotKind::Ref,
        exists|x: char| #[trigger] ElemKind::tagged(x) == Some(k),
{
    let x = match k {
        ElemKind::Int => 'i',
        ElemKind::Bool => 'o',
        ElemKind::Float => 'f',
        ElemKind::Str => 's',
        ElemKind::Ref => 'r',
        ElemKind::Bytes => 'b',
        ElemKind::Array => 'a',
        ElemKind::Dict => 'm',
        ElemKind::Bag => 'e',
        ElemKind::Vector => 'v',
    };
    assert(ElemKind::tagged(x) == Some(k));
}

// ---------------------------------------------------------------------------
// Slots
// ---------------------------------------------------------------------------

/// A C value: an integer, a double with its bits, or a pointer with its address.
pub enum CVal {
    Whole(int),
    Double(int),
    Pointer(int),
}

/// A C conversion, by its text.
pub open spec fn converted(by: Seq<char>, v: CVal) -> Option<CVal> {
    match v {
        CVal::Whole(n) => if by == ""@ || by == "(int64_t)"@ {
            Some(v)
        } else if by == "aria_i2f"@ {
            Some(CVal::Double(n))
        } else if by == "(void*)(uintptr_t)"@ {
            Some(CVal::Pointer(n))
        } else {
            None
        },
        CVal::Double(n) => if by == "aria_f2i"@ {
            Some(CVal::Whole(n))
        } else {
            None
        },
        CVal::Pointer(n) => if by == "(int64_t)(uintptr_t)"@ {
            Some(CVal::Whole(n))
        } else {
            None
        },
    }
}

/// The text of a conversion of an expression.
pub open spec fn conversion(by: Seq<char>, ex: Seq<char>) -> Seq<char> {
    if by == ""@ {
        ex
    } else {
        by + ("("@ + (ex + ")"@))
    }
}

/// Whether a C value is one of a type.
pub open spec fn value_of(t: CType, v: CVal) -> bool {
    match v {
        CVal::Whole(_) => t == CType::Int || t == CType::Bool,
        CVal::Double(_) => t == CType::Float,
        CVal::Pointer(_) => t.managed(),
    }
}

proof fn lemma_whole(ex: Seq<char>)
    ensures
        fmt("(int64_t)({})"@, seq![ex]) == "(int64_t)("@ + (ex + ")"@),
{
    reveal_strlit("(int64_t)({})");
    reveal_strlit("(int64_t)(");
    reveal_strlit(")");
    assert("(int64_t)({})"@ =~= "(int64_t)("@ + (hole() + ")"@));
    lemma_fill1("(int64_t)("@, ")"@, ex);
    assert("(int64_t)("@ + (ex + ")"@) =~= "(int64_t)("@ + (ex + ")"@));
}

proof fn lemma_bits(ex: Seq<char>)
    ensures
        fmt("aria_f2i({})"@, seq![ex]) == "aria_f2i("@ + (ex + ")"@),
{
    reveal_strlit("aria_f2i({})");
    reveal_strlit(")");
    reveal_strlit("aria_f2i(");
    assert("aria_f2i({})"@ =~= "aria_f2i("@ + (hole() + ")"@));
    lemma_fill1("aria_f2i("@, ")"@, ex);
    assert("aria_f2i("@ + (ex + ")"@) =~= "aria_f2i("@ + (ex + ")"@));
}

proof fn lemma_address(ex: Seq<char>)
    ensures
        fmt("(int64_t)(uintptr_t)({})"@, seq![ex]) == "(int64_t)(uintptr_t)("@ + (ex + ")"@),
{
    reveal_strlit("(int64_t)(uintptr_t)({})");
    reveal_strlit("(int64_t)(uintptr_t)(");
    reveal_strlit(")");
    assert("(int64_t)(uintptr_t)({})"@ =~= "(int64_t)(uintptr_t)("@ + (hole() + ")"@));
    lemma_fill1("(int64_t)(uintptr_t)("@, ")"@, ex);
    assert("(int64_t)(uintptr_t)("@ + (ex + ")"@) =~= "(int64_t)(uintptr_t)("@ + (ex + ")"@));
}

proof fn lemma_unbits(ex: Seq<char>)
    ensures
        fmt("aria_i2f({})"@, seq![ex]) == "aria_i2f("@ + (ex + ")"@),
{
    reveal_strlit("aria_i2f({})");
    reveal_strlit(")");
    reveal_strlit("aria_i2f(");
    assert("aria_i2f({})"@ =~= "aria_i2f("@ + (hole() + ")"@));
    lemma_fill1("aria_i2f("@, ")"@, ex);
    assert("aria_i2f("@ + (ex + ")"@) =~= "aria_i2f("@ + (ex + ")"@));
}

proof fn lemma_unaddress(ex: Seq<char>)
    ensures
        fmt("(void*)(uintptr_t)({})"@, seq![ex]) == "(void*)(uintptr_t)("@ + (ex + ")"@),
{
    reveal_strlit("(void*)(uintptr_t)({})");
    reveal_strlit("(void*)(uintptr_t)(");
    reveal_strlit(")");
    assert("(void*)(uintptr_t)({})"@ =~= "(void*)(uintptr_t)("@ + (hole() + ")"@));
    lemma_fill1("(void*)(uintptr_t)("@, ")"@, ex);
    assert("(void*)(uintptr_t)("@ + (ex + ")"@) =~= "(void*)(uintptr_t)("@ + (ex + ")"@));
}

proof fn lemma_conversions()
    ensures
        "(int64_t)("@ == "(int64_t)"@ + "("@,
        "aria_f2i("@ == "aria_f2i"@ + "("@,
        "(int64_t)(uintptr_t)("@ == "(int64_t)(uintptr_t)"@ + "("@,
        "aria_i2f("@ == "aria_i2f"@ + "("@,
        "(void*)(uintptr_t)("@ == "(void*)(uintptr_t)"@ + "("@,
        ""@.len() == 0,
        "(int64_t)"@.len() == 9,
        "aria_f2i"@.len() == 8,
        "aria_i2f"@.len() == 8,
        "aria_i2f"@[5] == 'i',
        "aria_f2i"@[5] == 'f',
        "(int64_t)(uintptr_t)"@.len() == 20,
        "(void*)(uintptr_t)"@.len() == 18,
{
    reveal_strlit("");
    reveal_strlit("(");
    reveal_strlit("(int64_t)");
    reveal_strlit("(int64_t)(");
    reveal_strlit("aria_f2i");
    reveal_strlit("aria_f2i(");
    reveal_strlit("aria_i2f");
    reveal_strlit("aria_i2f(");
    reveal_strlit("(int64_t)(uintptr_t)");
    reveal_strlit("(int64_t)(uintptr_t)(");
    reveal_strlit("(void*)(uintptr_t)");
    reveal_strlit("(void*)(uintptr_t)(");
    assert("(int64_t)("@ =~= "(int64_t)"@ + "("@);
    assert("aria_f2i("@ =~= "aria_f2i"@ + "("@);
    assert("(int64_t)(uintptr_t)("@ =~= "(int64_t)(uintptr_t)"@ + "("@);
    assert("aria_i2f("@ =~= "aria_i2f"@ + "("@);
    assert("(void*)(uintptr_t)("@ =~= "(void*)(uintptr_t)"@ + "("@);
}

proof fn lemma_shape(lit: Seq<char>, by: Seq<char>, ex: Seq<char>)
    requires
        lit == by + "("@,
        by.len() > 0,
        ""@.len() == 0,
    ensures
        lit + (ex + ")"@) == conversion(by, ex),
{
    assert(lit + (ex + ")"@) =~= by + ("("@ + (ex + ")"@)));
}

pub(crate) proof fn lemma_ways(t: CType, ex: Seq<char>) -> (r: (Seq<char>, Seq<char>))
    ensures
        SlotKind::holding(t).encoded(ex) == conversion(r.0, ex),
        r.1 == if t == CType::Int || t == CType::Bool {
            ""@
        } else if t == CType::Float {
            "aria_i2f"@
        } else {
            "(void*)(uintptr_t)"@
        },
        forall|v: CVal| #[trigger]
            value_of(t, v) ==> (converted(r.0, v) matches Some(w) && w is Whole && converted(r.1, w)
                == Some(v)),
{
    lemma_conversions();
    if t == CType::Int || t == CType::Bool {
        lemma_whole(ex);
        lemma_shape("(int64_t)("@, "(int64_t)"@, ex);
        ("(int64_t)"@, ""@)
    } else if t == CType::Float {
        lemma_bits(ex);
        lemma_shape("aria_f2i("@, "aria_f2i"@, ex);
        ("aria_f2i"@, "aria_i2f"@)
    } else {
        lemma_address(ex);
        lemma_shape("(int64_t)(uintptr_t)("@, "(int64_t)(uintptr_t)"@, ex);
        ("(int64_t)(uintptr_t)"@, "(void*)(uintptr_t)"@)
    }
}

/// What is stored in a slot reads back: the conversion into a slot makes an integer of
/// every value of the type, and the conversion out of it gives the value again.
pub proof fn slots_read_back(t: CType, ex: Seq<char>, slot: Seq<char>)
    ensures
        exists|into: Seq<char>, back: Seq<char>|
            {
                &&& SlotKind::holding(t).encoded(ex) == #[trigger] conversion(into, ex)
                &&& SlotKind::holding(t).decoded(slot) == #[trigger] conversion(back, slot)
                &&& forall|v: CVal| #[trigger]
                    value_of(t, v) ==> (converted(into, v) matches Some(w) && w is Whole
                        && converted(back, w) == Some(v))
            },
{
    lemma_conversions();
    let (into, back) = lemma_ways(t, ex);
    if t == CType::Float {
        lemma_unbits(slot);
        lemma_shape("aria_i2f("@, "aria_i2f"@, slot);
    } else if t.managed() {
        lemma_unaddress(slot);
        lemma_shape("(void*)(uintptr_t)("@, "(void*)(uintptr_t)"@, slot);
    }
    assert(SlotKind::holding(t).encoded(ex) == conversion(into, ex));
    assert(SlotKind::holding(t).decoded(slot) == conversion(back, slot));
}

// ---------------------------------------------------------------------------
// Types of operators
// ---------------------------------------------------------------------------

/// The declared type of an operator's result fits its meaning: a Bool is 0 or 1, and
/// anything else has the type of the operands, on which arithmetic is defined.
pub proof fn results_have_their_type(
    op: BinOp,
    l: Atom,
    r: Atom,
    types: Types,
    cx: CxV,
    t: CType,
    a: int,
    b: int,
    w: World,
)
    requires
        type_of_atom(l, types) == Ok::<CType, Seq<char>>(t),
        defined(op, t),
    ensures
        type_of_bind(Bind::Prim(op, l, r), types, cx) matches Ok(u) && {
            ||| u == CType::Bool && (meaning(op, t, a, b, w) == Outcome::Value(0) || meaning(
                op,
                t,
                a,
                b,
                w,
            ) == Outcome::Value(1))
            ||| u == t && t != CType::Bool && defined(BinOp::Add, t) && (op == BinOp::Add || op
                == BinOp::Sub || op == BinOp::Mul || op == BinOp::Div || op == BinOp::Mod)
        },
{
}

/// A unary operator keeps the type of its operand.
pub proof fn unary_results_keep_their_type(op: UnOp, a: Atom, types: Types, cx: CxV, t: CType)
    requires
        type_of_atom(a, types) == Ok::<CType, Seq<char>>(t),
        unary_defined(op, t),
    ensures
        type_of_bind(Bind::Unary(op, a), types, cx) == Ok::<CType, Seq<char>>(t),
{
}

// ---------------------------------------------------------------------------
// Branches
// ---------------------------------------------------------------------------

proof fn lemma_if_head(ind: Seq<char>, c: Seq<char>)
    ensures
        fmt("{}if ({}) {\n"@, seq![ind, c]) == ind + ("if ("@ + (c + ") {\n"@)),
{
    reveal_strlit("{}if ({}) {\n");
    reveal_strlit(") {\n");
    reveal_strlit("if (");
    assert("{}if ({}) {\n"@ =~= Seq::<char>::empty() + (hole() + ("if ("@ + (hole() + ") {\n"@))));
    lemma_fill2(Seq::<char>::empty(), "if ("@, ") {\n"@, ind, c);
    assert(Seq::<char>::empty() + (ind + ("if ("@ + (c + ") {\n"@))) =~= ind + ("if ("@ + (c + ") {\n"@)));
}

pub(crate) proof fn lemma_braces(ind: Seq<char>)
    ensures
        fmt("{}} else {\n"@, seq![ind]) == ind + "} else {\n"@,
        fmt("{}}\n"@, seq![ind]) == ind + "}\n"@,
        fmt("{}    "@, seq![ind]) == ind + "    "@,
{
    let none = Seq::<char>::empty();
    reveal_strlit("{}} else {\n");
    reveal_strlit("} else {\n");
    reveal_strlit("{}}\n");
    reveal_strlit("}\n");
    reveal_strlit("{}    ");
    reveal_strlit("    ");
    assert("{}} else {\n"@ =~= none + (hole() + "} else {\n"@));
    assert("{}}\n"@ =~= none + (hole() + "}\n"@));
    assert("{}    "@ =~= none + (hole() + "    "@));
    lemma_fill1(none, "} else {\n"@, ind);
    lemma_fill1(none, "}\n"@, ind);
    lemma_fill1(none, "    "@, ind);
    assert(none + (ind + "} else {\n"@) =~= ind + "} else {\n"@);
    assert(none + (ind + "}\n"@) =~= ind + "}\n"@);
    assert(none + (ind + "    "@) =~= ind + "    "@);
}

/// A conditional tests its own condition, a Bool; what runs where it holds is the first
/// branch, and what runs otherwise the second, each one level deeper.
pub proof fn conditionals_branch(
    c: Atom,
    yes: IExpr,
    no: IExpr,
    dst: Seq<char>,
    st: St,
    cx: CxV,
    ind: Seq<char>,
)
    ensures
        bind_code(
            Bind::If(c, Box::new(yes), Box::new(no)),
            dst,
            st,
            cx,
            ind,
        ) matches Ok(end) ==> {
            let (t, ex) = atom_code(c, st.types, cx.lits)->Ok_0;
            let inner = ind + "    "@;
            let s0 = St { out: st.out + (ind + ("if ("@ + (ex + ") {\n"@))), ..st };
            let s1 = branch_code(yes, dst, s0, cx, inner)->Ok_0;
            let s2 = St { out: s1.out + (ind + "} else {\n"@), ..s1 };
            let s3 = branch_code(no, dst, s2, cx, inner)->Ok_0;
            &&& atom_code(c, st.types, cx.lits) is Ok
            &&& t == CType::Bool
            &&& branch_code(yes, dst, s0, cx, inner) is Ok
            &&& branch_code(no, dst, s2, cx, inner) is Ok
            &&& end == St { out: s3.out + (ind + "}\n"@), ..s3 }
        },
{
    lemma_braces(ind);
    if let Ok((t, ex)) = atom_code(c, st.types, cx.lits) {
        lemma_if_head(ind, ex);
    }
}

// ---------------------------------------------------------------------------
// Conditions
// ---------------------------------------------------------------------------

proof fn lemma_condition(a: Seq<char>, op: Seq<char>, b: Seq<char>)
    ensures
        fmt("(({}) {} ({}))"@, seq![a, op, b]) == "(("@ + (a + (") "@ + (op + (" ("@ + (b + "))"@))))),
{
    reveal_strlit("(({}) {} ({}))");
    reveal_strlit(" (");
    reveal_strlit("((");
    reveal_strlit(") ");
    reveal_strlit("))");
    assert("(({}) {} ({}))"@ =~= "(("@ + (hole() + (") "@ + (hole() + (" ("@ + (hole() + "))"@))))));
    lemma_fill3("(("@, ") "@, " ("@, "))"@, a, op, b);
    assert("(("@ + (a + (") "@ + (op + (" ("@ + (b + "))"@))))) =~= "(("@ + (a + (") "@ + (op + (" ("@ + (b + "))"@))))));
}

/// A concrete operation is written with its operands in order, each in brackets, and
/// its own operator between them.
pub proof fn conditions_keep_their_order(a: Seq<char>, op: BinOp, b: Seq<char>)
    ensures
        infix(a, op, b) == "(("@ + (a + (") "@ + (c_op(op) + (" ("@ + (b + "))"@))))),
{
    lemma_condition(a, c_op(op), b);
}

// ---------------------------------------------------------------------------
// Reference counts
// ---------------------------------------------------------------------------

proof fn lemma_count(ind: Seq<char>, s: Seq<char>, op: Seq<char>, v: Seq<char>)
    ensures
        fmt("{}{}{}({});\n"@, seq![ind, s, op, v]) == ind + (s + (op + ("("@ + (v + ");\n"@)))),
{
    reveal_strlit("{}{}{}({});\n");
    reveal_strlit("(");
    reveal_strlit(");\n");
    assert("{}{}{}({});\n"@ =~= Seq::<char>::empty() + (hole() + (Seq::<char>::empty() + (hole() + (Seq::<char>::empty() + (hole() + ("("@ + (hole() + ");\n"@))))))));
    lemma_fill4(Seq::<char>::empty(), Seq::<char>::empty(), Seq::<char>::empty(), "("@, ");\n"@, ind, s, op, v);
    assert(Seq::<char>::empty() + (ind + (Seq::<char>::empty() + (s + (Seq::<char>::empty() + (op + ("("@ + (v + ");\n"@))))))) =~= ind + (s + (op + ("("@ + (v + ");\n"@)))));
}

/// The runtime counts the references of a value by the functions of its own sort: those
/// whose names start as the name of the function that compares such values. A value
/// that is no reference is not counted.
pub proof fn counting_is_by_sort(t: CType, st: St, op: Seq<char>, v: Seq<char>, ind: Seq<char>)
    ensures
        heap_of(t) is Some ==> exists|stem: Seq<char>|
            {
                &&& #[trigger] counted_by(st, stem, op, v, ind) == counted(st, t, op, v, ind)
                &&& stem.len() > 0
                &&& stem.last() == '_'
                &&& compared_by(stem + "eq_consume"@) == heap_of(t) || compared_by(
                    stem.drop_last() + "eq_consume"@,
                ) == heap_of(t)
            },
        t is Array ==> counted(st, t, op, v, ind) == counted_by(st, "aria_array_"@, op, v, ind),
        !t.managed() ==> counted(st, t, op, v, ind) == st,
{
    if let Some(s) = managed_stem(t) {
        lemma_count(ind, s, op, var_name(v));
        if heap_of(t) is Some {
            lemma_compared(t);
            lemma_stem(t);
            assert(counted_by(st, s, op, v, ind) == counted(st, t, op, v, ind));
        }
    }
}

/// A statement that counts a variable by the function of a stem.
pub open spec fn counted_by(
    st: St,
    stem: Seq<char>,
    op: Seq<char>,
    v: Seq<char>,
    ind: Seq<char>,
) -> St {
    St { out: st.out + (ind + (stem + (op + ("("@ + (var_name(v) + ");\n"@))))), ..st }
}

proof fn lemma_stem(t: CType)
    requires
        heap_of(t) is Some,
    ensures
        managed_stem(t) matches Some(s) && s.len() > 0 && s.last() == '_' && (equality_fn(t, t)->0
            == s + "eq_consume"@ || equality_fn(t, t)->0 == s.drop_last() + "eq_consume"@),
{
    reveal_strlit("eq_consume");
    match t {
        CType::Str => {
            reveal_strlit("aria_str_");
            reveal_strlit("aria_streq_consume");
            assert("aria_str_"@.drop_last() + "eq_consume"@ =~= "aria_streq_consume"@);
        },
        CType::Ref => {
            reveal_strlit("aria_");
            reveal_strlit("aria_eq_consume");
            assert("aria_"@ + "eq_consume"@ =~= "aria_eq_consume"@);
        },
        CType::Bytes => {
            reveal_strlit("aria_bytes_");
            reveal_strlit("aria_byteseq_consume");
            assert("aria_bytes_"@.drop_last() + "eq_consume"@ =~= "aria_byteseq_consume"@);
        },
        CType::Dict(_, _) => {
            reveal_strlit("aria_map_");
            reveal_strlit("aria_map_eq_consume");
            assert("aria_map_"@ + "eq_consume"@ =~= "aria_map_eq_consume"@);
        },
        CType::Bag(_) => {
            reveal_strlit("aria_set_");
            reveal_strlit("aria_set_eq_consume");
            assert("aria_set_"@ + "eq_consume"@ =~= "aria_set_eq_consume"@);
        },
        _ => {
            reveal_strlit("aria_vec_");
            reveal_strlit("aria_veceq_consume");
            assert("aria_vec_"@.drop_last() + "eq_consume"@ =~= "aria_veceq_consume"@);
        },
    }
}

} // verus!
