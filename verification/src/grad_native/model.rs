//! What the traced compilation of a function emits.

use vstd::prelude::*;
use vstd::string::*;

use crate::ast::model::{expr_view, ArmV, ExprV, FloatV, KindV, PatKindV, StmtKindV, StmtV};
use crate::ast::{BinOp, FnDecl, Item, UnOp};
use crate::text::{begins, dec, fmt};

verus! {

/// The greatest depth to which calls are inlined inside `f`. A straight-line call
/// graph is typically shallow; this bounds pathological nesting.
pub const MAX_INLINE_DEPTH: usize = 64;

/// The C value of a traced expression, by the name of the C local that holds it.
pub enum TValV {
    /// A tape node: an `int64_t` node id.
    Scalar(Seq<char>),
    /// A traced vector: an `AriaTVec` of node ids.
    Vector(Seq<char>),
    /// A concrete `int64_t`, never on the tape.
    Int(Seq<char>),
    /// A concrete `int` holding 0 or 1.
    Bool(Seq<char>),
}

/// A concrete forward value: a C expression, by its type.
pub enum FValV {
    Int(Seq<char>),
    Bool(Seq<char>),
    Float(Seq<char>),
}

/// A captured free variable of `f`: how it is used and, for a vector, the local
/// that it is lifted to.
pub struct CapV {
    pub name: Seq<char>,
    pub vector: bool,
    pub local: Seq<char>,
}

/// The state of a trace.
pub struct TrSt {
    pub caps: Seq<CapV>,
    pub tmp: nat,
    pub body: Seq<char>,
    pub prologue: Seq<char>,
}

/// The tables that a trace reads.
pub struct TrCx {
    pub items: Seq<Item>,
    pub wide: Seq<(i64, String)>,
}

/// The locals in scope; the last of a name counts.
pub type ScopeV = Seq<(Seq<char>, TValV)>;

/// A traced branch: its guard, its statements and its value.
pub type BranchV = (Seq<char>, Seq<char>, TValV);

// ---------------------------------------------------------------------------
// Lookups
// ---------------------------------------------------------------------------

/// The last function of a name among the first `n` items.
pub open spec fn fn_named(items: Seq<Item>, n: nat, name: Seq<char>) -> Option<FnDecl>
    decreases n,
{
    if n == 0 || n > items.len() {
        None
    } else {
        match items[n - 1] {
            Item::Fn(f) => if f.name@ == name {
                Some(f)
            } else {
                fn_named(items, (n - 1) as nat, name)
            },
            Item::Type(_) => fn_named(items, (n - 1) as nat, name),
        }
    }
}

/// The function of a name.
pub open spec fn function(cx: TrCx, name: Seq<char>) -> Option<FnDecl> {
    fn_named(cx.items, cx.items.len(), name)
}

/// The local of a name.
pub open spec fn local(scope: ScopeV, name: Seq<char>) -> Option<TValV>
    decreases scope.len(),
{
    if scope.len() == 0 {
        None
    } else if scope.last().0 == name {
        Some(scope.last().1)
    } else {
        local(scope.drop_last(), name)
    }
}

/// The capture of a name.
pub open spec fn find_cap(caps: Seq<CapV>, name: Seq<char>) -> Option<CapV>
    decreases caps.len(),
{
    if caps.len() == 0 {
        None
    } else if caps.last().name == name {
        Some(caps.last())
    } else {
        find_cap(caps.drop_last(), name)
    }
}

/// Whether an expression is a bare free variable of `f`: a name that is neither a
/// local nor a function.
pub open spec fn is_capture(e: ExprV, scope: ScopeV, cx: TrCx) -> bool {
    match e.kind {
        KindV::Var(n) => local(scope, n) is None && function(cx, n) is None,
        _ => false,
    }
}

/// The C parameter of a capture.
pub open spec fn cap_param(name: Seq<char>) -> Seq<char> {
    fmt("$cap_{}"@, seq![name])
}

// ---------------------------------------------------------------------------
// Constants
// ---------------------------------------------------------------------------

/// A float literal as a C `double` literal that reads back as the same number.
pub open spec fn double_text(f: FloatV) -> Seq<char> {
    let magnitude = f.bits % 0x8000_0000_0000_0000;
    if magnitude == 0x7FF0_0000_0000_0000 {
        if f.bits >= 0x8000_0000_0000_0000 {
            "(-1.0/0.0)"@
        } else {
            "(1.0/0.0)"@
        }
    } else if magnitude > 0x7FF0_0000_0000_0000 {
        "(0.0/0.0)"@
    } else if f.shortest.contains('.') || f.shortest.contains('e') || f.shortest.contains('E') {
        f.shortest
    } else {
        fmt("{}.0"@, seq![f.shortest])
    }
}

/// The rendering of an integer in a table: the first entry counts.
pub open spec fn wide_text(wide: Seq<(i64, String)>, n: i64) -> Option<Seq<char>>
    decreases wide.len(),
{
    if wide.len() == 0 {
        None
    } else if wide[0].0 == n {
        Some(wide[0].1@)
    } else {
        wide_text(wide.drop_first(), n)
    }
}

/// An integer literal as a C `double` literal. Up to 2^53 every integer is a
/// double, and its digits are the shortest rendering; beyond, the table gives the
/// rendering of the nearest double, and the digits stand where it does not.
pub open spec fn int_text(n: i64, wide: Seq<(i64, String)>) -> Seq<char> {
    let digits = fmt("{}.0"@, seq![dec(n as int)]);
    if -0x20_0000_0000_0000 <= n <= 0x20_0000_0000_0000 {
        digits
    } else {
        match wide_text(wide, n) {
            Some(s) => s,
            None => digits,
        }
    }
}

/// An integer that an `i64` can hold.
pub open spec fn in_range(n: int) -> Option<int> {
    if i64::MIN <= n <= i64::MAX {
        Some(n)
    } else {
        None
    }
}

/// The magnitude of an integer.
pub open spec fn magnitude(n: int) -> nat {
    if n < 0 {
        (-n) as nat
    } else {
        n as nat
    }
}

/// The quotient of two integers, rounded towards zero.
pub open spec fn quotient(a: int, b: int) -> int {
    let q = magnitude(a) as int / magnitude(b) as int;
    if (a < 0) == (b < 0) {
        q
    } else {
        -q
    }
}

/// The value of a constant integer index expression: a literal, or a negation,
/// sum, difference, product or quotient of such, as long as every step fits.
pub open spec fn const_int(e: ExprV) -> Option<int>
    decreases e,
{
    match e.kind {
        KindV::Int(n) => Some(n as int),
        KindV::Unary(UnOp::Neg, x) => match const_int(*x) {
            Some(n) => in_range(-n),
            None => None,
        },
        KindV::Binary(op, l, r) => match (const_int(*l), const_int(*r)) {
            (Some(a), Some(b)) => match op {
                BinOp::Add => in_range(a + b),
                BinOp::Sub => in_range(a - b),
                BinOp::Mul => in_range(a * b),
                BinOp::Div => if b != 0 {
                    in_range(quotient(a, b))
                } else {
                    None
                },
                _ => None,
            },
            _ => None,
        },
        _ => None,
    }
}

/// The elements of an inline array literal.
pub open spec fn array_elems(e: ExprV) -> Option<Seq<ExprV>> {
    match e.kind {
        KindV::Call(name, args) => if name == "array_lit"@ || begins(name, "array_lit$"@) {
            Some(args)
        } else {
            None
        },
        _ => None,
    }
}

/// The name of an expression's kind in messages.
pub open spec fn described(k: KindV) -> Seq<char> {
    match k {
        KindV::Record(_, _) => "a record literal"@,
        KindV::Field(_, _) => "a record field access"@,
        KindV::Update(_, _) => "a record update"@,
        KindV::Lambda(_, _, _) => "a lambda"@,
        KindV::Apply(_, _, _) => "a closure application"@,
        KindV::Ctor(_, _) => "a constructor"@,
        KindV::Str(_) => "a String"@,
        KindV::Bool(_) => "a Bool"@,
        KindV::Unit => "Unit"@,
        _ => "an unsupported construct"@,
    }
}

/// The name of an operator in messages.
pub open spec fn op_name(op: BinOp) -> Seq<char> {
    match op {
        BinOp::Add => "Add"@,
        BinOp::Sub => "Sub"@,
        BinOp::Mul => "Mul"@,
        BinOp::Div => "Div"@,
        BinOp::Mod => "Mod"@,
        BinOp::Eq => "Eq"@,
        BinOp::Ne => "Ne"@,
        BinOp::Lt => "Lt"@,
        BinOp::Le => "Le"@,
        BinOp::Gt => "Gt"@,
        BinOp::Ge => "Ge"@,
        BinOp::And => "And"@,
        BinOp::Or => "Or"@,
    }
}

/// An operator in C.
pub open spec fn c_op(op: BinOp) -> Seq<char> {
    match op {
        BinOp::Add => "+"@,
        BinOp::Sub => "-"@,
        BinOp::Mul => "*"@,
        BinOp::Div => "/"@,
        BinOp::Mod => "%"@,
        BinOp::Lt => "<"@,
        BinOp::Le => "<="@,
        BinOp::Gt => ">"@,
        BinOp::Ge => ">="@,
        BinOp::Eq => "=="@,
        BinOp::Ne => "!="@,
        BinOp::And => "&&"@,
        BinOp::Or => "||"@,
    }
}

/// Whether an operator compares.
pub open spec fn compares(op: BinOp) -> bool {
    match op {
        BinOp::Lt | BinOp::Le | BinOp::Gt | BinOp::Ge | BinOp::Eq | BinOp::Ne => true,
        _ => false,
    }
}

// ---------------------------------------------------------------------------
// Statements
// ---------------------------------------------------------------------------

/// The state with more emitted text.
pub open spec fn emit(st: TrSt, text: Seq<char>) -> TrSt {
    TrSt { body: st.body + text, ..st }
}

/// A fresh local.
pub open spec fn fresh(st: TrSt) -> Result<(Seq<char>, TrSt), Seq<char>> {
    if st.tmp >= usize::MAX {
        Err("grad: too many temporaries"@)
    } else {
        Ok((fmt("$g{}"@, seq![dec(st.tmp as int)]), TrSt { tmp: st.tmp + 1, ..st }))
    }
}

/// A constant leaf that holds a C `double` expression.
pub open spec fn leaf(text: Seq<char>, st: TrSt) -> Result<(TValV, TrSt), Seq<char>> {
    match fresh(st) {
        Err(m) => Err(m),
        Ok((t, s)) => Ok(
            (
                TValV::Scalar(t),
                emit(s, fmt("    int64_t {} = aria_tape_leaf(&$tp, {});\n"@, seq![t, text])),
            ),
        ),
    }
}

/// A use of a captured variable as a vector or as a scalar. A vector is lifted
/// once, in the prologue, so that the lifted local dominates every branch.
pub open spec fn captured(name: Seq<char>, vector: bool, st: TrSt) -> Result<
    (TValV, TrSt),
    Seq<char>,
> {
    match find_cap(st.caps, name) {
        Some(c) => if c.vector && vector {
            Ok((TValV::Vector(c.local), st))
        } else if c.vector {
            Err(
                fmt(
                    "grad: captured `{}` is used as both a Vector and a Float in `f`"@,
                    seq![name],
                ),
            )
        } else if !vector {
            leaf(cap_param(name), st)
        } else {
            Err(
                fmt(
                    "grad: captured `{}` is used as both a Float and a Vector in `f`"@,
                    seq![name],
                ),
            )
        },
        None => if vector {
            match fresh(st) {
                Err(m) => Err(m),
                Ok((t, s)) => Ok(
                    (
                        TValV::Vector(t),
                        TrSt {
                            caps: s.caps.push(CapV { name, vector: true, local: t }),
                            prologue: s.prologue + fmt(
                                "    AriaTVec {} = aria_tvec_from_vec(&$tp, {});\n"@,
                                seq![t, cap_param(name)],
                            ),
                            ..s
                        },
                    ),
                ),
            }
        } else {
            leaf(
                cap_param(name),
                TrSt {
                    caps: st.caps.push(CapV { name, vector: false, local: Seq::empty() }),
                    ..st
                },
            )
        },
    }
}

/// The value of a tape node.
pub open spec fn node_value(a: Seq<char>) -> Seq<char> {
    fmt("aria_tape_value(&$tp, {})"@, seq![a])
}

/// A differentiated binary operation: the value and the two partial derivatives.
pub open spec fn binary_code(op: BinOp, a: Seq<char>, b: Seq<char>, t: Seq<char>, st: TrSt) -> Result<
    (TValV, TrSt),
    Seq<char>,
> {
    let av = node_value(a);
    let bv = node_value(b);
    match op {
        BinOp::Add => Ok(
            (
                TValV::Scalar(t),
                emit(
                    st,
                    fmt(
                        "    int64_t {} = aria_tape_binary(&$tp, {}, {}, {} + {}, 1.0, 1.0);\n"@,
                        seq![t, a, b, av, bv],
                    ),
                ),
            ),
        ),
        BinOp::Sub => Ok(
            (
                TValV::Scalar(t),
                emit(
                    st,
                    fmt(
                        "    int64_t {} = aria_tape_binary(&$tp, {}, {}, {} - {}, 1.0, -1.0);\n"@,
                        seq![t, a, b, av, bv],
                    ),
                ),
            ),
        ),
        BinOp::Mul => Ok(
            (
                TValV::Scalar(t),
                emit(
                    st,
                    fmt(
                        "    int64_t {} = aria_tape_binary(&$tp, {}, {}, {} * {}, {}, {});\n"@,
                        seq![t, a, b, av, bv, bv, av],
                    ),
                ),
            ),
        ),
        BinOp::Div => Ok(
            (
                TValV::Scalar(t),
                emit(
                    emit(
                        emit(
                            st,
                            fmt(
                                "    if ({} == 0.0) aria_trap_msg(\"grad: division by zero in a differentiated value\");\n"@,
                                seq![bv],
                            ),
                        ),
                        fmt(
                            "    int64_t {} = aria_tape_binary(&$tp, {}, {}, {} / {}, "@,
                            seq![t, a, b, av, bv],
                        ),
                    ),
                    fmt(
                        "1.0 / ({}), -({}) / (({}) * ({})));\n"@,
                        seq![bv, av, bv, bv],
                    ),
                ),
            ),
        ),
        _ => Err(
            fmt(
                "grad: operator `{}` is not differentiable in `f` on the native backend (only + - * / and unary -)"@,
                seq![op_name(op)],
            ),
        ),
    }
}

/// The negation of a node: the derivative is -1.
pub open spec fn negate_code(x: Seq<char>, t: Seq<char>, st: TrSt) -> (TValV, TrSt) {
    (
        TValV::Scalar(t),
        emit(
            st,
            fmt(
                "    int64_t {} = aria_tape_unary(&$tp, {}, -aria_tape_value(&$tp, {}), -1.0);\n"@,
                seq![t, x, x],
            ),
        ),
    )
}

/// The component of a vector at a constant index: the identity, guarded.
pub open spec fn get_code(v: Seq<char>, idx: Seq<char>, t: Seq<char>, st: TrSt) -> (TValV, TrSt) {
    (
        TValV::Scalar(t),
        emit(
            emit(
                st,
                fmt(
                    "    if ({} < 0 || {} >= {}.len) aria_trap_msg(\"vector index out of range\");\n"@,
                    seq![idx, idx, v],
                ),
            ),
            fmt(
                "    int64_t {} = aria_tape_unary(&$tp, {}.ids[{}], aria_tape_value(&$tp, {}.ids[{}]), 1.0);\n"@,
                seq![t, v, idx, v, idx],
            ),
        ),
    )
}

/// The dot product of two vectors.
pub open spec fn dot_code(a: Seq<char>, b: Seq<char>, t: Seq<char>, st: TrSt) -> (TValV, TrSt) {
    (
        TValV::Scalar(t),
        emit(st, fmt("    int64_t {} = aria_trace_dot(&$tp, &{}, &{});\n"@, seq![t, a, b])),
    )
}

/// The norm of a vector.
pub open spec fn norm_code(a: Seq<char>, t: Seq<char>, st: TrSt) -> (TValV, TrSt) {
    (
        TValV::Scalar(t),
        emit(st, fmt("    int64_t {} = aria_trace_norm(&$tp, &{});\n"@, seq![t, a])),
    )
}

/// The sum or difference of two vectors, component by component.
pub open spec fn zip_code(
    minus: bool,
    a: Seq<char>,
    b: Seq<char>,
    t: Seq<char>,
    st: TrSt,
) -> (TValV, TrSt) {
    let value = if minus {
        "av - bv"@
    } else {
        "av + bv"@
    };
    let partial = if minus {
        "-1.0"@
    } else {
        "1.0"@
    };
    let s1 = emit(st, fmt("    AriaTVec {} = aria_tvec_alloc({}.len);\n"@, seq![t, a]));
    let s2 = emit(
        s1,
        fmt(
            "    if ({}.len != {}.len) aria_trap_msg(\"vector length mismatch\");\n"@,
            seq![a, b],
        ),
    );
    let s3 = emit(
        s2,
        fmt(
            "    for (int64_t $j = 0; $j < {}.len; $j++) { double av = aria_tape_value(&$tp, {}.ids[$j]), bv = aria_tape_value(&$tp, {}.ids[$j]); "@,
            seq![a, a, b],
        ),
    );
    let s4 = emit(
        s3,
        fmt(
            "{}.ids[$j] = aria_tape_binary(&$tp, {}.ids[$j], {}.ids[$j], {}, 1.0, {}); }\n"@,
            seq![t, a, b, value, partial],
        ),
    );
    (TValV::Vector(t), s4)
}

/// A vector times a scalar.
pub open spec fn scale_code(a: Seq<char>, s: Seq<char>, t: Seq<char>, st: TrSt) -> (TValV, TrSt) {
    let s1 = emit(st, fmt("    AriaTVec {} = aria_tvec_alloc({}.len);\n"@, seq![t, a]));
    let s2 = emit(
        s1,
        fmt(
            "    for (int64_t $j = 0; $j < {}.len; $j++) { double av = aria_tape_value(&$tp, {}.ids[$j]), sv = aria_tape_value(&$tp, {}); "@,
            seq![a, a, s],
        ),
    );
    let s3 = emit(
        s2,
        fmt(
            "{}.ids[$j] = aria_tape_binary(&$tp, {}.ids[$j], {}, sv * av, sv, av); }\n"@,
            seq![t, a, s],
        ),
    );
    (TValV::Vector(t), s3)
}

/// The stores of the first `n` ids of a literal vector.
pub open spec fn ids_code(t: Seq<char>, ids: Seq<Seq<char>>, n: nat, st: TrSt) -> TrSt
    decreases n,
{
    if n == 0 || n > ids.len() {
        st
    } else {
        emit(
            ids_code(t, ids, (n - 1) as nat, st),
            fmt("    {}.ids[{}] = {};\n"@, seq![t, dec(n - 1), ids[n - 1]]),
        )
    }
}

/// A vector of given nodes.
pub open spec fn literal_code(ids: Seq<Seq<char>>, t: Seq<char>, st: TrSt) -> (TValV, TrSt) {
    (
        TValV::Vector(t),
        ids_code(
            t,
            ids,
            ids.len(),
            emit(
                st,
                fmt(
                    "    AriaTVec {} = aria_tvec_alloc({});\n"@,
                    seq![t, dec(ids.len() as int)],
                ),
            ),
        ),
    )
}

/// A vector with one more component.
pub open spec fn push_code(v: Seq<char>, x: Seq<char>, t: Seq<char>, st: TrSt) -> (TValV, TrSt) {
    let s1 = emit(st, fmt("    AriaTVec {} = aria_tvec_alloc({}.len + 1);\n"@, seq![t, v]));
    let s2 = emit(
        s1,
        fmt(
            "    for (int64_t $j = 0; $j < {}.len; $j++) {}.ids[$j] = {}.ids[$j];\n"@,
            seq![v, t, v],
        ),
    );
    (TValV::Vector(t), emit(s2, fmt("    {}.ids[{}.len] = {};\n"@, seq![t, v, x])))
}

/// The length of a vector: a concrete integer.
pub open spec fn len_code(v: Seq<char>, t: Seq<char>, st: TrSt) -> (TValV, TrSt) {
    (TValV::Int(t), emit(st, fmt("    int64_t {} = {}.len;\n"@, seq![t, v])))
}

// ---------------------------------------------------------------------------
// Branches
// ---------------------------------------------------------------------------

/// Whether a branch yields a vector; one that yields a concrete value is refused.
pub open spec fn branch_kind(v: TValV) -> Result<bool, Seq<char>> {
    match v {
        TValV::Vector(_) => Ok(true),
        TValV::Scalar(_) => Ok(false),
        _ => Err(
            "grad: an `if`/`match` arm inside `f` produces a concrete Int/Bool, not a differentiated Float/Vector, on the native backend"@,
        ),
    }
}

/// The one kind of the first `n` branches, which starts as that of the first.
pub open spec fn joint_kind(bs: Seq<BranchV>, n: nat) -> Result<bool, Seq<char>>
    decreases n,
{
    if n == 0 || n > bs.len() {
        branch_kind(bs[0].2)
    } else {
        match joint_kind(bs, (n - 1) as nat) {
            Err(m) => Err(m),
            Ok(k) => match branch_kind(bs[n - 1].2) {
                Err(m) => Err(m),
                Ok(k1) => if k == k1 {
                    Ok(k)
                } else {
                    Err(
                        "grad: the arms of an `if`/`match` inside `f` must all produce the SAME kind (all Float, or all Vector) on the native backend"@,
                    )
                },
            },
        }
    }
}

/// The local of a traced value.
pub open spec fn local_name(v: TValV) -> Seq<char> {
    match v {
        TValV::Scalar(s) => s,
        TValV::Vector(s) => s,
        TValV::Int(s) => s,
        TValV::Bool(s) => s,
    }
}

/// The head of the branch at a position. A lone irrefutable branch is a plain
/// block.
pub open spec fn head_code(i: int, guard: Seq<char>) -> Seq<char> {
    if i == 0 && guard == "else"@ {
        "    {\n"@
    } else if i == 0 {
        fmt("    {} {\n"@, seq![guard])
    } else if guard == "else"@ {
        "    else {\n"@
    } else {
        fmt("    else {} {\n"@, seq![guard])
    }
}

/// The first `n` branches; each assigns its value to the shared result.
pub open spec fn branches_code(res: Seq<char>, bs: Seq<BranchV>, n: nat, st: TrSt) -> TrSt
    decreases n,
{
    if n == 0 || n > bs.len() {
        st
    } else {
        let b = bs[n - 1];
        let s1 = emit(branches_code(res, bs, (n - 1) as nat, st), head_code(n - 1, b.0));
        let s2 = emit(s1, b.1);
        emit(emit(s2, fmt("        {} = {};\n"@, seq![res, local_name(b.2)])), "    }\n"@)
    }
}

/// The chain of branches; without an irrefutable one it ends in a trap.
pub open spec fn join_code(bs: Seq<BranchV>, trap: bool, st: TrSt) -> Result<
    (TValV, TrSt),
    Seq<char>,
> {
    match joint_kind(bs, bs.len()) {
        Err(m) => Err(m),
        Ok(vector) => match fresh(st) {
            Err(m) => Err(m),
            Ok((res, s1)) => {
                let s2 = emit(
                    s1,
                    if vector {
                        fmt("    AriaTVec {};\n"@, seq![res])
                    } else {
                        fmt("    int64_t {};\n"@, seq![res])
                    },
                );
                let s3 = branches_code(res, bs, bs.len(), s2);
                let s4 = if trap {
                    emit(
                        s3,
                        "    else { aria_trap_msg(\"grad: no matching `match` arm (non-exhaustive)\"); }\n"@,
                    )
                } else {
                    s3
                };
                Ok(
                    (
                        if vector {
                            TValV::Vector(res)
                        } else {
                            TValV::Scalar(res)
                        },
                        s4,
                    ),
                )
            },
        },
    }
}

/// A concrete scrutinee bound to a fresh local.
pub open spec fn bind_code(sv: FValV, st: TrSt) -> Result<(TValV, TrSt), Seq<char>> {
    match fresh(st) {
        Err(m) => Err(m),
        Ok((t, s)) => match sv {
            FValV::Int(x) => Ok(
                (TValV::Int(t), emit(s, fmt("    int64_t {} = {};\n"@, seq![t, x]))),
            ),
            FValV::Bool(x) => Ok(
                (TValV::Bool(t), emit(s, fmt("    int {} = {};\n"@, seq![t, x]))),
            ),
            FValV::Float(x) => Ok(
                (
                    TValV::Scalar(t),
                    emit(s, fmt("    int64_t {} = aria_tape_leaf(&$tp, {});\n"@, seq![t, x])),
                ),
            ),
        },
    }
}

/// The guard of an arm with a refutable or wildcard pattern.
pub open spec fn guard_code(p: PatKindV, sv: FValV) -> Result<Seq<char>, Seq<char>> {
    match p {
        PatKindV::Int(n) => match sv {
            FValV::Int(s) => Ok(fmt("if ({} == {})"@, seq![s, dec(n as int)])),
            FValV::Bool(s) => Ok(fmt("if ({} == {})"@, seq![s, dec(n as int)])),
            FValV::Float(_) => Err(
                "grad: `match` integer pattern against a Float scrutinee inside `f`"@,
            ),
        },
        PatKindV::Bool(b) => match sv {
            FValV::Bool(s) => Ok(
                fmt(
                    "if ({} == {})"@,
                    seq![
                        s,
                        if b {
                            "1"@
                        } else {
                            "0"@
                        },
                    ],
                ),
            ),
            _ => Err("grad: `match` boolean pattern against a non-Bool scrutinee inside `f`"@),
        },
        PatKindV::Ctor(_, _) | PatKindV::Record(_, _) => Err(
            "grad: `match` on constructors/records inside `f` is not supported on the native backend (only Int/Bool/wildcard/var patterns on a concrete scalar scrutinee); use the interpreter `aria run`"@,
        ),
        _ => Ok("else"@),
    }
}

// ---------------------------------------------------------------------------
// Concrete values
// ---------------------------------------------------------------------------

/// A concrete value as a C `double` expression.
pub open spec fn as_double(v: FValV) -> Seq<char> {
    match v {
        FValV::Float(s) => s,
        FValV::Int(s) => fmt("(double)({})"@, seq![s]),
        FValV::Bool(s) => fmt("(double)({})"@, seq![s]),
    }
}

/// A concrete operation in C.
pub open spec fn infix(a: Seq<char>, op: BinOp, b: Seq<char>) -> Seq<char> {
    fmt("(({}) {} ({}))"@, seq![a, c_op(op), b])
}

/// A concrete binary operation on concrete operands.
pub open spec fn concrete_binary(op: BinOp, a: FValV, b: FValV, st: TrSt) -> Result<
    (FValV, TrSt),
    Seq<char>,
> {
    let mismatched = Err(
        "grad: mismatched operand kinds in an `if`/`match` condition inside `f` on the native backend"@,
    );
    if op == BinOp::And || op == BinOp::Or {
        match (a, b) {
            (FValV::Bool(x), FValV::Bool(y)) => Ok((FValV::Bool(infix(x, op, y)), st)),
            _ => Err("grad: `&&`/`||` expect Bools in a condition inside `f`"@),
        }
    } else {
        match (a, b) {
            (FValV::Int(x), FValV::Int(y)) => {
                let s = if op == BinOp::Div || op == BinOp::Mod {
                    emit(
                        st,
                        fmt(
                            "    if (({}) == 0) aria_trap_msg(\"grad: division by zero in a condition\");\n"@,
                            seq![y],
                        ),
                    )
                } else {
                    st
                };
                let text = infix(x, op, y);
                Ok(
                    (
                        if compares(op) {
                            FValV::Bool(text)
                        } else {
                            FValV::Int(text)
                        },
                        s,
                    ),
                )
            },
            (FValV::Bool(x), FValV::Bool(y)) => if op == BinOp::Eq || op == BinOp::Ne {
                Ok((FValV::Bool(infix(x, op, y)), st))
            } else {
                mismatched
            },
            _ => if a is Bool || b is Bool {
                mismatched
            } else if op == BinOp::Mod {
                Err("grad: `%` is not defined on Floats in a condition inside `f`"@)
            } else {
                let text = infix(as_double(a), op, as_double(b));
                Ok(
                    (
                        if compares(op) {
                            FValV::Bool(text)
                        } else {
                            FValV::Float(text)
                        },
                        st,
                    ),
                )
            },
        }
    }
}

/// A variable as a concrete value: a concrete local, or a captured scalar.
pub open spec fn concrete_var(name: Seq<char>, scope: ScopeV, st: TrSt, cx: TrCx) -> Result<
    (FValV, TrSt),
    Seq<char>,
> {
    match local(scope, name) {
        Some(TValV::Int(s)) => Ok((FValV::Int(s), st)),
        Some(TValV::Bool(s)) => Ok((FValV::Bool(s), st)),
        Some(_) => Err(
            fmt(
                "grad: the differentiated value `{}` cannot be used in an `if`/`match` condition inside `f` (the branch must not depend on a value being differentiated) on the native backend"@,
                seq![name],
            ),
        ),
        None => if function(cx, name) is Some {
            Err(
                fmt(
                    "grad: `f` references the function `{}` in a condition — not supported on the native backend"@,
                    seq![name],
                ),
            )
        } else {
            match find_cap(st.caps, name) {
                Some(c) => if c.vector {
                    Err(
                        fmt(
                            "grad: captured Vector `{}` cannot be used directly in an `if`/`match` condition inside `f` on the native backend (use `vec_len({})`)"@,
                            seq![name, name],
                        ),
                    )
                } else {
                    Ok((FValV::Float(cap_param(name)), st))
                },
                None => Ok(
                    (
                        FValV::Float(cap_param(name)),
                        TrSt {
                            caps: st.caps.push(CapV { name, vector: false, local: Seq::empty() }),
                            ..st
                        },
                    ),
                ),
            }
        },
    }
}

/// The `let` of a concrete value inside a condition.
pub open spec fn concrete_let(v: FValV, st: TrSt) -> Result<(TValV, TrSt), Seq<char>> {
    match v {
        FValV::Float(_) => match fresh(st) {
            Err(m) => Err(m),
            Ok(_) => Err(
                "grad: a `let`-bound Float inside an `if`/`match` condition is not supported on the native backend"@,
            ),
        },
        _ => bind_code(v, st),
    }
}

// ---------------------------------------------------------------------------
// The trace
// ---------------------------------------------------------------------------

/// Trace an expression: the statements that compute its value, and its value.
pub open spec fn traced(
    e: ExprV,
    scope: ScopeV,
    stack: Seq<Seq<char>>,
    st: TrSt,
    cx: TrCx,
) -> Result<(TValV, TrSt), Seq<char>>
    decreases MAX_INLINE_DEPTH - stack.len(), e, 1nat,
{
    match e.kind {
        KindV::Float(f) => leaf(double_text(f), st),
        KindV::Int(n) => leaf(int_text(n, cx.wide), st),
        KindV::Var(name) => match local(scope, name) {
            Some(v) => Ok((v, st)),
            None => if function(cx, name) is Some {
                Err(
                    fmt(
                        "grad: `f` references the function `{}` as a value — not supported on the native backend"@,
                        seq![name],
                    ),
                )
            } else {
                Err(
                    fmt(
                        "grad: the captured variable `{}` must be used directly as a Float or Vector argument in `f` on the native backend (e.g. `vec_dot(v, {})`)"@,
                        seq![name, name],
                    ),
                )
            },
        },
        KindV::Unary(UnOp::Neg, x) => match traced_scalar(*x, scope, stack, st, cx) {
            Err(m) => Err(m),
            Ok((x, s1)) => match fresh(s1) {
                Err(m) => Err(m),
                Ok((t, s2)) => Ok(negate_code(x, t, s2)),
            },
        },
        KindV::Unary(UnOp::Not, _) => Err(
            "grad: boolean `!` is not differentiable in `f` on the native backend"@,
        ),
        KindV::Binary(op, l, r) => match traced_scalar(*l, scope, stack, st, cx) {
            Err(m) => Err(m),
            Ok((a, s1)) => match traced_scalar(*r, scope, stack, s1, cx) {
                Err(m) => Err(m),
                Ok((b, s2)) => match fresh(s2) {
                    Err(m) => Err(m),
                    Ok((t, s3)) => binary_code(op, a, b, t, s3),
                },
            },
        },
        KindV::Call(name, args) => traced_call(name, args, scope, stack, st, cx),
        KindV::Block(stmts, last) => match traced_stmts(
            stmts,
            stmts.len(),
            scope,
            stack,
            st,
            cx,
        ) {
            Err(m) => Err(m),
            Ok((inner, s1)) => traced(*last, inner, stack, s1, cx),
        },
        KindV::If(c, t, f) => match concrete(*c, scope, stack, st, cx) {
            Err(m) => Err(m),
            Ok((FValV::Bool(cond), s1)) => match traced(
                *t,
                scope,
                stack,
                TrSt { body: Seq::empty(), ..s1 },
                cx,
            ) {
                Err(m) => Err(m),
                Ok((tv, s2)) => match traced(
                    *f,
                    scope,
                    stack,
                    TrSt { body: Seq::empty(), ..s2 },
                    cx,
                ) {
                    Err(m) => Err(m),
                    Ok((fv, s3)) => join_code(
                        seq![
                            (fmt("if ({})"@, seq![cond]), s2.body, tv),
                            ("else"@, s3.body, fv),
                        ],
                        false,
                        TrSt { body: s1.body, ..s3 },
                    ),
                },
            },
            Ok(_) => Err(
                "grad: an `if` condition inside `f` must be a Bool on the native backend"@,
            ),
        },
        KindV::Match(scrut, arms) => if arms.len() == 0 {
            Err("grad: empty `match` inside `f`"@)
        } else {
            match concrete(*scrut, scope, stack, st, cx) {
                Err(m) => Err(m),
                Ok((sv, s1)) => match traced_arms(arms, arms.len(), sv, scope, stack, s1, cx) {
                    Err(m) => Err(m),
                    Ok((bs, closed, s2)) => join_code(bs, !closed, s2),
                },
            }
        },
        _ => Err(
            fmt(
                "grad: unsupported expression in `f` on the native backend: {}"@,
                seq![described(e.kind)],
            ),
        ),
    }
}

/// Trace an expression that must be a scalar: the node that holds it.
pub open spec fn traced_scalar(
    e: ExprV,
    scope: ScopeV,
    stack: Seq<Seq<char>>,
    st: TrSt,
    cx: TrCx,
) -> Result<(Seq<char>, TrSt), Seq<char>>
    decreases MAX_INLINE_DEPTH - stack.len(), e, 2nat,
{
    let r = if is_capture(e, scope, cx) {
        captured(e.kind->Var_0, false, st)
    } else {
        traced(e, scope, stack, st, cx)
    };
    match r {
        Err(m) => Err(m),
        Ok((TValV::Scalar(s), s1)) => Ok((s, s1)),
        Ok((TValV::Vector(_), _)) => Err(
            "grad: expected a Float (scalar) but got a Vector in `f` on the native backend"@,
        ),
        Ok(_) => Err(
            "grad: a concrete Int/Bool (e.g. from `vec_len`) cannot be used as a differentiated Float in `f` on the native backend"@,
        ),
    }
}

/// Trace an expression that must be a vector: the local that holds it.
pub open spec fn traced_vec(
    e: ExprV,
    scope: ScopeV,
    stack: Seq<Seq<char>>,
    st: TrSt,
    cx: TrCx,
) -> Result<(Seq<char>, TrSt), Seq<char>>
    decreases MAX_INLINE_DEPTH - stack.len(), e, 2nat,
{
    let r = if is_capture(e, scope, cx) {
        captured(e.kind->Var_0, true, st)
    } else {
        traced(e, scope, stack, st, cx)
    };
    match r {
        Err(m) => Err(m),
        Ok((TValV::Vector(s), s1)) => Ok((s, s1)),
        Ok((TValV::Scalar(_), _)) => Err(
            "grad: expected a Vector but got a Float (scalar) in `f` on the native backend"@,
        ),
        Ok(_) => Err(
            "grad: expected a Vector but got a concrete Int/Bool in `f` on the native backend"@,
        ),
    }
}

/// Trace a call argument of any kind. A bare free variable needs a kind that is
/// already known.
pub open spec fn traced_arg(
    e: ExprV,
    scope: ScopeV,
    stack: Seq<Seq<char>>,
    st: TrSt,
    cx: TrCx,
) -> Result<(TValV, TrSt), Seq<char>>
    decreases MAX_INLINE_DEPTH - stack.len(), e, 2nat,
{
    if is_capture(e, scope, cx) && find_cap(st.caps, e.kind->Var_0) is Some {
        captured(e.kind->Var_0, find_cap(st.caps, e.kind->Var_0)->0.vector, st)
    } else {
        traced(e, scope, stack, st, cx)
    }
}

/// Trace the first `n` scalars.
pub open spec fn traced_scalars(
    es: Seq<ExprV>,
    n: nat,
    scope: ScopeV,
    stack: Seq<Seq<char>>,
    st: TrSt,
    cx: TrCx,
) -> Result<(Seq<Seq<char>>, TrSt), Seq<char>>
    decreases MAX_INLINE_DEPTH - stack.len(), es, n,
{
    if n == 0 || n > es.len() {
        Ok((Seq::empty(), st))
    } else {
        match traced_scalars(es, (n - 1) as nat, scope, stack, st, cx) {
            Err(m) => Err(m),
            Ok((ids, s1)) => match traced_scalar(es[n - 1], scope, stack, s1, cx) {
                Err(m) => Err(m),
                Ok((id, s2)) => Ok((ids.push(id), s2)),
            },
        }
    }
}

/// Trace the first `n` arguments of an inlined call.
pub open spec fn traced_args(
    es: Seq<ExprV>,
    n: nat,
    scope: ScopeV,
    stack: Seq<Seq<char>>,
    st: TrSt,
    cx: TrCx,
) -> Result<(Seq<TValV>, TrSt), Seq<char>>
    decreases MAX_INLINE_DEPTH - stack.len(), es, n,
{
    if n == 0 || n > es.len() {
        Ok((Seq::empty(), st))
    } else {
        match traced_args(es, (n - 1) as nat, scope, stack, st, cx) {
            Err(m) => Err(m),
            Ok((vs, s1)) => match traced_arg(es[n - 1], scope, stack, s1, cx) {
                Err(m) => Err(m),
                Ok((v, s2)) => Ok((vs.push(v), s2)),
            },
        }
    }
}

/// Trace a call: a vector builtin, or a function, which is inlined.
pub open spec fn traced_call(
    name: Seq<char>,
    args: Seq<ExprV>,
    scope: ScopeV,
    stack: Seq<Seq<char>>,
    st: TrSt,
    cx: TrCx,
) -> Result<(TValV, TrSt), Seq<char>>
    decreases MAX_INLINE_DEPTH - stack.len(), args, args.len() + 1,
{
    if name == "vec_get"@ {
        if args.len() != 2 {
            Err("grad: vec_get expects (Vector, Int)"@)
        } else {
            match traced_vec(args[0], scope, stack, st, cx) {
                Err(m) => Err(m),
                Ok((v, s1)) => match const_int(args[1]) {
                    None => Err(
                        "grad: vec_get index must be a constant Int in `f` on the native backend"@,
                    ),
                    Some(i) => match fresh(s1) {
                        Err(m) => Err(m),
                        Ok((t, s2)) => Ok(get_code(v, dec(i), t, s2)),
                    },
                },
            }
        }
    } else if name == "vec_dot"@ {
        if args.len() != 2 {
            Err("grad: vec_dot expects (Vector, Vector)"@)
        } else {
            match traced_vec(args[0], scope, stack, st, cx) {
                Err(m) => Err(m),
                Ok((a, s1)) => match traced_vec(args[1], scope, stack, s1, cx) {
                    Err(m) => Err(m),
                    Ok((b, s2)) => match fresh(s2) {
                        Err(m) => Err(m),
                        Ok((t, s3)) => Ok(dot_code(a, b, t, s3)),
                    },
                },
            }
        }
    } else if name == "vec_norm"@ {
        if args.len() != 1 {
            Err("grad: vec_norm expects (Vector)"@)
        } else {
            match traced_vec(args[0], scope, stack, st, cx) {
                Err(m) => Err(m),
                Ok((a, s1)) => match fresh(s1) {
                    Err(m) => Err(m),
                    Ok((t, s2)) => Ok(norm_code(a, t, s2)),
                },
            }
        }
    } else if name == "vec_add"@ || name == "vec_sub"@ {
        if args.len() != 2 {
            Err(fmt("grad: {} expects (Vector, Vector)"@, seq![name]))
        } else {
            match traced_vec(args[0], scope, stack, st, cx) {
                Err(m) => Err(m),
                Ok((a, s1)) => match traced_vec(args[1], scope, stack, s1, cx) {
                    Err(m) => Err(m),
                    Ok((b, s2)) => match fresh(s2) {
                        Err(m) => Err(m),
                        Ok((t, s3)) => Ok(zip_code(name == "vec_sub"@, a, b, t, s3)),
                    },
                },
            }
        }
    } else if name == "vec_scale"@ {
        if args.len() != 2 {
            Err("grad: vec_scale expects (Vector, Float)"@)
        } else {
            match traced_vec(args[0], scope, stack, st, cx) {
                Err(m) => Err(m),
                Ok((a, s1)) => match traced_scalar(args[1], scope, stack, s1, cx) {
                    Err(m) => Err(m),
                    Ok((s, s2)) => match fresh(s2) {
                        Err(m) => Err(m),
                        Ok((t, s3)) => Ok(scale_code(a, s, t, s3)),
                    },
                },
            }
        }
    } else if name == "vec_from_array"@ {
        if args.len() != 1 {
            Err("grad: vec_from_array expects (Array[Float])"@)
        } else {
            match array_elems(args[0]) {
                None => Err(
                    "grad: vec_from_array in `f` requires an inline array literal `[..]` on the native backend"@,
                ),
                Some(elems) => match traced_scalars(
                    elems,
                    elems.len(),
                    scope,
                    stack,
                    st,
                    cx,
                ) {
                    Err(m) => Err(m),
                    Ok((ids, s1)) => match fresh(s1) {
                        Err(m) => Err(m),
                        Ok((t, s2)) => Ok(literal_code(ids, t, s2)),
                    },
                },
            }
        }
    } else if name == "vec_push"@ {
        if args.len() != 2 {
            Err("grad: vec_push expects (Vector, Float)"@)
        } else {
            match traced_vec(args[0], scope, stack, st, cx) {
                Err(m) => Err(m),
                Ok((v, s1)) => match traced_scalar(args[1], scope, stack, s1, cx) {
                    Err(m) => Err(m),
                    Ok((x, s2)) => match fresh(s2) {
                        Err(m) => Err(m),
                        Ok((t, s3)) => Ok(push_code(v, x, t, s3)),
                    },
                },
            }
        }
    } else if name == "vec_len"@ {
        if args.len() != 1 {
            Err("grad: vec_len expects (Vector)"@)
        } else {
            match traced_vec(args[0], scope, stack, st, cx) {
                Err(m) => Err(m),
                Ok((v, s1)) => match fresh(s1) {
                    Err(m) => Err(m),
                    Ok((t, s2)) => Ok(len_code(v, t, s2)),
                },
            }
        }
    } else {
        match function(cx, name) {
            None => Err(
                fmt(
                    "grad: unsupported operation `{}` inside `f` on the native backend"@,
                    seq![name],
                ),
            ),
            Some(f) => if stack.contains(name) {
                Err(
                    fmt(
                        "grad: `f` (transitively) calls the recursive function `{}` — recursion inside `f` cannot be inlined on the native backend; use the interpreter `aria run`"@,
                        seq![name],
                    ),
                )
            } else if stack.len() >= MAX_INLINE_DEPTH {
                Err(
                    fmt(
                        "grad: inlining inside `f` exceeded depth {} at `{}` on the native backend; use the interpreter `aria run`"@,
                        seq![dec(MAX_INLINE_DEPTH as int), name],
                    ),
                )
            } else if f.params@.len() != args.len() {
                Err(
                    fmt(
                        "grad: call to `{}` inside `f` has {} argument(s) but `{}` takes {}"@,
                        seq![name, dec(args.len() as int), name, dec(f.params@.len() as int)],
                    ),
                )
            } else {
                match traced_args(args, args.len(), scope, stack, st, cx) {
                    Err(m) => Err(m),
                    Ok((vs, s1)) => traced(
                        expr_view(f.body),
                        Seq::new(vs.len(), |i: int| (f.params@[i].name@, vs[i])),
                        stack.push(name),
                        s1,
                        cx,
                    ),
                }
            },
        }
    }
}

/// Trace the first `n` statements of a block: the scope and the state after them.
pub open spec fn traced_stmts(
    ss: Seq<StmtV>,
    n: nat,
    scope: ScopeV,
    stack: Seq<Seq<char>>,
    st: TrSt,
    cx: TrCx,
) -> Result<(ScopeV, TrSt), Seq<char>>
    decreases MAX_INLINE_DEPTH - stack.len(), ss, n,
{
    if n == 0 || n > ss.len() {
        Ok((scope, st))
    } else {
        match traced_stmts(ss, (n - 1) as nat, scope, stack, st, cx) {
            Err(m) => Err(m),
            Ok((inner, s1)) => match ss[n - 1].kind {
                StmtKindV::Let { name, name_span, ann, value } => match traced(
                    value,
                    inner,
                    stack,
                    s1,
                    cx,
                ) {
                    Err(m) => Err(m),
                    Ok((v, s2)) => Ok((inner.push((name, v)), s2)),
                },
                StmtKindV::Expr(ex) => match traced(ex, inner, stack, s1, cx) {
                    Err(m) => Err(m),
                    Ok((_, s2)) => Ok((inner, s2)),
                },
            },
        }
    }
}

/// Trace the first `n` arms of a `match` on a concrete value, each into a buffer
/// of its own: the branches, and whether the last of them is irrefutable.
pub open spec fn traced_arms(
    arms: Seq<ArmV>,
    n: nat,
    sv: FValV,
    scope: ScopeV,
    stack: Seq<Seq<char>>,
    st: TrSt,
    cx: TrCx,
) -> Result<(Seq<BranchV>, bool, TrSt), Seq<char>>
    decreases MAX_INLINE_DEPTH - stack.len(), arms, n,
{
    if n == 0 || n > arms.len() {
        Ok((Seq::empty(), false, st))
    } else {
        match traced_arms(arms, (n - 1) as nat, sv, scope, stack, st, cx) {
            Err(m) => Err(m),
            Ok((bs, closed, s1)) => if closed {
                Err(
                    "grad: `match` inside `f` has arm(s) after an irrefutable pattern on the native backend"@,
                )
            } else {
                let arm = arms[n - 1];
                let start = TrSt { body: Seq::empty(), ..s1 };
                match arm.pat.kind {
                    PatKindV::Var(name) => match bind_code(sv, start) {
                        Err(m) => Err(m),
                        Ok((v, s2)) => match traced(
                            arm.body,
                            scope.push((name, v)),
                            stack,
                            s2,
                            cx,
                        ) {
                            Err(m) => Err(m),
                            Ok((r, s3)) => Ok(
                                (
                                    bs.push(("else"@, s3.body, r)),
                                    true,
                                    TrSt { body: s1.body, ..s3 },
                                ),
                            ),
                        },
                    },
                    _ => match guard_code(arm.pat.kind, sv) {
                        Err(m) => Err(m),
                        Ok(guard) => match traced(arm.body, scope, stack, start, cx) {
                            Err(m) => Err(m),
                            Ok((r, s2)) => Ok(
                                (
                                    bs.push((guard, s2.body, r)),
                                    arm.pat.kind is Wild,
                                    TrSt { body: s1.body, ..s2 },
                                ),
                            ),
                        },
                    },
                }
            },
        }
    }
}

/// Evaluate a condition or scrutinee to a concrete C expression. Nothing is
/// recorded on the tape, and a differentiated value is refused: of a vector the
/// length alone is read, and the vector is a variable.
pub open spec fn concrete(
    e: ExprV,
    scope: ScopeV,
    stack: Seq<Seq<char>>,
    st: TrSt,
    cx: TrCx,
) -> Result<(FValV, TrSt), Seq<char>>
    decreases MAX_INLINE_DEPTH - stack.len(), e, 1nat,
{
    let unsupported = Err(
        "grad: this `if`/`match` condition/scrutinee is not a supported concrete Int/Bool/Float expression on the native backend (supported: literals, captured scalars, `vec_len`, and +-*/%, comparisons, &&/||/! over them)"@,
    );
    match e.kind {
        KindV::Int(n) => Ok((FValV::Int(fmt("(int64_t){}"@, seq![dec(n as int)])), st)),
        KindV::Bool(b) => Ok(
            (
                FValV::Bool(
                    if b {
                        "1"@
                    } else {
                        "0"@
                    },
                ),
                st,
            ),
        ),
        KindV::Float(f) => Ok((FValV::Float(double_text(f)), st)),
        KindV::Var(name) => concrete_var(name, scope, st, cx),
        KindV::Unary(UnOp::Neg, x) => match concrete(*x, scope, stack, st, cx) {
            Err(m) => Err(m),
            Ok((FValV::Int(s), s1)) => Ok((FValV::Int(fmt("(-({}))"@, seq![s])), s1)),
            Ok((FValV::Float(s), s1)) => Ok((FValV::Float(fmt("(-({}))"@, seq![s])), s1)),
            Ok((FValV::Bool(_), _)) => Err(
                "grad: cannot negate a Bool in a condition inside `f`"@,
            ),
        },
        KindV::Unary(UnOp::Not, x) => match concrete(*x, scope, stack, st, cx) {
            Err(m) => Err(m),
            Ok((FValV::Bool(s), s1)) => Ok((FValV::Bool(fmt("(!({}))"@, seq![s])), s1)),
            Ok(_) => Err("grad: `!` expects a Bool in a condition inside `f`"@),
        },
        KindV::Binary(op, l, r) => match concrete(*l, scope, stack, st, cx) {
            Err(m) => Err(m),
            Ok((a, s1)) => match concrete(*r, scope, stack, s1, cx) {
                Err(m) => Err(m),
                Ok((b, s2)) => concrete_binary(op, a, b, s2),
            },
        },
        KindV::Call(name, args) => if name == "vec_len"@ {
            if args.len() != 1 {
                Err("grad: vec_len expects (Vector)"@)
            } else {
                match args[0].kind {
                    KindV::Var(_) => match traced_vec(args[0], scope, stack, st, cx) {
                        Err(m) => Err(m),
                        Ok((v, s1)) => Ok((FValV::Int(fmt("{}.len"@, seq![v])), s1)),
                    },
                    _ => unsupported,
                }
            }
        } else {
            unsupported
        },
        KindV::Block(stmts, last) => match concrete_stmts(
            stmts,
            stmts.len(),
            scope,
            stack,
            st,
            cx,
        ) {
            Err(m) => Err(m),
            Ok((inner, s1)) => concrete(*last, inner, stack, s1, cx),
        },
        _ => unsupported,
    }
}

/// Evaluate the first `n` statements of a condition: concrete `let`s only.
pub open spec fn concrete_stmts(
    ss: Seq<StmtV>,
    n: nat,
    scope: ScopeV,
    stack: Seq<Seq<char>>,
    st: TrSt,
    cx: TrCx,
) -> Result<(ScopeV, TrSt), Seq<char>>
    decreases MAX_INLINE_DEPTH - stack.len(), ss, n,
{
    if n == 0 || n > ss.len() {
        Ok((scope, st))
    } else {
        match concrete_stmts(ss, (n - 1) as nat, scope, stack, st, cx) {
            Err(m) => Err(m),
            Ok((inner, s1)) => match ss[n - 1].kind {
                StmtKindV::Let { name, name_span, ann, value } => match concrete(
                    value,
                    inner,
                    stack,
                    s1,
                    cx,
                ) {
                    Err(m) => Err(m),
                    Ok((v, s2)) => match concrete_let(v, s2) {
                        Err(m) => Err(m),
                        Ok((tv, s3)) => Ok((inner.push((name, tv)), s3)),
                    },
                },
                StmtKindV::Expr(_) => Err(
                    "grad: a statement-expression inside an `if`/`match` condition is not supported on the native backend"@,
                ),
            },
        }
    }
}

} // verus!
