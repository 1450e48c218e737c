//! What the emitted operators compute.
//!
//! A fragment of C is given a meaning of its own: expressions are evaluated,
//! statements are run on a memory. What the backend emits for an operator is the
//! text of such statements, and running them stores the value that the operator
//! has in the source language, or traps where the source traps.

use vstd::prelude::*;
use vstd::string::*;

use crate::ast::{BinOp, UnOp};
use crate::c_backend::emit::{
    c_operator, checked_builtin, equality_fn, prim_code, unary_code, St,
};
use crate::c_backend::env::{atom_code, Types};
use crate::c_backend::kinds::CType;
use crate::c_backend::mangle::var_name;
use crate::grad_native::model::c_op;
use crate::ir::Atom;
use crate::text::pieces::{hole, lemma_fill1, lemma_fill3, lemma_fill4, lemma_fill5, lemma_fill6};
use crate::text::{dec, digit, fmt};

verus! {

// ---------------------------------------------------------------------------
// Values
// ---------------------------------------------------------------------------

/// The sorts of heap values that are compared by content.
pub enum Heap {
    Text,
    Cell,
    Bytes,
    Dict,
    Bag,
    Vector,
}

/// What the machine makes of doubles, of heap values and of expressions that read
/// no variable. A value is an integer: an `int64_t` stands for itself, a truth value
/// is 0 or 1, a double or a heap value is whatever the machine takes for it.
pub struct World {
    pub plus: spec_fn(int, int) -> int,
    pub less: spec_fn(int, int) -> int,
    pub times: spec_fn(int, int) -> int,
    pub over: spec_fn(int, int) -> int,
    pub opposite: spec_fn(int) -> int,
    pub below: spec_fn(int, int) -> bool,
    pub at_most: spec_fn(int, int) -> bool,
    pub same: spec_fn(int, int) -> bool,
    pub alike: spec_fn(Heap, int, int) -> bool,
    pub reads: spec_fn(Seq<char>) -> int,
}

/// A truth value as an integer.
pub open spec fn truth(b: bool) -> int {
    if b {
        1
    } else {
        0
    }
}

/// Whether an `int64_t` can hold an integer.
pub open spec fn fits(n: int) -> bool {
    -0x8000_0000_0000_0000 <= n <= 0x7fff_ffff_ffff_ffff
}

/// The integer quotient, rounded towards zero.
pub open spec fn towards_zero(a: int, b: int) -> int {
    if a >= 0 && b > 0 {
        a / b
    } else if a >= 0 {
        -(a / (-b))
    } else if b > 0 {
        -((-a) / b)
    } else {
        (-a) / (-b)
    }
}

/// What is left over of the quotient rounded towards zero.
pub open spec fn left_over(a: int, b: int) -> int {
    a - b * towards_zero(a, b)
}

// ---------------------------------------------------------------------------
// The source language
// ---------------------------------------------------------------------------

/// What an operation comes to: a value, or a trap with its message.
pub enum Outcome {
    Value(int),
    Trap(Seq<char>),
}

/// Exact arithmetic that traps where the result is no Int.
pub open spec fn exact(n: int) -> Outcome {
    if fits(n) {
        Outcome::Value(n)
    } else {
        Outcome::Trap("integer overflow"@)
    }
}

/// A value that is there unless the divisor is zero or the quotient is no Int.
pub open spec fn divided(a: int, b: int, v: int) -> Outcome {
    if b == 0 || !fits(towards_zero(a, b)) {
        Outcome::Trap("division by zero or overflow"@)
    } else {
        Outcome::Value(v)
    }
}

/// An operator on two Ints.
pub open spec fn int_meaning(op: BinOp, a: int, b: int) -> Outcome {
    match op {
        BinOp::Add => exact(a + b),
        BinOp::Sub => exact(a - b),
        BinOp::Mul => exact(a * b),
        BinOp::Div => divided(a, b, towards_zero(a, b)),
        BinOp::Mod => divided(a, b, left_over(a, b)),
        BinOp::Eq => Outcome::Value(truth(a == b)),
        BinOp::Ne => Outcome::Value(truth(a != b)),
        BinOp::Lt => Outcome::Value(truth(a < b)),
        BinOp::Le => Outcome::Value(truth(a <= b)),
        BinOp::Gt => Outcome::Value(truth(b < a)),
        BinOp::Ge => Outcome::Value(truth(b <= a)),
        BinOp::And => Outcome::Value(truth(a != 0 && b != 0)),
        BinOp::Or => Outcome::Value(truth(a != 0 || b != 0)),
    }
}

/// An operator on two Floats.
pub open spec fn float_meaning(op: BinOp, a: int, b: int, w: World) -> Outcome {
    match op {
        BinOp::Add => Outcome::Value((w.plus)(a, b)),
        BinOp::Sub => Outcome::Value((w.less)(a, b)),
        BinOp::Mul => Outcome::Value((w.times)(a, b)),
        BinOp::Div => Outcome::Value((w.over)(a, b)),
        BinOp::Eq => Outcome::Value(truth((w.same)(a, b))),
        BinOp::Ne => Outcome::Value(truth(!(w.same)(a, b))),
        BinOp::Lt => Outcome::Value(truth((w.below)(a, b))),
        BinOp::Le => Outcome::Value(truth((w.at_most)(a, b))),
        BinOp::Gt => Outcome::Value(truth((w.below)(b, a))),
        _ => Outcome::Value(truth((w.at_most)(b, a))),
    }
}

/// Whether the values of a type are doubles.
pub open spec fn is_double(t: CType) -> bool {
    t == CType::Float
}

/// The heap sort of a type.
pub open spec fn heap_of(t: CType) -> Option<Heap> {
    match t {
        CType::Str => Some(Heap::Text),
        CType::Ref => Some(Heap::Cell),
        CType::Bytes => Some(Heap::Bytes),
        CType::Dict(_, _) => Some(Heap::Dict),
        CType::Bag(_) => Some(Heap::Bag),
        CType::Vector => Some(Heap::Vector),
        _ => None,
    }
}

/// Whether an operator is defined on two operands of a type.
pub open spec fn defined(op: BinOp, t: CType) -> bool {
    match op {
        BinOp::Add | BinOp::Sub | BinOp::Mul | BinOp::Div => t == CType::Int || t
            == CType::Float,
        BinOp::Mod => t == CType::Int,
        BinOp::Eq | BinOp::Ne => t == CType::Int || t == CType::Bool || t == CType::Float
            || heap_of(t) is Some,
        BinOp::Lt | BinOp::Le | BinOp::Gt | BinOp::Ge => t == CType::Int || t == CType::Float,
        BinOp::And | BinOp::Or => t == CType::Bool,
    }
}

/// What an operator means on two operands of a type.
pub open spec fn meaning(op: BinOp, t: CType, a: int, b: int, w: World) -> Outcome {
    if t == CType::Float {
        float_meaning(op, a, b, w)
    } else {
        match heap_of(t) {
            Some(h) => Outcome::Value(truth((w.alike)(h, a, b) == (op == BinOp::Eq))),
            None => int_meaning(op, a, b),
        }
    }
}

/// What a unary operator means on an operand of a type.
pub open spec fn unary_meaning(op: UnOp, t: CType, a: int, w: World) -> Outcome {
    match op {
        UnOp::Neg => if t == CType::Float {
            Outcome::Value((w.opposite)(a))
        } else {
            exact(-a)
        },
        UnOp::Not => Outcome::Value(truth(a == 0)),
    }
}

/// Whether a unary operator is defined on an operand of a type.
pub open spec fn unary_defined(op: UnOp, t: CType) -> bool {
    match op {
        UnOp::Neg => t == CType::Int || t == CType::Float,
        UnOp::Not => t == CType::Bool,
    }
}

/// The value of an atom, where the variables have the values in memory.
pub open spec fn atom_value(a: Atom, ex: Seq<char>, mem: Map<Seq<char>, int>, w: World) -> int {
    match a {
        Atom::Int(n) => n as int,
        Atom::Bool(b) => truth(b),
        Atom::Var(x) => mem[var_name(x@)],
        _ => (w.reads)(ex),
    }
}

// ---------------------------------------------------------------------------
// C
// ---------------------------------------------------------------------------

/// A C expression.
pub enum CExp {
    /// A variable.
    Name(Seq<char>),
    /// `INT64_C(n)`.
    Wide(int),
    /// An integer literal.
    Small(int),
    /// `INT64_MIN`.
    Least,
    /// `(int64_t)0`.
    Nought,
    /// An expression that reads no variable.
    Fixed(Seq<char>),
    Infix(Box<CExp>, Seq<char>, Box<CExp>),
    Prefix(Seq<char>, Box<CExp>),
    /// A call of a function of the runtime.
    Call(Seq<char>, Box<CExp>, Box<CExp>),
    Group(Box<CExp>),
}

/// A C statement.
pub enum CStmt {
    /// An assignment.
    Assign(Seq<char>, CExp),
    /// A trap under a condition.
    TrapIf(CExp, Seq<char>),
    /// A checked operation: its result is stored, or it traps.
    Checked(Seq<char>, CExp, CExp, Seq<char>, Seq<char>),
}

/// The text of an expression.
pub open spec fn text(e: CExp) -> Seq<char>
    decreases e,
{
    match e {
        CExp::Name(x) => x,
        CExp::Wide(n) => "INT64_C("@ + (dec(n) + ")"@),
        CExp::Small(n) => dec(n),
        CExp::Least => "INT64_MIN"@,
        CExp::Nought => "(int64_t)0"@,
        CExp::Fixed(t) => t,
        CExp::Infix(a, tok, b) => text(*a) + (" "@ + (tok + (" "@ + text(*b)))),
        CExp::Prefix(tok, a) => tok + text(*a),
        CExp::Call(f, a, b) => f + ("("@ + (text(*a) + (", "@ + (text(*b) + ")"@)))),
        CExp::Group(a) => "("@ + (text(*a) + ")"@),
    }
}

/// The text of a statement on a line of its own.
pub open spec fn line(s: CStmt, ind: Seq<char>) -> Seq<char> {
    match s {
        CStmt::Assign(x, e) => ind + (x + (" = "@ + (text(e) + ";\n"@))),
        CStmt::TrapIf(e, m) => ind + ("if ("@ + (text(e) + (") aria_trap_msg(\""@ + (m
            + "\");\n"@)))),
        CStmt::Checked(f, a, b, x, m) => ind + ("if ("@ + (f + ("("@ + (text(a) + (", "@ + (text(b)
            + (", &"@ + (x + (")) aria_trap_msg(\""@ + (m + "\");\n"@)))))))))),
    }
}

/// The text of statements.
pub open spec fn lines(ss: Seq<CStmt>, ind: Seq<char>) -> Seq<char>
    decreases ss.len(),
{
    if ss.len() == 0 {
        Seq::empty()
    } else {
        line(ss[0], ind) + lines(ss.drop_first(), ind)
    }
}

/// A result that is defined only where an `int64_t` holds it.
pub open spec fn if_fits(n: int) -> Option<int> {
    if fits(n) {
        Some(n)
    } else {
        None
    }
}

/// A C operator between two integers; `None` where C leaves it undefined.
pub open spec fn c_int(tok: Seq<char>, a: int, b: int) -> Option<int> {
    if tok == "+"@ {
        if_fits(a + b)
    } else if tok == "-"@ {
        if_fits(a - b)
    } else if tok == "*"@ {
        if_fits(a * b)
    } else if tok == "/"@ && b != 0 && fits(towards_zero(a, b)) {
        Some(towards_zero(a, b))
    } else if tok == "%"@ && b != 0 && fits(towards_zero(a, b)) {
        Some(left_over(a, b))
    } else if tok == "<"@ {
        Some(truth(a < b))
    } else if tok == "<="@ {
        Some(truth(a <= b))
    } else if tok == ">"@ {
        Some(truth(a > b))
    } else if tok == ">="@ {
        Some(truth(a >= b))
    } else if tok == "=="@ {
        Some(truth(a == b))
    } else if tok == "!="@ {
        Some(truth(a != b))
    } else if tok == "&&"@ {
        Some(truth(a != 0 && b != 0))
    } else if tok == "||"@ {
        Some(truth(a != 0 || b != 0))
    } else {
        None
    }
}

/// A C operator between two doubles.
pub open spec fn c_real(tok: Seq<char>, a: int, b: int, w: World) -> Option<int> {
    if tok == "+"@ {
        Some((w.plus)(a, b))
    } else if tok == "-"@ {
        Some((w.less)(a, b))
    } else if tok == "*"@ {
        Some((w.times)(a, b))
    } else if tok == "/"@ {
        Some((w.over)(a, b))
    } else if tok == "<"@ {
        Some(truth((w.below)(a, b)))
    } else if tok == "<="@ {
        Some(truth((w.at_most)(a, b)))
    } else if tok == ">"@ {
        Some(truth((w.below)(b, a)))
    } else if tok == ">="@ {
        Some(truth((w.at_most)(b, a)))
    } else if tok == "=="@ {
        Some(truth((w.same)(a, b)))
    } else if tok == "!="@ {
        Some(truth(!(w.same)(a, b)))
    } else {
        None
    }
}

/// The heap sort whose values a function of the runtime compares.
pub open spec fn compared_by(f: Seq<char>) -> Option<Heap> {
    if f == "aria_streq_consume"@ {
        Some(Heap::Text)
    } else if f == "aria_eq_consume"@ {
        Some(Heap::Cell)
    } else if f == "aria_byteseq_consume"@ {
        Some(Heap::Bytes)
    } else if f == "aria_map_eq_consume"@ {
        Some(Heap::Dict)
    } else if f == "aria_set_eq_consume"@ {
        Some(Heap::Bag)
    } else if f == "aria_veceq_consume"@ {
        Some(Heap::Vector)
    } else {
        None
    }
}

/// What a checked operation computes before the check.
pub open spec fn c_checked(f: Seq<char>, a: int, b: int) -> Option<int> {
    if f == "__builtin_add_overflow"@ {
        Some(a + b)
    } else if f == "__builtin_sub_overflow"@ {
        Some(a - b)
    } else if f == "__builtin_mul_overflow"@ {
        Some(a * b)
    } else {
        None
    }
}

/// The value of an expression whose operands are doubles (`doubles`) or not; `None`
/// where C leaves it undefined. `&&` and `||` evaluate their right side only where
/// the left side does not decide.
pub open spec fn eval(e: CExp, doubles: bool, mem: Map<Seq<char>, int>, w: World) -> Option<int>
    decreases e,
{
    match e {
        CExp::Name(x) => Some(mem[x]),
        CExp::Wide(n) => Some(n),
        CExp::Small(n) => Some(n),
        CExp::Least => Some(-0x8000_0000_0000_0000),
        CExp::Nought => Some(0),
        CExp::Fixed(t) => Some((w.reads)(t)),
        CExp::Infix(a, tok, b) => match (eval(*a, doubles, mem, w), eval(*b, doubles, mem, w)) {
            (Some(x), r) => if tok == "&&"@ && x == 0 {
                Some(0)
            } else if tok == "||"@ && x != 0 {
                Some(1)
            } else {
                match r {
                    Some(y) => if doubles {
                        c_real(tok, x, y, w)
                    } else {
                        c_int(tok, x, y)
                    },
                    None => None,
                }
            },
            _ => None,
        },
        CExp::Prefix(tok, a) => match eval(*a, doubles, mem, w) {
            Some(x) => if tok == "!"@ {
                Some(truth(x == 0))
            } else if tok == "-"@ && doubles {
                Some((w.opposite)(x))
            } else if tok == "-"@ {
                if_fits(-x)
            } else if tok.len() == 0 {
                Some(x)
            } else {
                None
            },
            None => None,
        },
        CExp::Call(f, a, b) => match (
            compared_by(f),
            eval(*a, doubles, mem, w),
            eval(*b, doubles, mem, w),
        ) {
            (Some(h), Some(x), Some(y)) => Some(truth((w.alike)(h, x, y))),
            _ => None,
        },
        CExp::Group(a) => eval(*a, doubles, mem, w),
    }
}

/// How a run of statements ends.
pub enum End {
    /// At the end, with the memory so far.
    Through(Map<Seq<char>, int>),
    /// In a trap.
    Trapped(Seq<char>),
    /// Where C promises nothing.
    Undefined,
}

/// Run one statement.
pub open spec fn step(s: CStmt, doubles: bool, mem: Map<Seq<char>, int>, w: World) -> End {
    match s {
        CStmt::Assign(x, e) => match eval(e, doubles, mem, w) {
            Some(v) => End::Through(mem.insert(x, v)),
            None => End::Undefined,
        },
        CStmt::TrapIf(e, m) => match eval(e, doubles, mem, w) {
            Some(v) => if v != 0 {
                End::Trapped(m)
            } else {
                End::Through(mem)
            },
            None => End::Undefined,
        },
        CStmt::Checked(f, a, b, x, m) => match (eval(a, doubles, mem, w), eval(b, doubles, mem, w)) {
            (Some(p), Some(q)) => match c_checked(f, p, q) {
                Some(v) => if fits(v) {
                    End::Through(mem.insert(x, v))
                } else {
                    End::Trapped(m)
                },
                None => End::Undefined,
            },
            _ => End::Undefined,
        },
    }
}

/// Run statements, one after the other.
pub open spec fn run(ss: Seq<CStmt>, doubles: bool, mem: Map<Seq<char>, int>, w: World) -> End
    decreases ss.len(),
{
    if ss.len() == 0 {
        End::Through(mem)
    } else {
        match step(ss[0], doubles, mem, w) {
            End::Through(m) => run(ss.drop_first(), doubles, m, w),
            other => other,
        }
    }
}

/// How statements end that carry an outcome to a variable.
pub open spec fn carried(o: Outcome, dst: Seq<char>, mem: Map<Seq<char>, int>) -> End {
    match o {
        Outcome::Value(v) => End::Through(mem.insert(dst, v)),
        Outcome::Trap(m) => End::Trapped(m),
    }
}

// ---------------------------------------------------------------------------
// Operator tokens
// ---------------------------------------------------------------------------

proof fn lemma_tokens()
    ensures
        "+"@.len() == 1 && "+"@[0] == '+',
        "-"@.len() == 1 && "-"@[0] == '-',
        "*"@.len() == 1 && "*"@[0] == '*',
        "/"@.len() == 1 && "/"@[0] == '/',
        "%"@.len() == 1 && "%"@[0] == '%',
        "<"@.len() == 1 && "<"@[0] == '<',
        ">"@.len() == 1 && ">"@[0] == '>',
        "!"@.len() == 1 && "!"@[0] == '!',
        "<="@.len() == 2 && "<="@[0] == '<',
        ">="@.len() == 2 && ">="@[0] == '>',
        "=="@.len() == 2 && "=="@[0] == '=',
        "!="@.len() == 2 && "!="@[0] == '!',
        "&&"@.len() == 2 && "&&"@[0] == '&',
        "||"@.len() == 2 && "||"@[0] == '|',
        ""@.len() == 0,
{
    reveal_strlit("+");
    reveal_strlit("-");
    reveal_strlit("*");
    reveal_strlit("/");
    reveal_strlit("%");
    reveal_strlit("<");
    reveal_strlit(">");
    reveal_strlit("!");
    reveal_strlit("<=");
    reveal_strlit(">=");
    reveal_strlit("==");
    reveal_strlit("!=");
    reveal_strlit("&&");
    reveal_strlit("||");
    reveal_strlit("");
}

/// Between two Ints on which it does not trap, the C operator of an operator has
/// the operator's own value; between two Floats too.
pub proof fn tokens_mean_the_operator(op: BinOp, a: int, b: int, w: World)
    ensures
        int_meaning(op, a, b) matches Outcome::Value(v) ==> c_int(c_operator(op), a, b) == Some(v),
        defined(op, CType::Float) ==> (float_meaning(op, a, b, w) matches Outcome::Value(v)
            && c_real(c_operator(op), a, b, w) == Some(v)),
        c_op(op) == c_operator(op),
{
    lemma_tokens();
}

/// Two operators never share their C operator.
pub proof fn tokens_differ(p: BinOp, q: BinOp)
    ensures
        c_operator(p) == c_operator(q) <==> p == q,
{
    lemma_tokens();
}

// ---------------------------------------------------------------------------
// Texts of statements
// ---------------------------------------------------------------------------

proof fn lemma_infix_line(ind: Seq<char>, dst: Seq<char>, l: Seq<char>, op: Seq<char>, r: Seq<char>)
    ensures
        fmt("{}{} = {} {} {};\n"@, seq![ind, dst, l, op, r]) == ind + (dst + (" = "@ + (l + (" "@ + (op + (" "@ + (r + ";\n"@))))))),
{
    reveal_strlit("{}{} = {} {} {};\n");
    reveal_strlit(" ");
    reveal_strlit(" = ");
    reveal_strlit(";\n");
    assert("{}{} = {} {} {};\n"@ =~= Seq::<char>::empty() + (hole() + (Seq::<char>::empty() + (hole() + (" = "@ + (hole() + (" "@ + (hole() + (" "@ + (hole() + ";\n"@))))))))));
    lemma_fill5(Seq::<char>::empty(), Seq::<char>::empty(), " = "@, " "@, " "@, ";\n"@, ind, dst, l, op, r);
    assert(Seq::<char>::empty() + (ind + (Seq::<char>::empty() + (dst + (" = "@ + (l + (" "@ + (op + (" "@ + (r + ";\n"@))))))))) =~= ind + (dst + (" = "@ + (l + (" "@ + (op + (" "@ + (r + ";\n"@))))))));
}

proof fn lemma_group_line(ind: Seq<char>, dst: Seq<char>, l: Seq<char>, op: Seq<char>, r: Seq<char>)
    ensures
        fmt("{}{} = ({} {} {});\n"@, seq![ind, dst, l, op, r]) == ind + (dst + (" = ("@ + (l + (" "@ + (op + (" "@ + (r + ");\n"@))))))),
{
    reveal_strlit("{}{} = ({} {} {});\n");
    reveal_strlit(" ");
    reveal_strlit(" = (");
    reveal_strlit(");\n");
    assert("{}{} = ({} {} {});\n"@ =~= Seq::<char>::empty() + (hole() + (Seq::<char>::empty() + (hole() + (" = ("@ + (hole() + (" "@ + (hole() + (" "@ + (hole() + ");\n"@))))))))));
    lemma_fill5(Seq::<char>::empty(), Seq::<char>::empty(), " = ("@, " "@, " "@, ");\n"@, ind, dst, l, op, r);
    assert(Seq::<char>::empty() + (ind + (Seq::<char>::empty() + (dst + (" = ("@ + (l + (" "@ + (op + (" "@ + (r + ");\n"@))))))))) =~= ind + (dst + (" = ("@ + (l + (" "@ + (op + (" "@ + (r + ");\n"@))))))));
}

proof fn lemma_over_line(ind: Seq<char>, dst: Seq<char>, l: Seq<char>, r: Seq<char>)
    ensures
        fmt("{}{} = {} / {};\n"@, seq![ind, dst, l, r]) == ind + (dst + (" = "@ + (l + (" / "@ + (r + ";\n"@))))),
{
    reveal_strlit("{}{} = {} / {};\n");
    reveal_strlit(" / ");
    reveal_strlit(" = ");
    reveal_strlit(";\n");
    assert("{}{} = {} / {};\n"@ =~= Seq::<char>::empty() + (hole() + (Seq::<char>::empty() + (hole() + (" = "@ + (hole() + (" / "@ + (hole() + ";\n"@))))))));
    lemma_fill4(Seq::<char>::empty(), Seq::<char>::empty(), " = "@, " / "@, ";\n"@, ind, dst, l, r);
    assert(Seq::<char>::empty() + (ind + (Seq::<char>::empty() + (dst + (" = "@ + (l + (" / "@ + (r + ";\n"@))))))) =~= ind + (dst + (" = "@ + (l + (" / "@ + (r + ";\n"@))))));
}

proof fn lemma_checked_line(ind: Seq<char>, f: Seq<char>, l: Seq<char>, r: Seq<char>, dst: Seq<char>)
    ensures
        fmt("{}if ({}({}, {}, &{})) aria_trap_msg(\"integer overflow\");\n"@, seq![ind, f, l, r, dst]) == ind + ("if ("@ + (f + ("("@ + (l + (", "@ + (r + (", &"@ + (dst + ")) aria_trap_msg(\"integer overflow\");\n"@)))))))),
{
    reveal_strlit("{}if ({}({}, {}, &{})) aria_trap_msg(\"integer overflow\");\n");
    reveal_strlit("(");
    reveal_strlit(")) aria_trap_msg(\"integer overflow\");\n");
    reveal_strlit(", ");
    reveal_strlit(", &");
    reveal_strlit("if (");
    assert("{}if ({}({}, {}, &{})) aria_trap_msg(\"integer overflow\");\n"@ =~= Seq::<char>::empty() + (hole() + ("if ("@ + (hole() + ("("@ + (hole() + (", "@ + (hole() + (", &"@ + (hole() + ")) aria_trap_msg(\"integer overflow\");\n"@))))))))));
    lemma_fill5(Seq::<char>::empty(), "if ("@, "("@, ", "@, ", &"@, ")) aria_trap_msg(\"integer overflow\");\n"@, ind, f, l, r, dst);
    assert(Seq::<char>::empty() + (ind + ("if ("@ + (f + ("("@ + (l + (", "@ + (r + (", &"@ + (dst + ")) aria_trap_msg(\"integer overflow\");\n"@))))))))) =~= ind + ("if ("@ + (f + ("("@ + (l + (", "@ + (r + (", &"@ + (dst + ")) aria_trap_msg(\"integer overflow\");\n"@)))))))));
}

proof fn lemma_guard_line(ind: Seq<char>, r: Seq<char>, l: Seq<char>, r2: Seq<char>)
    ensures
        fmt("{}if ({} == 0 || ({} == INT64_MIN && {} == -1)) aria_trap_msg(\"division by zero or overflow\");\n"@, seq![ind, r, l, r2]) == ind + ("if ("@ + (r + (" == 0 || ("@ + (l + (" == INT64_MIN && "@ + (r2 + " == -1)) aria_trap_msg(\"division by zero or overflow\");\n"@)))))),
{
    reveal_strlit("{}if ({} == 0 || ({} == INT64_MIN && {} == -1)) aria_trap_msg(\"division by zero or overflow\");\n");
    reveal_strlit(" == -1)) aria_trap_msg(\"division by zero or overflow\");\n");
    reveal_strlit(" == 0 || (");
    reveal_strlit(" == INT64_MIN && ");
    reveal_strlit("if (");
    assert("{}if ({} == 0 || ({} == INT64_MIN && {} == -1)) aria_trap_msg(\"division by zero or overflow\");\n"@ =~= Seq::<char>::empty() + (hole() + ("if ("@ + (hole() + (" == 0 || ("@ + (hole() + (" == INT64_MIN && "@ + (hole() + " == -1)) aria_trap_msg(\"division by zero or overflow\");\n"@))))))));
    lemma_fill4(Seq::<char>::empty(), "if ("@, " == 0 || ("@, " == INT64_MIN && "@, " == -1)) aria_trap_msg(\"division by zero or overflow\");\n"@, ind, r, l, r2);
    assert(Seq::<char>::empty() + (ind + ("if ("@ + (r + (" == 0 || ("@ + (l + (" == INT64_MIN && "@ + (r2 + " == -1)) aria_trap_msg(\"division by zero or overflow\");\n"@))))))) =~= ind + ("if ("@ + (r + (" == 0 || ("@ + (l + (" == INT64_MIN && "@ + (r2 + " == -1)) aria_trap_msg(\"division by zero or overflow\");\n"@)))))));
}

proof fn lemma_call_line(ind: Seq<char>, dst: Seq<char>, n: Seq<char>, f: Seq<char>, l: Seq<char>, r: Seq<char>)
    ensures
        fmt("{}{} = {}{}({}, {});\n"@, seq![ind, dst, n, f, l, r]) == ind + (dst + (" = "@ + (n + (f + ("("@ + (l + (", "@ + (r + ");\n"@)))))))),
{
    reveal_strlit("{}{} = {}{}({}, {});\n");
    reveal_strlit(" = ");
    reveal_strlit("(");
    reveal_strlit(");\n");
    reveal_strlit(", ");
    assert("{}{} = {}{}({}, {});\n"@ =~= Seq::<char>::empty() + (hole() + (Seq::<char>::empty() + (hole() + (" = "@ + (hole() + (Seq::<char>::empty() + (hole() + ("("@ + (hole() + (", "@ + (hole() + ");\n"@))))))))))));
    lemma_fill6(Seq::<char>::empty(), Seq::<char>::empty(), " = "@, Seq::<char>::empty(), "("@, ", "@, ");\n"@, ind, dst, n, f, l, r);
    assert(Seq::<char>::empty() + (ind + (Seq::<char>::empty() + (dst + (" = "@ + (n + (Seq::<char>::empty() + (f + ("("@ + (l + (", "@ + (r + ");\n"@))))))))))) =~= ind + (dst + (" = "@ + (n + (f + ("("@ + (l + (", "@ + (r + ");\n"@)))))))));
}

proof fn lemma_minus_line(ind: Seq<char>, dst: Seq<char>, a: Seq<char>)
    ensures
        fmt("{}{} = -{};\n"@, seq![ind, dst, a]) == ind + (dst + (" = -"@ + (a + ";\n"@))),
{
    reveal_strlit("{}{} = -{};\n");
    reveal_strlit(" = -");
    reveal_strlit(";\n");
    assert("{}{} = -{};\n"@ =~= Seq::<char>::empty() + (hole() + (Seq::<char>::empty() + (hole() + (" = -"@ + (hole() + ";\n"@))))));
    lemma_fill3(Seq::<char>::empty(), Seq::<char>::empty(), " = -"@, ";\n"@, ind, dst, a);
    assert(Seq::<char>::empty() + (ind + (Seq::<char>::empty() + (dst + (" = -"@ + (a + ";\n"@))))) =~= ind + (dst + (" = -"@ + (a + ";\n"@))));
}

proof fn lemma_opposite_line(ind: Seq<char>, a: Seq<char>, dst: Seq<char>)
    ensures
        fmt("{}if (__builtin_sub_overflow((int64_t)0, {}, &{})) aria_trap_msg(\"integer overflow\");\n"@, seq![ind, a, dst]) == ind + ("if (__builtin_sub_overflow((int64_t)0, "@ + (a + (", &"@ + (dst + ")) aria_trap_msg(\"integer overflow\");\n"@)))),
{
    reveal_strlit("{}if (__builtin_sub_overflow((int64_t)0, {}, &{})) aria_trap_msg(\"integer overflow\");\n");
    reveal_strlit(")) aria_trap_msg(\"integer overflow\");\n");
    reveal_strlit(", &");
    reveal_strlit("if (__builtin_sub_overflow((int64_t)0, ");
    assert("{}if (__builtin_sub_overflow((int64_t)0, {}, &{})) aria_trap_msg(\"integer overflow\");\n"@ =~= Seq::<char>::empty() + (hole() + ("if (__builtin_sub_overflow((int64_t)0, "@ + (hole() + (", &"@ + (hole() + ")) aria_trap_msg(\"integer overflow\");\n"@))))));
    lemma_fill3(Seq::<char>::empty(), "if (__builtin_sub_overflow((int64_t)0, "@, ", &"@, ")) aria_trap_msg(\"integer overflow\");\n"@, ind, a, dst);
    assert(Seq::<char>::empty() + (ind + ("if (__builtin_sub_overflow((int64_t)0, "@ + (a + (", &"@ + (dst + ")) aria_trap_msg(\"integer overflow\");\n"@))))) =~= ind + ("if (__builtin_sub_overflow((int64_t)0, "@ + (a + (", &"@ + (dst + ")) aria_trap_msg(\"integer overflow\");\n"@)))));
}

proof fn lemma_not_line(ind: Seq<char>, dst: Seq<char>, a: Seq<char>)
    ensures
        fmt("{}{} = !{};\n"@, seq![ind, dst, a]) == ind + (dst + (" = !"@ + (a + ";\n"@))),
{
    reveal_strlit("{}{} = !{};\n");
    reveal_strlit(" = !");
    reveal_strlit(";\n");
    assert("{}{} = !{};\n"@ =~= Seq::<char>::empty() + (hole() + (Seq::<char>::empty() + (hole() + (" = !"@ + (hole() + ";\n"@))))));
    lemma_fill3(Seq::<char>::empty(), Seq::<char>::empty(), " = !"@, ";\n"@, ind, dst, a);
    assert(Seq::<char>::empty() + (ind + (Seq::<char>::empty() + (dst + (" = !"@ + (a + ";\n"@))))) =~= ind + (dst + (" = !"@ + (a + ";\n"@))));
}

proof fn lemma_wide(n: Seq<char>)
    ensures
        fmt("INT64_C({})"@, seq![n]) == "INT64_C("@ + (n + ")"@),
{
    reveal_strlit("INT64_C({})");
    reveal_strlit(")");
    reveal_strlit("INT64_C(");
    assert("INT64_C({})"@ =~= "INT64_C("@ + (hole() + ")"@));
    lemma_fill1("INT64_C("@, ")"@, n);
    assert("INT64_C("@ + (n + ")"@) =~= "INT64_C("@ + (n + ")"@));
}

proof fn lemma_small()
    ensures
        dec(0) == "0"@,
        dec(1) == "1"@,
        dec(-1) == "-1"@,
{
    reveal_strlit("0");
    reveal_strlit("1");
    reveal_strlit("-1");
    assert(digit(0) == '0');
    assert(digit(1) == '1');
    assert(dec(0) =~= "0"@);
    assert(dec(1) =~= "1"@);
    assert(dec(-1) =~= "-1"@);
}

proof fn lemma_one(s: CStmt, ind: Seq<char>, doubles: bool, mem: Map<Seq<char>, int>, w: World)
    ensures
        lines(seq![s], ind) == line(s, ind),
        run(seq![s], doubles, mem, w) == step(s, doubles, mem, w),
{
    reveal_with_fuel(lines, 2);
    reveal_with_fuel(run, 2);
    assert(seq![s].drop_first() =~= Seq::empty());
    assert(line(s, ind) + Seq::<char>::empty() =~= line(s, ind));
}

proof fn lemma_two(
    s: CStmt,
    t: CStmt,
    ind: Seq<char>,
    doubles: bool,
    mem: Map<Seq<char>, int>,
    w: World,
)
    ensures
        lines(seq![s, t], ind) == line(s, ind) + line(t, ind),
        run(seq![s, t], doubles, mem, w) == match step(s, doubles, mem, w) {
            End::Through(m) => step(t, doubles, m, w),
            other => other,
        },
{
    assert(seq![s, t].drop_first() =~= seq![t]);
    match step(s, doubles, mem, w) {
        End::Through(m) => lemma_one(t, ind, doubles, m, w),
        _ => lemma_one(t, ind, doubles, mem, w),
    }
}

// ---------------------------------------------------------------------------
// Atoms
// ---------------------------------------------------------------------------

/// The C expression of an atom.
spec fn operand(a: Atom, ex: Seq<char>) -> CExp {
    match a {
        Atom::Int(n) => CExp::Wide(n as int),
        Atom::Bool(b) => CExp::Small(truth(b)),
        Atom::Var(x) => CExp::Name(var_name(x@)),
        _ => CExp::Fixed(ex),
    }
}

proof fn lemma_operand(
    a: Atom,
    types: Types,
    lits: Seq<Seq<char>>,
    doubles: bool,
    mem: Map<Seq<char>, int>,
    w: World,
)
    requires
        atom_code(a, types, lits) is Ok,
    ensures
        text(operand(a, atom_code(a, types, lits)->Ok_0.1)) == atom_code(a, types, lits)->Ok_0.1,
        eval(operand(a, atom_code(a, types, lits)->Ok_0.1), doubles, mem, w) == Some(
            atom_value(a, atom_code(a, types, lits)->Ok_0.1, mem, w),
        ),
{
    lemma_small();
    match a {
        Atom::Int(n) => {
            lemma_wide(dec(n as int));
        },
        _ => {},
    }
}

/// The text of an atom is an expression with the value of the atom: a number stands
/// for itself, a truth value for 0 or 1, and a variable for what its C variable
/// holds.
pub proof fn atoms_have_their_value(a: Atom, types: Types, lits: Seq<Seq<char>>)
    ensures
        atom_code(a, types, lits) matches Ok((_, ex)) ==> exists|e: CExp|
            #[trigger] text(e) == ex && forall|doubles: bool, mem: Map<Seq<char>, int>, w: World|
                #[trigger] eval(e, doubles, mem, w) == Some(atom_value(a, ex, mem, w)),
{
    if let Ok((_, ex)) = atom_code(a, types, lits) {
        let e = operand(a, ex);
        assert forall|doubles: bool, mem: Map<Seq<char>, int>, w: World|
            #[trigger] eval(e, doubles, mem, w) == Some(atom_value(a, ex, mem, w)) by {
            lemma_operand(a, types, lits, doubles, mem, w);
        }
        lemma_operand(a, types, lits, true, Map::empty(), arbitrary());
    }
}

// ---------------------------------------------------------------------------
// Operators
// ---------------------------------------------------------------------------

/// The condition under which a division traps.
spec fn guard(l: CExp, r: CExp) -> CExp {
    CExp::Infix(
        Box::new(CExp::Infix(Box::new(r), "=="@, Box::new(CExp::Small(0)))),
        "||"@,
        Box::new(
            CExp::Group(
                Box::new(
                    CExp::Infix(
                        Box::new(CExp::Infix(Box::new(l), "=="@, Box::new(CExp::Least))),
                        "&&"@,
                        Box::new(CExp::Infix(Box::new(r), "=="@, Box::new(CExp::Small(-1)))),
                    ),
                ),
            ),
        ),
    )
}

/// The statements of an operator on two operands of a type.
spec fn operation(op: BinOp, t: CType, l: CExp, r: CExp, dst: Seq<char>) -> Seq<CStmt> {
    let infix = CExp::Infix(Box::new(l), c_operator(op), Box::new(r));
    let arithmetic = op == BinOp::Add || op == BinOp::Sub || op == BinOp::Mul;
    let division = op == BinOp::Div || op == BinOp::Mod;
    if t == CType::Float && (arithmetic || division) {
        seq![CStmt::Assign(dst, infix)]
    } else if arithmetic {
        seq![CStmt::Checked(checked_builtin(op), l, r, dst, "integer overflow"@)]
    } else if division {
        seq![
            CStmt::TrapIf(guard(l, r), "division by zero or overflow"@),
            CStmt::Assign(dst, infix),
        ]
    } else if heap_of(t) is Some {
        let call = CExp::Call(equality_fn(t, t)->0, Box::new(l), Box::new(r));
        seq![
            CStmt::Assign(
                dst,
                CExp::Prefix(
                    if op == BinOp::Eq {
                        ""@
                    } else {
                        "!"@
                    },
                    Box::new(call),
                ),
            ),
        ]
    } else {
        seq![CStmt::Assign(dst, CExp::Group(Box::new(infix)))]
    }
}

pub(crate) proof fn lemma_compared(t: CType)
    requires
        heap_of(t) is Some,
    ensures
        equality_fn(t, t) is Some,
        compared_by(equality_fn(t, t)->0) == heap_of(t),
{
    reveal_strlit("aria_streq_consume");
    reveal_strlit("aria_eq_consume");
    reveal_strlit("aria_byteseq_consume");
    reveal_strlit("aria_map_eq_consume");
    reveal_strlit("aria_set_eq_consume");
    reveal_strlit("aria_veceq_consume");
    assert("aria_streq_consume"@.len() == 18);
    assert("aria_eq_consume"@.len() == 15);
    assert("aria_byteseq_consume"@.len() == 20);
    assert("aria_map_eq_consume"@.len() == 19 && "aria_map_eq_consume"@[5] == 'm');
    assert("aria_set_eq_consume"@.len() == 19 && "aria_set_eq_consume"@[5] == 's');
    assert("aria_veceq_consume"@.len() == 18 && "aria_veceq_consume"@[5] == 'v');
    assert("aria_streq_consume"@[5] == 's');
}

proof fn lemma_checked(op: BinOp, a: int, b: int)
    requires
        op == BinOp::Add || op == BinOp::Sub || op == BinOp::Mul,
    ensures
        c_checked(checked_builtin(op), a, b) == Some(
            match op {
                BinOp::Add => a + b,
                BinOp::Sub => a - b,
                _ => a * b,
            },
        ),
{
    reveal_strlit("__builtin_add_overflow");
    reveal_strlit("__builtin_sub_overflow");
    reveal_strlit("__builtin_mul_overflow");
    assert("__builtin_add_overflow"@[10] == 'a');
    assert("__builtin_sub_overflow"@[10] == 's');
    assert("__builtin_mul_overflow"@[10] == 'm');
}

proof fn lemma_quotient(a: int, b: int)
    requires
        b != 0,
        fits(a),
        fits(b),
    ensures
        !fits(towards_zero(a, b)) <==> a == -0x8000_0000_0000_0000 && b == -1,
{
    if a >= 0 && b > 0 {
        assert(0 <= a / b <= a) by (nonlinear_arith)
            requires
                a >= 0,
                b > 0,
        ;
    } else if a >= 0 {
        let c = -b;
        assert(0 <= a / c <= a) by (nonlinear_arith)
            requires
                a >= 0,
                c > 0,
        ;
    } else if b > 0 {
        let d = -a;
        assert(0 <= d / b <= d) by (nonlinear_arith)
            requires
                d >= 0,
                b > 0,
        ;
    } else if b == -1 {
        assert(towards_zero(a, b) == -a) by {
            assert((-a) / 1 == -a);
        }
    } else {
        let d = -a;
        let c = -b;
        assert(0 <= d / c <= d / 2) by (nonlinear_arith)
            requires
                d >= 0,
                c >= 2,
        ;
    }
}

/// The operands of an Int operation are Ints.
pub open spec fn ints_fit(t: CType, a: int, b: int) -> bool {
    t == CType::Int ==> fits(a) && fits(b)
}

proof fn lemma_operation_runs(
    op: BinOp,
    t: CType,
    l: CExp,
    r: CExp,
    dst: Seq<char>,
    mem: Map<Seq<char>, int>,
    w: World,
    a: int,
    b: int,
)
    requires
        defined(op, t),
        eval(l, t == CType::Float, mem, w) == Some(a),
        eval(r, t == CType::Float, mem, w) == Some(b),
        ints_fit(t, a, b),
    ensures
        run(operation(op, t, l, r, dst), t == CType::Float, mem, w) == carried(
            meaning(op, t, a, b, w),
            dst,
            mem,
        ),
{
    let doubles = t == CType::Float;
    let p = operation(op, t, l, r, dst);
    let ind = Seq::<char>::empty();
    let infix = CExp::Infix(Box::new(l), c_operator(op), Box::new(r));
    lemma_tokens();
    tokens_mean_the_operator(op, a, b, w);
    if p.len() == 1 {
        assert(p =~= seq![p[0]]);
        lemma_one(p[0], ind, doubles, mem, w);
    } else {
        assert(p =~= seq![p[0], p[1]]);
        lemma_two(p[0], p[1], ind, doubles, mem, w);
    }
    if heap_of(t) is Some {
        lemma_compared(t);
        assert(eval(CExp::Call(equality_fn(t, t)->0, Box::new(l), Box::new(r)), doubles, mem, w)
            == Some(truth((w.alike)(heap_of(t)->0, a, b))));
    } else if op == BinOp::Add || op == BinOp::Sub || op == BinOp::Mul {
        lemma_checked(op, a, b);
    } else if (op == BinOp::Div || op == BinOp::Mod) && t == CType::Int {
        if b != 0 {
            lemma_quotient(a, b);
        }
        let zero = CExp::Infix(Box::new(r), "=="@, Box::new(CExp::Small(0)));
        let least = CExp::Infix(Box::new(l), "=="@, Box::new(CExp::Least));
        let minus = CExp::Infix(Box::new(r), "=="@, Box::new(CExp::Small(-1)));
        let both = CExp::Infix(Box::new(least), "&&"@, Box::new(minus));
        assert(eval(CExp::Small(0), doubles, mem, w) == Some(0int));
        assert(eval(CExp::Small(-1), doubles, mem, w) == Some(-1int));
        assert(eval(zero, doubles, mem, w) == Some(truth(b == 0)));
        assert(eval(CExp::Least, doubles, mem, w) == Some(-0x8000_0000_0000_0000int));
        assert(eval(least, doubles, mem, w) == Some(truth(a == -0x8000_0000_0000_0000)));
        assert(eval(minus, doubles, mem, w) == Some(truth(b == -1)));
        assert(eval(both, doubles, mem, w) == Some(
            truth(a == -0x8000_0000_0000_0000 && b == -1),
        ));
        assert(eval(CExp::Group(Box::new(both)), doubles, mem, w) == Some(
            truth(a == -0x8000_0000_0000_0000 && b == -1),
        ));
        assert(eval(guard(l, r), doubles, mem, w) == Some(
            truth(b == 0 || (a == -0x8000_0000_0000_0000 && b == -1)),
        ));
    }
    assert(eval(infix, doubles, mem, w) == eval(CExp::Group(Box::new(infix)), doubles, mem, w));
}

proof fn lemma_glue()
    ensures
        " = "@ + "("@ == " = ("@,
        ")"@ + ";\n"@ == ");\n"@,
        " / "@ == " "@ + ("/"@ + " "@),
        " = "@ + "-"@ == " = -"@,
        " = "@ + "!"@ == " = !"@,
        ")) aria_trap_msg(\"integer overflow\");\n"@ == ")) aria_trap_msg(\""@ + (
        "integer overflow"@ + "\");\n"@),
{
    reveal_strlit(" = ");
    reveal_strlit("(");
    reveal_strlit(" = (");
    reveal_strlit(")");
    reveal_strlit(";\n");
    reveal_strlit(");\n");
    reveal_strlit(" / ");
    reveal_strlit(" ");
    reveal_strlit("/");
    reveal_strlit("-");
    reveal_strlit("!");
    reveal_strlit(" = -");
    reveal_strlit(" = !");
    reveal_strlit(")) aria_trap_msg(\"integer overflow\");\n");
    reveal_strlit(")) aria_trap_msg(\"");
    reveal_strlit("integer overflow");
    reveal_strlit("\");\n");
    assert(" = "@ + "("@ =~= " = ("@);
    assert(")"@ + ";\n"@ =~= ");\n"@);
    assert(" / "@ =~= " "@ + ("/"@ + " "@));
    assert(" = "@ + "-"@ =~= " = -"@);
    assert(" = "@ + "!"@ =~= " = !"@);
    assert(")) aria_trap_msg(\"integer overflow\");\n"@ =~= ")) aria_trap_msg(\""@ + (
    "integer overflow"@ + "\");\n"@));
}

proof fn lemma_checked_text(f: Seq<char>, l: CExp, r: CExp, dst: Seq<char>, ind: Seq<char>)
    ensures
        line(CStmt::Checked(f, l, r, dst, "integer overflow"@), ind) == fmt(
            "{}if ({}({}, {}, &{})) aria_trap_msg(\"integer overflow\");\n"@,
            seq![ind, f, text(l), text(r), dst],
        ),
{
    lemma_glue();
    lemma_checked_line(ind, f, text(l), text(r), dst);
}

proof fn lemma_guard_glue(m: Seq<char>)
    requires
        m == "division by zero or overflow"@,
    ensures
        " == 0 || ("@ == " "@ + ("=="@ + (" "@ + ("0"@ + (" "@ + ("||"@ + (" "@ + "("@)))))),
        " == INT64_MIN && "@ == " "@ + ("=="@ + (" "@ + ("INT64_MIN"@ + (" "@ + ("&&"@ + " "@))))),
        " == -1)) aria_trap_msg(\"division by zero or overflow\");\n"@ == " "@ + ("=="@ + (" "@ + (
        "-1"@ + (")"@ + (") aria_trap_msg(\""@ + (m + "\");\n"@)))))),
{
    reveal_strlit(" == 0 || (");
    reveal_strlit(" ");
    reveal_strlit("==");
    reveal_strlit("0");
    reveal_strlit("||");
    reveal_strlit("(");
    reveal_strlit(" == INT64_MIN && ");
    reveal_strlit("INT64_MIN");
    reveal_strlit("&&");
    reveal_strlit(" == -1)) aria_trap_msg(\"division by zero or overflow\");\n");
    reveal_strlit("-1");
    reveal_strlit(")");
    reveal_strlit(") aria_trap_msg(\"");
    reveal_strlit("division by zero or overflow");
    reveal_strlit("\");\n");
    assert(" == 0 || ("@ =~= " "@ + ("=="@ + (" "@ + ("0"@ + (" "@ + ("||"@ + (" "@ + "("@)))))));
    assert(" == INT64_MIN && "@ =~= " "@ + ("=="@ + (" "@ + ("INT64_MIN"@ + (" "@ + ("&&"@
        + " "@))))));
    assert(" == -1)) aria_trap_msg(\"division by zero or overflow\");\n"@ =~= " "@ + ("=="@ + (" "@
        + ("-1"@ + (")"@ + (") aria_trap_msg(\""@ + (m + "\");\n"@)))))));
}

proof fn lemma_regroup(
    ind: Seq<char>,
    head: Seq<char>,
    z: Seq<char>,
    or: Seq<char>,
    b: Seq<char>,
    rest: Seq<char>,
)
    ensures
        ind + (head + ((z + (" "@ + (or + (" "@ + ("("@ + (b + ")"@)))))) + rest)) == ind + (head + (
        z + (" "@ + (or + (" "@ + ("("@ + (b + (")"@ + rest)))))))),
{
    assert((b + ")"@) + rest =~= b + (")"@ + rest));
    let bb = b + ")"@;
    assert((z + (" "@ + (or + (" "@ + ("("@ + bb))))) + rest =~= z + (" "@ + (or + (" "@ + ("("@ + (
    bb + rest))))));
}

proof fn lemma_regroup_and(l: Seq<char>, and: Seq<char>, m: Seq<char>, rest: Seq<char>)
    ensures
        (l + (" "@ + (and + (" "@ + m)))) + rest == l + (" "@ + (and + (" "@ + (m + rest)))),
{
    assert((l + (" "@ + (and + (" "@ + m)))) + rest =~= l + (" "@ + (and + (" "@ + (m + rest)))));
}

proof fn lemma_regroup_eq(
    x: Seq<char>,
    eq: Seq<char>,
    n: Seq<char>,
    op: Seq<char>,
    y: Seq<char>,
    lit: Seq<char>,
)
    requires
        lit == " "@ + (eq + (" "@ + (n + (" "@ + (op + " "@))))),
    ensures
        (x + (" "@ + (eq + (" "@ + n)))) + (" "@ + (op + (" "@ + y))) == x + (lit + y),
{
    assert((x + (" "@ + (eq + (" "@ + n)))) + (" "@ + (op + (" "@ + y))) =~= x + (lit + y));
}

proof fn lemma_guard_parts(
    ind: Seq<char>,
    lx: Seq<char>,
    rx: Seq<char>,
    rest: Seq<char>,
    zero: Seq<char>,
    least: Seq<char>,
    minus: Seq<char>,
    lit1: Seq<char>,
    lit2: Seq<char>,
    lit3: Seq<char>,
)
    requires
        zero == rx + (" "@ + ("=="@ + (" "@ + "0"@))),
        least == lx + (" "@ + ("=="@ + (" "@ + "INT64_MIN"@))),
        minus == rx + (" "@ + ("=="@ + (" "@ + "-1"@))),
        lit1 == " "@ + ("=="@ + (" "@ + ("0"@ + (" "@ + ("||"@ + (" "@ + "("@)))))),
        lit2 == " "@ + ("=="@ + (" "@ + ("INT64_MIN"@ + (" "@ + ("&&"@ + " "@))))),
        lit3 == " "@ + ("=="@ + (" "@ + ("-1"@ + (")"@ + rest)))),
    ensures
        ind + ("if ("@ + ((zero + (" "@ + ("||"@ + (" "@ + ("("@ + ((least + (" "@ + ("&&"@ + (" "@
            + minus)))) + ")"@)))))) + rest)) == ind + ("if ("@ + (rx + (lit1 + (lx + (lit2 + (rx
            + lit3)))))),
{
    let both = least + (" "@ + ("&&"@ + (" "@ + minus)));
    let tail = ")"@ + rest;
    lemma_regroup(ind, "if ("@, zero, "||"@, both, rest);
    lemma_regroup_and(least, "&&"@, minus, tail);
    assert(minus + tail =~= rx + lit3);
    let y = rx + lit3;
    lemma_regroup_eq(lx, "=="@, "INT64_MIN"@, "&&"@, y, lit2);
    let y2 = lx + (lit2 + y);
    let open = " "@ + ("=="@ + (" "@ + ("0"@ + (" "@ + ("||"@ + " "@)))));
    lemma_regroup_eq(rx, "=="@, "0"@, "||"@, "("@ + y2, open);
    assert(open + ("("@ + y2) =~= lit1 + y2);
}

proof fn lemma_guard_text(l: CExp, r: CExp, ind: Seq<char>)
    ensures
        line(CStmt::TrapIf(guard(l, r), "division by zero or overflow"@), ind) == fmt(
            "{}if ({} == 0 || ({} == INT64_MIN && {} == -1)) aria_trap_msg(\"division by zero or overflow\");\n"@,
            seq![ind, text(r), text(l), text(r)],
        ),
{
    let m = "division by zero or overflow"@;
    let lx = text(l);
    let rx = text(r);
    lemma_small();
    lemma_guard_glue(m);
    lemma_guard_line(ind, rx, lx, rx);
    let zero = CExp::Infix(Box::new(r), "=="@, Box::new(CExp::Small(0)));
    let least = CExp::Infix(Box::new(l), "=="@, Box::new(CExp::Least));
    let minus = CExp::Infix(Box::new(r), "=="@, Box::new(CExp::Small(-1)));
    let both = CExp::Infix(Box::new(least), "&&"@, Box::new(minus));
    assert(text(CExp::Small(0)) == "0"@);
    assert(text(CExp::Small(-1)) == "-1"@);
    assert(text(CExp::Least) == "INT64_MIN"@);
    assert(text(zero) == rx + (" "@ + ("=="@ + (" "@ + "0"@))));
    assert(text(least) == lx + (" "@ + ("=="@ + (" "@ + "INT64_MIN"@))));
    assert(text(minus) == rx + (" "@ + ("=="@ + (" "@ + "-1"@))));
    assert(text(both) == text(least) + (" "@ + ("&&"@ + (" "@ + text(minus)))));
    assert(text(CExp::Group(Box::new(both))) == "("@ + (text(both) + ")"@));
    assert(text(guard(l, r)) == text(zero) + (" "@ + ("||"@ + (" "@ + text(
        CExp::Group(Box::new(both)),
    )))));
    lemma_guard_parts(
        ind,
        lx,
        rx,
        ") aria_trap_msg(\""@ + (m + "\");\n"@),
        text(zero),
        text(least),
        text(minus),
        " == 0 || ("@,
        " == INT64_MIN && "@,
        " == -1)) aria_trap_msg(\"division by zero or overflow\");\n"@,
    );
}

proof fn lemma_infix_text(l: CExp, tok: Seq<char>, r: CExp, dst: Seq<char>, ind: Seq<char>)
    ensures
        line(CStmt::Assign(dst, CExp::Infix(Box::new(l), tok, Box::new(r))), ind) == fmt(
            "{}{} = {} {} {};\n"@,
            seq![ind, dst, text(l), tok, text(r)],
        ),
{
    let e = CExp::Infix(Box::new(l), tok, Box::new(r));
    lemma_infix_line(ind, dst, text(l), tok, text(r));
    assert(text(e) == text(l) + (" "@ + (tok + (" "@ + text(r)))));
    lemma_regroup_and(text(l), tok, text(r), ";\n"@);
}

proof fn lemma_regroup_group(l: Seq<char>, tok: Seq<char>, r: Seq<char>)
    ensures
        " = "@ + (("("@ + ((l + (" "@ + (tok + (" "@ + r)))) + ")"@)) + ";\n"@) == " = ("@ + (l + (
        " "@ + (tok + (" "@ + (r + ");\n"@))))),
{
    lemma_glue();
    let i = l + (" "@ + (tok + (" "@ + r)));
    lemma_regroup_and(l, tok, r, ");\n"@);
    assert(" = "@ + (("("@ + (i + ")"@)) + ";\n"@) =~= (" = "@ + "("@) + (i + (")"@ + ";\n"@)));
}

proof fn lemma_group_text(l: CExp, tok: Seq<char>, r: CExp, dst: Seq<char>, ind: Seq<char>)
    ensures
        line(
            CStmt::Assign(dst, CExp::Group(Box::new(CExp::Infix(Box::new(l), tok, Box::new(r))))),
            ind,
        ) == fmt("{}{} = ({} {} {});\n"@, seq![ind, dst, text(l), tok, text(r)]),
{
    let e = CExp::Infix(Box::new(l), tok, Box::new(r));
    lemma_group_line(ind, dst, text(l), tok, text(r));
    assert(text(e) == text(l) + (" "@ + (tok + (" "@ + text(r)))));
    assert(text(CExp::Group(Box::new(e))) == "("@ + (text(e) + ")"@));
    lemma_regroup_group(text(l), tok, text(r));
}

proof fn lemma_regroup_call(n: Seq<char>, f: Seq<char>, l: Seq<char>, r: Seq<char>)
    ensures
        (n + (f + ("("@ + (l + (", "@ + (r + ")"@)))))) + ";\n"@ == n + (f + ("("@ + (l + (", "@ + (
        r + ");\n"@))))),
{
    lemma_glue();
    let t = r + ")"@;
    assert(t + ";\n"@ =~= r + (")"@ + ";\n"@));
    assert((n + (f + ("("@ + (l + (", "@ + t))))) + ";\n"@ =~= n + (f + ("("@ + (l + (", "@ + (t
        + ";\n"@))))));
}

proof fn lemma_call_text(
    n: Seq<char>,
    f: Seq<char>,
    l: CExp,
    r: CExp,
    dst: Seq<char>,
    ind: Seq<char>,
)
    ensures
        line(
            CStmt::Assign(
                dst,
                CExp::Prefix(n, Box::new(CExp::Call(f, Box::new(l), Box::new(r)))),
            ),
            ind,
        ) == fmt("{}{} = {}{}({}, {});\n"@, seq![ind, dst, n, f, text(l), text(r)]),
{
    let call = CExp::Call(f, Box::new(l), Box::new(r));
    lemma_call_line(ind, dst, n, f, text(l), text(r));
    assert(text(call) == f + ("("@ + (text(l) + (", "@ + (text(r) + ")"@)))));
    assert(text(CExp::Prefix(n, Box::new(call))) == n + text(call));
    lemma_regroup_call(n, f, text(l), text(r));
}

proof fn lemma_operation_text(
    op: BinOp,
    t: CType,
    l: CExp,
    r: CExp,
    dst: Seq<char>,
    ind: Seq<char>,
)
    requires
        defined(op, t),
    ensures
        lines(operation(op, t, l, r, dst), ind) == {
            let lx = text(l);
            let rx = text(r);
            let arithmetic = op == BinOp::Add || op == BinOp::Sub || op == BinOp::Mul;
            let division = op == BinOp::Div || op == BinOp::Mod;
            if t == CType::Float && (arithmetic || division) {
                fmt("{}{} = {} {} {};\n"@, seq![ind, dst, lx, c_operator(op), rx])
            } else if arithmetic {
                fmt(
                    "{}if ({}({}, {}, &{})) aria_trap_msg(\"integer overflow\");\n"@,
                    seq![ind, checked_builtin(op), lx, rx, dst],
                )
            } else if division {
                fmt(
                    "{}if ({} == 0 || ({} == INT64_MIN && {} == -1)) aria_trap_msg(\"division by zero or overflow\");\n"@,
                    seq![ind, rx, lx, rx],
                ) + fmt("{}{} = {} {} {};\n"@, seq![ind, dst, lx, c_operator(op), rx])
            } else if heap_of(t) is Some {
                fmt(
                    "{}{} = {}{}({}, {});\n"@,
                    seq![
                        ind,
                        dst,
                        if op == BinOp::Eq {
                            ""@
                        } else {
                            "!"@
                        },
                        equality_fn(t, t)->0,
                        lx,
                        rx,
                    ],
                )
            } else {
                fmt("{}{} = ({} {} {});\n"@, seq![ind, dst, lx, c_operator(op), rx])
            }
        },
{
    let mem = Map::<Seq<char>, int>::empty();
    let w: World = arbitrary();
    let tok = c_operator(op);
    let p = operation(op, t, l, r, dst);
    if p.len() == 1 {
        assert(p =~= seq![p[0]]);
        lemma_one(p[0], ind, false, mem, w);
    } else {
        assert(p =~= seq![p[0], p[1]]);
        lemma_two(p[0], p[1], ind, false, mem, w);
    }
    lemma_infix_text(l, tok, r, dst, ind);
    if op == BinOp::Add || op == BinOp::Sub || op == BinOp::Mul {
        lemma_checked_text(checked_builtin(op), l, r, dst, ind);
    } else if op == BinOp::Div || op == BinOp::Mod {
        lemma_guard_text(l, r, ind);
    } else if heap_of(t) is Some {
        let n = if op == BinOp::Eq {
            ""@
        } else {
            "!"@
        };
        lemma_call_text(n, equality_fn(t, t)->0, l, r, dst, ind);
    } else {
        lemma_group_text(l, tok, r, dst, ind);
    }
}

/// What the backend emits for an operator computes it: the statements whose text
/// comes out store, in every memory, the value that the operator has on the operands,
/// or trap as the operator does. Arithmetic on operands of other types is refused.
pub proof fn operators_compute(
    op: BinOp,
    l: Atom,
    r: Atom,
    dst: Seq<char>,
    st: St,
    lits: Seq<Seq<char>>,
    ind: Seq<char>,
)
    requires
        atom_code(l, st.types, lits) is Ok,
        atom_code(r, st.types, lits) is Ok,
    ensures
        ({
            let (lt, lx) = atom_code(l, st.types, lits)->Ok_0;
            let (rt, rx) = atom_code(r, st.types, lits)->Ok_0;
            let code = prim_code(op, l, r, dst, st, lits, ind);
            &&& lt == rt && defined(op, lt) ==> exists|p: Seq<CStmt>|
                {
                    &&& code == Ok::<St, Seq<char>>(St { out: st.out + #[trigger] lines(p, ind), ..st })
                    &&& forall|mem: Map<Seq<char>, int>, w: World|
                        ints_fit(lt, atom_value(l, lx, mem, w), atom_value(r, rx, mem, w))
                            ==> #[trigger] run(p, is_double(lt), mem, w) == carried(
                            meaning(
                                op,
                                lt,
                                atom_value(l, lx, mem, w),
                                atom_value(r, rx, mem, w),
                                w,
                            ),
                            dst,
                            mem,
                        )
                }
            &&& (op == BinOp::Add || op == BinOp::Sub || op == BinOp::Mul || op == BinOp::Div || op
                == BinOp::Mod) && !(lt == rt && defined(op, lt)) ==> code is Err
        }),
{
    let (lt, lx) = atom_code(l, st.types, lits)->Ok_0;
    let (rt, rx) = atom_code(r, st.types, lits)->Ok_0;
    let code = prim_code(op, l, r, dst, st, lits, ind);
    let a = operand(l, lx);
    let b = operand(r, rx);
    let p = operation(op, lt, a, b, dst);
    if lt == rt && defined(op, lt) {
        let w0: World = arbitrary();
        lemma_operand(l, st.types, lits, false, Map::empty(), w0);
        lemma_operand(r, st.types, lits, false, Map::empty(), w0);
        lemma_operation_text(op, lt, a, b, dst, ind);
        if heap_of(lt) is Some {
            lemma_compared(lt);
        }
        if lt == CType::Float && op == BinOp::Div {
            lemma_glue();
            lemma_over_line(ind, dst, lx, rx);
            lemma_infix_line(ind, dst, lx, c_operator(op), rx);
            assert(fmt("{}{} = {} / {};\n"@, seq![ind, dst, lx, rx]) =~= fmt(
                "{}{} = {} {} {};\n"@,
                seq![ind, dst, lx, c_operator(op), rx],
            ));
        }
        if lt == CType::Int && (op == BinOp::Div || op == BinOp::Mod) {
            assert(st.out + lines(p, ind) =~= code->Ok_0.out);
        }
        assert(code == Ok::<St, Seq<char>>(St { out: st.out + lines(p, ind), ..st }));
        assert forall|mem: Map<Seq<char>, int>, w: World|
            ints_fit(lt, atom_value(l, lx, mem, w), atom_value(r, rx, mem, w)) implies
            #[trigger] run(p, is_double(lt), mem, w) == carried(
            meaning(op, lt, atom_value(l, lx, mem, w), atom_value(r, rx, mem, w), w),
            dst,
            mem,
        ) by {
            lemma_operand(l, st.types, lits, lt == CType::Float, mem, w);
            lemma_operand(r, st.types, lits, lt == CType::Float, mem, w);
            lemma_operation_runs(
                op,
                lt,
                a,
                b,
                dst,
                mem,
                w,
                atom_value(l, lx, mem, w),
                atom_value(r, rx, mem, w),
            );
        }
    }
}

/// The statement of a unary operator on an operand of a type.
spec fn negation(op: UnOp, t: CType, a: CExp, dst: Seq<char>) -> CStmt {
    match op {
        UnOp::Neg => if t == CType::Float {
            CStmt::Assign(dst, CExp::Prefix("-"@, Box::new(a)))
        } else {
            CStmt::Checked(
                "__builtin_sub_overflow"@,
                CExp::Nought,
                a,
                dst,
                "integer overflow"@,
            )
        },
        UnOp::Not => CStmt::Assign(dst, CExp::Prefix("!"@, Box::new(a))),
    }
}

proof fn lemma_negation_text(op: UnOp, t: CType, a: CExp, dst: Seq<char>, ind: Seq<char>)
    requires
        unary_defined(op, t),
    ensures
        line(negation(op, t, a, dst), ind) == match op {
            UnOp::Neg => if t == CType::Float {
                fmt("{}{} = -{};\n"@, seq![ind, dst, text(a)])
            } else {
                fmt(
                    "{}if (__builtin_sub_overflow((int64_t)0, {}, &{})) aria_trap_msg(\"integer overflow\");\n"@,
                    seq![ind, text(a), dst],
                )
            },
            UnOp::Not => fmt("{}{} = !{};\n"@, seq![ind, dst, text(a)]),
        },
{
    lemma_glue();
    let ax = text(a);
    lemma_minus_line(ind, dst, ax);
    lemma_not_line(ind, dst, ax);
    lemma_opposite_line(ind, ax, dst);
    if op == UnOp::Neg && t == CType::Float {
        let e = CExp::Prefix("-"@, Box::new(a));
        assert(text(e) == "-"@ + ax);
        assert(line(negation(op, t, a, dst), ind) =~= fmt(
            "{}{} = -{};\n"@,
            seq![ind, dst, ax],
        ));
    } else if op == UnOp::Not {
        let e = CExp::Prefix("!"@, Box::new(a));
        assert(text(e) == "!"@ + ax);
        assert(line(negation(op, t, a, dst), ind) =~= fmt(
            "{}{} = !{};\n"@,
            seq![ind, dst, ax],
        ));
    } else {
        let f = "__builtin_sub_overflow"@;
        reveal_strlit("if (__builtin_sub_overflow((int64_t)0, ");
        reveal_strlit("if (");
        reveal_strlit("__builtin_sub_overflow");
        reveal_strlit("(");
        reveal_strlit("(int64_t)0");
        reveal_strlit(", ");
        assert("if (__builtin_sub_overflow((int64_t)0, "@ =~= "if ("@ + (f + ("("@ + (
        "(int64_t)0"@ + ", "@))));
        assert(text(CExp::Nought) == "(int64_t)0"@);
        assert(line(negation(op, t, a, dst), ind) =~= fmt(
            "{}if (__builtin_sub_overflow((int64_t)0, {}, &{})) aria_trap_msg(\"integer overflow\");\n"@,
            seq![ind, ax, dst],
        ));
    }
}

/// What the backend emits for a unary operator computes it, and one on an operand of
/// another type is refused.
pub proof fn unary_operators_compute(
    op: UnOp,
    a: Atom,
    dst: Seq<char>,
    st: St,
    lits: Seq<Seq<char>>,
    ind: Seq<char>,
)
    requires
        atom_code(a, st.types, lits) is Ok,
    ensures
        ({
            let (t, ax) = atom_code(a, st.types, lits)->Ok_0;
            let code = unary_code(op, a, dst, st, lits, ind);
            &&& unary_defined(op, t) ==> exists|p: Seq<CStmt>|
                {
                    &&& code == Ok::<St, Seq<char>>(St { out: st.out + #[trigger] lines(p, ind), ..st })
                    &&& forall|mem: Map<Seq<char>, int>, w: World| #[trigger]
                        run(p, is_double(t), mem, w) == carried(
                            unary_meaning(op, t, atom_value(a, ax, mem, w), w),
                            dst,
                            mem,
                        )
                }
            &&& !unary_defined(op, t) ==> code is Err
        }),
{
    let (t, ax) = atom_code(a, st.types, lits)->Ok_0;
    let code = unary_code(op, a, dst, st, lits, ind);
    let e = operand(a, ax);
    let s = negation(op, t, e, dst);
    let p = seq![s];
    if unary_defined(op, t) {
        let w0: World = arbitrary();
        lemma_operand(a, st.types, lits, false, Map::empty(), w0);
        lemma_one(s, ind, false, Map::empty(), w0);
        lemma_negation_text(op, t, e, dst, ind);
        assert(code == Ok::<St, Seq<char>>(St { out: st.out + lines(p, ind), ..st }));
        assert forall|mem: Map<Seq<char>, int>, w: World| #[trigger]
            run(p, is_double(t), mem, w) == carried(
                unary_meaning(op, t, atom_value(a, ax, mem, w), w),
                dst,
                mem,
            ) by {
            lemma_operand(a, st.types, lits, t == CType::Float, mem, w);
            lemma_one(s, ind, t == CType::Float, mem, w);
            lemma_tokens();
            lemma_checked(BinOp::Sub, 0, atom_value(a, ax, mem, w));
        }
    }
}

} // verus!
