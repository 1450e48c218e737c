//! The partial derivatives that a trace records.
//!
//! A record on the tape holds the value of an operation on one or two nodes and its
//! partial derivative by each. Here these are terms over the values of the nodes:
//! what the tracer emits is the text of terms whose value is that of the operation and
//! whose partials are the derivatives that the rules of calculus give.

use vstd::prelude::*;
use vstd::string::*;

use crate::ast::model::{ExprV, KindV};
use crate::ast::BinOp;
use crate::grad_native::model::{
    binary_code, fresh, get_code, negate_code, scale_code, traced, traced_scalar, zip_code, ScopeV,
    TValV, TrCx, TrSt,
};
use crate::text::pieces::{
    hole, lemma_fill1, lemma_fill2, lemma_fill3, lemma_fill4, lemma_fill5, lemma_fill7,
};
use crate::text::{dec, digit, fmt};

verus! {

// ---------------------------------------------------------------------------
// Terms
// ---------------------------------------------------------------------------

/// A term over the values of two nodes.
pub enum Term {
    Left,
    Right,
    Num(int),
    Opposite(Box<Term>),
    Plus(Box<Term>, Box<Term>),
    Less(Box<Term>, Box<Term>),
    Times(Box<Term>, Box<Term>),
    Over(Box<Term>, Box<Term>),
    Group(Box<Term>),
}

/// The C text of a term, where the two values have texts.
pub open spec fn term_text(t: Term, l: Seq<char>, r: Seq<char>) -> Seq<char>
    decreases t,
{
    match t {
        Term::Left => l,
        Term::Right => r,
        Term::Num(n) => dec(n) + ".0"@,
        Term::Opposite(x) => "-"@ + term_text(*x, l, r),
        Term::Plus(x, y) => term_text(*x, l, r) + (" + "@ + term_text(*y, l, r)),
        Term::Less(x, y) => term_text(*x, l, r) + (" - "@ + term_text(*y, l, r)),
        Term::Times(x, y) => term_text(*x, l, r) + (" * "@ + term_text(*y, l, r)),
        Term::Over(x, y) => term_text(*x, l, r) + (" / "@ + term_text(*y, l, r)),
        Term::Group(x) => "("@ + (term_text(*x, l, r) + ")"@),
    }
}

/// The value of a term as a fraction: numerator and denominator.
pub open spec fn fraction(t: Term, a: int, b: int) -> (int, int)
    decreases t,
{
    match t {
        Term::Left => (a, 1),
        Term::Right => (b, 1),
        Term::Num(n) => (n, 1),
        Term::Opposite(x) => {
            let f = fraction(*x, a, b);
            (-f.0, f.1)
        },
        Term::Plus(x, y) => {
            let f = fraction(*x, a, b);
            let g = fraction(*y, a, b);
            (f.0 * g.1 + g.0 * f.1, f.1 * g.1)
        },
        Term::Less(x, y) => {
            let f = fraction(*x, a, b);
            let g = fraction(*y, a, b);
            (f.0 * g.1 - g.0 * f.1, f.1 * g.1)
        },
        Term::Times(x, y) => {
            let f = fraction(*x, a, b);
            let g = fraction(*y, a, b);
            (f.0 * g.0, f.1 * g.1)
        },
        Term::Over(x, y) => {
            let f = fraction(*x, a, b);
            let g = fraction(*y, a, b);
            (f.0 * g.1, f.1 * g.0)
        },
        Term::Group(x) => fraction(*x, a, b),
    }
}

/// Whether two fractions are the same number.
pub open spec fn equal(f: (int, int), g: (int, int)) -> bool {
    f.1 != 0 && g.1 != 0 && f.0 * g.1 == g.0 * f.1
}

/// Whether two terms have the same value wherever the right value is not zero.
pub open spec fn agree(t: Term, u: Term) -> bool {
    forall|a: int, b: int|
        b != 0 ==> equal(#[trigger] fraction(t, a, b), #[trigger] fraction(u, a, b))
}

/// The derivative of a term by the left or the right value: by the rules for sums,
/// products and quotients.
pub open spec fn derivative(t: Term, left: bool) -> Term
    decreases t,
{
    match t {
        Term::Left => Term::Num(
            if left {
                1
            } else {
                0
            },
        ),
        Term::Right => Term::Num(
            if left {
                0
            } else {
                1
            },
        ),
        Term::Num(_) => Term::Num(0),
        Term::Opposite(x) => Term::Opposite(Box::new(derivative(*x, left))),
        Term::Plus(x, y) => Term::Plus(
            Box::new(derivative(*x, left)),
            Box::new(derivative(*y, left)),
        ),
        Term::Less(x, y) => Term::Less(
            Box::new(derivative(*x, left)),
            Box::new(derivative(*y, left)),
        ),
        Term::Times(x, y) => Term::Plus(
            Box::new(Term::Times(Box::new(derivative(*x, left)), y)),
            Box::new(Term::Times(x, Box::new(derivative(*y, left)))),
        ),
        Term::Over(x, y) => Term::Over(
            Box::new(
                Term::Less(
                    Box::new(Term::Times(Box::new(derivative(*x, left)), y)),
                    Box::new(Term::Times(x, Box::new(derivative(*y, left)))),
                ),
            ),
            Box::new(Term::Times(y, y)),
        ),
        Term::Group(x) => derivative(*x, left),
    }
}

/// Whether three terms are the value of an operation with value `f` and its partial
/// derivatives.
pub open spec fn differentiates(
    v: Term,
    by_left: Term,
    by_right: Term,
    f: spec_fn(int, int) -> (int, int),
) -> bool {
    &&& forall|a: int, b: int| b != 0 ==> equal(#[trigger] fraction(v, a, b), f(a, b))
    &&& agree(by_left, derivative(v, true))
    &&& agree(by_right, derivative(v, false))
}

/// An arithmetic operator on two numbers, as a fraction.
pub open spec fn applied(op: BinOp) -> spec_fn(int, int) -> (int, int) {
    |a: int, b: int|
        match op {
            BinOp::Add => (a + b, 1int),
            BinOp::Sub => (a - b, 1int),
            BinOp::Mul => (a * b, 1int),
            _ => (a, b),
        }
}

/// Whether an operator can be differentiated.
pub open spec fn smooth(op: BinOp) -> bool {
    op == BinOp::Add || op == BinOp::Sub || op == BinOp::Mul || op == BinOp::Div
}

// ---------------------------------------------------------------------------
// The tape in C
// ---------------------------------------------------------------------------

/// The value of a node.
pub open spec fn value_at(id: Seq<char>) -> Seq<char> {
    "aria_tape_value(&$tp, "@ + (id + ")"@)
}

/// The record of an operation on two nodes.
pub open spec fn record_two(
    a: Seq<char>,
    b: Seq<char>,
    v: Seq<char>,
    by_left: Seq<char>,
    by_right: Seq<char>,
) -> Seq<char> {
    "aria_tape_binary(&$tp, "@ + (a + (", "@ + (b + (", "@ + (v + (", "@ + (by_left + (", "@ + (
    by_right + ")"@)))))))))
}

/// The record of an operation on one node.
pub open spec fn record_one(a: Seq<char>, v: Seq<char>, by: Seq<char>) -> Seq<char> {
    "aria_tape_unary(&$tp, "@ + (a + (", "@ + (v + (", "@ + (by + ")"@)))))
}

/// The declaration of a node.
pub open spec fn node_line(t: Seq<char>, record: Seq<char>) -> Seq<char> {
    "    int64_t "@ + (t + (" = "@ + (record + ";\n"@)))
}

/// The test before a division: a divisor of zero traps.
pub open spec fn zero_guard(op: BinOp, b: Seq<char>) -> Seq<char> {
    if op == BinOp::Div {
        "    if ("@ + (value_at(b)
            + " == 0.0) aria_trap_msg(\"grad: division by zero in a differentiated value\");\n"@)
    } else {
        Seq::empty()
    }
}

// ---------------------------------------------------------------------------
// Texts
// ---------------------------------------------------------------------------

proof fn lemma_value(id: Seq<char>)
    ensures
        fmt("aria_tape_value(&$tp, {})"@, seq![id]) == "aria_tape_value(&$tp, "@ + (id + ")"@),
{
    reveal_strlit("aria_tape_value(&$tp, {})");
    reveal_strlit(")");
    reveal_strlit("aria_tape_value(&$tp, ");
    assert("aria_tape_value(&$tp, {})"@ =~= "aria_tape_value(&$tp, "@ + (hole() + ")"@));
    lemma_fill1("aria_tape_value(&$tp, "@, ")"@, id);
    assert("aria_tape_value(&$tp, "@ + (id + ")"@) =~= "aria_tape_value(&$tp, "@ + (id + ")"@));
}

proof fn lemma_add(t: Seq<char>, a: Seq<char>, b: Seq<char>, l: Seq<char>, r: Seq<char>)
    ensures
        fmt("    int64_t {} = aria_tape_binary(&$tp, {}, {}, {} + {}, 1.0, 1.0);\n"@, seq![t, a, b, l, r]) == "    int64_t "@ + (t + (" = aria_tape_binary(&$tp, "@ + (a + (", "@ + (b + (", "@ + (l + (" + "@ + (r + ", 1.0, 1.0);\n"@))))))))),
{
    reveal_strlit("    int64_t {} = aria_tape_binary(&$tp, {}, {}, {} + {}, 1.0, 1.0);\n");
    reveal_strlit("    int64_t ");
    reveal_strlit(" + ");
    reveal_strlit(" = aria_tape_binary(&$tp, ");
    reveal_strlit(", ");
    reveal_strlit(", 1.0, 1.0);\n");
    assert("    int64_t {} = aria_tape_binary(&$tp, {}, {}, {} + {}, 1.0, 1.0);\n"@ =~= "    int64_t "@ + (hole() + (" = aria_tape_binary(&$tp, "@ + (hole() + (", "@ + (hole() + (", "@ + (hole() + (" + "@ + (hole() + ", 1.0, 1.0);\n"@))))))))));
    lemma_fill5("    int64_t "@, " = aria_tape_binary(&$tp, "@, ", "@, ", "@, " + "@, ", 1.0, 1.0);\n"@, t, a, b, l, r);
    assert("    int64_t "@ + (t + (" = aria_tape_binary(&$tp, "@ + (a + (", "@ + (b + (", "@ + (l + (" + "@ + (r + ", 1.0, 1.0);\n"@))))))))) =~= "    int64_t "@ + (t + (" = aria_tape_binary(&$tp, "@ + (a + (", "@ + (b + (", "@ + (l + (" + "@ + (r + ", 1.0, 1.0);\n"@))))))))));
}

proof fn lemma_sub(t: Seq<char>, a: Seq<char>, b: Seq<char>, l: Seq<char>, r: Seq<char>)
    ensures
        fmt("    int64_t {} = aria_tape_binary(&$tp, {}, {}, {} - {}, 1.0, -1.0);\n"@, seq![t, a, b, l, r]) == "    int64_t "@ + (t + (" = aria_tape_binary(&$tp, "@ + (a + (", "@ + (b + (", "@ + (l + (" - "@ + (r + ", 1.0, -1.0);\n"@))))))))),
{
    reveal_strlit("    int64_t {} = aria_tape_binary(&$tp, {}, {}, {} - {}, 1.0, -1.0);\n");
    reveal_strlit("    int64_t ");
    reveal_strlit(" - ");
    reveal_strlit(" = aria_tape_binary(&$tp, ");
    reveal_strlit(", ");
    reveal_strlit(", 1.0, -1.0);\n");
    assert("    int64_t {} = aria_tape_binary(&$tp, {}, {}, {} - {}, 1.0, -1.0);\n"@ =~= "    int64_t "@ + (hole() + (" = aria_tape_binary(&$tp, "@ + (hole() + (", "@ + (hole() + (", "@ + (hole() + (" - "@ + (hole() + ", 1.0, -1.0);\n"@))))))))));
    lemma_fill5("    int64_t "@, " = aria_tape_binary(&$tp, "@, ", "@, ", "@, " - "@, ", 1.0, -1.0);\n"@, t, a, b, l, r);
    assert("    int64_t "@ + (t + (" = aria_tape_binary(&$tp, "@ + (a + (", "@ + (b + (", "@ + (l + (" - "@ + (r + ", 1.0, -1.0);\n"@))))))))) =~= "    int64_t "@ + (t + (" = aria_tape_binary(&$tp, "@ + (a + (", "@ + (b + (", "@ + (l + (" - "@ + (r + ", 1.0, -1.0);\n"@))))))))));
}

proof fn lemma_mul(t: Seq<char>, a: Seq<char>, b: Seq<char>, l: Seq<char>, r: Seq<char>, r2: Seq<char>, l2: Seq<char>)
    ensures
        fmt("    int64_t {} = aria_tape_binary(&$tp, {}, {}, {} * {}, {}, {});\n"@, seq![t, a, b, l, r, r2, l2]) == "    int64_t "@ + (t + (" = aria_tape_binary(&$tp, "@ + (a + (", "@ + (b + (", "@ + (l + (" * "@ + (r + (", "@ + (r2 + (", "@ + (l2 + ");\n"@))))))))))))),
{
    reveal_strlit("    int64_t {} = aria_tape_binary(&$tp, {}, {}, {} * {}, {}, {});\n");
    reveal_strlit("    int64_t ");
    reveal_strlit(" * ");
    reveal_strlit(" = aria_tape_binary(&$tp, ");
    reveal_strlit(");\n");
    reveal_strlit(", ");
    assert("    int64_t {} = aria_tape_binary(&$tp, {}, {}, {} * {}, {}, {});\n"@ =~= "    int64_t "@ + (hole() + (" = aria_tape_binary(&$tp, "@ + (hole() + (", "@ + (hole() + (", "@ + (hole() + (" * "@ + (hole() + (", "@ + (hole() + (", "@ + (hole() + ");\n"@))))))))))))));
    lemma_fill7("    int64_t "@, " = aria_tape_binary(&$tp, "@, ", "@, ", "@, " * "@, ", "@, ", "@, ");\n"@, t, a, b, l, r, r2, l2);
    assert("    int64_t "@ + (t + (" = aria_tape_binary(&$tp, "@ + (a + (", "@ + (b + (", "@ + (l + (" * "@ + (r + (", "@ + (r2 + (", "@ + (l2 + ");\n"@))))))))))))) =~= "    int64_t "@ + (t + (" = aria_tape_binary(&$tp, "@ + (a + (", "@ + (b + (", "@ + (l + (" * "@ + (r + (", "@ + (r2 + (", "@ + (l2 + ");\n"@))))))))))))));
}

proof fn lemma_div(t: Seq<char>, a: Seq<char>, b: Seq<char>, l: Seq<char>, r: Seq<char>)
    ensures
        fmt("    int64_t {} = aria_tape_binary(&$tp, {}, {}, {} / {}, "@, seq![t, a, b, l, r]) == "    int64_t "@ + (t + (" = aria_tape_binary(&$tp, "@ + (a + (", "@ + (b + (", "@ + (l + (" / "@ + (r + ", "@))))))))),
{
    reveal_strlit("    int64_t {} = aria_tape_binary(&$tp, {}, {}, {} / {}, ");
    reveal_strlit("    int64_t ");
    reveal_strlit(" / ");
    reveal_strlit(" = aria_tape_binary(&$tp, ");
    reveal_strlit(", ");
    assert("    int64_t {} = aria_tape_binary(&$tp, {}, {}, {} / {}, "@ =~= "    int64_t "@ + (hole() + (" = aria_tape_binary(&$tp, "@ + (hole() + (", "@ + (hole() + (", "@ + (hole() + (" / "@ + (hole() + ", "@))))))))));
    lemma_fill5("    int64_t "@, " = aria_tape_binary(&$tp, "@, ", "@, ", "@, " / "@, ", "@, t, a, b, l, r);
    assert("    int64_t "@ + (t + (" = aria_tape_binary(&$tp, "@ + (a + (", "@ + (b + (", "@ + (l + (" / "@ + (r + ", "@))))))))) =~= "    int64_t "@ + (t + (" = aria_tape_binary(&$tp, "@ + (a + (", "@ + (b + (", "@ + (l + (" / "@ + (r + ", "@))))))))));
}

proof fn lemma_div_rest(r: Seq<char>, l: Seq<char>, r2: Seq<char>, r3: Seq<char>)
    ensures
        fmt("1.0 / ({}), -({}) / (({}) * ({})));\n"@, seq![r, l, r2, r3]) == "1.0 / ("@ + (r + ("), -("@ + (l + (") / (("@ + (r2 + (") * ("@ + (r3 + ")));\n"@))))))),
{
    reveal_strlit("1.0 / ({}), -({}) / (({}) * ({})));\n");
    reveal_strlit(") * (");
    reveal_strlit(") / ((");
    reveal_strlit(")));\n");
    reveal_strlit("), -(");
    reveal_strlit("1.0 / (");
    assert("1.0 / ({}), -({}) / (({}) * ({})));\n"@ =~= "1.0 / ("@ + (hole() + ("), -("@ + (hole() + (") / (("@ + (hole() + (") * ("@ + (hole() + ")));\n"@))))))));
    lemma_fill4("1.0 / ("@, "), -("@, ") / (("@, ") * ("@, ")));\n"@, r, l, r2, r3);
    assert("1.0 / ("@ + (r + ("), -("@ + (l + (") / (("@ + (r2 + (") * ("@ + (r3 + ")));\n"@))))))) =~= "1.0 / ("@ + (r + ("), -("@ + (l + (") / (("@ + (r2 + (") * ("@ + (r3 + ")));\n"@))))))));
}

proof fn lemma_zero(r: Seq<char>)
    ensures
        fmt("    if ({} == 0.0) aria_trap_msg(\"grad: division by zero in a differentiated value\");\n"@, seq![r]) == "    if ("@ + (r + " == 0.0) aria_trap_msg(\"grad: division by zero in a differentiated value\");\n"@),
{
    reveal_strlit("    if ({} == 0.0) aria_trap_msg(\"grad: division by zero in a differentiated value\");\n");
    reveal_strlit("    if (");
    reveal_strlit(" == 0.0) aria_trap_msg(\"grad: division by zero in a differentiated value\");\n");
    assert("    if ({} == 0.0) aria_trap_msg(\"grad: division by zero in a differentiated value\");\n"@ =~= "    if ("@ + (hole() + " == 0.0) aria_trap_msg(\"grad: division by zero in a differentiated value\");\n"@));
    lemma_fill1("    if ("@, " == 0.0) aria_trap_msg(\"grad: division by zero in a differentiated value\");\n"@, r);
    assert("    if ("@ + (r + " == 0.0) aria_trap_msg(\"grad: division by zero in a differentiated value\");\n"@) =~= "    if ("@ + (r + " == 0.0) aria_trap_msg(\"grad: division by zero in a differentiated value\");\n"@));
}

proof fn lemma_negate(t: Seq<char>, x: Seq<char>, x2: Seq<char>)
    ensures
        fmt("    int64_t {} = aria_tape_unary(&$tp, {}, -aria_tape_value(&$tp, {}), -1.0);\n"@, seq![t, x, x2]) == "    int64_t "@ + (t + (" = aria_tape_unary(&$tp, "@ + (x + (", -aria_tape_value(&$tp, "@ + (x2 + "), -1.0);\n"@))))),
{
    reveal_strlit("    int64_t {} = aria_tape_unary(&$tp, {}, -aria_tape_value(&$tp, {}), -1.0);\n");
    reveal_strlit("    int64_t ");
    reveal_strlit(" = aria_tape_unary(&$tp, ");
    reveal_strlit("), -1.0);\n");
    reveal_strlit(", -aria_tape_value(&$tp, ");
    assert("    int64_t {} = aria_tape_unary(&$tp, {}, -aria_tape_value(&$tp, {}), -1.0);\n"@ =~= "    int64_t "@ + (hole() + (" = aria_tape_unary(&$tp, "@ + (hole() + (", -aria_tape_value(&$tp, "@ + (hole() + "), -1.0);\n"@))))));
    lemma_fill3("    int64_t "@, " = aria_tape_unary(&$tp, "@, ", -aria_tape_value(&$tp, "@, "), -1.0);\n"@, t, x, x2);
    assert("    int64_t "@ + (t + (" = aria_tape_unary(&$tp, "@ + (x + (", -aria_tape_value(&$tp, "@ + (x2 + "), -1.0);\n"@))))) =~= "    int64_t "@ + (t + (" = aria_tape_unary(&$tp, "@ + (x + (", -aria_tape_value(&$tp, "@ + (x2 + "), -1.0);\n"@))))));
}

proof fn lemma_get(t: Seq<char>, v: Seq<char>, i: Seq<char>, v2: Seq<char>, i2: Seq<char>)
    ensures
        fmt("    int64_t {} = aria_tape_unary(&$tp, {}.ids[{}], aria_tape_value(&$tp, {}.ids[{}]), 1.0);\n"@, seq![t, v, i, v2, i2]) == "    int64_t "@ + (t + (" = aria_tape_unary(&$tp, "@ + (v + (".ids["@ + (i + ("], aria_tape_value(&$tp, "@ + (v2 + (".ids["@ + (i2 + "]), 1.0);\n"@))))))))),
{
    reveal_strlit("    int64_t {} = aria_tape_unary(&$tp, {}.ids[{}], aria_tape_value(&$tp, {}.ids[{}]), 1.0);\n");
    reveal_strlit("    int64_t ");
    reveal_strlit(" = aria_tape_unary(&$tp, ");
    reveal_strlit(".ids[");
    reveal_strlit("]), 1.0);\n");
    reveal_strlit("], aria_tape_value(&$tp, ");
    assert("    int64_t {} = aria_tape_unary(&$tp, {}.ids[{}], aria_tape_value(&$tp, {}.ids[{}]), 1.0);\n"@ =~= "    int64_t "@ + (hole() + (" = aria_tape_unary(&$tp, "@ + (hole() + (".ids["@ + (hole() + ("], aria_tape_value(&$tp, "@ + (hole() + (".ids["@ + (hole() + "]), 1.0);\n"@))))))))));
    lemma_fill5("    int64_t "@, " = aria_tape_unary(&$tp, "@, ".ids["@, "], aria_tape_value(&$tp, "@, ".ids["@, "]), 1.0);\n"@, t, v, i, v2, i2);
    assert("    int64_t "@ + (t + (" = aria_tape_unary(&$tp, "@ + (v + (".ids["@ + (i + ("], aria_tape_value(&$tp, "@ + (v2 + (".ids["@ + (i2 + "]), 1.0);\n"@))))))))) =~= "    int64_t "@ + (t + (" = aria_tape_unary(&$tp, "@ + (v + (".ids["@ + (i + ("], aria_tape_value(&$tp, "@ + (v2 + (".ids["@ + (i2 + "]), 1.0);\n"@))))))))));
}

proof fn lemma_get_guard(i: Seq<char>, i2: Seq<char>, v: Seq<char>)
    ensures
        fmt("    if ({} < 0 || {} >= {}.len) aria_trap_msg(\"vector index out of range\");\n"@, seq![i, i2, v]) == "    if ("@ + (i + (" < 0 || "@ + (i2 + (" >= "@ + (v + ".len) aria_trap_msg(\"vector index out of range\");\n"@))))),
{
    reveal_strlit("    if ({} < 0 || {} >= {}.len) aria_trap_msg(\"vector index out of range\");\n");
    reveal_strlit("    if (");
    reveal_strlit(" < 0 || ");
    reveal_strlit(" >= ");
    reveal_strlit(".len) aria_trap_msg(\"vector index out of range\");\n");
    assert("    if ({} < 0 || {} >= {}.len) aria_trap_msg(\"vector index out of range\");\n"@ =~= "    if ("@ + (hole() + (" < 0 || "@ + (hole() + (" >= "@ + (hole() + ".len) aria_trap_msg(\"vector index out of range\");\n"@))))));
    lemma_fill3("    if ("@, " < 0 || "@, " >= "@, ".len) aria_trap_msg(\"vector index out of range\");\n"@, i, i2, v);
    assert("    if ("@ + (i + (" < 0 || "@ + (i2 + (" >= "@ + (v + ".len) aria_trap_msg(\"vector index out of range\");\n"@))))) =~= "    if ("@ + (i + (" < 0 || "@ + (i2 + (" >= "@ + (v + ".len) aria_trap_msg(\"vector index out of range\");\n"@))))));
}

proof fn lemma_assoc(a: Seq<char>, b: Seq<char>, c: Seq<char>)
    ensures
        (a + b) + c == a + (b + c),
{
    assert((a + b) + c =~= a + (b + c));
}

proof fn lemma_node_line_two(
    t: Seq<char>,
    a: Seq<char>,
    b: Seq<char>,
    v: Seq<char>,
    p: Seq<char>,
    q: Seq<char>,
)
    ensures
        node_line(t, record_two(a, b, v, p, q)) == "    int64_t "@ + (t + (
        " = aria_tape_binary(&$tp, "@ + (a + (", "@ + (b + (", "@ + (v + (", "@ + (p + (", "@ + (q
            + ");\n"@))))))))))),
{
    let end = ";\n"@;
    reveal_strlit(";\n");
    reveal_strlit(")");
    reveal_strlit(");\n");
    reveal_strlit(" = ");
    reveal_strlit("aria_tape_binary(&$tp, ");
    reveal_strlit(" = aria_tape_binary(&$tp, ");
    assert(")"@ + end =~= ");\n"@);
    assert(" = "@ + "aria_tape_binary(&$tp, "@ =~= " = aria_tape_binary(&$tp, "@);
    let e0 = q + ")"@;
    let e1 = ", "@ + e0;
    let e2 = p + e1;
    let e3 = ", "@ + e2;
    let e4 = v + e3;
    let e5 = ", "@ + e4;
    let e6 = b + e5;
    let e7 = ", "@ + e6;
    let e8 = a + e7;
    lemma_assoc(q, ")"@, end);
    lemma_assoc(", "@, e0, end);
    lemma_assoc(p, e1, end);
    lemma_assoc(", "@, e2, end);
    lemma_assoc(v, e3, end);
    lemma_assoc(", "@, e4, end);
    lemma_assoc(b, e5, end);
    lemma_assoc(", "@, e6, end);
    lemma_assoc(a, e7, end);
    lemma_assoc("aria_tape_binary(&$tp, "@, e8, end);
    lemma_assoc(" = "@, "aria_tape_binary(&$tp, "@, e8 + end);
}

proof fn lemma_node_line_one(t: Seq<char>, a: Seq<char>, v: Seq<char>, p: Seq<char>)
    ensures
        node_line(t, record_one(a, v, p)) == "    int64_t "@ + (t + (" = aria_tape_unary(&$tp, "@
            + (a + (", "@ + (v + (", "@ + (p + ");\n"@))))))),
{
    let end = ";\n"@;
    reveal_strlit(";\n");
    reveal_strlit(")");
    reveal_strlit(");\n");
    reveal_strlit(" = ");
    reveal_strlit("aria_tape_unary(&$tp, ");
    reveal_strlit(" = aria_tape_unary(&$tp, ");
    assert(")"@ + end =~= ");\n"@);
    assert(" = "@ + "aria_tape_unary(&$tp, "@ =~= " = aria_tape_unary(&$tp, "@);
    let e0 = p + ")"@;
    let e1 = ", "@ + e0;
    let e2 = v + e1;
    let e3 = ", "@ + e2;
    let e4 = a + e3;
    lemma_assoc(p, ")"@, end);
    lemma_assoc(", "@, e0, end);
    lemma_assoc(v, e1, end);
    lemma_assoc(", "@, e2, end);
    lemma_assoc(a, e3, end);
    lemma_assoc("aria_tape_unary(&$tp, "@, e4, end);
    lemma_assoc(" = "@, "aria_tape_unary(&$tp, "@, e4 + end);
}

proof fn lemma_numbers()
    ensures
        dec(1) + ".0"@ == "1.0"@,
        dec(-1) + ".0"@ == "-1.0"@,
{
    reveal_strlit(".0");
    reveal_strlit("1.0");
    reveal_strlit("-1.0");
    assert(digit(1) == '1');
    assert(dec(1) =~= seq!['1']);
    assert(dec(-1) =~= seq!['-', '1']);
    assert(dec(1) + ".0"@ =~= "1.0"@);
    assert(dec(-1) + ".0"@ =~= "-1.0"@);
}

// ---------------------------------------------------------------------------
// The operators
// ---------------------------------------------------------------------------

spec fn value(op: BinOp) -> Term {
    let l = Box::new(Term::Left);
    let r = Box::new(Term::Right);
    match op {
        BinOp::Add => Term::Plus(l, r),
        BinOp::Sub => Term::Less(l, r),
        BinOp::Mul => Term::Times(l, r),
        _ => Term::Over(l, r),
    }
}

spec fn by_left(op: BinOp) -> Term {
    match op {
        BinOp::Add | BinOp::Sub => Term::Num(1),
        BinOp::Mul => Term::Right,
        _ => Term::Over(Box::new(Term::Num(1)), Box::new(Term::Group(Box::new(Term::Right)))),
    }
}

spec fn by_right(op: BinOp) -> Term {
    let l = Box::new(Term::Group(Box::new(Term::Left)));
    let r = Box::new(Term::Group(Box::new(Term::Right)));
    match op {
        BinOp::Add => Term::Num(1),
        BinOp::Sub => Term::Num(-1),
        BinOp::Mul => Term::Left,
        _ => Term::Over(
            Box::new(Term::Opposite(l)),
            Box::new(Term::Group(Box::new(Term::Times(r, r)))),
        ),
    }
}

proof fn lemma_quotient_partials(a: int, b: int)
    requires
        b != 0,
    ensures
        fraction(value(BinOp::Div), a, b) == (a, b),
        fraction(by_left(BinOp::Div), a, b) == (1int, b),
        fraction(by_right(BinOp::Div), a, b) == (-a, b * b),
        fraction(derivative(value(BinOp::Div), true), a, b) == (b, b * b),
        fraction(derivative(value(BinOp::Div), false), a, b) == (-a, b * b),
        b * b != 0,
{
    reveal_with_fuel(derivative, 3);
    let l = Term::Left;
    let r = Term::Right;
    let zero = Term::Num(0);
    let one = Term::Num(1);
    let rr = Term::Times(Box::new(r), Box::new(r));
    assert(b * b != 0) by (nonlinear_arith)
        requires
            b != 0,
    ;
    assert(a * 1 == a && 1 * b == b && b * 1 == b && 0 * b == 0 && a * 0 == 0 && 1 * 1 == 1);
    assert(fraction(l, a, b) == (a, 1int));
    assert(fraction(r, a, b) == (b, 1int));
    assert(fraction(zero, a, b) == (0int, 1int));
    assert(fraction(one, a, b) == (1int, 1int));
    assert(fraction(rr, a, b) == (b * b, 1int));
    let gl = Term::Group(Box::new(l));
    let gr = Term::Group(Box::new(r));
    assert(fraction(gl, a, b) == (a, 1int));
    assert(fraction(gr, a, b) == (b, 1int));
    let sq = Term::Times(Box::new(gr), Box::new(gr));
    assert(fraction(sq, a, b) == (b * b, 1int));
    let gsq = Term::Group(Box::new(sq));
    assert(fraction(gsq, a, b) == (b * b, 1int));
    let op = Term::Opposite(Box::new(gl));
    assert(fraction(op, a, b) == (-a, 1int));
    assert((-a) * 1 == -a && 1 * (b * b) == b * b);
    assert(by_right(BinOp::Div) == Term::Over(Box::new(op), Box::new(gsq)));
    let x = Term::Times(Box::new(one), Box::new(r));
    let y = Term::Times(Box::new(l), Box::new(zero));
    assert(fraction(x, a, b) == (b, 1int));
    assert(fraction(y, a, b) == (0int, 1int));
    let d = Term::Less(Box::new(x), Box::new(y));
    assert(fraction(d, a, b) == (b, 1int));
    assert(derivative(value(BinOp::Div), true) == Term::Over(Box::new(d), Box::new(rr)));
    let x2 = Term::Times(Box::new(zero), Box::new(r));
    let y2 = Term::Times(Box::new(l), Box::new(one));
    assert(fraction(x2, a, b) == (0int, 1int));
    assert(fraction(y2, a, b) == (a, 1int));
    let d2 = Term::Less(Box::new(x2), Box::new(y2));
    assert(fraction(d2, a, b) == (-a, 1int));
    assert(derivative(value(BinOp::Div), false) == Term::Over(Box::new(d2), Box::new(rr)));
}

proof fn lemma_product_partials(a: int, b: int)
    ensures
        fraction(value(BinOp::Mul), a, b) == (a * b, 1int),
        fraction(derivative(value(BinOp::Mul), true), a, b) == (b, 1int),
        fraction(derivative(value(BinOp::Mul), false), a, b) == (a, 1int),
{
    reveal_with_fuel(derivative, 3);
    let l = Term::Left;
    let r = Term::Right;
    let zero = Term::Num(0);
    let one = Term::Num(1);
    assert(a * 1 == a && 1 * b == b && b * 1 == b && 0 * b == 0 && a * 0 == 0 && 1 * 1 == 1);
    assert(fraction(l, a, b) == (a, 1int));
    assert(fraction(r, a, b) == (b, 1int));
    assert(fraction(zero, a, b) == (0int, 1int));
    assert(fraction(one, a, b) == (1int, 1int));
    let x = Term::Times(Box::new(one), Box::new(r));
    let y = Term::Times(Box::new(l), Box::new(zero));
    assert(fraction(x, a, b) == (b, 1int));
    assert(fraction(y, a, b) == (0int, 1int));
    assert(derivative(value(BinOp::Mul), true) == Term::Plus(Box::new(x), Box::new(y)));
    let x2 = Term::Times(Box::new(zero), Box::new(r));
    let y2 = Term::Times(Box::new(l), Box::new(one));
    assert(fraction(x2, a, b) == (0int, 1int));
    assert(fraction(y2, a, b) == (a, 1int));
    assert(derivative(value(BinOp::Mul), false) == Term::Plus(Box::new(x2), Box::new(y2)));
}

proof fn lemma_sum_partials(op: BinOp, a: int, b: int)
    requires
        op == BinOp::Add || op == BinOp::Sub,
    ensures
        fraction(value(op), a, b) == (
            if op == BinOp::Add {
                a + b
            } else {
                a - b
            },
            1int,
        ),
        fraction(derivative(value(op), true), a, b) == (1int, 1int),
        fraction(derivative(value(op), false), a, b) == (
            if op == BinOp::Add {
                1int
            } else {
                -1int
            },
            1int,
        ),
{
    reveal_with_fuel(derivative, 3);
    reveal_with_fuel(fraction, 3);
    assert(a * 1 == a && b * 1 == b);
}

proof fn lemma_partials(op: BinOp)
    requires
        smooth(op),
    ensures
        differentiates(value(op), by_left(op), by_right(op), applied(op)),
{
    let f = applied(op);
    assert forall|a: int, b: int| b != 0 implies {
        &&& equal(#[trigger] fraction(value(op), a, b), f(a, b))
        &&& equal(fraction(by_left(op), a, b), fraction(derivative(value(op), true), a, b))
        &&& equal(fraction(by_right(op), a, b), fraction(derivative(value(op), false), a, b))
    } by {
        match op {
            BinOp::Div => lemma_quotient_partials(a, b),
            BinOp::Mul => lemma_product_partials(a, b),
            _ => lemma_sum_partials(op, a, b),
        }
    }
    assert forall|a: int, b: int| b != 0 implies equal(
        #[trigger] fraction(by_left(op), a, b),
        #[trigger] fraction(derivative(value(op), true), a, b),
    ) by {
        assert(equal(fraction(value(op), a, b), f(a, b)));
    }
    assert forall|a: int, b: int| b != 0 implies equal(
        #[trigger] fraction(by_right(op), a, b),
        #[trigger] fraction(derivative(value(op), false), a, b),
    ) by {
        assert(equal(fraction(value(op), a, b), f(a, b)));
    }
}

proof fn lemma_texts(op: BinOp, l: Seq<char>, r: Seq<char>)
    requires
        smooth(op),
    ensures
        op == BinOp::Add ==> term_text(value(op), l, r) == l + (" + "@ + r) && term_text(
            by_left(op),
            l,
            r,
        ) == "1.0"@ && term_text(by_right(op), l, r) == "1.0"@,
        op == BinOp::Sub ==> term_text(value(op), l, r) == l + (" - "@ + r) && term_text(
            by_left(op),
            l,
            r,
        ) == "1.0"@ && term_text(by_right(op), l, r) == "-1.0"@,
        op == BinOp::Mul ==> term_text(value(op), l, r) == l + (" * "@ + r) && term_text(
            by_left(op),
            l,
            r,
        ) == r && term_text(by_right(op), l, r) == l,
        op == BinOp::Div ==> term_text(value(op), l, r) == l + (" / "@ + r) && term_text(
            by_left(op),
            l,
            r,
        ) == "1.0"@ + (" / "@ + ("("@ + (r + ")"@))) && term_text(by_right(op), l, r) == ("-"@ + (
        "("@ + (l + ")"@))) + (" / "@ + ("("@ + ((("("@ + (r + ")"@)) + (" * "@ + ("("@ + (r
            + ")"@)))) + ")"@))),
{
    reveal_with_fuel(term_text, 6);
    lemma_numbers();
}

proof fn lemma_add_text(t: Seq<char>, a: Seq<char>, b: Seq<char>, l: Seq<char>, r: Seq<char>)
    ensures
        fmt(
            "    int64_t {} = aria_tape_binary(&$tp, {}, {}, {} + {}, 1.0, 1.0);\n"@,
            seq![t, a, b, l, r],
        ) == node_line(t, record_two(a, b, l + (" + "@ + r), "1.0"@, "1.0"@)),
{
    lemma_add(t, a, b, l, r);
    lemma_node_line_two(t, a, b, l + (" + "@ + r), "1.0"@, "1.0"@);
    let rest = ", "@ + ("1.0"@ + (", "@ + ("1.0"@ + ");\n"@)));
    reveal_strlit(", ");
    reveal_strlit("1.0");
    reveal_strlit(");\n");
    reveal_strlit(", 1.0, 1.0);\n");
    assert(", 1.0, 1.0);\n"@ =~= rest);
    lemma_assoc(l, " + "@ + r, rest);
    lemma_assoc(" + "@, r, rest);
}

proof fn lemma_sub_text(t: Seq<char>, a: Seq<char>, b: Seq<char>, l: Seq<char>, r: Seq<char>)
    ensures
        fmt(
            "    int64_t {} = aria_tape_binary(&$tp, {}, {}, {} - {}, 1.0, -1.0);\n"@,
            seq![t, a, b, l, r],
        ) == node_line(t, record_two(a, b, l + (" - "@ + r), "1.0"@, "-1.0"@)),
{
    lemma_sub(t, a, b, l, r);
    lemma_node_line_two(t, a, b, l + (" - "@ + r), "1.0"@, "-1.0"@);
    let rest = ", "@ + ("1.0"@ + (", "@ + ("-1.0"@ + ");\n"@)));
    reveal_strlit(", ");
    reveal_strlit("1.0");
    reveal_strlit("-1.0");
    reveal_strlit(");\n");
    reveal_strlit(", 1.0, -1.0);\n");
    assert(", 1.0, -1.0);\n"@ =~= rest);
    lemma_assoc(l, " - "@ + r, rest);
    lemma_assoc(" - "@, r, rest);
}

proof fn lemma_mul_text(t: Seq<char>, a: Seq<char>, b: Seq<char>, l: Seq<char>, r: Seq<char>)
    ensures
        fmt(
            "    int64_t {} = aria_tape_binary(&$tp, {}, {}, {} * {}, {}, {});\n"@,
            seq![t, a, b, l, r, r, l],
        ) == node_line(t, record_two(a, b, l + (" * "@ + r), r, l)),
{
    lemma_mul(t, a, b, l, r, r, l);
    lemma_node_line_two(t, a, b, l + (" * "@ + r), r, l);
    let rest = ", "@ + (r + (", "@ + (l + ");\n"@)));
    lemma_assoc(l, " * "@ + r, rest);
    lemma_assoc(" * "@, r, rest);
}

/// The partials of a quotient, as they stand at the end of its record.
proof fn lemma_quotient_rest(l: Seq<char>, r: Seq<char>, p: Seq<char>, q: Seq<char>)
    requires
        p == "1.0"@ + (" / "@ + ("("@ + (r + ")"@))),
        q == ("-"@ + ("("@ + (l + ")"@))) + (" / "@ + ("("@ + ((("("@ + (r + ")"@)) + (" * "@ + (
        "("@ + (r + ")"@)))) + ")"@))),
    ensures
        fmt("1.0 / ({}), -({}) / (({}) * ({})));\n"@, seq![r, l, r, r]) == p + (", "@ + (q
            + ");\n"@)),
{
    lemma_div_rest(r, l, r, r);
    reveal_strlit("1.0 / (");
    reveal_strlit("1.0");
    reveal_strlit(" / ");
    reveal_strlit("(");
    reveal_strlit(")");
    reveal_strlit("), -(");
    reveal_strlit(", ");
    reveal_strlit("-");
    reveal_strlit(") / ((");
    reveal_strlit(") * (");
    reveal_strlit(" * ");
    reveal_strlit(")));\n");
    reveal_strlit(");\n");
    assert("1.0 / ("@ =~= "1.0"@ + (" / "@ + "("@));
    assert("), -("@ =~= ")"@ + (", "@ + ("-"@ + "("@)));
    assert(") / (("@ =~= ")"@ + (" / "@ + ("("@ + "("@)));
    assert(") * ("@ =~= ")"@ + (" * "@ + "("@));
    assert(")));\n"@ =~= ")"@ + (")"@ + ");\n"@));
    let c = ")"@;
    let o = "("@;
    let s = " / "@;
    let one = "1.0"@;
    let comma = ", "@;
    let minus = "-"@;
    let star = " * "@;
    let end = ");\n"@;
    lemma_quotient_symbols(l, r, one, s, o, c, comma, minus, star, end);
}

proof fn lemma_quotient_symbols(
    l: Seq<char>,
    r: Seq<char>,
    one: Seq<char>,
    s: Seq<char>,
    o: Seq<char>,
    c: Seq<char>,
    comma: Seq<char>,
    minus: Seq<char>,
    star: Seq<char>,
    end: Seq<char>,
)
    ensures
        (one + (s + o)) + (r + ((c + (comma + (minus + o))) + (l + ((c + (s + (o + o))) + (r + ((c
            + (star + o)) + (r + (c + (c + end))))))))) == (one + (s + (o + (r + c)))) + (comma + (((
        minus + (o + (l + c))) + (s + (o + (((o + (r + c)) + (star + (o + (r + c)))) + c)))) + end)),
{
    // The right side, flattened from the inside.
    let rc = o + (r + c);
    let prod = rc + (star + rc);
    let den = o + (prod + c);
    let num = minus + (o + (l + c));
    lemma_assoc(num, s + den, end);
    lemma_assoc(s, den, end);
    lemma_assoc(o, prod + c, end);
    lemma_assoc(prod, c, end);
    let e = c + end;
    lemma_assoc(rc, star + rc, e);
    lemma_assoc(star, rc, e);
    lemma_assoc(o, r + c, e);
    lemma_assoc(r, c, e);
    let tail = r + (c + e);
    lemma_assoc(o, r + c, star + (o + tail));
    lemma_assoc(r, c, star + (o + tail));
    let after = o + (o + (r + (c + (star + (o + tail)))));
    lemma_assoc(minus, o + (l + c), s + after);
    lemma_assoc(o, l + c, s + after);
    lemma_assoc(l, c, s + after);
    let x = comma + (minus + (o + (l + (c + (s + after)))));
    lemma_assoc(one, s + (o + (r + c)), x);
    lemma_assoc(s, o + (r + c), x);
    lemma_assoc(o, r + c, x);
    lemma_assoc(r, c, x);
    // The left side.
    let y3 = r + (c + (c + end));
    lemma_assoc(c, star + o, y3);
    lemma_assoc(star, o, y3);
    let y2 = r + (c + (star + (o + y3)));
    lemma_assoc(c, s + (o + o), y2);
    lemma_assoc(s, o + o, y2);
    lemma_assoc(o, o, y2);
    let y1 = l + (c + (s + (o + (o + y2))));
    lemma_assoc(c, comma + (minus + o), y1);
    lemma_assoc(comma, minus + o, y1);
    lemma_assoc(minus, o, y1);
    let y0 = r + (c + (comma + (minus + (o + y1))));
    lemma_assoc(one, s + o, y0);
    lemma_assoc(s, o, y0);
}

proof fn lemma_div_text(
    t: Seq<char>,
    a: Seq<char>,
    b: Seq<char>,
    l: Seq<char>,
    r: Seq<char>,
    p: Seq<char>,
    q: Seq<char>,
)
    requires
        p == "1.0"@ + (" / "@ + ("("@ + (r + ")"@))),
        q == ("-"@ + ("("@ + (l + ")"@))) + (" / "@ + ("("@ + ((("("@ + (r + ")"@)) + (" * "@ + (
        "("@ + (r + ")"@)))) + ")"@))),
    ensures
        fmt(
            "    int64_t {} = aria_tape_binary(&$tp, {}, {}, {} / {}, "@,
            seq![t, a, b, l, r],
        ) + fmt("1.0 / ({}), -({}) / (({}) * ({})));\n"@, seq![r, l, r, r]) == node_line(
            t,
            record_two(a, b, l + (" / "@ + r), p, q),
        ),
{
    lemma_div(t, a, b, l, r);
    lemma_quotient_rest(l, r, p, q);
    lemma_node_line_two(t, a, b, l + (" / "@ + r), p, q);
    let rest = p + (", "@ + (q + ");\n"@));
    let h = " = aria_tape_binary(&$tp, "@;
    let c = ", "@;
    let s = " / "@;
    let e0 = r + c;
    let e1 = s + e0;
    let e2 = l + e1;
    let e3 = c + e2;
    let e4 = b + e3;
    let e5 = c + e4;
    let e6 = a + e5;
    let e7 = h + e6;
    let e8 = t + e7;
    lemma_assoc("    int64_t "@, e8, rest);
    lemma_assoc(t, e7, rest);
    lemma_assoc(h, e6, rest);
    lemma_assoc(a, e5, rest);
    lemma_assoc(c, e4, rest);
    lemma_assoc(b, e3, rest);
    lemma_assoc(c, e2, rest);
    lemma_assoc(l, e1, rest);
    lemma_assoc(s, e0, rest);
    lemma_assoc(r, c, rest);
    lemma_assoc(l, s + r, c + rest);
    lemma_assoc(s, r, c + rest);
}

/// The record of an arithmetic operation holds its value and its two partial
/// derivatives; a division by zero traps before. Other operators are refused.
pub proof fn records_hold_the_derivatives(
    op: BinOp,
    a: Seq<char>,
    b: Seq<char>,
    t: Seq<char>,
    st: TrSt,
)
    ensures
        smooth(op) ==> exists|v: Term, p: Term, q: Term|
            {
                &&& #[trigger] differentiates(v, p, q, applied(op))
                &&& binary_code(op, a, b, t, st) == Ok::<(TValV, TrSt), Seq<char>>(
                    (
                        TValV::Scalar(t),
                        TrSt {
                            body: st.body + (zero_guard(op, b) + node_line(
                                t,
                                record_two(
                                    a,
                                    b,
                                    term_text(v, value_at(a), value_at(b)),
                                    term_text(p, value_at(a), value_at(b)),
                                    term_text(q, value_at(a), value_at(b)),
                                ),
                            )),
                            ..st
                        },
                    ),
                )
            },
        !smooth(op) ==> binary_code(op, a, b, t, st) is Err,
{
    if smooth(op) {
        let l = value_at(a);
        let r = value_at(b);
        let v = value(op);
        let p = by_left(op);
        let q = by_right(op);
        lemma_partials(op);
        lemma_value(a);
        lemma_value(b);
        lemma_texts(op, l, r);
        let rec = node_line(
            t,
            record_two(a, b, term_text(v, l, r), term_text(p, l, r), term_text(q, l, r)),
        );
        match op {
            BinOp::Add => {
                lemma_add_text(t, a, b, l, r);
            },
            BinOp::Sub => {
                lemma_sub_text(t, a, b, l, r);
            },
            BinOp::Mul => {
                lemma_mul_text(t, a, b, l, r);
            },
            _ => {
                lemma_zero(r);
                lemma_div_text(t, a, b, l, r, term_text(p, l, r), term_text(q, l, r));
                let g = zero_guard(op, b);
                let x = fmt(
                    "    int64_t {} = aria_tape_binary(&$tp, {}, {}, {} / {}, "@,
                    seq![t, a, b, l, r],
                );
                let y = fmt("1.0 / ({}), -({}) / (({}) * ({})));\n"@, seq![r, l, r, r]);
                lemma_assoc(st.body + g, x, y);
                lemma_assoc(st.body, g, x + y);
            },
        }
        if op != BinOp::Div {
            assert(Seq::<char>::empty() + rec =~= rec);
        }
        assert(binary_code(op, a, b, t, st)->Ok_0.1.body == st.body + (zero_guard(op, b) + rec));
        assert(differentiates(v, p, q, applied(op)));
    }
}

// ---------------------------------------------------------------------------
// One node
// ---------------------------------------------------------------------------

/// Whether two terms are the value of an operation on one node and its derivative.
pub open spec fn differentiates_one(v: Term, p: Term, f: spec_fn(int) -> int) -> bool {
    &&& forall|a: int, b: int| b != 0 ==> equal(#[trigger] fraction(v, a, b), (f(a), 1int))
    &&& agree(p, derivative(v, true))
}

/// The opposite of a number.
pub open spec fn opposite() -> spec_fn(int) -> int {
    |a: int| -a
}

/// A number itself.
pub open spec fn identity() -> spec_fn(int) -> int {
    |a: int| a
}

/// A component of a vector.
pub open spec fn component(v: Seq<char>, i: Seq<char>) -> Seq<char> {
    v + (".ids["@ + (i + "]"@))
}

proof fn lemma_one_node()
    ensures
        differentiates_one(Term::Opposite(Box::new(Term::Left)), Term::Num(-1), opposite()),
        differentiates_one(Term::Left, Term::Num(1), identity()),
{
    reveal_with_fuel(derivative, 3);
    reveal_with_fuel(fraction, 3);
    let o = Term::Opposite(Box::new(Term::Left));
    assert(derivative(o, true) == Term::Opposite(Box::new(Term::Num(1))));
    assert forall|a: int, b: int| b != 0 implies equal(
        #[trigger] fraction(Term::Num(-1), a, b),
        #[trigger] fraction(derivative(o, true), a, b),
    ) by {
        assert(fraction(derivative(o, true), a, b) == (-1int, 1int));
    }
}

/// The record of a negation holds the opposite value and its derivative.
pub proof fn negation_holds_the_derivative(x: Seq<char>, t: Seq<char>, st: TrSt)
    ensures
        exists|v: Term, p: Term|
            {
                &&& #[trigger] differentiates_one(v, p, opposite())
                &&& negate_code(x, t, st) == (
                    TValV::Scalar(t),
                    TrSt {
                        body: st.body + node_line(
                            t,
                            record_one(
                                x,
                                term_text(v, value_at(x), Seq::empty()),
                                term_text(p, value_at(x), Seq::empty()),
                            ),
                        ),
                        ..st
                    },
                )
            },
{
    let v = Term::Opposite(Box::new(Term::Left));
    let p = Term::Num(-1);
    let none = Seq::<char>::empty();
    lemma_one_node();
    lemma_numbers();
    reveal_with_fuel(term_text, 3);
    assert(term_text(v, value_at(x), none) == "-"@ + value_at(x));
    assert(term_text(p, value_at(x), none) == "-1.0"@);
    lemma_negate(t, x, x);
    lemma_node_line_one(t, x, "-"@ + value_at(x), "-1.0"@);
    reveal_strlit(", ");
    reveal_strlit("-");
    reveal_strlit("aria_tape_value(&$tp, ");
    reveal_strlit(", -aria_tape_value(&$tp, ");
    reveal_strlit(")");
    reveal_strlit("-1.0");
    reveal_strlit(");\n");
    reveal_strlit("), -1.0);\n");
    let call = "aria_tape_value(&$tp, "@;
    let rest = ", "@ + ("-1.0"@ + ");\n"@);
    assert(", -aria_tape_value(&$tp, "@ =~= ", "@ + ("-"@ + call));
    assert("), -1.0);\n"@ =~= ")"@ + rest);
    lemma_assoc("-"@, value_at(x), rest);
    lemma_assoc(call, x + ")"@, rest);
    lemma_assoc(x, ")"@, rest);
    lemma_assoc(", "@, "-"@ + call, x + (")"@ + rest));
    lemma_assoc("-"@, call, x + (")"@ + rest));
    assert(negate_code(x, t, st).1.body == st.body + node_line(
        t,
        record_one(x, "-"@ + value_at(x), "-1.0"@),
    ));
    assert(differentiates_one(v, p, opposite()));
}

/// The record of a component of a vector holds the component and the derivative of
/// the identity; an index that is out of range traps before.
pub proof fn components_hold_the_derivative(
    vec: Seq<char>,
    i: Seq<char>,
    t: Seq<char>,
    st: TrSt,
)
    ensures
        exists|v: Term, p: Term|
            {
                &&& #[trigger] differentiates_one(v, p, identity())
                &&& get_code(vec, i, t, st) == (
                    TValV::Scalar(t),
                    TrSt {
                        body: st.body + (("    if ("@ + (i + (" < 0 || "@ + (i + (" >= "@ + (vec
                            + ".len) aria_trap_msg(\"vector index out of range\");\n"@))))))
                            + node_line(
                            t,
                            record_one(
                                component(vec, i),
                                term_text(v, value_at(component(vec, i)), Seq::empty()),
                                term_text(p, value_at(component(vec, i)), Seq::empty()),
                            ),
                        )),
                        ..st
                    },
                )
            },
{
    let v = Term::Left;
    let p = Term::Num(1);
    let none = Seq::<char>::empty();
    let id = component(vec, i);
    lemma_one_node();
    lemma_numbers();
    assert(term_text(v, value_at(id), none) == value_at(id));
    assert(term_text(p, value_at(id), none) == "1.0"@);
    lemma_get(t, vec, i, vec, i);
    lemma_get_guard(i, i, vec);
    lemma_node_line_one(t, id, value_at(id), "1.0"@);
    reveal_strlit(", ");
    reveal_strlit("aria_tape_value(&$tp, ");
    reveal_strlit("], aria_tape_value(&$tp, ");
    reveal_strlit(")");
    reveal_strlit("]");
    reveal_strlit("1.0");
    reveal_strlit(");\n");
    reveal_strlit("]), 1.0);\n");
    let call = "aria_tape_value(&$tp, "@;
    let rest = ", "@ + ("1.0"@ + ");\n"@);
    assert("], aria_tape_value(&$tp, "@ =~= "]"@ + (", "@ + call));
    assert("]), 1.0);\n"@ =~= "]"@ + (")"@ + rest));
    let tail = ")"@ + rest;
    let open = ".ids["@;
    // The value.
    lemma_assoc(call, id + ")"@, rest);
    lemma_assoc(id, ")"@, rest);
    lemma_assoc(vec, open + (i + "]"@), tail);
    lemma_assoc(open, i + "]"@, tail);
    lemma_assoc(i, "]"@, tail);
    let val = vec + (open + (i + ("]"@ + tail)));
    // The node.
    let y = ", "@ + (call + val);
    lemma_assoc(vec, open + (i + "]"@), y);
    lemma_assoc(open, i + "]"@, y);
    lemma_assoc(i, "]"@, y);
    lemma_assoc("]"@, ", "@ + call, val);
    lemma_assoc(", "@, call, val);
    let g = "    if ("@ + (i + (" < 0 || "@ + (i + (" >= "@ + (vec
        + ".len) aria_trap_msg(\"vector index out of range\");\n"@)))));
    let rec = node_line(t, record_one(id, value_at(id), "1.0"@));
    lemma_assoc(st.body, g, rec);
    assert(get_code(vec, i, t, st).1.body == st.body + (g + rec));
    assert(differentiates_one(v, p, identity()));
}

// ---------------------------------------------------------------------------
// Vectors
// ---------------------------------------------------------------------------

/// The operator of a difference or a sum.
pub open spec fn zipping(minus: bool) -> BinOp {
    if minus {
        BinOp::Sub
    } else {
        BinOp::Add
    }
}

/// The running component of a vector.
pub open spec fn running(v: Seq<char>) -> Seq<char> {
    v + ".ids[$j]"@
}

/// The declaration of a vector as long as another.
pub open spec fn alloc_line(t: Seq<char>, a: Seq<char>) -> Seq<char> {
    "    AriaTVec "@ + (t + (" = aria_tvec_alloc("@ + (a + ".len);\n"@)))
}

/// The test that two vectors are equally long.
pub open spec fn length_guard(a: Seq<char>, b: Seq<char>) -> Seq<char> {
    "    if ("@ + (a + (".len != "@ + (b + ".len) aria_trap_msg(\"vector length mismatch\");\n"@)))
}

/// A loop over the components of a vector: the value of the component is `av`, that
/// of another node has a name, and the record goes to the component of the result.
pub open spec fn each_line(
    t: Seq<char>,
    a: Seq<char>,
    name: Seq<char>,
    id: Seq<char>,
    record: Seq<char>,
) -> Seq<char> {
    ("    for (int64_t $j = 0; $j < "@ + (a + (".len; $j++) { double av = "@ + (value_at(running(a))
        + (", "@ + (name + (" = "@ + (value_at(id) + "; "@)))))))) + (running(t) + (" = "@ + (record
        + "; }\n"@)))
}

proof fn lemma_alloc(t: Seq<char>, a: Seq<char>)
    ensures
        fmt("    AriaTVec {} = aria_tvec_alloc({}.len);\n"@, seq![t, a]) == "    AriaTVec "@ + (t + (" = aria_tvec_alloc("@ + (a + ".len);\n"@))),
{
    reveal_strlit("    AriaTVec {} = aria_tvec_alloc({}.len);\n");
    reveal_strlit("    AriaTVec ");
    reveal_strlit(" = aria_tvec_alloc(");
    reveal_strlit(".len);\n");
    assert("    AriaTVec {} = aria_tvec_alloc({}.len);\n"@ =~= "    AriaTVec "@ + (hole() + (" = aria_tvec_alloc("@ + (hole() + ".len);\n"@))));
    lemma_fill2("    AriaTVec "@, " = aria_tvec_alloc("@, ".len);\n"@, t, a);
    assert("    AriaTVec "@ + (t + (" = aria_tvec_alloc("@ + (a + ".len);\n"@))) =~= "    AriaTVec "@ + (t + (" = aria_tvec_alloc("@ + (a + ".len);\n"@))));
}

proof fn lemma_lengths(a: Seq<char>, b: Seq<char>)
    ensures
        fmt("    if ({}.len != {}.len) aria_trap_msg(\"vector length mismatch\");\n"@, seq![a, b]) == "    if ("@ + (a + (".len != "@ + (b + ".len) aria_trap_msg(\"vector length mismatch\");\n"@))),
{
    reveal_strlit("    if ({}.len != {}.len) aria_trap_msg(\"vector length mismatch\");\n");
    reveal_strlit("    if (");
    reveal_strlit(".len != ");
    reveal_strlit(".len) aria_trap_msg(\"vector length mismatch\");\n");
    assert("    if ({}.len != {}.len) aria_trap_msg(\"vector length mismatch\");\n"@ =~= "    if ("@ + (hole() + (".len != "@ + (hole() + ".len) aria_trap_msg(\"vector length mismatch\");\n"@))));
    lemma_fill2("    if ("@, ".len != "@, ".len) aria_trap_msg(\"vector length mismatch\");\n"@, a, b);
    assert("    if ("@ + (a + (".len != "@ + (b + ".len) aria_trap_msg(\"vector length mismatch\");\n"@))) =~= "    if ("@ + (a + (".len != "@ + (b + ".len) aria_trap_msg(\"vector length mismatch\");\n"@))));
}

proof fn lemma_zip_head(a: Seq<char>, a2: Seq<char>, b: Seq<char>)
    ensures
        fmt("    for (int64_t $j = 0; $j < {}.len; $j++) { double av = aria_tape_value(&$tp, {}.ids[$j]), bv = aria_tape_value(&$tp, {}.ids[$j]); "@, seq![a, a2, b]) == "    for (int64_t $j = 0; $j < "@ + (a + (".len; $j++) { double av = aria_tape_value(&$tp, "@ + (a2 + (".ids[$j]), bv = aria_tape_value(&$tp, "@ + (b + ".ids[$j]); "@))))),
{
    reveal_strlit("    for (int64_t $j = 0; $j < {}.len; $j++) { double av = aria_tape_value(&$tp, {}.ids[$j]), bv = aria_tape_value(&$tp, {}.ids[$j]); ");
    reveal_strlit("    for (int64_t $j = 0; $j < ");
    reveal_strlit(".ids[$j]), bv = aria_tape_value(&$tp, ");
    reveal_strlit(".ids[$j]); ");
    reveal_strlit(".len; $j++) { double av = aria_tape_value(&$tp, ");
    assert("    for (int64_t $j = 0; $j < {}.len; $j++) { double av = aria_tape_value(&$tp, {}.ids[$j]), bv = aria_tape_value(&$tp, {}.ids[$j]); "@ =~= "    for (int64_t $j = 0; $j < "@ + (hole() + (".len; $j++) { double av = aria_tape_value(&$tp, "@ + (hole() + (".ids[$j]), bv = aria_tape_value(&$tp, "@ + (hole() + ".ids[$j]); "@))))));
    lemma_fill3("    for (int64_t $j = 0; $j < "@, ".len; $j++) { double av = aria_tape_value(&$tp, "@, ".ids[$j]), bv = aria_tape_value(&$tp, "@, ".ids[$j]); "@, a, a2, b);
    assert("    for (int64_t $j = 0; $j < "@ + (a + (".len; $j++) { double av = aria_tape_value(&$tp, "@ + (a2 + (".ids[$j]), bv = aria_tape_value(&$tp, "@ + (b + ".ids[$j]); "@))))) =~= "    for (int64_t $j = 0; $j < "@ + (a + (".len; $j++) { double av = aria_tape_value(&$tp, "@ + (a2 + (".ids[$j]), bv = aria_tape_value(&$tp, "@ + (b + ".ids[$j]); "@))))));
}

proof fn lemma_zip_record(t: Seq<char>, a: Seq<char>, b: Seq<char>, v: Seq<char>, q: Seq<char>)
    ensures
        fmt("{}.ids[$j] = aria_tape_binary(&$tp, {}.ids[$j], {}.ids[$j], {}, 1.0, {}); }\n"@, seq![t, a, b, v, q]) == t + (".ids[$j] = aria_tape_binary(&$tp, "@ + (a + (".ids[$j], "@ + (b + (".ids[$j], "@ + (v + (", 1.0, "@ + (q + "); }\n"@)))))))),
{
    reveal_strlit("{}.ids[$j] = aria_tape_binary(&$tp, {}.ids[$j], {}.ids[$j], {}, 1.0, {}); }\n");
    reveal_strlit("); }\n");
    reveal_strlit(", 1.0, ");
    reveal_strlit(".ids[$j] = aria_tape_binary(&$tp, ");
    reveal_strlit(".ids[$j], ");
    assert("{}.ids[$j] = aria_tape_binary(&$tp, {}.ids[$j], {}.ids[$j], {}, 1.0, {}); }\n"@ =~= Seq::<char>::empty() + (hole() + (".ids[$j] = aria_tape_binary(&$tp, "@ + (hole() + (".ids[$j], "@ + (hole() + (".ids[$j], "@ + (hole() + (", 1.0, "@ + (hole() + "); }\n"@))))))))));
    lemma_fill5(Seq::<char>::empty(), ".ids[$j] = aria_tape_binary(&$tp, "@, ".ids[$j], "@, ".ids[$j], "@, ", 1.0, "@, "); }\n"@, t, a, b, v, q);
    assert(Seq::<char>::empty() + (t + (".ids[$j] = aria_tape_binary(&$tp, "@ + (a + (".ids[$j], "@ + (b + (".ids[$j], "@ + (v + (", 1.0, "@ + (q + "); }\n"@))))))))) =~= t + (".ids[$j] = aria_tape_binary(&$tp, "@ + (a + (".ids[$j], "@ + (b + (".ids[$j], "@ + (v + (", 1.0, "@ + (q + "); }\n"@)))))))));
}

proof fn lemma_scale_head(a: Seq<char>, a2: Seq<char>, s: Seq<char>)
    ensures
        fmt("    for (int64_t $j = 0; $j < {}.len; $j++) { double av = aria_tape_value(&$tp, {}.ids[$j]), sv = aria_tape_value(&$tp, {}); "@, seq![a, a2, s]) == "    for (int64_t $j = 0; $j < "@ + (a + (".len; $j++) { double av = aria_tape_value(&$tp, "@ + (a2 + (".ids[$j]), sv = aria_tape_value(&$tp, "@ + (s + "); "@))))),
{
    reveal_strlit("    for (int64_t $j = 0; $j < {}.len; $j++) { double av = aria_tape_value(&$tp, {}.ids[$j]), sv = aria_tape_value(&$tp, {}); ");
    reveal_strlit("    for (int64_t $j = 0; $j < ");
    reveal_strlit("); ");
    reveal_strlit(".ids[$j]), sv = aria_tape_value(&$tp, ");
    reveal_strlit(".len; $j++) { double av = aria_tape_value(&$tp, ");
    assert("    for (int64_t $j = 0; $j < {}.len; $j++) { double av = aria_tape_value(&$tp, {}.ids[$j]), sv = aria_tape_value(&$tp, {}); "@ =~= "    for (int64_t $j = 0; $j < "@ + (hole() + (".len; $j++) { double av = aria_tape_value(&$tp, "@ + (hole() + (".ids[$j]), sv = aria_tape_value(&$tp, "@ + (hole() + "); "@))))));
    lemma_fill3("    for (int64_t $j = 0; $j < "@, ".len; $j++) { double av = aria_tape_value(&$tp, "@, ".ids[$j]), sv = aria_tape_value(&$tp, "@, "); "@, a, a2, s);
    assert("    for (int64_t $j = 0; $j < "@ + (a + (".len; $j++) { double av = aria_tape_value(&$tp, "@ + (a2 + (".ids[$j]), sv = aria_tape_value(&$tp, "@ + (s + "); "@))))) =~= "    for (int64_t $j = 0; $j < "@ + (a + (".len; $j++) { double av = aria_tape_value(&$tp, "@ + (a2 + (".ids[$j]), sv = aria_tape_value(&$tp, "@ + (s + "); "@))))));
}

proof fn lemma_scale_record(t: Seq<char>, a: Seq<char>, s: Seq<char>)
    ensures
        fmt("{}.ids[$j] = aria_tape_binary(&$tp, {}.ids[$j], {}, sv * av, sv, av); }\n"@, seq![t, a, s]) == t + (".ids[$j] = aria_tape_binary(&$tp, "@ + (a + (".ids[$j], "@ + (s + ", sv * av, sv, av); }\n"@)))),
{
    reveal_strlit("{}.ids[$j] = aria_tape_binary(&$tp, {}.ids[$j], {}, sv * av, sv, av); }\n");
    reveal_strlit(", sv * av, sv, av); }\n");
    reveal_strlit(".ids[$j] = aria_tape_binary(&$tp, ");
    reveal_strlit(".ids[$j], ");
    assert("{}.ids[$j] = aria_tape_binary(&$tp, {}.ids[$j], {}, sv * av, sv, av); }\n"@ =~= Seq::<char>::empty() + (hole() + (".ids[$j] = aria_tape_binary(&$tp, "@ + (hole() + (".ids[$j], "@ + (hole() + ", sv * av, sv, av); }\n"@))))));
    lemma_fill3(Seq::<char>::empty(), ".ids[$j] = aria_tape_binary(&$tp, "@, ".ids[$j], "@, ", sv * av, sv, av); }\n"@, t, a, s);
    assert(Seq::<char>::empty() + (t + (".ids[$j] = aria_tape_binary(&$tp, "@ + (a + (".ids[$j], "@ + (s + ", sv * av, sv, av); }\n"@))))) =~= t + (".ids[$j] = aria_tape_binary(&$tp, "@ + (a + (".ids[$j], "@ + (s + ", sv * av, sv, av); }\n"@)))));
}

proof fn lemma_each(
    t: Seq<char>,
    a: Seq<char>,
    b: Seq<char>,
    v: Seq<char>,
    p: Seq<char>,
    q: Seq<char>,
)
    ensures
        running(t) + (" = "@ + (record_two(running(a), b, v, p, q) + "; }\n"@)) == t + (
        ".ids[$j] = aria_tape_binary(&$tp, "@ + (a + (".ids[$j], "@ + (b + (", "@ + (v + (", "@ + (p
            + (", "@ + (q + "); }\n"@)))))))))),
{
    let end = "; }\n"@;
    reveal_strlit("; }\n");
    reveal_strlit(")");
    reveal_strlit("); }\n");
    reveal_strlit(" = ");
    reveal_strlit(", ");
    reveal_strlit(".ids[$j]");
    reveal_strlit(".ids[$j], ");
    reveal_strlit("aria_tape_binary(&$tp, ");
    reveal_strlit(".ids[$j] = aria_tape_binary(&$tp, ");
    let call = "aria_tape_binary(&$tp, "@;
    let j = ".ids[$j]"@;
    assert(")"@ + end =~= "); }\n"@);
    assert(j + ", "@ =~= ".ids[$j], "@);
    assert(j + (" = "@ + call) =~= ".ids[$j] = aria_tape_binary(&$tp, "@);
    let e0 = q + ")"@;
    let e1 = ", "@ + e0;
    let e2 = p + e1;
    let e3 = ", "@ + e2;
    let e4 = v + e3;
    let e5 = ", "@ + e4;
    let e6 = b + e5;
    let e7 = ", "@ + e6;
    let e8 = running(a) + e7;
    lemma_assoc(q, ")"@, end);
    lemma_assoc(", "@, e0, end);
    lemma_assoc(p, e1, end);
    lemma_assoc(", "@, e2, end);
    lemma_assoc(v, e3, end);
    lemma_assoc(", "@, e4, end);
    lemma_assoc(b, e5, end);
    lemma_assoc(", "@, e6, end);
    lemma_assoc(running(a), e7, end);
    lemma_assoc(call, e8, end);
    let rest = e6 + end;
    lemma_assoc(a, j, ", "@ + rest);
    lemma_assoc(j, ", "@, rest);
    let f = a + (".ids[$j], "@ + rest);
    lemma_assoc(t, j, " = "@ + (call + f));
    lemma_assoc(" = "@, call, f);
    lemma_assoc(j, " = "@ + call, f);
}

proof fn lemma_each_head(a: Seq<char>, name: Seq<char>, id: Seq<char>, lit: Seq<char>)
    requires
        lit == "), "@ + (name + " = aria_tape_value(&$tp, "@),
    ensures
        "    for (int64_t $j = 0; $j < "@ + (a + (".len; $j++) { double av = "@ + (value_at(
            running(a),
        ) + (", "@ + (name + (" = "@ + (value_at(id) + "; "@))))))) == "    for (int64_t $j = 0; $j < "@
            + (a + (".len; $j++) { double av = aria_tape_value(&$tp, "@ + (a + (".ids[$j]"@ + (lit + (
        id + "); "@)))))),
{
    let call = "aria_tape_value(&$tp, "@;
    reveal_strlit("aria_tape_value(&$tp, ");
    reveal_strlit(".len; $j++) { double av = ");
    reveal_strlit(".len; $j++) { double av = aria_tape_value(&$tp, ");
    reveal_strlit("), ");
    reveal_strlit(")");
    reveal_strlit(", ");
    reveal_strlit(" = ");
    reveal_strlit(" = aria_tape_value(&$tp, ");
    reveal_strlit("; ");
    reveal_strlit("); ");
    assert(".len; $j++) { double av = "@ + call =~= ".len; $j++) { double av = aria_tape_value(&$tp, "@);
    assert(")"@ + ", "@ =~= "), "@);
    assert(" = "@ + call =~= " = aria_tape_value(&$tp, "@);
    assert(")"@ + "; "@ =~= "); "@);
    let j = ".ids[$j]"@;
    let y = id + "); "@;
    lemma_assoc(call, id + ")"@, "; "@);
    lemma_assoc(id, ")"@, "; "@);
    lemma_assoc(" = "@, call, y);
    let x = name + (" = aria_tape_value(&$tp, "@ + y);
    lemma_assoc(call, running(a) + ")"@, ", "@ + x);
    lemma_assoc(running(a), ")"@, ", "@ + x);
    lemma_assoc(")"@, ", "@, x);
    lemma_assoc(a, j, "), "@ + x);
    lemma_assoc("), "@, name + " = aria_tape_value(&$tp, "@, y);
    lemma_assoc(name, " = aria_tape_value(&$tp, "@, y);
    lemma_assoc(".len; $j++) { double av = "@, call, a + (j + (lit + y)));
}

proof fn lemma_vector_terms()
    ensures
        term_text(value(BinOp::Add), "av"@, "bv"@) == "av + bv"@,
        term_text(value(BinOp::Sub), "av"@, "bv"@) == "av - bv"@,
        term_text(by_left(BinOp::Add), "av"@, "bv"@) == "1.0"@,
        term_text(by_left(BinOp::Sub), "av"@, "bv"@) == "1.0"@,
        term_text(by_right(BinOp::Add), "av"@, "bv"@) == "1.0"@,
        term_text(by_right(BinOp::Sub), "av"@, "bv"@) == "-1.0"@,
{
    lemma_texts(BinOp::Add, "av"@, "bv"@);
    lemma_texts(BinOp::Sub, "av"@, "bv"@);
    reveal_strlit("av");
    reveal_strlit("bv");
    reveal_strlit(" + ");
    reveal_strlit(" - ");
    reveal_strlit("av + bv");
    reveal_strlit("av - bv");
    assert("av"@ + (" + "@ + "bv"@) =~= "av + bv"@);
    assert("av"@ + (" - "@ + "bv"@) =~= "av - bv"@);
}

proof fn lemma_zip_texts(t: Seq<char>, a: Seq<char>, b: Seq<char>, v: Seq<char>, q: Seq<char>)
    ensures
        fmt(
            "    for (int64_t $j = 0; $j < {}.len; $j++) { double av = aria_tape_value(&$tp, {}.ids[$j]), bv = aria_tape_value(&$tp, {}.ids[$j]); "@,
            seq![a, a, b],
        ) + fmt(
            "{}.ids[$j] = aria_tape_binary(&$tp, {}.ids[$j], {}.ids[$j], {}, 1.0, {}); }\n"@,
            seq![t, a, b, v, q],
        ) == each_line(
            t,
            a,
            "bv"@,
            running(b),
            record_two(running(a), running(b), v, "1.0"@, q),
        ),
{
    lemma_zip_head(a, a, b);
    lemma_zip_record(t, a, b, v, q);
    let lit = "), "@ + ("bv"@ + " = aria_tape_value(&$tp, "@);
    lemma_each_head(a, "bv"@, running(b), lit);
    lemma_each(t, a, running(b), v, "1.0"@, q);
    reveal_strlit(".ids[$j]");
    reveal_strlit("), ");
    reveal_strlit("bv");
    reveal_strlit(" = aria_tape_value(&$tp, ");
    reveal_strlit(".ids[$j]), bv = aria_tape_value(&$tp, ");
    reveal_strlit("); ");
    reveal_strlit(".ids[$j]); ");
    reveal_strlit(", ");
    reveal_strlit("1.0");
    reveal_strlit(".ids[$j], ");
    reveal_strlit(", 1.0, ");
    let j = ".ids[$j]"@;
    assert(".ids[$j]), bv = aria_tape_value(&$tp, "@ =~= j + lit);
    assert(".ids[$j]); "@ =~= j + "); "@);
    assert(".ids[$j], "@ =~= j + ", "@);
    assert(", 1.0, "@ =~= ", "@ + ("1.0"@ + ", "@));
    lemma_assoc(b, j, "); "@);
    lemma_assoc(j, lit, b + (j + "); "@));
    let e = q + "); }\n"@;
    let f = v + (", "@ + ("1.0"@ + (", "@ + e)));
    lemma_assoc(b, j, ", "@ + f);
    lemma_assoc(j, ", "@, f);
    lemma_assoc(", "@, "1.0"@ + ", "@, e);
    lemma_assoc("1.0"@, ", "@, e);
}

/// A sum or difference of vectors is recorded component by component: each record
/// holds the value and the two partial derivatives of the operation on the two
/// components. Vectors of different lengths trap before.
pub proof fn zipped_records_hold_the_derivatives(
    minus: bool,
    a: Seq<char>,
    b: Seq<char>,
    t: Seq<char>,
    st: TrSt,
)
    ensures
        exists|v: Term, p: Term, q: Term|
            {
                &&& #[trigger] differentiates(v, p, q, applied(zipping(minus)))
                &&& zip_code(minus, a, b, t, st) == (
                    TValV::Vector(t),
                    TrSt {
                        body: st.body + (alloc_line(t, a) + (length_guard(a, b) + each_line(
                            t,
                            a,
                            "bv"@,
                            running(b),
                            record_two(
                                running(a),
                                running(b),
                                term_text(v, "av"@, "bv"@),
                                term_text(p, "av"@, "bv"@),
                                term_text(q, "av"@, "bv"@),
                            ),
                        ))),
                        ..st
                    },
                )
            },
{
    let op = zipping(minus);
    let v = value(op);
    let p = by_left(op);
    let q = by_right(op);
    lemma_partials(op);
    lemma_vector_terms();
    let vt = term_text(v, "av"@, "bv"@);
    let qt = term_text(q, "av"@, "bv"@);
    lemma_alloc(t, a);
    lemma_lengths(a, b);
    lemma_zip_texts(t, a, b, vt, qt);
    let x = fmt(
        "    for (int64_t $j = 0; $j < {}.len; $j++) { double av = aria_tape_value(&$tp, {}.ids[$j]), bv = aria_tape_value(&$tp, {}.ids[$j]); "@,
        seq![a, a, b],
    );
    let y = fmt(
        "{}.ids[$j] = aria_tape_binary(&$tp, {}.ids[$j], {}.ids[$j], {}, 1.0, {}); }\n"@,
        seq![t, a, b, vt, qt],
    );
    let g = length_guard(a, b);
    lemma_assoc(st.body + alloc_line(t, a) + g, x, y);
    lemma_assoc(st.body + alloc_line(t, a), g, x + y);
    lemma_assoc(st.body, alloc_line(t, a), g + (x + y));
    assert(zip_code(minus, a, b, t, st).1.body == st.body + (alloc_line(t, a) + (g + (x + y))));
    assert(differentiates(v, p, q, applied(op)));
}

proof fn lemma_scaled()
    ensures
        differentiates(
            Term::Times(Box::new(Term::Right), Box::new(Term::Left)),
            Term::Right,
            Term::Left,
            applied(BinOp::Mul),
        ),
{
    reveal_with_fuel(derivative, 3);
    reveal_with_fuel(fraction, 6);
    let f = applied(BinOp::Mul);
    let v = Term::Times(Box::new(Term::Right), Box::new(Term::Left));
    let zero = Term::Num(0);
    let one = Term::Num(1);
    assert forall|a: int, b: int| b != 0 implies equal(#[trigger] fraction(v, a, b), f(a, b)) by {
        assert(a * b == b * a) by (nonlinear_arith);
        assert(fraction(v, a, b) == (b * a, 1int));
    }
    assert forall|a: int, b: int| b != 0 implies equal(
        #[trigger] fraction(Term::Right, a, b),
        #[trigger] fraction(derivative(v, true), a, b),
    ) by {
        let x = Term::Times(Box::new(zero), Box::new(Term::Left));
        let y = Term::Times(Box::new(Term::Right), Box::new(one));
        assert(0 * a == 0 && b * 1 == b);
        assert(fraction(x, a, b) == (0int, 1int));
        assert(fraction(y, a, b) == (b, 1int));
        assert(derivative(v, true) == Term::Plus(Box::new(x), Box::new(y)));
        assert(fraction(derivative(v, true), a, b) == (0 * 1 + b * 1, 1int));
    }
    assert forall|a: int, b: int| b != 0 implies equal(
        #[trigger] fraction(Term::Left, a, b),
        #[trigger] fraction(derivative(v, false), a, b),
    ) by {
        let x = Term::Times(Box::new(one), Box::new(Term::Left));
        let y = Term::Times(Box::new(Term::Right), Box::new(zero));
        assert(1 * a == a && b * 0 == 0);
        assert(fraction(x, a, b) == (a, 1int));
        assert(fraction(y, a, b) == (0int, 1int));
        assert(derivative(v, false) == Term::Plus(Box::new(x), Box::new(y)));
        assert(fraction(derivative(v, false), a, b) == (a * 1 + 0 * 1, 1int));
    }
}

proof fn lemma_scale_texts(t: Seq<char>, a: Seq<char>, s: Seq<char>)
    ensures
        fmt(
            "    for (int64_t $j = 0; $j < {}.len; $j++) { double av = aria_tape_value(&$tp, {}.ids[$j]), sv = aria_tape_value(&$tp, {}); "@,
            seq![a, a, s],
        ) + fmt(
            "{}.ids[$j] = aria_tape_binary(&$tp, {}.ids[$j], {}, sv * av, sv, av); }\n"@,
            seq![t, a, s],
        ) == each_line(
            t,
            a,
            "sv"@,
            s,
            record_two(running(a), s, "sv"@ + (" * "@ + "av"@), "sv"@, "av"@),
        ),
{
    lemma_scale_head(a, a, s);
    lemma_scale_record(t, a, s);
    let lit = "), "@ + ("sv"@ + " = aria_tape_value(&$tp, "@);
    let v = "sv"@ + (" * "@ + "av"@);
    lemma_each_head(a, "sv"@, s, lit);
    lemma_each(t, a, s, v, "sv"@, "av"@);
    reveal_strlit(".ids[$j]");
    reveal_strlit("), ");
    reveal_strlit("sv");
    reveal_strlit("av");
    reveal_strlit(" * ");
    reveal_strlit(" = aria_tape_value(&$tp, ");
    reveal_strlit(".ids[$j]), sv = aria_tape_value(&$tp, ");
    reveal_strlit(", ");
    reveal_strlit("); }\n");
    reveal_strlit(", sv * av, sv, av); }\n");
    let j = ".ids[$j]"@;
    assert(".ids[$j]), sv = aria_tape_value(&$tp, "@ =~= j + lit);
    assert(", sv * av, sv, av); }\n"@ =~= ", "@ + (v + (", "@ + ("sv"@ + (", "@ + ("av"@
        + "); }\n"@))))));
    lemma_assoc(j, lit, s + "); "@);
}

/// A vector times a scalar is recorded component by component: each record holds the
/// product of the component and the scalar and its two partial derivatives.
pub proof fn scaled_records_hold_the_derivatives(
    a: Seq<char>,
    s: Seq<char>,
    t: Seq<char>,
    st: TrSt,
)
    ensures
        exists|v: Term, p: Term, q: Term|
            {
                &&& #[trigger] differentiates(v, p, q, applied(BinOp::Mul))
                &&& scale_code(a, s, t, st) == (
                    TValV::Vector(t),
                    TrSt {
                        body: st.body + (alloc_line(t, a) + each_line(
                            t,
                            a,
                            "sv"@,
                            s,
                            record_two(
                                running(a),
                                s,
                                term_text(v, "av"@, "sv"@),
                                term_text(p, "av"@, "sv"@),
                                term_text(q, "av"@, "sv"@),
                            ),
                        )),
                        ..st
                    },
                )
            },
{
    let v = Term::Times(Box::new(Term::Right), Box::new(Term::Left));
    let p = Term::Right;
    let q = Term::Left;
    lemma_scaled();
    reveal_with_fuel(term_text, 3);
    assert(term_text(v, "av"@, "sv"@) == "sv"@ + (" * "@ + "av"@));
    assert(term_text(p, "av"@, "sv"@) == "sv"@);
    assert(term_text(q, "av"@, "sv"@) == "av"@);
    lemma_alloc(t, a);
    lemma_scale_texts(t, a, s);
    let x = fmt(
        "    for (int64_t $j = 0; $j < {}.len; $j++) { double av = aria_tape_value(&$tp, {}.ids[$j]), sv = aria_tape_value(&$tp, {}); "@,
        seq![a, a, s],
    );
    let y = fmt(
        "{}.ids[$j] = aria_tape_binary(&$tp, {}.ids[$j], {}, sv * av, sv, av); }\n"@,
        seq![t, a, s],
    );
    lemma_assoc(st.body + alloc_line(t, a), x, y);
    lemma_assoc(st.body, alloc_line(t, a), x + y);
    assert(scale_code(a, s, t, st).1.body == st.body + (alloc_line(t, a) + (x + y)));
    assert(differentiates(v, p, q, applied(BinOp::Mul)));
}

// ---------------------------------------------------------------------------
// Expressions
// ---------------------------------------------------------------------------

/// The trace of an arithmetic expression traces the left operand, then the right, and
/// then records the operation on the two nodes, in their order: the value and the
/// partial derivatives by each.
pub proof fn arithmetic_is_recorded(
    op: BinOp,
    e: ExprV,
    l: ExprV,
    r: ExprV,
    scope: ScopeV,
    stack: Seq<Seq<char>>,
    st: TrSt,
    cx: TrCx,
)
    requires
        e.kind == KindV::Binary(op, Box::new(l), Box::new(r)),
    ensures
        traced(e, scope, stack, st, cx) matches Ok((n, end)) ==> {
            let (a, s1) = traced_scalar(l, scope, stack, st, cx)->Ok_0;
            let (b, s2) = traced_scalar(r, scope, stack, s1, cx)->Ok_0;
            let (t, s3) = fresh(s2)->Ok_0;
            &&& smooth(op)
            &&& traced_scalar(l, scope, stack, st, cx) is Ok
            &&& traced_scalar(r, scope, stack, s1, cx) is Ok
            &&& n == TValV::Scalar(t)
            &&& exists|v: Term, p: Term, q: Term|
                {
                    &&& #[trigger] differentiates(v, p, q, applied(op))
                    &&& end.body == s2.body + (zero_guard(op, b) + node_line(
                        t,
                        record_two(
                            a,
                            b,
                            term_text(v, value_at(a), value_at(b)),
                            term_text(p, value_at(a), value_at(b)),
                            term_text(q, value_at(a), value_at(b)),
                        ),
                    ))
                }
        },
{
    if let Ok((n, end)) = traced(e, scope, stack, st, cx) {
        let (a, s1) = traced_scalar(l, scope, stack, st, cx)->Ok_0;
        let (b, s2) = traced_scalar(r, scope, stack, s1, cx)->Ok_0;
        let (t, s3) = fresh(s2)->Ok_0;
        records_hold_the_derivatives(op, a, b, t, s3);
        let (v, p, q) = choose|v: Term, p: Term, q: Term|
            {
                &&& #[trigger] differentiates(v, p, q, applied(op))
                &&& binary_code(op, a, b, t, s3) == Ok::<(TValV, TrSt), Seq<char>>(
                    (
                        TValV::Scalar(t),
                        TrSt {
                            body: s3.body + (zero_guard(op, b) + node_line(
                                t,
                                record_two(
                                    a,
                                    b,
                                    term_text(v, value_at(a), value_at(b)),
                                    term_text(p, value_at(a), value_at(b)),
                                    term_text(q, value_at(a), value_at(b)),
                                ),
                            )),
                            ..s3
                        },
                    ),
                )
            };
        assert(differentiates(v, p, q, applied(op)));
    }
}

} // verus!
