//! A condition inside `f` is computed beside the tape: the text that evaluates it
//! never hands the tape to a call.

use vstd::prelude::*;
use vstd::string::*;

use crate::ast::model::{ExprV, KindV, StmtKindV, StmtV};
use crate::ast::BinOp;
use crate::grad_native::model::{
    as_double, c_op, concrete, concrete_binary, concrete_let, concrete_stmts, concrete_var,
    find_cap, fresh, infix, is_capture, local, traced_vec, CapV, FValV, ScopeV, TValV, TrCx, TrSt,
};
use crate::text::{dec, dec_nat, digit, fmt, fmt_at, occurs, occurs_at};

verus! {

/// Whether a text hands the tape to a call, as every text that records does.
pub open spec fn calls_tape(s: Seq<char>) -> bool {
    occurs(s, "(&$tp,"@)
}

/// Whether a text holds no comma.
pub open spec fn commaless(s: Seq<char>) -> bool {
    !s.contains(',')
}

/// The text of a C value.
pub open spec fn value_text(v: TValV) -> Seq<char> {
    match v {
        TValV::Scalar(s) => s,
        TValV::Vector(s) => s,
        TValV::Int(s) => s,
        TValV::Bool(s) => s,
    }
}

/// The C expression of a concrete value.
pub open spec fn concrete_text(v: FValV) -> Seq<char> {
    match v {
        FValV::Int(s) => s,
        FValV::Bool(s) => s,
        FValV::Float(s) => s,
    }
}

/// Whether the names and float literals of a condition hold no comma, which no
/// name and no number of a program does.
pub open spec fn lexical(e: ExprV) -> bool
    decreases e, 0nat,
{
    match e.kind {
        KindV::Var(n) => commaless(n),
        KindV::Float(f) => commaless(f.shortest),
        KindV::Unary(_, x) => lexical(*x),
        KindV::Binary(_, l, r) => lexical(*l) && lexical(*r),
        KindV::Call(_, args) => args.len() == 1 ==> lexical(args[0]),
        KindV::Block(ss, last) => lexical_stmts(ss, ss.len()) && lexical(*last),
        _ => true,
    }
}

/// Whether the names and float literals of the first `n` statements hold no comma.
pub open spec fn lexical_stmts(ss: Seq<StmtV>, n: nat) -> bool
    decreases ss, n,
{
    n == 0 || n > ss.len() || lexical_stmts(ss, (n - 1) as nat) && match ss[n - 1].kind {
        StmtKindV::Let { name, name_span, ann, value } => lexical(value),
        StmtKindV::Expr(ex) => lexical(ex),
    }
}

/// Whether the C names of the locals hold no comma.
pub open spec fn lexical_scope(scope: ScopeV) -> bool {
    forall|i: int| 0 <= i < scope.len() ==> commaless(value_text((#[trigger] scope[i]).1))
}

/// Whether the C names of the lifted captures hold no comma.
pub open spec fn lexical_caps(caps: Seq<CapV>) -> bool {
    forall|i: int| 0 <= i < caps.len() ==> commaless((#[trigger] caps[i]).local)
}

/// The text that was added to the body from `st` to `s`.
pub open spec fn added(st: TrSt, s: TrSt) -> Seq<char> {
    s.body.skip(st.body.len() as int)
}

/// Whether `s` continues `st` by text without a comma.
pub open spec fn continues(st: TrSt, s: TrSt) -> bool {
    &&& st.body.is_prefix_of(s.body)
    &&& commaless(added(st, s))
    &&& lexical_caps(s.caps)
}

/// Evaluating a condition records nothing on the tape: the statements that it adds
/// come after those before, and none of them calls the tape.
pub proof fn conditions_record_nothing(
    e: ExprV,
    scope: ScopeV,
    stack: Seq<Seq<char>>,
    st: TrSt,
    cx: TrCx,
)
    requires
        lexical(e),
        lexical_scope(scope),
        lexical_caps(st.caps),
    ensures
        concrete(e, scope, stack, st, cx) matches Ok((v, s)) ==> st.body.is_prefix_of(s.body)
            && !calls_tape(added(st, s)) && !calls_tape(concrete_text(v)),
{
    lemma_concrete(e, scope, stack, st, cx);
    if let Ok((v, s)) = concrete(e, scope, stack, st, cx) {
        lemma_no_call(added(st, s));
        lemma_no_call(concrete_text(v));
    }
}

proof fn lemma_no_call(s: Seq<char>)
    requires
        commaless(s),
    ensures
        !calls_tape(s),
{
    reveal_strlit("(&$tp,");
    if calls_tape(s) {
        let i = choose|i: int| #[trigger] occurs_at(s, "(&$tp,"@, i);
        assert(s.subrange(i, i + 6)[5] == s[i + 5]);
        assert(s[i + 5] == ',');
    }
}

proof fn lemma_join(a: Seq<char>, b: Seq<char>)
    requires
        commaless(a),
        commaless(b),
    ensures
        commaless(a + b),
{
    if (a + b).contains(',') {
        let i = choose|i: int| 0 <= i < (a + b).len() && (a + b)[i] == ',';
        if i < a.len() {
            assert(a[i] == ',');
        } else {
            assert(b[i - a.len()] == ',');
        }
    }
}

proof fn lemma_fmt(t: Seq<char>, args: Seq<Seq<char>>)
    requires
        commaless(t),
        forall|i: int| 0 <= i < args.len() ==> commaless(#[trigger] args[i]),
    ensures
        commaless(fmt(t, args)),
{
    reveal(fmt);
    lemma_fmt_at(t, 0, args, 0);
}

proof fn lemma_fmt_at(t: Seq<char>, i: nat, args: Seq<Seq<char>>, k: nat)
    requires
        commaless(t),
        forall|i: int| 0 <= i < args.len() ==> commaless(#[trigger] args[i]),
    ensures
        commaless(fmt_at(t, i, args, k)),
    decreases t.len() - i,
{
    if i < t.len() {
        if i + 1 < t.len() && t[i as int] == '{' && t[(i + 1) as int] == '}' {
            lemma_fmt_at(t, i + 2, args, k + 1);
            let arg = if k < args.len() {
                args[k as int]
            } else {
                Seq::empty()
            };
            lemma_join(arg, fmt_at(t, i + 2, args, k + 1));
        } else {
            lemma_fmt_at(t, i + 1, args, k);
            let c = seq![t[i as int]];
            assert(t.contains(t[i as int]));
            assert(commaless(c));
            lemma_join(c, fmt_at(t, i + 1, args, k));
        }
    }
}

proof fn lemma_dec(n: int)
    ensures
        commaless(dec(n)),
{
    if n < 0 {
        lemma_dec_nat((-n) as nat);
        lemma_join(seq!['-'], dec_nat((-n) as nat));
    } else {
        lemma_dec_nat(n as nat);
    }
}

proof fn lemma_dec_nat(n: nat)
    ensures
        commaless(dec_nat(n)),
    decreases n,
{
    if n >= 10 {
        lemma_dec_nat(n / 10);
        assert(dec_nat(n) =~= dec_nat(n / 10) + seq![digit(n % 10)]);
        lemma_join(dec_nat(n / 10), seq![digit(n % 10)]);
    }
}

/// The templates of a condition hold no comma.
proof fn lemma_templates()
    ensures
        commaless("(int64_t){}"@),
        commaless("1"@),
        commaless("0"@),
        commaless("$cap_{}"@),
        commaless("$g{}"@),
        commaless("(-({}))"@),
        commaless("(!({}))"@),
        commaless("(double)({})"@),
        commaless("(({}) {} ({}))"@),
        commaless("{}.len"@),
        commaless("{}.0"@),
        commaless("(-1.0/0.0)"@),
        commaless("(1.0/0.0)"@),
        commaless("(0.0/0.0)"@),
        commaless("    int64_t {} = {};\n"@),
        commaless("    int {} = {};\n"@),
{
    reveal_strlit("(int64_t){}");
    reveal_strlit("1");
    reveal_strlit("0");
    reveal_strlit("$cap_{}");
    reveal_strlit("$g{}");
    reveal_strlit("(-({}))");
    reveal_strlit("(!({}))");
    reveal_strlit("(double)({})");
    reveal_strlit("(({}) {} ({}))");
    reveal_strlit("{}.len");
    reveal_strlit("{}.0");
    reveal_strlit("(-1.0/0.0)");
    reveal_strlit("(1.0/0.0)");
    reveal_strlit("(0.0/0.0)");
    reveal_strlit("    int64_t {} = {};\n");
    reveal_strlit("    int {} = {};\n");
}

proof fn lemma_trap_template()
    ensures
        commaless(
            "    if (({}) == 0) aria_trap_msg(\"grad: division by zero in a condition\");\n"@,
        ),
{
    reveal_strlit(
        "    if (({}) == 0) aria_trap_msg(\"grad: division by zero in a condition\");\n",
    );
}

proof fn lemma_added(st: TrSt, text: Seq<char>, s: TrSt)
    requires
        s.body == st.body + text,
        commaless(text),
        lexical_caps(s.caps),
    ensures
        continues(st, s),
{
    assert(added(st, s) =~= text);
    assert(s.body.subrange(0, st.body.len() as int) =~= st.body);
}

proof fn lemma_same(st: TrSt, s: TrSt)
    requires
        s.body == st.body,
        lexical_caps(s.caps),
    ensures
        continues(st, s),
{
    assert(s.body =~= st.body + Seq::empty());
    assert(commaless(Seq::<char>::empty()));
    lemma_added(st, Seq::empty(), s);
}

proof fn lemma_chain(a: TrSt, b: TrSt, c: TrSt)
    requires
        continues(a, b),
        continues(b, c),
    ensures
        continues(a, c),
{
    let x = added(a, b);
    let y = added(b, c);
    assert(b.body =~= a.body + x);
    assert(c.body =~= b.body + y);
    assert(c.body =~= a.body + (x + y));
    lemma_join(x, y);
    lemma_added(a, x + y, c);
}

proof fn lemma_local(scope: ScopeV, name: Seq<char>)
    requires
        lexical_scope(scope),
    ensures
        local(scope, name) matches Some(v) ==> commaless(value_text(v)),
    decreases scope.len(),
{
    if scope.len() > 0 {
        let d = scope.drop_last();
        assert forall|i: int| 0 <= i < d.len() implies commaless(
            value_text((#[trigger] d[i]).1),
        ) by {
            assert(d[i] == scope[i]);
        }
        lemma_local(d, name);
        assert(commaless(value_text(scope[scope.len() - 1].1)));
    }
}

proof fn lemma_find_cap(caps: Seq<CapV>, name: Seq<char>)
    requires
        lexical_caps(caps),
    ensures
        find_cap(caps, name) matches Some(c) ==> commaless(c.local),
    decreases caps.len(),
{
    if caps.len() > 0 {
        let d = caps.drop_last();
        assert forall|i: int| 0 <= i < d.len() implies commaless((#[trigger] d[i]).local) by {
            assert(d[i] == caps[i]);
        }
        lemma_find_cap(d, name);
        assert(commaless(caps[caps.len() - 1].local));
    }
}

proof fn lemma_pushed(caps: Seq<CapV>, c: CapV)
    requires
        lexical_caps(caps),
        commaless(c.local),
    ensures
        lexical_caps(caps.push(c)),
{
    let p = caps.push(c);
    assert forall|i: int| 0 <= i < p.len() implies commaless((#[trigger] p[i]).local) by {
        if i < caps.len() {
            assert(p[i] == caps[i]);
        }
    }
}

proof fn lemma_fresh(st: TrSt)
    ensures
        fresh(st) matches Ok((t, s)) ==> commaless(t) && s.body == st.body && s.caps == st.caps,
{
    lemma_templates();
    lemma_dec(st.tmp as int);
    lemma_fmt("$g{}"@, seq![dec(st.tmp as int)]);
}

proof fn lemma_var(name: Seq<char>, scope: ScopeV, st: TrSt, cx: TrCx)
    requires
        commaless(name),
        lexical_scope(scope),
        lexical_caps(st.caps),
    ensures
        concrete_var(name, scope, st, cx) matches Ok((v, s)) ==> continues(st, s) && commaless(
            concrete_text(v),
        ),
{
    lemma_templates();
    lemma_local(scope, name);
    lemma_fmt("$cap_{}"@, seq![name]);
    let c = CapV { name, vector: false, local: Seq::empty() };
    assert(commaless(c.local));
    lemma_pushed(st.caps, c);
    if let Ok((v, s)) = concrete_var(name, scope, st, cx) {
        lemma_same(st, s);
    }
}

proof fn lemma_length(e: ExprV, scope: ScopeV, stack: Seq<Seq<char>>, st: TrSt, cx: TrCx)
    requires
        e.kind is Var,
        lexical_scope(scope),
        lexical_caps(st.caps),
    ensures
        traced_vec(e, scope, stack, st, cx) matches Ok((v, s)) ==> continues(st, s) && commaless(v),
{
    let name = e.kind->Var_0;
    lemma_local(scope, name);
    lemma_find_cap(st.caps, name);
    lemma_fresh(st);
    if let Ok((v, s)) = traced_vec(e, scope, stack, st, cx) {
        if is_capture(e, scope, cx) && find_cap(st.caps, name) is None {
            let t = fresh(st)->Ok_0.0;
            lemma_pushed(st.caps, CapV { name, vector: true, local: t });
        }
        lemma_same(st, s);
    }
}

proof fn lemma_op(op: BinOp)
    ensures
        commaless(c_op(op)),
{
    reveal_strlit("+");
    reveal_strlit("-");
    reveal_strlit("*");
    reveal_strlit("/");
    reveal_strlit("%");
    reveal_strlit("<");
    reveal_strlit("<=");
    reveal_strlit(">");
    reveal_strlit(">=");
    reveal_strlit("==");
    reveal_strlit("!=");
    reveal_strlit("&&");
    reveal_strlit("||");
}

proof fn lemma_infix(a: Seq<char>, op: BinOp, b: Seq<char>)
    requires
        commaless(a),
        commaless(b),
    ensures
        commaless(infix(a, op, b)),
{
    lemma_templates();
    lemma_op(op);
    lemma_fmt("(({}) {} ({}))"@, seq![a, c_op(op), b]);
}

proof fn lemma_double(v: FValV)
    requires
        commaless(concrete_text(v)),
    ensures
        commaless(as_double(v)),
{
    lemma_templates();
    lemma_fmt("(double)({})"@, seq![concrete_text(v)]);
}

proof fn lemma_binary(op: BinOp, a: FValV, b: FValV, st: TrSt)
    requires
        commaless(concrete_text(a)),
        commaless(concrete_text(b)),
        lexical_caps(st.caps),
    ensures
        concrete_binary(op, a, b, st) matches Ok((v, s)) ==> continues(st, s) && commaless(
            concrete_text(v),
        ),
{
    let t = "    if (({}) == 0) aria_trap_msg(\"grad: division by zero in a condition\");\n"@;
    lemma_trap_template();
    lemma_fmt(t, seq![concrete_text(b)]);
    lemma_infix(concrete_text(a), op, concrete_text(b));
    lemma_double(a);
    lemma_double(b);
    lemma_infix(as_double(a), op, as_double(b));
    lemma_same(st, st);
    if let Ok((v, s)) = concrete_binary(op, a, b, st) {
        if s.body != st.body {
            lemma_added(st, fmt(t, seq![concrete_text(b)]), s);
        } else {
            lemma_same(st, s);
        }
    }
}

proof fn lemma_let(v: FValV, st: TrSt)
    requires
        commaless(concrete_text(v)),
        lexical_caps(st.caps),
    ensures
        concrete_let(v, st) matches Ok((t, s)) ==> continues(st, s) && commaless(value_text(t)),
{
    lemma_templates();
    lemma_fresh(st);
    if let Ok((t, s)) = concrete_let(v, st) {
        let args = seq![value_text(t), concrete_text(v)];
        lemma_fmt("    int64_t {} = {};\n"@, args);
        lemma_fmt("    int {} = {};\n"@, args);
        if v is Int {
            lemma_added(st, fmt("    int64_t {} = {};\n"@, args), s);
        } else {
            lemma_added(st, fmt("    int {} = {};\n"@, args), s);
        }
    }
}

proof fn lemma_concrete(e: ExprV, scope: ScopeV, stack: Seq<Seq<char>>, st: TrSt, cx: TrCx)
    requires
        lexical(e),
        lexical_scope(scope),
        lexical_caps(st.caps),
    ensures
        concrete(e, scope, stack, st, cx) matches Ok((v, s)) ==> continues(st, s) && commaless(
            concrete_text(v),
        ),
    decreases e, 1nat,
{
    lemma_templates();
    lemma_same(st, st);
    match e.kind {
        KindV::Int(n) => {
            lemma_dec(n as int);
            lemma_fmt("(int64_t){}"@, seq![dec(n as int)]);
        },
        KindV::Float(f) => {
            lemma_fmt("{}.0"@, seq![f.shortest]);
        },
        KindV::Var(name) => {
            lemma_var(name, scope, st, cx);
        },
        KindV::Unary(op, x) => {
            lemma_concrete(*x, scope, stack, st, cx);
            if let Ok((v, s)) = concrete(*x, scope, stack, st, cx) {
                lemma_fmt("(-({}))"@, seq![concrete_text(v)]);
                lemma_fmt("(!({}))"@, seq![concrete_text(v)]);
            }
        },
        KindV::Binary(op, l, r) => {
            lemma_concrete(*l, scope, stack, st, cx);
            if let Ok((a, s1)) = concrete(*l, scope, stack, st, cx) {
                lemma_concrete(*r, scope, stack, s1, cx);
                if let Ok((b, s2)) = concrete(*r, scope, stack, s1, cx) {
                    lemma_binary(op, a, b, s2);
                    lemma_chain(st, s1, s2);
                    if let Ok((v, s3)) = concrete_binary(op, a, b, s2) {
                        lemma_chain(st, s2, s3);
                    }
                }
            }
        },
        KindV::Call(name, args) => {
            if name == "vec_len"@ && args.len() == 1 && args[0].kind is Var {
                lemma_length(args[0], scope, stack, st, cx);
                if let Ok((v, s)) = traced_vec(args[0], scope, stack, st, cx) {
                    lemma_fmt("{}.len"@, seq![v]);
                }
            }
        },
        KindV::Block(ss, last) => {
            lemma_stmts(ss, ss.len(), scope, stack, st, cx);
            if let Ok((inner, s1)) = concrete_stmts(ss, ss.len(), scope, stack, st, cx) {
                lemma_concrete(*last, inner, stack, s1, cx);
                if let Ok((v, s2)) = concrete(*last, inner, stack, s1, cx) {
                    lemma_chain(st, s1, s2);
                }
            }
        },
        _ => {},
    }
}

proof fn lemma_stmts(
    ss: Seq<StmtV>,
    n: nat,
    scope: ScopeV,
    stack: Seq<Seq<char>>,
    st: TrSt,
    cx: TrCx,
)
    requires
        lexical_stmts(ss, n),
        lexical_scope(scope),
        lexical_caps(st.caps),
    ensures
        concrete_stmts(ss, n, scope, stack, st, cx) matches Ok((inner, s)) ==> continues(st, s)
            && lexical_scope(inner),
    decreases ss, n,
{
    if n == 0 || n > ss.len() {
        lemma_same(st, st);
    } else {
        lemma_stmts(ss, (n - 1) as nat, scope, stack, st, cx);
        if let Ok((inner, s1)) = concrete_stmts(ss, (n - 1) as nat, scope, stack, st, cx) {
            if let StmtKindV::Let { name, name_span, ann, value } = ss[n - 1].kind {
                lemma_concrete(value, inner, stack, s1, cx);
                if let Ok((v, s2)) = concrete(value, inner, stack, s1, cx) {
                    lemma_let(v, s2);
                    lemma_chain(st, s1, s2);
                    if let Ok((t, s3)) = concrete_let(v, s2) {
                        lemma_chain(st, s2, s3);
                        let p = inner.push((name, t));
                        assert forall|i: int| 0 <= i < p.len() implies commaless(
                            value_text((#[trigger] p[i]).1),
                        ) by {
                            if i < inner.len() {
                                assert(p[i] == inner[i]);
                            }
                        }
                    }
                }
            }
        }
    }
}

} // verus!
