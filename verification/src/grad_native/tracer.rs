//! The traced compilation of a function to C.

use vstd::prelude::*;
use vstd::string::*;

use crate::ast::model::{
    arms_view, expr_view, exprs_view, float_view, lemma_arms_view, lemma_exprs_view,
    lemma_stmts_view, pat_view, stmts_view, KindV,
};
use crate::ast::{
    Arm, BinOp, Expr, ExprKind, FloatLit, FnDecl, Item, Pattern, PatternKind, Stmt, StmtKind, UnOp,
};
use crate::grad_native::model::{
    array_elems, as_double, bind_code, binary_code, branch_kind, branches_code, c_op, captured,
    compares, concrete, concrete_binary, concrete_let, concrete_stmts, concrete_var, const_int,
    described, double_text, find_cap, fn_named, fresh, function, guard_code, ids_code, in_range,
    infix, int_text, is_capture, join_code, joint_kind, leaf, literal_code, local, local_name,
    op_name, push_code, quotient, scale_code, traced, traced_arg, traced_args, traced_arms,
    traced_call, traced_scalar, traced_scalars, traced_stmts, traced_vec, wide_text, zip_code,
    BranchV, CapV, FValV, ScopeV, TValV, TrCx, TrSt, MAX_INLINE_DEPTH,
};
use crate::names::{contains_name, lemma_has_name};
use crate::text::{
    contains_char, fill1, fill2, fill3, fill4, fmt, i64_text, put1, put2, put3, put4, put5, put7,
    starts_with, str_eq, usize_text, views,
};

verus! {

/// The C value of a traced expression, by the C local that holds it.
pub enum TVal {
    Scalar(String),
    Vector(String),
    Int(String),
    Bool(String),
}

impl TVal {
    pub open spec fn view(&self) -> TValV {
        match self {
            TVal::Scalar(s) => TValV::Scalar(s@),
            TVal::Vector(s) => TValV::Vector(s@),
            TVal::Int(s) => TValV::Int(s@),
            TVal::Bool(s) => TValV::Bool(s@),
        }
    }

    fn copy(&self) -> (r: TVal)
        ensures
            r@ == self@,
    {
        match self {
            TVal::Scalar(s) => TVal::Scalar(s.clone()),
            TVal::Vector(s) => TVal::Vector(s.clone()),
            TVal::Int(s) => TVal::Int(s.clone()),
            TVal::Bool(s) => TVal::Bool(s.clone()),
        }
    }

    fn local(&self) -> (r: &str)
        ensures
            r@ == local_name(self@),
    {
        match self {
            TVal::Scalar(s) => s.as_str(),
            TVal::Vector(s) => s.as_str(),
            TVal::Int(s) => s.as_str(),
            TVal::Bool(s) => s.as_str(),
        }
    }
}

/// A concrete forward value: a C expression, by its type.
pub enum FVal {
    Int(String),
    Bool(String),
    Float(String),
}

impl FVal {
    pub open spec fn view(&self) -> FValV {
        match self {
            FVal::Int(s) => FValV::Int(s@),
            FVal::Bool(s) => FValV::Bool(s@),
            FVal::Float(s) => FValV::Float(s@),
        }
    }
}

/// A captured free variable.
pub struct Capture {
    pub name: String,
    pub vector: bool,
    pub local: String,
}

impl Capture {
    pub open spec fn view(&self) -> CapV {
        CapV { name: self.name@, vector: self.vector, local: self.local@ }
    }
}

/// The models of a list of captures.
pub open spec fn cap_views(v: Seq<Capture>) -> Seq<CapV> {
    v.map_values(|c: Capture| c@)
}

/// The locals in scope; the last of a name counts.
pub type Scope = Vec<(String, TVal)>;

/// The model of a scope.
pub open spec fn scope_view(s: Seq<(String, TVal)>) -> ScopeV {
    s.map_values(|p: (String, TVal)| (p.0@, p.1@))
}

/// A traced branch: its guard, its statements and its value.
pub struct Branch {
    pub guard: String,
    pub body: String,
    pub value: TVal,
}

impl Branch {
    pub open spec fn view(&self) -> BranchV {
        (self.guard@, self.body@, self.value@)
    }
}

/// The models of a list of branches.
pub open spec fn branch_views(v: Seq<Branch>) -> Seq<BranchV> {
    v.map_values(|b: Branch| b@)
}

/// The models of a list of values.
pub open spec fn value_views(v: Seq<TVal>) -> Seq<TValV> {
    v.map_values(|x: TVal| x@)
}

/// An outcome of tracing, as a model.
pub open spec fn tv(r: Result<TVal, String>, st: TrSt) -> Result<(TValV, TrSt), Seq<char>> {
    match r {
        Ok(v) => Ok((v@, st)),
        Err(m) => Err(m@),
    }
}

/// An outcome of evaluating, as a model.
pub open spec fn fv(r: Result<FVal, String>, st: TrSt) -> Result<(FValV, TrSt), Seq<char>> {
    match r {
        Ok(v) => Ok((v@, st)),
        Err(m) => Err(m@),
    }
}

/// A local or a message, as a model.
pub open spec fn sv(r: Result<String, String>, st: TrSt) -> Result<(Seq<char>, TrSt), Seq<char>> {
    match r {
        Ok(v) => Ok((v@, st)),
        Err(m) => Err(m@),
    }
}

/// A scope or a message, as a model.
pub open spec fn cv(r: Result<Scope, String>, st: TrSt) -> Result<(ScopeV, TrSt), Seq<char>> {
    match r {
        Ok(v) => Ok((scope_view(v@), st)),
        Err(m) => Err(m@),
    }
}

/// The trace of one `f`.
pub struct Tracer<'a> {
    pub items: &'a Vec<Item>,
    pub wide: &'a Vec<(i64, String)>,
    pub caps: Vec<Capture>,
    pub tmp: usize,
    pub body: String,
    pub prologue: String,
}

const UNSUPPORTED_CONDITION: &'static str =
    "grad: this `if`/`match` condition/scrutinee is not a supported concrete Int/Bool/Float expression on the native backend (supported: literals, captured scalars, `vec_len`, and +-*/%, comparisons, &&/||/! over them)";

const MISMATCHED_OPERANDS: &'static str =
    "grad: mismatched operand kinds in an `if`/`match` condition inside `f` on the native backend";

/// Whether a name is a vector builtin that can be traced.
pub open spec fn traced_builtin(name: Seq<char>) -> bool {
    name == "vec_get"@ || name == "vec_dot"@ || name == "vec_norm"@ || name == "vec_add"@ || name
        == "vec_sub"@ || name == "vec_scale"@ || name == "vec_from_array"@ || name == "vec_push"@
        || name == "vec_len"@
}

/// The last function of a name.
pub fn find_fn<'a>(items: &'a Vec<Item>, name: &str) -> (r: Option<&'a FnDecl>)
    ensures
        match r {
            Some(f) => fn_named(items@, items@.len(), name@) == Some(*f),
            None => fn_named(items@, items@.len(), name@) is None,
        },
{
    let mut i: usize = items.len();
    while i > 0
        invariant
            i <= items@.len(),
            fn_named(items@, items@.len(), name@) == fn_named(items@, i as nat, name@),
        decreases i,
    {
        i = i - 1;
        if let Item::Fn(f) = &items[i] {
            if str_eq(f.name.as_str(), name) {
                return Some(f);
            }
        }
    }
    None
}

fn find_local<'a>(scope: &'a Scope, name: &str) -> (r: Option<&'a TVal>)
    ensures
        match r {
            Some(v) => local(scope_view(scope@), name@) == Some(v@),
            None => local(scope_view(scope@), name@) is None,
        },
{
    let ghost all = scope_view(scope@);
    let mut i: usize = scope.len();
    assert(all.take(i as int) =~= all);
    while i > 0
        invariant
            i <= scope@.len(),
            all == scope_view(scope@),
            local(all, name@) == local(all.take(i as int), name@),
        decreases i,
    {
        proof {
            let t = all.take(i as int);
            assert(t.drop_last() =~= all.take(i - 1));
            assert(t.last() == (scope@[i - 1].0@, scope@[i - 1].1@));
        }
        i = i - 1;
        if str_eq(scope[i].0.as_str(), name) {
            return Some(&scope[i].1);
        }
    }
    None
}

fn copy_scope(scope: &Scope) -> (r: Scope)
    ensures
        scope_view(r@) == scope_view(scope@),
{
    let mut r: Scope = Vec::new();
    let mut i: usize = 0;
    while i < scope.len()
        invariant
            i <= scope@.len(),
            r@.len() == i,
            forall|j: int|
                0 <= j < i ==> (#[trigger] r@[j]).0@ == scope@[j].0@ && r@[j].1@ == scope@[j].1@,
        decreases scope@.len() - i,
    {
        r.push((scope[i].0.clone(), scope[i].1.copy()));
        i = i + 1;
    }
    assert(scope_view(r@) =~= scope_view(scope@));
    r
}

fn bind(scope: &mut Scope, name: &str, v: TVal)
    ensures
        scope_view(final(scope)@) == scope_view(old(scope)@).push((name@, v@)),
{
    let ghost before = scope@;
    scope.push((name.to_owned(), v));
    assert(scope_view(scope@) =~= scope_view(before).push((name@, v@)));
}

/// A float literal as a C `double` literal that reads back as the same number.
fn fmt_f64(f: &FloatLit) -> (r: String)
    ensures
        r@ == double_text(float_view(*f)),
{
    if f.infinite() {
        if f.negative() {
            "(-1.0/0.0)".to_owned()
        } else {
            "(1.0/0.0)".to_owned()
        }
    } else if f.nan() {
        "(0.0/0.0)".to_owned()
    } else if contains_char(f.shortest.as_str(), '.') || contains_char(f.shortest.as_str(), 'e')
        || contains_char(f.shortest.as_str(), 'E') {
        f.shortest.clone()
    } else {
        fill1("{}.0", f.shortest.as_str())
    }
}

/// An integer literal as a C `double` literal.
fn fmt_int(n: i64, wide: &Vec<(i64, String)>) -> (r: String)
    ensures
        r@ == int_text(n, wide@),
{
    let digits: String = i64_text(n);
    if -0x20_0000_0000_0000 <= n && n <= 0x20_0000_0000_0000 {
        return fill1("{}.0", digits.as_str());
    }
    let mut i: usize = 0;
    assert(wide@.skip(0) =~= wide@);
    while i < wide.len()
        invariant
            i <= wide@.len(),
            !(-0x20_0000_0000_0000 <= n <= 0x20_0000_0000_0000),
            wide_text(wide@, n) == wide_text(wide@.skip(i as int), n),
        decreases wide@.len() - i,
    {
        if wide[i].0 == n {
            return wide[i].1.clone();
        }
        assert(wide@.skip(i as int).drop_first() =~= wide@.skip(i + 1));
        i = i + 1;
    }
    fill1("{}.0", digits.as_str())
}

fn divide(a: i64, b: i64) -> (r: Option<i64>)
    requires
        b != 0,
    ensures
        match r {
            Some(n) => in_range(quotient(a as int, b as int)) == Some(n as int),
            None => in_range(quotient(a as int, b as int)) is None,
        },
{
    let x: u128 = if a < 0 {
        (-(a as i128)) as u128
    } else {
        a as u128
    };
    let y: u128 = if b < 0 {
        (-(b as i128)) as u128
    } else {
        b as u128
    };
    let q: u128 = x / y;
    proof {
        let (xi, yi) = (x as int, y as int);
        assert(0 <= xi / yi <= xi) by (nonlinear_arith)
            requires
                xi >= 0,
                yi >= 1,
        ;
    }
    if (a < 0) == (b < 0) {
        if q > 0x7FFF_FFFF_FFFF_FFFF {
            None
        } else {
            Some(q as i64)
        }
    } else {
        Some((-(q as i128)) as i64)
    }
}

/// Evaluate a constant integer index expression: a literal, or simple arithmetic
/// on literals. `None` for anything else, and where a step does not fit.
fn eval_const_int(e: &Expr) -> (r: Option<i64>)
    ensures
        match r {
            Some(n) => const_int(expr_view(*e)) == Some(n as int),
            None => const_int(expr_view(*e)) is None,
        },
    decreases e,
{
    match &e.kind {
        ExprKind::Int(n) => Some(*n),
        ExprKind::Unary(UnOp::Neg, inner) => match eval_const_int(inner) {
            Some(n) => if n == i64::MIN {
                None
            } else {
                Some(-n)
            },
            None => None,
        },
        ExprKind::Binary(op, l, r) => {
            let a: Option<i64> = eval_const_int(l);
            let b: Option<i64> = eval_const_int(r);
            match (a, b) {
                (Some(a), Some(b)) => match op {
                    BinOp::Add => a.checked_add(b),
                    BinOp::Sub => a.checked_sub(b),
                    BinOp::Mul => a.checked_mul(b),
                    BinOp::Div => if b != 0 {
                        divide(a, b)
                    } else {
                        None
                    },
                    _ => None,
                },
                _ => None,
            }
        },
        _ => None,
    }
}

/// If `e` is an inline array literal, its element expressions. Array literals are
/// calls of `array_lit` or of a monomorphized `array_lit$..` form.
fn array_literal_elems(e: &Expr) -> (r: Option<&Vec<Expr>>)
    ensures
        match r {
            Some(v) => array_elems(expr_view(*e)) == Some(exprs_view(v@, v@.len()))
                && decreases_to!(e => v@),
            None => array_elems(expr_view(*e)) is None,
        },
{
    match &e.kind {
        ExprKind::Call(name, args) => {
            if str_eq(name.as_str(), "array_lit") || starts_with(name.as_str(), "array_lit$") {
                Some(args)
            } else {
                None
            }
        },
        _ => None,
    }
}

/// A short description of an expression kind, for messages.
fn describe(e: &Expr) -> (r: &'static str)
    ensures
        r@ == described(expr_view(*e).kind),
{
    match &e.kind {
        ExprKind::Record(_, _) => "a record literal",
        ExprKind::Field(_, _) => "a record field access",
        ExprKind::Update(_, _) => "a record update",
        ExprKind::Lambda(_, _, _) => "a lambda",
        ExprKind::Apply(_, _, _) => "a closure application",
        ExprKind::Ctor(_, _) => "a constructor",
        ExprKind::Str(_) => "a String",
        ExprKind::Bool(_) => "a Bool",
        ExprKind::Unit => "Unit",
        _ => "an unsupported construct",
    }
}

fn name_of(op: BinOp) -> (r: &'static str)
    ensures
        r@ == op_name(op),
{
    match op {
        BinOp::Add => "Add",
        BinOp::Sub => "Sub",
        BinOp::Mul => "Mul",
        BinOp::Div => "Div",
        BinOp::Mod => "Mod",
        BinOp::Eq => "Eq",
        BinOp::Ne => "Ne",
        BinOp::Lt => "Lt",
        BinOp::Le => "Le",
        BinOp::Gt => "Gt",
        BinOp::Ge => "Ge",
        BinOp::And => "And",
        BinOp::Or => "Or",
    }
}

fn infix_of(op: BinOp) -> (r: &'static str)
    ensures
        r@ == c_op(op),
{
    match op {
        BinOp::Add => "+",
        BinOp::Sub => "-",
        BinOp::Mul => "*",
        BinOp::Div => "/",
        BinOp::Mod => "%",
        BinOp::Lt => "<",
        BinOp::Le => "<=",
        BinOp::Gt => ">",
        BinOp::Ge => ">=",
        BinOp::Eq => "==",
        BinOp::Ne => "!=",
        BinOp::And => "&&",
        BinOp::Or => "||",
    }
}

fn is_comparison(op: BinOp) -> (r: bool)
    ensures
        r == compares(op),
{
    match op {
        BinOp::Lt | BinOp::Le | BinOp::Gt | BinOp::Ge | BinOp::Eq | BinOp::Ne => true,
        _ => false,
    }
}

/// Render a concrete forward value as a C `double` expression; an Int widens.
fn fval_as_double(v: &FVal) -> (r: String)
    ensures
        r@ == as_double(v@),
{
    match v {
        FVal::Float(s) => s.clone(),
        FVal::Int(s) => fill1("(double)({})", s.as_str()),
        FVal::Bool(s) => fill1("(double)({})", s.as_str()),
    }
}

fn infix_text(a: &str, op: BinOp, b: &str) -> (r: String)
    ensures
        r@ == infix(a@, op, b@),
{
    fill3("(({}) {} ({}))", a, infix_of(op), b)
}

/// Whether a branch yields a vector; one that yields a concrete value is refused.
fn kind_of(v: &TVal) -> (r: Result<bool, String>)
    ensures
        match r {
            Ok(k) => branch_kind(v@) == Ok::<bool, Seq<char>>(k),
            Err(m) => branch_kind(v@) == Err::<bool, Seq<char>>(m@),
        },
{
    match v {
        TVal::Vector(_) => Ok(true),
        TVal::Scalar(_) => Ok(false),
        _ => Err(
            "grad: an `if`/`match` arm inside `f` produces a concrete Int/Bool, not a differentiated Float/Vector, on the native backend".to_owned(),
        ),
    }
}

/// The one kind of all branches.
fn common_kind(branches: &Vec<Branch>) -> (r: Result<bool, String>)
    requires
        branches@.len() > 0,
    ensures
        match r {
            Ok(k) => joint_kind(branch_views(branches@), branches@.len()) == Ok::<
                bool,
                Seq<char>,
            >(k),
            Err(m) => joint_kind(branch_views(branches@), branches@.len()) == Err::<
                bool,
                Seq<char>,
            >(m@),
        },
{
    let ghost bs = branch_views(branches@);
    assert(bs[0] == branches@[0]@);
    let first: Result<bool, String> = kind_of(&branches[0].value);
    let vector: bool = match first {
        Ok(k) => k,
        Err(m) => {
            proof {
                lemma_joint_error(bs, 0, bs.len());
            }
            return Err(m);
        },
    };
    let mut i: usize = 0;
    while i < branches.len()
        invariant
            i <= branches@.len(),
            bs == branch_views(branches@),
            joint_kind(bs, i as nat) == Ok::<bool, Seq<char>>(vector),
        decreases branches@.len() - i,
    {
        assert(bs[i as int] == branches@[i as int]@);
        match kind_of(&branches[i].value) {
            Ok(kind) => {
                if kind != vector {
                    proof {
                        lemma_joint_error(bs, (i + 1) as nat, bs.len());
                    }
                    return Err(
                        "grad: the arms of an `if`/`match` inside `f` must all produce the SAME kind (all Float, or all Vector) on the native backend".to_owned(),
                    );
                }
            },
            Err(m) => {
                proof {
                    lemma_joint_error(bs, (i + 1) as nat, bs.len());
                }
                return Err(m);
            },
        }
        i = i + 1;
    }
    Ok(vector)
}

/// What the first branches are refused for, all of them are refused for.
proof fn lemma_joint_error(bs: Seq<BranchV>, k: nat, n: nat)
    requires
        k <= n <= bs.len(),
        joint_kind(bs, k) is Err,
    ensures
        joint_kind(bs, n) == joint_kind(bs, k),
    decreases n - k,
{
    if k < n {
        lemma_joint_error(bs, k, (n - 1) as nat);
    }
}

/// The guard of an arm with a refutable or wildcard pattern.
fn guard_of(p: &Pattern, v: &FVal) -> (r: Result<String, String>)
    ensures
        match r {
            Ok(g) => guard_code(pat_view(*p).kind, v@) == Ok::<Seq<char>, Seq<char>>(g@),
            Err(m) => guard_code(pat_view(*p).kind, v@) == Err::<Seq<char>, Seq<char>>(m@),
        },
{
    match &p.kind {
        PatternKind::Int(n) => {
            let n: String = i64_text(*n);
            match v {
                FVal::Int(s) => Ok(fill2("if ({} == {})", s.as_str(), n.as_str())),
                FVal::Bool(s) => Ok(fill2("if ({} == {})", s.as_str(), n.as_str())),
                FVal::Float(_) => Err(
                    "grad: `match` integer pattern against a Float scrutinee inside `f`".to_owned(),
                ),
            }
        },
        PatternKind::Bool(b) => match v {
            FVal::Bool(s) => {
                let n: &str = if *b {
                    "1"
                } else {
                    "0"
                };
                Ok(fill2("if ({} == {})", s.as_str(), n))
            },
            _ => Err(
                "grad: `match` boolean pattern against a non-Bool scrutinee inside `f`".to_owned(),
            ),
        },
        PatternKind::Ctor(_, _) => Err(
            "grad: `match` on constructors/records inside `f` is not supported on the native backend (only Int/Bool/wildcard/var patterns on a concrete scalar scrutinee); use the interpreter `aria run`".to_owned(),
        ),
        PatternKind::Record(_, _) => Err(
            "grad: `match` on constructors/records inside `f` is not supported on the native backend (only Int/Bool/wildcard/var patterns on a concrete scalar scrutinee); use the interpreter `aria run`".to_owned(),
        ),
        _ => Ok("else".to_owned()),
    }
}

fn copy_stack(stack: &Vec<String>) -> (r: Vec<String>)
    ensures
        views(r@) == views(stack@),
{
    let mut r: Vec<String> = Vec::new();
    let mut i: usize = 0;
    while i < stack.len()
        invariant
            i <= stack@.len(),
            r@.len() == i,
            forall|j: int| 0 <= j < i ==> (#[trigger] r@[j])@ == stack@[j]@,
        decreases stack@.len() - i,
    {
        r.push(stack[i].clone());
        i = i + 1;
    }
    assert(views(r@) =~= views(stack@));
    r
}

impl<'a> Tracer<'a> {
    pub open spec fn view(&self) -> TrSt {
        TrSt {
            caps: cap_views(self.caps@),
            tmp: self.tmp as nat,
            body: self.body@,
            prologue: self.prologue@,
        }
    }

    /// The tables of the trace.
    pub open spec fn cx(&self) -> TrCx {
        TrCx { items: self.items@, wide: self.wide@ }
    }

    /// A fresh C local.
    fn fresh(&mut self) -> (r: Result<String, String>)
        ensures
            final(self).items == old(self).items,
            final(self).wide == old(self).wide,
            sv(r, final(self)@) == fresh(old(self)@),
    {
        if self.tmp == usize::MAX {
            return Err("grad: too many temporaries".to_owned());
        }
        let n: String = usize_text(self.tmp);
        self.tmp = self.tmp + 1;
        Ok(fill1("$g{}", n.as_str()))
    }

    /// A fresh constant leaf holding a C `double` expression.
    fn const_leaf(&mut self, text: &str) -> (r: Result<TVal, String>)
        ensures
            final(self).items == old(self).items,
            final(self).wide == old(self).wide,
            tv(r, final(self)@) == leaf(text@, old(self)@),
    {
        let t: String = self.fresh()?;
        put2(&mut self.body, "    int64_t {} = aria_tape_leaf(&$tp, {});\n", t.as_str(), text);
        Ok(TVal::Scalar(t))
    }

    fn find_capture(&self, name: &str) -> (r: Option<usize>)
        ensures
            match r {
                Some(i) => i < self.caps@.len() && find_cap(self@.caps, name@) == Some(
                    self.caps@[i as int]@,
                ),
                None => find_cap(self@.caps, name@) is None,
            },
    {
        let ghost all = self@.caps;
        let mut i: usize = self.caps.len();
        assert(all.take(i as int) =~= all);
        while i > 0
            invariant
                i <= self.caps@.len(),
                all == self@.caps,
                find_cap(all, name@) == find_cap(all.take(i as int), name@),
            decreases i,
        {
            proof {
                let t = all.take(i as int);
                assert(t.drop_last() =~= all.take(i - 1));
                assert(t.last() == self.caps@[i - 1]@);
            }
            i = i - 1;
            if str_eq(self.caps[i].name.as_str(), name) {
                return Some(i);
            }
        }
        None
    }

    fn add_capture(&mut self, name: &str, vector: bool, local: String)
        ensures
            final(self).items == old(self).items,
            final(self).wide == old(self).wide,
            final(self)@ == (TrSt {
                caps: old(self)@.caps.push(CapV { name: name@, vector, local: local@ }),
                ..old(self)@
            }),
    {
        let ghost before = self.caps@;
        self.caps.push(Capture { name: name.to_owned(), vector, local });
        assert(cap_views(self.caps@) =~= cap_views(before).push(
            CapV { name: name@, vector, local: local@ },
        ));
    }

    /// Use a captured free variable with the demanded kind, registering it on its
    /// first use.
    fn capture(&mut self, name: &str, vector: bool) -> (r: Result<TVal, String>)
        ensures
            final(self).items == old(self).items,
            final(self).wide == old(self).wide,
            tv(r, final(self)@) == captured(name@, vector, old(self)@),
    {
        let cparam: String = fill1("$cap_{}", name);
        match self.find_capture(name) {
            Some(i) => {
                if self.caps[i].vector && vector {
                    Ok(TVal::Vector(self.caps[i].local.clone()))
                } else if self.caps[i].vector {
                    Err(
                        fill1(
                            "grad: captured `{}` is used as both a Vector and a Float in `f`",
                            name,
                        ),
                    )
                } else if !vector {
                    self.const_leaf(cparam.as_str())
                } else {
                    Err(
                        fill1(
                            "grad: captured `{}` is used as both a Float and a Vector in `f`",
                            name,
                        ),
                    )
                }
            },
            None => {
                if vector {
                    let t: String = self.fresh()?;
                    put2(
                        &mut self.prologue,
                        "    AriaTVec {} = aria_tvec_from_vec(&$tp, {});\n",
                        t.as_str(),
                        cparam.as_str(),
                    );
                    self.add_capture(name, true, t.clone());
                    Ok(TVal::Vector(t))
                } else {
                    let none: String = String::new();
                    assert(none@ =~= Seq::<char>::empty());
                    self.add_capture(name, false, none);
                    self.const_leaf(cparam.as_str())
                }
            },
        }
    }

    /// The name of a bare captured free variable.
    fn captured_name<'e>(&self, e: &'e Expr, scope: &Scope) -> (r: Option<&'e str>)
        ensures
            match r {
                Some(n) => is_capture(expr_view(*e), scope_view(scope@), self.cx())
                    && expr_view(*e).kind == KindV::Var(n@),
                None => !is_capture(expr_view(*e), scope_view(scope@), self.cx()),
            },
    {
        match &e.kind {
            ExprKind::Var(n) => {
                if find_local(scope, n.as_str()).is_some() {
                    None
                } else if find_fn(self.items, n.as_str()).is_some() {
                    None
                } else {
                    Some(n.as_str())
                }
            },
            _ => None,
        }
    }

    /// Trace an expression, appending C statements that compute its tape value into
    /// a fresh local, and returning that local.
    #[verifier::rlimit(50)]
    pub fn trace(&mut self, e: &Expr, scope: &Scope, stack: &Vec<String>) -> (r: Result<
        TVal,
        String,
    >)
        requires
            stack@.len() <= MAX_INLINE_DEPTH,
        ensures
            final(self).items == old(self).items,
            final(self).wide == old(self).wide,
            tv(r, final(self)@) == traced(
                expr_view(*e),
                scope_view(scope@),
                views(stack@),
                old(self)@,
                old(self).cx(),
            ),
        decreases MAX_INLINE_DEPTH - stack@.len(), e, 1nat,
    {
        match &e.kind {
            ExprKind::Float(f) => {
                let text: String = fmt_f64(f);
                self.const_leaf(text.as_str())
            },
            ExprKind::Int(n) => {
                let text: String = fmt_int(*n, self.wide);
                self.const_leaf(text.as_str())
            },
            ExprKind::Var(name) => match find_local(scope, name.as_str()) {
                Some(v) => Ok(v.copy()),
                None => {
                    if find_fn(self.items, name.as_str()).is_some() {
                        Err(
                            fill1(
                                "grad: `f` references the function `{}` as a value — not supported on the native backend",
                                name.as_str(),
                            ),
                        )
                    } else {
                        Err(
                            fill2(
                                "grad: the captured variable `{}` must be used directly as a Float or Vector argument in `f` on the native backend (e.g. `vec_dot(v, {})`)",
                                name.as_str(),
                                name.as_str(),
                            ),
                        )
                    }
                },
            },
            ExprKind::Unary(UnOp::Neg, inner) => {
                let x: String = self.trace_scalar(inner, scope, stack)?;
                let t: String = self.fresh()?;
                put3(
                    &mut self.body,
                    "    int64_t {} = aria_tape_unary(&$tp, {}, -aria_tape_value(&$tp, {}), -1.0);\n",
                    t.as_str(),
                    x.as_str(),
                    x.as_str(),
                );
                Ok(TVal::Scalar(t))
            },
            ExprKind::Unary(UnOp::Not, _) => Err(
                "grad: boolean `!` is not differentiable in `f` on the native backend".to_owned(),
            ),
            ExprKind::Binary(op, l, r) => {
                let a: String = self.trace_scalar(l, scope, stack)?;
                let b: String = self.trace_scalar(r, scope, stack)?;
                let t: String = self.fresh()?;
                self.put_binary(*op, a.as_str(), b.as_str(), t)
            },
            ExprKind::Call(name, args) => self.trace_call(name.as_str(), args, scope, stack),
            ExprKind::Block(stmts, last) => {
                proof {
                    lemma_stmts_view(stmts@, stmts@.len());
                }
                let inner: Scope = self.trace_stmts(stmts, stmts.len(), scope, stack)?;
                self.trace(last, &inner, stack)
            },
            ExprKind::If(c, t, f) => {
                let cond: String = match self.forward_eval(c, scope, stack)? {
                    FVal::Bool(s) => s,
                    _ => return Err(
                        "grad: an `if` condition inside `f` must be a Bool on the native backend".to_owned(),
                    ),
                };
                let (then_body, then_value) = self.sub_trace(t, scope, stack)?;
                let (else_body, else_value) = self.sub_trace(f, scope, stack)?;
                let mut branches: Vec<Branch> = Vec::new();
                branches.push(
                    Branch {
                        guard: fill1("if ({})", cond.as_str()),
                        body: then_body,
                        value: then_value,
                    },
                );
                branches.push(
                    Branch { guard: "else".to_owned(), body: else_body, value: else_value },
                );
                assert(branch_views(branches@) =~= seq![
                    (fmt("if ({})"@, seq![cond@]), then_body@, then_value@),
                    ("else"@, else_body@, else_value@),
                ]);
                self.emit_join(&branches, false)
            },
            ExprKind::Match(scrut, arms) => {
                if arms.len() == 0 {
                    proof {
                        lemma_arms_view(arms@, arms@.len());
                    }
                    return Err("grad: empty `match` inside `f`".to_owned());
                }
                proof {
                    lemma_arms_view(arms@, arms@.len());
                }
                let v: FVal = self.forward_eval(scrut, scope, stack)?;
                let (branches, closed) = self.trace_arms(arms, arms.len(), &v, scope, stack)?;
                self.emit_join(&branches, !closed)
            },
            _ => Err(
                fill1(
                    "grad: unsupported expression in `f` on the native backend: {}",
                    describe(e),
                ),
            ),
        }
    }

    /// Trace `e`, requiring it to be a scalar (a tape node id).
    fn trace_scalar(&mut self, e: &Expr, scope: &Scope, stack: &Vec<String>) -> (r: Result<
        String,
        String,
    >)
        requires
            stack@.len() <= MAX_INLINE_DEPTH,
        ensures
            final(self).items == old(self).items,
            final(self).wide == old(self).wide,
            sv(r, final(self)@) == traced_scalar(
                expr_view(*e),
                scope_view(scope@),
                views(stack@),
                old(self)@,
                old(self).cx(),
            ),
        decreases MAX_INLINE_DEPTH - stack@.len(), e, 2nat,
    {
        let v: TVal = match self.captured_name(e, scope) {
            Some(name) => self.capture(name, false)?,
            None => self.trace(e, scope, stack)?,
        };
        match v {
            TVal::Scalar(s) => Ok(s),
            TVal::Vector(_) => Err(
                "grad: expected a Float (scalar) but got a Vector in `f` on the native backend".to_owned(),
            ),
            _ => Err(
                "grad: a concrete Int/Bool (e.g. from `vec_len`) cannot be used as a differentiated Float in `f` on the native backend".to_owned(),
            ),
        }
    }

    /// Trace `e`, requiring it to be a traced Vector.
    fn trace_vec(&mut self, e: &Expr, scope: &Scope, stack: &Vec<String>) -> (r: Result<
        String,
        String,
    >)
        requires
            stack@.len() <= MAX_INLINE_DEPTH,
        ensures
            final(self).items == old(self).items,
            final(self).wide == old(self).wide,
            sv(r, final(self)@) == traced_vec(
                expr_view(*e),
                scope_view(scope@),
                views(stack@),
                old(self)@,
                old(self).cx(),
            ),
        decreases MAX_INLINE_DEPTH - stack@.len(), e, 2nat,
    {
        let v: TVal = match self.captured_name(e, scope) {
            Some(name) => self.capture(name, true)?,
            None => self.trace(e, scope, stack)?,
        };
        match v {
            TVal::Vector(s) => Ok(s),
            TVal::Scalar(_) => Err(
                "grad: expected a Vector but got a Float (scalar) in `f` on the native backend".to_owned(),
            ),
            _ => Err(
                "grad: expected a Vector but got a concrete Int/Bool in `f` on the native backend".to_owned(),
            ),
        }
    }

    /// Trace a call argument whose demanded kind is not known: a bare captured
    /// variable is bound with the kind that is already known, if one is.
    fn trace_arg(&mut self, e: &Expr, scope: &Scope, stack: &Vec<String>) -> (r: Result<
        TVal,
        String,
    >)
        requires
            stack@.len() <= MAX_INLINE_DEPTH,
        ensures
            final(self).items == old(self).items,
            final(self).wide == old(self).wide,
            tv(r, final(self)@) == traced_arg(
                expr_view(*e),
                scope_view(scope@),
                views(stack@),
                old(self)@,
                old(self).cx(),
            ),
        decreases MAX_INLINE_DEPTH - stack@.len(), e, 2nat,
    {
        if let Some(name) = self.captured_name(e, scope) {
            if let Some(i) = self.find_capture(name) {
                let vector: bool = self.caps[i].vector;
                return self.capture(name, vector);
            }
        }
        self.trace(e, scope, stack)
    }

    fn put_binary(&mut self, op: BinOp, a: &str, b: &str, t: String) -> (r: Result<TVal, String>)
        ensures
            final(self).items == old(self).items,
            final(self).wide == old(self).wide,
            tv(r, final(self)@) == binary_code(op, a@, b@, t@, old(self)@),
    {
        let av: String = fill1("aria_tape_value(&$tp, {})", a);
        let bv: String = fill1("aria_tape_value(&$tp, {})", b);
        match op {
            BinOp::Add => put5(
                &mut self.body,
                "    int64_t {} = aria_tape_binary(&$tp, {}, {}, {} + {}, 1.0, 1.0);\n",
                t.as_str(),
                a,
                b,
                av.as_str(),
                bv.as_str(),
            ),
            BinOp::Sub => put5(
                &mut self.body,
                "    int64_t {} = aria_tape_binary(&$tp, {}, {}, {} - {}, 1.0, -1.0);\n",
                t.as_str(),
                a,
                b,
                av.as_str(),
                bv.as_str(),
            ),
            BinOp::Mul => put7(
                &mut self.body,
                "    int64_t {} = aria_tape_binary(&$tp, {}, {}, {} * {}, {}, {});\n",
                t.as_str(),
                a,
                b,
                av.as_str(),
                bv.as_str(),
                bv.as_str(),
                av.as_str(),
            ),
            BinOp::Div => {
                put1(
                    &mut self.body,
                    "    if ({} == 0.0) aria_trap_msg(\"grad: division by zero in a differentiated value\");\n",
                    bv.as_str(),
                );
                put5(
                    &mut self.body,
                    "    int64_t {} = aria_tape_binary(&$tp, {}, {}, {} / {}, ",
                    t.as_str(),
                    a,
                    b,
                    av.as_str(),
                    bv.as_str(),
                );
                put4(
                    &mut self.body,
                    "1.0 / ({}), -({}) / (({}) * ({})));\n",
                    bv.as_str(),
                    av.as_str(),
                    bv.as_str(),
                    bv.as_str(),
                );
            },
            _ => return Err(
                fill1(
                    "grad: operator `{}` is not differentiable in `f` on the native backend (only + - * / and unary -)",
                    name_of(op),
                ),
            ),
        }
        Ok(TVal::Scalar(t))
    }

    /// Trace the first `n` statements of a block: the scope after them.
    fn trace_stmts(&mut self, ss: &Vec<Stmt>, n: usize, scope: &Scope, stack: &Vec<String>) -> (r:
        Result<Scope, String>)
        requires
            n <= ss@.len(),
            stack@.len() <= MAX_INLINE_DEPTH,
        ensures
            final(self).items == old(self).items,
            final(self).wide == old(self).wide,
            cv(r, final(self)@) == traced_stmts(
                stmts_view(ss@, ss@.len()),
                n as nat,
                scope_view(scope@),
                views(stack@),
                old(self)@,
                old(self).cx(),
            ),
        decreases MAX_INLINE_DEPTH - stack@.len(), ss@, n,
    {
        proof {
            lemma_stmts_view(ss@, ss@.len());
        }
        if n == 0 {
            return Ok(copy_scope(scope));
        }
        let mut inner: Scope = self.trace_stmts(ss, n - 1, scope, stack)?;
        match &ss[n - 1].kind {
            StmtKind::Let { name, name_span, ann, value } => {
                let v: TVal = self.trace(value, &inner, stack)?;
                bind(&mut inner, name.as_str(), v);
            },
            StmtKind::Expr(ex) => {
                let _ = self.trace(ex, &inner, stack)?;
            },
        }
        Ok(inner)
    }

    /// Trace `e` into a fresh buffer, which is returned with the value. Temporaries
    /// still draw from the shared counter, so names stay unique across branches.
    fn sub_trace(&mut self, e: &Expr, scope: &Scope, stack: &Vec<String>) -> (r: Result<
        (String, TVal),
        String,
    >)
        requires
            stack@.len() <= MAX_INLINE_DEPTH,
        ensures
            final(self).items == old(self).items,
            final(self).wide == old(self).wide,
            match traced(
                expr_view(*e),
                scope_view(scope@),
                views(stack@),
                TrSt { body: Seq::empty(), ..old(self)@ },
                old(self).cx(),
            ) {
                Ok((v, s)) => r is Ok && r->Ok_0.0@ == s.body && r->Ok_0.1@ == v && final(self)@
                    == (TrSt { body: old(self)@.body, ..s }),
                Err(m) => r is Err && r->Err_0@ == m,
            },
        decreases MAX_INLINE_DEPTH - stack@.len(), e, 2nat,
    {
        let mut buffer: String = String::new();
        assert(buffer@ =~= Seq::<char>::empty());
        core::mem::swap(&mut self.body, &mut buffer);
        let v: TVal = self.trace(e, scope, stack)?;
        core::mem::swap(&mut self.body, &mut buffer);
        Ok((buffer, v))
    }

    /// Bind a concrete forward value to a fresh local.
    fn bind_value(&mut self, v: &FVal) -> (r: Result<TVal, String>)
        ensures
            final(self).items == old(self).items,
            final(self).wide == old(self).wide,
            tv(r, final(self)@) == bind_code(v@, old(self)@),
    {
        let t: String = self.fresh()?;
        match v {
            FVal::Int(x) => {
                put2(&mut self.body, "    int64_t {} = {};\n", t.as_str(), x.as_str());
                Ok(TVal::Int(t))
            },
            FVal::Bool(x) => {
                put2(&mut self.body, "    int {} = {};\n", t.as_str(), x.as_str());
                Ok(TVal::Bool(t))
            },
            FVal::Float(x) => {
                put2(
                    &mut self.body,
                    "    int64_t {} = aria_tape_leaf(&$tp, {});\n",
                    t.as_str(),
                    x.as_str(),
                );
                Ok(TVal::Scalar(t))
            },
        }
    }

    /// Trace the first `n` arms of a `match` on a concrete scalar scrutinee, each
    /// into a buffer of its own. Arms after an irrefutable one are refused, so that
    /// no branch is dropped in silence.
    fn trace_arms(
        &mut self,
        arms: &Vec<Arm>,
        n: usize,
        v: &FVal,
        scope: &Scope,
        stack: &Vec<String>,
    ) -> (r: Result<(Vec<Branch>, bool), String>)
        requires
            n <= arms@.len(),
            stack@.len() <= MAX_INLINE_DEPTH,
        ensures
            final(self).items == old(self).items,
            final(self).wide == old(self).wide,
            match traced_arms(
                arms_view(arms@, arms@.len()),
                n as nat,
                v@,
                scope_view(scope@),
                views(stack@),
                old(self)@,
                old(self).cx(),
            ) {
                Ok((bs, closed, s)) => r is Ok && branch_views(r->Ok_0.0@) == bs && r->Ok_0.1
                    == closed && final(self)@ == s,
                Err(m) => r is Err && r->Err_0@ == m,
            },
        decreases MAX_INLINE_DEPTH - stack@.len(), arms@, n,
    {
        proof {
            lemma_arms_view(arms@, arms@.len());
        }
        if n == 0 {
            let none: Vec<Branch> = Vec::new();
            assert(branch_views(none@) =~= Seq::<BranchV>::empty());
            return Ok((none, false));
        }
        let (mut branches, closed) = self.trace_arms(arms, n - 1, v, scope, stack)?;
        if closed {
            return Err(
                "grad: `match` inside `f` has arm(s) after an irrefutable pattern on the native backend".to_owned(),
            );
        }
        let arm: &Arm = &arms[n - 1];
        let ghost before = branches@;
        match &arm.pat.kind {
            PatternKind::Var(name) => {
                let mut buffer: String = String::new();
                assert(buffer@ =~= Seq::<char>::empty());
                core::mem::swap(&mut self.body, &mut buffer);
                let bound: TVal = self.bind_value(v)?;
                let mut inner: Scope = copy_scope(scope);
                bind(&mut inner, name.as_str(), bound);
                let value: TVal = self.trace(&arm.body, &inner, stack)?;
                core::mem::swap(&mut self.body, &mut buffer);
                let b = Branch { guard: "else".to_owned(), body: buffer, value };
                branches.push(b);
                assert(branch_views(branches@) =~= branch_views(before).push(b@));
                Ok((branches, true))
            },
            _ => {
                let guard: String = guard_of(&arm.pat, v)?;
                let (body, value) = self.sub_trace(&arm.body, scope, stack)?;
                let b = Branch { guard, body, value };
                branches.push(b);
                assert(branch_views(branches@) =~= branch_views(before).push(b@));
                let wild: bool = match &arm.pat.kind {
                    PatternKind::Wild => true,
                    _ => false,
                };
                Ok((branches, wild))
            },
        }
    }

    /// Emit a C if/else chain over traced branches, each of which assigns its value
    /// to one shared result local. All branches must produce the same kind. With
    /// `trap`, a final `else` traps at run time.
    fn emit_join(&mut self, branches: &Vec<Branch>, trap: bool) -> (r: Result<TVal, String>)
        requires
            branches@.len() > 0,
        ensures
            final(self).items == old(self).items,
            final(self).wide == old(self).wide,
            tv(r, final(self)@) == join_code(branch_views(branches@), trap, old(self)@),
    {
        let ghost bs = branch_views(branches@);
        let vector: bool = common_kind(branches)?;
        let res: String = self.fresh()?;
        if vector {
            put1(&mut self.body, "    AriaTVec {};\n", res.as_str());
        } else {
            put1(&mut self.body, "    int64_t {};\n", res.as_str());
        }
        let ghost st = self@;
        let mut i: usize = 0;
        while i < branches.len()
            invariant
                i <= branches@.len(),
                bs == branch_views(branches@),
                self.items == old(self).items,
                self.wide == old(self).wide,
                self@ == branches_code(res@, bs, i as nat, st),
            decreases branches@.len() - i,
        {
            let b: &Branch = &branches[i];
            assert(bs[i as int] == b@);
            let lone: bool = str_eq(b.guard.as_str(), "else");
            if i == 0 && lone {
                self.body.append("    {\n");
            } else if i == 0 {
                put1(&mut self.body, "    {} {\n", b.guard.as_str());
            } else if lone {
                self.body.append("    else {\n");
            } else {
                put1(&mut self.body, "    else {} {\n", b.guard.as_str());
            }
            self.body.append(b.body.as_str());
            put2(&mut self.body, "        {} = {};\n", res.as_str(), b.value.local());
            self.body.append("    }\n");
            i = i + 1;
        }
        if trap {
            self.body.append(
                "    else { aria_trap_msg(\"grad: no matching `match` arm (non-exhaustive)\"); }\n",
            );
        }
        if vector {
            Ok(TVal::Vector(res))
        } else {
            Ok(TVal::Scalar(res))
        }
    }

    /// Trace a call: a vector builtin, or a user function, which is inlined.
    fn trace_call(&mut self, name: &str, args: &Vec<Expr>, scope: &Scope, stack: &Vec<String>) -> (r:
        Result<TVal, String>)
        requires
            stack@.len() <= MAX_INLINE_DEPTH,
        ensures
            final(self).items == old(self).items,
            final(self).wide == old(self).wide,
            tv(r, final(self)@) == traced_call(
                name@,
                exprs_view(args@, args@.len()),
                scope_view(scope@),
                views(stack@),
                old(self)@,
                old(self).cx(),
            ),
        decreases MAX_INLINE_DEPTH - stack@.len(), args@, args@.len() + 1, 1nat,
    {
        proof {
            lemma_exprs_view(args@, args@.len());
        }
        if str_eq(name, "vec_get") {
            if args.len() != 2 {
                return Err("grad: vec_get expects (Vector, Int)".to_owned());
            }
            let v: String = self.trace_vec(&args[0], scope, stack)?;
            let idx: i64 = match eval_const_int(&args[1]) {
                Some(i) => i,
                None => return Err(
                    "grad: vec_get index must be a constant Int in `f` on the native backend".to_owned(),
                ),
            };
            let idx: String = i64_text(idx);
            let t: String = self.fresh()?;
            put3(
                &mut self.body,
                "    if ({} < 0 || {} >= {}.len) aria_trap_msg(\"vector index out of range\");\n",
                idx.as_str(),
                idx.as_str(),
                v.as_str(),
            );
            put5(
                &mut self.body,
                "    int64_t {} = aria_tape_unary(&$tp, {}.ids[{}], aria_tape_value(&$tp, {}.ids[{}]), 1.0);\n",
                t.as_str(),
                v.as_str(),
                idx.as_str(),
                v.as_str(),
                idx.as_str(),
            );
            Ok(TVal::Scalar(t))
        } else if str_eq(name, "vec_dot") {
            if args.len() != 2 {
                return Err("grad: vec_dot expects (Vector, Vector)".to_owned());
            }
            let a: String = self.trace_vec(&args[0], scope, stack)?;
            let b: String = self.trace_vec(&args[1], scope, stack)?;
            let t: String = self.fresh()?;
            put3(
                &mut self.body,
                "    int64_t {} = aria_trace_dot(&$tp, &{}, &{});\n",
                t.as_str(),
                a.as_str(),
                b.as_str(),
            );
            Ok(TVal::Scalar(t))
        } else if str_eq(name, "vec_norm") {
            if args.len() != 1 {
                return Err("grad: vec_norm expects (Vector)".to_owned());
            }
            let a: String = self.trace_vec(&args[0], scope, stack)?;
            let t: String = self.fresh()?;
            put2(
                &mut self.body,
                "    int64_t {} = aria_trace_norm(&$tp, &{});\n",
                t.as_str(),
                a.as_str(),
            );
            Ok(TVal::Scalar(t))
        } else if str_eq(name, "vec_add") || str_eq(name, "vec_sub") {
            if args.len() != 2 {
                return Err(fill1("grad: {} expects (Vector, Vector)", name));
            }
            let a: String = self.trace_vec(&args[0], scope, stack)?;
            let b: String = self.trace_vec(&args[1], scope, stack)?;
            let t: String = self.fresh()?;
            self.put_zip(str_eq(name, "vec_sub"), a.as_str(), b.as_str(), t.as_str());
            Ok(TVal::Vector(t))
        } else if str_eq(name, "vec_scale") {
            if args.len() != 2 {
                return Err("grad: vec_scale expects (Vector, Float)".to_owned());
            }
            let a: String = self.trace_vec(&args[0], scope, stack)?;
            let s: String = self.trace_scalar(&args[1], scope, stack)?;
            let t: String = self.fresh()?;
            self.put_scale(a.as_str(), s.as_str(), t.as_str());
            Ok(TVal::Vector(t))
        } else if str_eq(name, "vec_from_array") {
            if args.len() != 1 {
                return Err("grad: vec_from_array expects (Array[Float])".to_owned());
            }
            let elems: &Vec<Expr> = match array_literal_elems(&args[0]) {
                Some(v) => v,
                None => return Err(
                    "grad: vec_from_array in `f` requires an inline array literal `[..]` on the native backend".to_owned(),
                ),
            };
            proof {
                lemma_exprs_view(elems@, elems@.len());
            }
            let ids: Vec<String> = self.trace_scalars(elems, elems.len(), scope, stack)?;
            let t: String = self.fresh()?;
            self.put_literal(&ids, t.as_str());
            Ok(TVal::Vector(t))
        } else if str_eq(name, "vec_push") {
            if args.len() != 2 {
                return Err("grad: vec_push expects (Vector, Float)".to_owned());
            }
            let v: String = self.trace_vec(&args[0], scope, stack)?;
            let x: String = self.trace_scalar(&args[1], scope, stack)?;
            let t: String = self.fresh()?;
            self.put_push(v.as_str(), x.as_str(), t.as_str());
            Ok(TVal::Vector(t))
        } else if str_eq(name, "vec_len") {
            if args.len() != 1 {
                return Err("grad: vec_len expects (Vector)".to_owned());
            }
            let v: String = self.trace_vec(&args[0], scope, stack)?;
            let t: String = self.fresh()?;
            put2(&mut self.body, "    int64_t {} = {}.len;\n", t.as_str(), v.as_str());
            Ok(TVal::Int(t))
        } else {
            self.trace_inline_call(name, args, scope, stack)
        }
    }

    /// Inline a call of a user function: trace each argument in the caller's scope,
    /// left to right, bind the parameters to the values, and trace the body in that
    /// scope. Recursion cannot be inlined into a finite trace and is refused.
    fn trace_inline_call(
        &mut self,
        name: &str,
        args: &Vec<Expr>,
        scope: &Scope,
        stack: &Vec<String>,
    ) -> (r: Result<TVal, String>)
        requires
            stack@.len() <= MAX_INLINE_DEPTH,
            !traced_builtin(name@),
        ensures
            final(self).items == old(self).items,
            final(self).wide == old(self).wide,
            tv(r, final(self)@) == traced_call(
                name@,
                exprs_view(args@, args@.len()),
                scope_view(scope@),
                views(stack@),
                old(self)@,
                old(self).cx(),
            ),
        decreases MAX_INLINE_DEPTH - stack@.len(), args@, args@.len() + 1, 0nat,
    {
        let f: &FnDecl = match find_fn(self.items, name) {
            Some(f) => f,
            None => return Err(
                fill1(
                    "grad: unsupported operation `{}` inside `f` on the native backend",
                    name,
                ),
            ),
        };
        proof {
            lemma_exprs_view(args@, args@.len());
            lemma_has_name(stack@, name@);
        }
        if contains_name(stack, name) {
            return Err(
                fill1(
                    "grad: `f` (transitively) calls the recursive function `{}` — recursion inside `f` cannot be inlined on the native backend; use the interpreter `aria run`",
                    name,
                ),
            );
        }
        if stack.len() >= MAX_INLINE_DEPTH {
            let depth: String = usize_text(MAX_INLINE_DEPTH);
            return Err(
                fill2(
                    "grad: inlining inside `f` exceeded depth {} at `{}` on the native backend; use the interpreter `aria run`",
                    depth.as_str(),
                    name,
                ),
            );
        }
        if f.params.len() != args.len() {
            let given: String = usize_text(args.len());
            let taken: String = usize_text(f.params.len());
            return Err(
                fill4(
                    "grad: call to `{}` inside `f` has {} argument(s) but `{}` takes {}",
                    name,
                    given.as_str(),
                    name,
                    taken.as_str(),
                ),
            );
        }
        let values: Vec<TVal> = self.trace_args(args, args.len(), scope, stack)?;
        let mut inner: Scope = Vec::new();
        let ghost bound = Seq::new(
            values@.len(),
            |i: int| (f.params@[i].name@, value_views(values@)[i]),
        );
        let mut i: usize = 0;
        while i < values.len()
            invariant
                i <= values@.len(),
                values@.len() == f.params@.len(),
                inner@.len() == i,
                forall|j: int|
                    0 <= j < i ==> (#[trigger] inner@[j]).0@ == f.params@[j].name@ && inner@[j].1@
                        == values@[j]@,
            decreases values@.len() - i,
        {
            inner.push((f.params[i].name.clone(), values[i].copy()));
            i = i + 1;
        }
        let mut deeper: Vec<String> = copy_stack(stack);
        let ghost before = deeper@;
        deeper.push(name.to_owned());
        proof {
            assert(views(deeper@) =~= views(stack@).push(name@));
            assert(views(before).len() == stack@.len());
            assert(scope_view(inner@) =~= bound);
        }
        self.trace(&f.body, &inner, &deeper)
    }

    fn trace_args(&mut self, es: &Vec<Expr>, n: usize, scope: &Scope, stack: &Vec<String>) -> (r:
        Result<Vec<TVal>, String>)
        requires
            n <= es@.len(),
            stack@.len() <= MAX_INLINE_DEPTH,
        ensures
            final(self).items == old(self).items,
            final(self).wide == old(self).wide,
            match traced_args(
                exprs_view(es@, es@.len()),
                n as nat,
                scope_view(scope@),
                views(stack@),
                old(self)@,
                old(self).cx(),
            ) {
                Ok((vs, s)) => r is Ok && value_views(r->Ok_0@) == vs && r->Ok_0@.len() == n
                    && final(self)@ == s,
                Err(m) => r is Err && r->Err_0@ == m,
            },
        decreases MAX_INLINE_DEPTH - stack@.len(), es@, n,
    {
        proof {
            lemma_exprs_view(es@, es@.len());
        }
        if n == 0 {
            let none: Vec<TVal> = Vec::new();
            assert(value_views(none@) =~= Seq::<TValV>::empty());
            return Ok(none);
        }
        let mut vs: Vec<TVal> = self.trace_args(es, n - 1, scope, stack)?;
        let v: TVal = self.trace_arg(&es[n - 1], scope, stack)?;
        let ghost before = vs@;
        vs.push(v);
        assert(value_views(vs@) =~= value_views(before).push(v@));
        Ok(vs)
    }

    fn trace_scalars(&mut self, es: &Vec<Expr>, n: usize, scope: &Scope, stack: &Vec<String>) -> (r:
        Result<Vec<String>, String>)
        requires
            n <= es@.len(),
            stack@.len() <= MAX_INLINE_DEPTH,
        ensures
            final(self).items == old(self).items,
            final(self).wide == old(self).wide,
            match traced_scalars(
                exprs_view(es@, es@.len()),
                n as nat,
                scope_view(scope@),
                views(stack@),
                old(self)@,
                old(self).cx(),
            ) {
                Ok((ids, s)) => r is Ok && views(r->Ok_0@) == ids && final(self)@ == s,
                Err(m) => r is Err && r->Err_0@ == m,
            },
        decreases MAX_INLINE_DEPTH - stack@.len(), es@, n,
    {
        proof {
            lemma_exprs_view(es@, es@.len());
        }
        if n == 0 {
            let none: Vec<String> = Vec::new();
            assert(views(none@) =~= Seq::<Seq<char>>::empty());
            return Ok(none);
        }
        let mut ids: Vec<String> = self.trace_scalars(es, n - 1, scope, stack)?;
        let id: String = self.trace_scalar(&es[n - 1], scope, stack)?;
        let ghost before = ids@;
        ids.push(id);
        assert(views(ids@) =~= views(before).push(id@));
        Ok(ids)
    }

    fn put_zip(&mut self, minus: bool, a: &str, b: &str, t: &str)
        ensures
            final(self).items == old(self).items,
            final(self).wide == old(self).wide,
            (TValV::Vector(t@), final(self)@) == zip_code(minus, a@, b@, t@, old(self)@),
    {
        let value: &str = if minus {
            "av - bv"
        } else {
            "av + bv"
        };
        let partial: &str = if minus {
            "-1.0"
        } else {
            "1.0"
        };
        put2(&mut self.body, "    AriaTVec {} = aria_tvec_alloc({}.len);\n", t, a);
        put2(
            &mut self.body,
            "    if ({}.len != {}.len) aria_trap_msg(\"vector length mismatch\");\n",
            a,
            b,
        );
        put3(
            &mut self.body,
            "    for (int64_t $j = 0; $j < {}.len; $j++) { double av = aria_tape_value(&$tp, {}.ids[$j]), bv = aria_tape_value(&$tp, {}.ids[$j]); ",
            a,
            a,
            b,
        );
        put5(
            &mut self.body,
            "{}.ids[$j] = aria_tape_binary(&$tp, {}.ids[$j], {}.ids[$j], {}, 1.0, {}); }\n",
            t,
            a,
            b,
            value,
            partial,
        );
    }

    fn put_scale(&mut self, a: &str, s: &str, t: &str)
        ensures
            final(self).items == old(self).items,
            final(self).wide == old(self).wide,
            (TValV::Vector(t@), final(self)@) == scale_code(a@, s@, t@, old(self)@),
    {
        put2(&mut self.body, "    AriaTVec {} = aria_tvec_alloc({}.len);\n", t, a);
        put3(
            &mut self.body,
            "    for (int64_t $j = 0; $j < {}.len; $j++) { double av = aria_tape_value(&$tp, {}.ids[$j]), sv = aria_tape_value(&$tp, {}); ",
            a,
            a,
            s,
        );
        put3(
            &mut self.body,
            "{}.ids[$j] = aria_tape_binary(&$tp, {}.ids[$j], {}, sv * av, sv, av); }\n",
            t,
            a,
            s,
        );
    }

    fn put_literal(&mut self, ids: &Vec<String>, t: &str)
        ensures
            final(self).items == old(self).items,
            final(self).wide == old(self).wide,
            (TValV::Vector(t@), final(self)@) == literal_code(views(ids@), t@, old(self)@),
    {
        let count: String = usize_text(ids.len());
        put2(&mut self.body, "    AriaTVec {} = aria_tvec_alloc({});\n", t, count.as_str());
        let ghost st = self@;
        let mut i: usize = 0;
        while i < ids.len()
            invariant
                i <= ids@.len(),
                self.items == old(self).items,
                self.wide == old(self).wide,
                self@ == ids_code(t@, views(ids@), i as nat, st),
            decreases ids@.len() - i,
        {
            let at: String = usize_text(i);
            put3(&mut self.body, "    {}.ids[{}] = {};\n", t, at.as_str(), ids[i].as_str());
            i = i + 1;
        }
    }

    fn put_push(&mut self, v: &str, x: &str, t: &str)
        ensures
            final(self).items == old(self).items,
            final(self).wide == old(self).wide,
            (TValV::Vector(t@), final(self)@) == push_code(v@, x@, t@, old(self)@),
    {
        put2(&mut self.body, "    AriaTVec {} = aria_tvec_alloc({}.len + 1);\n", t, v);
        put3(
            &mut self.body,
            "    for (int64_t $j = 0; $j < {}.len; $j++) {}.ids[$j] = {}.ids[$j];\n",
            v,
            t,
            v,
        );
        put3(&mut self.body, "    {}.ids[{}.len] = {};\n", t, v, x);
    }

    /// Evaluate a non-differentiated expression to a concrete C value. It records
    /// nothing on the tape; a differentiated subexpression is refused, but for the
    /// length of a vector that a variable holds.
    #[verifier::rlimit(50)]
    fn forward_eval(&mut self, e: &Expr, scope: &Scope, stack: &Vec<String>) -> (r: Result<
        FVal,
        String,
    >)
        requires
            stack@.len() <= MAX_INLINE_DEPTH,
        ensures
            final(self).items == old(self).items,
            final(self).wide == old(self).wide,
            fv(r, final(self)@) == concrete(
                expr_view(*e),
                scope_view(scope@),
                views(stack@),
                old(self)@,
                old(self).cx(),
            ),
        decreases MAX_INLINE_DEPTH - stack@.len(), e, 1nat,
    {
        match &e.kind {
            ExprKind::Int(n) => {
                let n: String = i64_text(*n);
                Ok(FVal::Int(fill1("(int64_t){}", n.as_str())))
            },
            ExprKind::Bool(b) => {
                let text: &str = if *b {
                    "1"
                } else {
                    "0"
                };
                Ok(FVal::Bool(text.to_owned()))
            },
            ExprKind::Float(f) => Ok(FVal::Float(fmt_f64(f))),
            ExprKind::Var(name) => self.forward_var(name.as_str(), scope),
            ExprKind::Unary(UnOp::Neg, inner) => match self.forward_eval(inner, scope, stack)? {
                FVal::Int(s) => Ok(FVal::Int(fill1("(-({}))", s.as_str()))),
                FVal::Float(s) => Ok(FVal::Float(fill1("(-({}))", s.as_str()))),
                FVal::Bool(_) => Err(
                    "grad: cannot negate a Bool in a condition inside `f`".to_owned(),
                ),
            },
            ExprKind::Unary(UnOp::Not, inner) => match self.forward_eval(inner, scope, stack)? {
                FVal::Bool(s) => Ok(FVal::Bool(fill1("(!({}))", s.as_str()))),
                _ => Err("grad: `!` expects a Bool in a condition inside `f`".to_owned()),
            },
            ExprKind::Binary(op, l, r) => {
                let a: FVal = self.forward_eval(l, scope, stack)?;
                let b: FVal = self.forward_eval(r, scope, stack)?;
                self.forward_binary(*op, &a, &b)
            },
            ExprKind::Call(name, args) => {
                proof {
                    lemma_exprs_view(args@, args@.len());
                }
                if str_eq(name.as_str(), "vec_len") {
                    if args.len() != 1 {
                        return Err("grad: vec_len expects (Vector)".to_owned());
                    }
                    match &args[0].kind {
                        ExprKind::Var(_) => {
                            let v: String = self.trace_vec(&args[0], scope, stack)?;
                            Ok(FVal::Int(fill1("{}.len", v.as_str())))
                        },
                        _ => Err(UNSUPPORTED_CONDITION.to_owned()),
                    }
                } else {
                    Err(UNSUPPORTED_CONDITION.to_owned())
                }
            },
            ExprKind::Block(stmts, last) => {
                proof {
                    lemma_stmts_view(stmts@, stmts@.len());
                }
                let inner: Scope = self.forward_stmts(stmts, stmts.len(), scope, stack)?;
                self.forward_eval(last, &inner, stack)
            },
            _ => Err(UNSUPPORTED_CONDITION.to_owned()),
        }
    }

    /// A variable in a condition: a concrete local, or a captured scalar, which is
    /// read as a `double`.
    fn forward_var(&mut self, name: &str, scope: &Scope) -> (r: Result<FVal, String>)
        ensures
            final(self).items == old(self).items,
            final(self).wide == old(self).wide,
            fv(r, final(self)@) == concrete_var(
                name@,
                scope_view(scope@),
                old(self)@,
                old(self).cx(),
            ),
    {
        match find_local(scope, name) {
            Some(TVal::Int(s)) => Ok(FVal::Int(s.clone())),
            Some(TVal::Bool(s)) => Ok(FVal::Bool(s.clone())),
            Some(_) => Err(
                fill1(
                    "grad: the differentiated value `{}` cannot be used in an `if`/`match` condition inside `f` (the branch must not depend on a value being differentiated) on the native backend",
                    name,
                ),
            ),
            None => {
                if find_fn(self.items, name).is_some() {
                    return Err(
                        fill1(
                            "grad: `f` references the function `{}` in a condition — not supported on the native backend",
                            name,
                        ),
                    );
                }
                let cparam: String = fill1("$cap_{}", name);
                match self.find_capture(name) {
                    Some(i) => {
                        if self.caps[i].vector {
                            Err(
                                fill2(
                                    "grad: captured Vector `{}` cannot be used directly in an `if`/`match` condition inside `f` on the native backend (use `vec_len({})`)",
                                    name,
                                    name,
                                ),
                            )
                        } else {
                            Ok(FVal::Float(cparam))
                        }
                    },
                    None => {
                        let none: String = String::new();
                        assert(none@ =~= Seq::<char>::empty());
                        self.add_capture(name, false, none);
                        Ok(FVal::Float(cparam))
                    },
                }
            },
        }
    }

    /// A concrete binary operation on concrete operands. Comparisons yield a Bool;
    /// arithmetic preserves Int or Float; logic requires Bools.
    fn forward_binary(&mut self, op: BinOp, a: &FVal, b: &FVal) -> (r: Result<FVal, String>)
        ensures
            final(self).items == old(self).items,
            final(self).wide == old(self).wide,
            fv(r, final(self)@) == concrete_binary(op, a@, b@, old(self)@),
    {
        let logic: bool = match op {
            BinOp::And | BinOp::Or => true,
            _ => false,
        };
        if logic {
            return match (a, b) {
                (FVal::Bool(x), FVal::Bool(y)) => Ok(
                    FVal::Bool(infix_text(x.as_str(), op, y.as_str())),
                ),
                _ => Err("grad: `&&`/`||` expect Bools in a condition inside `f`".to_owned()),
            };
        }
        match (a, b) {
            (FVal::Int(x), FVal::Int(y)) => {
                let divides: bool = match op {
                    BinOp::Div | BinOp::Mod => true,
                    _ => false,
                };
                if divides {
                    put1(
                        &mut self.body,
                        "    if (({}) == 0) aria_trap_msg(\"grad: division by zero in a condition\");\n",
                        y.as_str(),
                    );
                }
                let text: String = infix_text(x.as_str(), op, y.as_str());
                if is_comparison(op) {
                    Ok(FVal::Bool(text))
                } else {
                    Ok(FVal::Int(text))
                }
            },
            (FVal::Bool(x), FVal::Bool(y)) => match op {
                BinOp::Eq | BinOp::Ne => Ok(FVal::Bool(infix_text(x.as_str(), op, y.as_str()))),
                _ => Err(MISMATCHED_OPERANDS.to_owned()),
            },
            (FVal::Bool(_), _) => Err(MISMATCHED_OPERANDS.to_owned()),
            (_, FVal::Bool(_)) => Err(MISMATCHED_OPERANDS.to_owned()),
            _ => {
                if op == BinOp::Mod {
                    return Err(
                        "grad: `%` is not defined on Floats in a condition inside `f`".to_owned(),
                    );
                }
                let x: String = fval_as_double(a);
                let y: String = fval_as_double(b);
                let text: String = infix_text(x.as_str(), op, y.as_str());
                if is_comparison(op) {
                    Ok(FVal::Bool(text))
                } else {
                    Ok(FVal::Float(text))
                }
            },
        }
    }

    /// Evaluate the first `n` statements of a condition: concrete `let`s only.
    fn forward_stmts(&mut self, ss: &Vec<Stmt>, n: usize, scope: &Scope, stack: &Vec<String>) -> (r:
        Result<Scope, String>)
        requires
            n <= ss@.len(),
            stack@.len() <= MAX_INLINE_DEPTH,
        ensures
            final(self).items == old(self).items,
            final(self).wide == old(self).wide,
            cv(r, final(self)@) == concrete_stmts(
                stmts_view(ss@, ss@.len()),
                n as nat,
                scope_view(scope@),
                views(stack@),
                old(self)@,
                old(self).cx(),
            ),
        decreases MAX_INLINE_DEPTH - stack@.len(), ss@, n,
    {
        proof {
            lemma_stmts_view(ss@, ss@.len());
        }
        if n == 0 {
            return Ok(copy_scope(scope));
        }
        let mut inner: Scope = self.forward_stmts(ss, n - 1, scope, stack)?;
        match &ss[n - 1].kind {
            StmtKind::Let { name, name_span, ann, value } => {
                let v: FVal = self.forward_eval(value, &inner, stack)?;
                let bound: TVal = self.forward_let(&v)?;
                bind(&mut inner, name.as_str(), bound);
                Ok(inner)
            },
            StmtKind::Expr(_) => Err(
                "grad: a statement-expression inside an `if`/`match` condition is not supported on the native backend".to_owned(),
            ),
        }
    }

    fn forward_let(&mut self, v: &FVal) -> (r: Result<TVal, String>)
        ensures
            final(self).items == old(self).items,
            final(self).wide == old(self).wide,
            tv(r, final(self)@) == concrete_let(v@, old(self)@),
    {
        match v {
            FVal::Float(_) => {
                let _ = self.fresh()?;
                Err(
                    "grad: a `let`-bound Float inside an `if`/`match` condition is not supported on the native backend".to_owned(),
                )
            },
            _ => self.bind_value(v),
        }
    }
}

} // verus!
