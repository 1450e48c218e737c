//! The native backend, on lowered functions built by hand.

use aria::ast::{
    BinOp, Expr, ExprKind, FloatLit, FnDecl, Item, Param, Program, Span, Ty, TypeDecl, UnOp,
    Variant,
};
use aria::c_backend::compile;
use aria::c_backend::emit::{emit_builtin, Emitter};
use aria::c_backend::kinds::CType;
use aria::c_backend::mangle::{cfn, cvar};
use aria::ir::{Atom, Bind, IArm, IExpr, IFn, LamSig};
use aria::names::NameMap;

fn num(n: i64) -> Atom {
    Atom::Int(n)
}

fn var(s: &str) -> Atom {
    Atom::Var(s.to_string())
}

fn ret(a: Atom) -> IExpr {
    IExpr::Ret(a)
}

fn bind(name: &str, b: Bind, rest: IExpr) -> IExpr {
    IExpr::Let(name.to_string(), b, Box::new(rest))
}

fn call(f: &str, args: Vec<Atom>) -> Bind {
    Bind::Call(f.to_string(), args)
}

fn drop_of(name: &str, rest: IExpr) -> IExpr {
    IExpr::Drop(name.to_string(), Box::new(rest))
}

fn dup_of(name: &str, rest: IExpr) -> IExpr {
    IExpr::Dup(name.to_string(), Box::new(rest))
}

fn lowered(params: &[&str], body: IExpr) -> IFn {
    IFn {
        params: params.iter().map(|p| p.to_string()).collect(),
        captures: Vec::new(),
        body,
        tail_recursive: false,
        lam_sig: None,
    }
}

fn decl(name: &str, params: &[(&str, Ty)], ret: Ty) -> Item {
    Item::Fn(FnDecl {
        name: name.to_string(),
        line: 1,
        pure: false,
        type_params: Vec::new(),
        bounds: Vec::new(),
        params: params
            .iter()
            .map(|(n, t)| Param { name: n.to_string(), ty: copy(t), span: Span::none() })
            .collect(),
        ret,
        body: Expr::synth(ExprKind::Unit),
    })
}

fn copy(t: &Ty) -> Ty {
    aria::types::clone_ty(t)
}

fn list_type() -> Item {
    Item::Type(TypeDecl {
        name: "List".to_string(),
        params: Vec::new(),
        variants: vec![
            Variant { name: "Nil".to_string(), fields: Vec::new(), field_names: None },
            Variant {
                name: "Cons".to_string(),
                fields: vec![Ty::Int, Ty::Named("List".to_string(), Vec::new())],
                field_names: None,
            },
        ],
    })
}

fn list() -> Ty {
    Ty::Named("List".to_string(), Vec::new())
}

fn built(items: Vec<Item>, fns: Vec<(&str, IFn)>) -> Result<String, String> {
    let mut table = NameMap::new();
    for (n, f) in fns {
        table.insert(n, f);
    }
    compile(&Program { items }, &table)
}

fn factorial_program() -> (Vec<Item>, Vec<(&'static str, IFn)>) {
    let body = bind(
        "c",
        Bind::Prim(BinOp::Eq, var("n"), num(0)),
        bind(
            "r",
            Bind::If(
                var("c"),
                Box::new(ret(num(1))),
                Box::new(bind(
                    "a",
                    Bind::Prim(BinOp::Sub, var("n"), num(1)),
                    bind(
                        "b",
                        call("fact", vec![var("a")]),
                        bind("m", Bind::Prim(BinOp::Mul, var("n"), var("b")), ret(var("m"))),
                    ),
                )),
            ),
            ret(var("r")),
        ),
    );
    let main = bind(
        "x",
        call("fact", vec![num(5)]),
        bind("u", call("print_int", vec![var("x")]), ret(var("x"))),
    );
    (
        vec![decl("fact", &[("n", Ty::Int)], Ty::Int), decl("main", &[], Ty::Int)],
        vec![("fact", lowered(&["n"], body)), ("main", lowered(&[], main))],
    )
}

fn list_program() -> (Vec<Item>, Vec<(&'static str, IFn)>) {
    // Builds n..1, adds one to each in place, and sums, consuming the list.
    let upto = bind(
        "c",
        Bind::Prim(BinOp::Eq, var("n"), num(0)),
        bind(
            "r",
            Bind::If(
                var("c"),
                Box::new(bind("e", Bind::Ctor("Nil".into(), vec![]), ret(var("e")))),
                Box::new(bind(
                    "a",
                    Bind::Prim(BinOp::Sub, var("n"), num(1)),
                    bind(
                        "t",
                        call("upto", vec![var("a")]),
                        bind("l", Bind::Ctor("Cons".into(), vec![var("n"), var("t")]), ret(var("l"))),
                    ),
                )),
            ),
            ret(var("r")),
        ),
    );
    let inc = bind(
        "r",
        Bind::Match(
            var("xs"),
            vec![
                IArm {
                    ctor: Some("Nil".into()),
                    binders: vec![],
                    body: drop_of("xs", bind("e", Bind::Ctor("Nil".into(), vec![]), ret(var("e")))),
                },
                IArm {
                    ctor: Some("Cons".into()),
                    binders: vec!["h".into(), "t".into()],
                    body: dup_of(
                        "t",
                        IExpr::DropReuse(
                            "xs".into(),
                            "tok".into(),
                            Box::new(bind(
                                "h1",
                                Bind::Prim(BinOp::Add, var("h"), num(1)),
                                bind(
                                    "t1",
                                    call("inc", vec![var("t")]),
                                    bind(
                                        "l",
                                        Bind::CtorReuse(
                                            "tok".into(),
                                            "Cons".into(),
                                            vec![var("h1"), var("t1")],
                                        ),
                                        ret(var("l")),
                                    ),
                                ),
                            )),
                        ),
                    ),
                },
            ],
        ),
        ret(var("r")),
    );
    let sum = bind(
        "r",
        Bind::Match(
            var("xs"),
            vec![
                IArm {
                    ctor: Some("Cons".into()),
                    binders: vec!["h".into(), "t".into()],
                    body: dup_of(
                        "t",
                        drop_of(
                            "xs",
                            bind(
                                "s",
                                call("sum", vec![var("t")]),
                                bind("k", Bind::Prim(BinOp::Add, var("h"), var("s")), ret(var("k"))),
                            ),
                        ),
                    ),
                },
                IArm { ctor: None, binders: vec![], body: drop_of("xs", ret(num(0))) },
            ],
        ),
        ret(var("r")),
    );
    let main = bind(
        "l",
        call("upto", vec![num(10)]),
        bind(
            "m",
            call("inc", vec![var("l")]),
            bind("s", call("sum", vec![var("m")]), ret(var("s"))),
        ),
    );
    (
        vec![
            list_type(),
            decl("upto", &[("n", Ty::Int)], list()),
            decl("inc", &[("xs", list())], list()),
            decl("sum", &[("xs", list())], Ty::Int),
            decl("main", &[], Ty::Int),
        ],
        vec![
            ("upto", lowered(&["n"], upto)),
            ("inc", lowered(&["xs"], inc)),
            ("sum", lowered(&["xs"], sum)),
            ("main", lowered(&[], main)),
        ],
    )
}

fn closure_program() -> (Vec<Item>, Vec<(&'static str, IFn)>) {
    let lam = IFn {
        params: vec!["x".into()],
        captures: vec!["k".into()],
        body: bind("y", Bind::Prim(BinOp::Add, var("x"), var("k")), ret(var("y"))),
        tail_recursive: false,
        lam_sig: Some(LamSig {
            param_tys: vec![Ty::Int],
            ret_ty: Ty::Int,
            capture_tys: vec![Ty::Int],
        }),
    };
    let main = bind(
        "f",
        Bind::MakeClosure("lam$0".into(), vec![num(40)]),
        bind("r", Bind::ApplyClosure(var("f"), vec![num(2)], Some(Ty::Int)), ret(var("r"))),
    );
    (
        vec![decl("main", &[], Ty::Int)],
        vec![("lam$0", lam), ("main", lowered(&[], main))],
    )
}

fn text_program() -> (Vec<Item>, Vec<(&'static str, IFn)>) {
    let main = bind(
        "n",
        call("int_to_str", vec![num(7)]),
        bind(
            "s",
            call("concat", vec![Atom::Str("n = \"".into()), var("n")]),
            bind("u", call("print_str", vec![var("s")]), ret(num(0))),
        ),
    );
    (vec![decl("main", &[], Ty::Int)], vec![("main", lowered(&[], main))])
}

fn tail_program() -> (Vec<Item>, Vec<(&'static str, IFn)>) {
    let body = bind(
        "c",
        Bind::Prim(BinOp::Eq, var("n"), num(0)),
        bind(
            "r",
            Bind::If(
                var("c"),
                Box::new(ret(var("acc"))),
                Box::new(bind(
                    "m",
                    Bind::Prim(BinOp::Sub, var("n"), num(1)),
                    bind(
                        "a",
                        Bind::Prim(BinOp::Add, var("acc"), var("n")),
                        IExpr::TailCall(vec![var("m"), var("a")]),
                    ),
                )),
            ),
            ret(var("r")),
        ),
    );
    let main = bind("x", call("go", vec![num(100), num(0)]), ret(var("x")));
    let mut go = lowered(&["n", "acc"], body);
    go.tail_recursive = true;
    (
        vec![decl("go", &[("n", Ty::Int), ("acc", Ty::Int)], Ty::Int), decl("main", &[], Ty::Int)],
        vec![("go", go), ("main", lowered(&[], main))],
    )
}

fn code(program: (Vec<Item>, Vec<(&'static str, IFn)>)) -> String {
    built(program.0, program.1).expect("compiles")
}

/// What `main` compiles to when its body is one chain.
fn main_body(body: IExpr) -> Result<String, String> {
    let c = built(vec![decl("main", &[], Ty::Int)], vec![("main", lowered(&[], body))])?;
    let at = c.find("static int64_t af_main(void) {\n    int64_t aria_ret;\n").expect("main");
    let end = c[at..].find("    aria_ret = ").expect("end") + at;
    let start = at + "static int64_t af_main(void) {\n    int64_t aria_ret;\n".len();
    Ok(c[start..end].to_string())
}

fn one(b: Bind) -> Result<String, String> {
    main_body(bind("x", b, ret(num(0))))
}

fn float(v: f64) -> Atom {
    Atom::Float(FloatLit {
        bits: v.to_bits(),
        shortest: format!("{:?}", v),
        scientific: format!("{:.17e}", v),
    })
}

fn text(s: &str) -> Atom {
    Atom::Str(s.to_string())
}

#[test]
fn factorial_in_c() {
    let c = code(factorial_program());
    assert!(c.starts_with("#include <stdint.h>\n"));
    let tail = "
static int64_t af_fact(int64_t);
static int64_t af_main(void);
static void* __aria_lam_table[] = {0};

static int64_t aria_eq(void* a, void* b) {
    if (aria_tag(a) != aria_tag(b)) return 0;
    return 0;
}

static void aria_drop_children(void* p) {
    int64_t tag = aria_tag(p);
    (void)tag;
}

static int64_t af_fact(int64_t v_n) {
    int64_t aria_ret;
    int64_t v_c;
    v_c = (v_n == INT64_C(0));
    int64_t v_r;
    if (v_c) {
        v_r = INT64_C(1);
    } else {
        int64_t v_a;
        if (__builtin_sub_overflow(v_n, INT64_C(1), &v_a)) aria_trap_msg(\"integer overflow\");
        int64_t v_b;
        v_b = af_fact(v_a);
        int64_t v_m;
        if (__builtin_mul_overflow(v_n, v_b, &v_m)) aria_trap_msg(\"integer overflow\");
        v_r = v_m;
    }
    aria_ret = v_r;
    return aria_ret;
}

static int64_t af_main(void) {
    int64_t aria_ret;
    int64_t v_x;
    v_x = af_fact(INT64_C(5));
    int64_t v_u;
    aria_print_int(v_x);
    v_u = 0;
    aria_ret = v_x;
    return aria_ret;
}

int main(void) {
    int64_t r = af_main();
    printf(\"%lld\\n\", (long long)r);
    fprintf(stderr, \"aria_live=%lld aria_reuses=%lld\\n\", (long long)aria_live, (long long)aria_reuses);
    return 0;
}
";
    assert!(c.ends_with(tail), "{}", c);
}

#[test]
fn lists_match_reuse_and_release() {
    let c = code(list_program());
    let sum = "
static int64_t af_sum(void* v_xs) {
    int64_t aria_ret;
    int64_t v_r;
    void* t_0 = v_xs;
    if (aria_tag(t_0) == INT64_C(1)) {
        int64_t v_h = aria_field(t_0, 0);
        void* v_t = (void*)(uintptr_t)aria_field(t_0, 1);
        aria_dup(v_t);
        aria_drop(v_xs);
        int64_t v_s;
        v_s = af_sum(v_t);
        int64_t v_k;
        if (__builtin_add_overflow(v_h, v_s, &v_k)) aria_trap_msg(\"integer overflow\");
        v_r = v_k;
    } else {
        aria_drop(v_xs);
        v_r = INT64_C(0);
    }
    aria_ret = v_r;
    return aria_ret;
}
";
    assert!(c.contains(sum), "{}", c);
    // A match without a catch-all ends in a trap.
    assert!(c.contains("aria_trap_msg(\"no matching pattern (non-exhaustive match)\");"));
    // The fields are stored by their types.
    assert!(c.contains("aria_field(v_l, 1) = (int64_t)(uintptr_t)(v_t1);"));
}

#[test]
fn closures_dispatch_by_tag() {
    let c = code(closure_program());
    assert!(c.contains("static void* __aria_lam_table[] = {(void*)af_lam_240};\n"));
    let main = "
    void* v_f;
    v_f = aria_alloc(1);
    aria_set_tag(v_f, INT64_C(0));
    aria_field(v_f, 0) = (int64_t)(INT64_C(40));
    int64_t v_r;
    v_r = ((int64_t (*)(void*, int64_t)) __aria_lam_table[(aria_tag(v_f) - INT64_C(0))])((void*)v_f, INT64_C(2));
    aria_drop((void*)v_f);
";
    assert!(c.contains(main), "{}", c);
    let lam = "
static int64_t af_lam_240(void* __aria_clo, int64_t v_x) {
    int64_t v_k = (int64_t)aria_field(__aria_clo, 0);
";
    assert!(c.contains(lam), "{}", c);
    // Behind constructors the closure tags start one past the last of those.
    let (mut items, fns) = closure_program();
    items.push(list_type());
    let c = built(items, fns).unwrap();
    assert!(c.contains("aria_set_tag(v_f, INT64_C(2));"));
    assert!(c.contains("__aria_lam_table[(aria_tag(v_f) - INT64_C(2))]"));
}

#[test]
fn texts_are_pooled() {
    let c = code(text_program());
    assert!(c.contains("static const char aria_lit_0[] = {110,32,61,32,34,0};\n"));
    assert!(c.contains("    v_s = aria_concat(aria_str_lit(aria_lit_0, 5), v_n);\n"));
    // Equal texts share a literal.
    let c = main_body(bind(
        "a",
        Bind::Atom(text("q")),
        bind("b", Bind::Atom(text("q")), bind("c", Bind::Atom(text("é")), ret(num(0)))),
    ))
    .unwrap();
    assert_eq!(
        c,
        "    void* v_a;
    v_a = aria_str_lit(aria_lit_0, 1);
    void* v_b;
    v_b = aria_str_lit(aria_lit_0, 1);
    void* v_c;
    v_c = aria_str_lit(aria_lit_1, 2);
"
    );
}

#[test]
fn tail_calls_loop() {
    let c = code(tail_program());
    let go = "
    aria_loop_top:;
    int64_t v_c;
    v_c = (v_n == INT64_C(0));
    int64_t v_r;
    if (v_c) {
        v_r = v_acc;
    } else {
        int64_t v_m;
        if (__builtin_sub_overflow(v_n, INT64_C(1), &v_m)) aria_trap_msg(\"integer overflow\");
        int64_t v_a;
        if (__builtin_add_overflow(v_acc, v_n, &v_a)) aria_trap_msg(\"integer overflow\");
        int64_t v_t_0 = v_m;
        int64_t v_t_1 = v_a;
        v_n = v_t_0;
        v_acc = v_t_1;
        goto aria_loop_top;
    }
";
    assert!(c.contains(go), "{}", c);
}

#[test]
fn operators_in_c() {
    let prim = |op, a, b| one(Bind::Prim(op, a, b)).unwrap();
    assert_eq!(
        prim(BinOp::Div, num(7), num(2)),
        "    int64_t v_x;
    if (INT64_C(2) == 0 || (INT64_C(7) == INT64_MIN && INT64_C(2) == -1)) aria_trap_msg(\"division by zero or overflow\");
    v_x = INT64_C(7) / INT64_C(2);
"
    );
    assert_eq!(
        prim(BinOp::Lt, num(1), num(2)),
        "    int64_t v_x;\n    v_x = (INT64_C(1) < INT64_C(2));\n"
    );
    assert_eq!(
        prim(BinOp::Ne, text("a"), text("b")),
        "    int64_t v_x;\n    v_x = !aria_streq_consume(aria_str_lit(aria_lit_0, 1), aria_str_lit(aria_lit_1, 1));\n"
    );
    assert!(prim(BinOp::Mul, float(1.5), float(2.0)).contains("double v_x;\n    v_x = "));
    assert_eq!(
        one(Bind::Unary(UnOp::Neg, num(3))).unwrap(),
        "    int64_t v_x;
    if (__builtin_sub_overflow((int64_t)0, INT64_C(3), &v_x)) aria_trap_msg(\"integer overflow\");
"
    );
    assert_eq!(
        one(Bind::Unary(UnOp::Not, Atom::Bool(true))).unwrap(),
        "    int64_t v_x;\n    v_x = !1;\n"
    );
}

#[test]
fn arrays_and_maps_in_c() {
    assert_eq!(
        one(call("array_lit$i", vec![num(4), num(5)])).unwrap(),
        "    void* v_x;
    v_x = aria_array_new(INT64_C(0));
    v_x = aria_array_push(v_x, (int64_t)(INT64_C(4)), INT64_C(0));
    v_x = aria_array_push(v_x, (int64_t)(INT64_C(5)), INT64_C(0));
"
    );
    let c = main_body(bind(
        "a",
        call("array_lit$i", vec![num(4)]),
        bind("y", call("array_get$i", vec![var("a"), num(0)]), ret(num(0))),
    ))
    .unwrap();
    assert!(c.ends_with("    int64_t v_y;\n    v_y = aria_array_get(v_a, INT64_C(0));\n"), "{}", c);
}

#[test]
fn refusals_name_the_reason() {
    let prim = |op, a, b| one(Bind::Prim(op, a, b)).unwrap_err();
    assert_eq!(
        prim(BinOp::Add, num(1), text("a")),
        "c backend: arithmetic expects matching Int/Float operands"
    );
    assert_eq!(prim(BinOp::Mod, float(1.0), float(2.0)), "c backend: Float has no `%`");
    assert_eq!(
        one(Bind::Unary(UnOp::Not, num(1))).unwrap_err(),
        "c backend: unary `!` expects Bool"
    );
    assert_eq!(
        one(call("concat", vec![num(1), text("a")])).unwrap_err(),
        "c backend: concat expects two Strings"
    );
    assert_eq!(
        one(call("print_int", vec![text("a")])).unwrap_err(),
        "c backend: print_int expects one Int"
    );
    assert_eq!(
        one(call("array_get$i", vec![num(1)])).unwrap_err(),
        "c backend: array_get expects (array, index)"
    );
    assert_eq!(
        one(Bind::ApplyClosure(num(1), vec![], None)).unwrap_err(),
        "c backend: closure application missing its result type"
    );
    assert!(built(vec![], vec![]).is_err(), "a program without `main`");
}

#[test]
fn unsupported_tensor_returns_err_not_panic() {
    // A tensor builtin is outside the IR subset; compilation must return a
    // clean Err (never panic).
    let tensor = Ty::Named("Tensor".to_string(), Vec::new());
    let zeros = bind("t", call("tensor_zeros", vec![num(2), num(2)]), ret(var("t")));
    let r = built(
        vec![decl("t", &[], tensor), decl("main", &[], Ty::Int)],
        vec![("t", lowered(&[], zeros)), ("main", lowered(&[], ret(num(0))))],
    );
    assert!(r.is_err(), "expected clean Err for a tensor program, got Ok");
}

#[test]
fn names_are_mangled_by_bytes() {
    assert_eq!(cfn("main"), "af_main");
    assert_eq!(cvar("x_1"), "v_x_1");
    assert_eq!(cfn("lam$0"), "af_lam_240");
    assert_eq!(cvar("é"), "v__c3_a9");
    // A `_` that looks like the start of an escape is escaped itself.
    assert_eq!(cvar("$t0"), "v__24t0");
    assert_eq!(cvar("_24t0"), "v__5f24t0");
    assert_ne!(cvar("$t0"), cvar("_t0"));
    assert_eq!(cvar("t_0"), "v_t_0");
    assert_eq!(cvar("_A0"), "v__A0");
    assert_ne!(cvar("a$b"), cvar("a_b"));
}

/// The statements of one `let` behind a value of each kind: texts `s` and `t`,
/// bytes `b`, a vector `v`, an array of floats `fa`, a map `m` and a set `k`.
fn behind(b: Bind) -> Result<String, String> {
    let chain = bind("x", b, ret(num(0)));
    let chain = bind("k", call("set_new$i", vec![]), chain);
    let chain = bind("m", call("map_new$i_s", vec![]), chain);
    let chain = bind("fa", call("array_new$f", vec![]), chain);
    let chain = bind("v", call("vec_new", vec![]), chain);
    let chain = bind("b", call("bytes_new", vec![]), chain);
    let chain = bind("t", Bind::Atom(text("r")), chain);
    let chain = bind("s", Bind::Atom(text("q")), chain);
    let c = main_body(chain)?;
    let at = c.find(" v_x;\n").expect("x") + " v_x;\n".len();
    Ok(c[at..].to_string())
}

#[test]
fn every_builtin_in_c() {
    let (s, t, b, v, fa, m, k) =
        (|| var("s"), || var("t"), || var("b"), || var("v"), || var("fa"), || var("m"), || var("k"));
    let one = || num(1);
    let cases: Vec<(&str, Vec<Atom>, &str)> = vec![
        ("concat", vec![s(), t()], "v_x = aria_concat(v_s, v_t);"),
        ("int_to_str", vec![one()], "v_x = aria_int_to_str(INT64_C(1));"),
        ("bytes_new", vec![], "v_x = aria_bytes_new();"),
        ("bytes_len", vec![b()], "v_x = aria_bytes_len(v_b);"),
        ("bytes_get", vec![b(), one()], "v_x = aria_bytes_get(v_b, INT64_C(1));"),
        (
            "bytes_set",
            vec![b(), one(), num(2)],
            "v_x = aria_bytes_set(v_b, INT64_C(1), INT64_C(2));",
        ),
        ("bytes_push", vec![b(), one()], "v_x = aria_bytes_push(v_b, INT64_C(1));"),
        ("bytes_from_str", vec![s()], "v_x = aria_bytes_from_str(v_s);"),
        ("bytes_to_str", vec![b()], "v_x = aria_bytes_to_str(v_b);"),
        ("vec_new", vec![], "v_x = aria_vec_new();"),
        ("vec_from_array", vec![fa()], "v_x = aria_vec_from_array(v_fa);"),
        ("vec_to_array", vec![v()], "v_x = aria_vec_to_array(v_v);"),
        ("vec_len", vec![v()], "v_x = aria_vec_len(v_v);"),
        ("vec_get", vec![v(), one()], "v_x = aria_vec_get(v_v, INT64_C(1));"),
        ("vec_dot", vec![v(), v()], "v_x = aria_vec_dot(v_v, v_v);"),
        ("vec_norm", vec![v()], "v_x = aria_vec_norm(v_v);"),
        ("vec_cosine", vec![v(), v()], "v_x = aria_vec_cosine(v_v, v_v);"),
        ("vec_add", vec![v(), v()], "v_x = aria_vec_add(v_v, v_v);"),
        ("array_new$s", vec![], "v_x = aria_array_new(INT64_C(2));"),
        ("array_len$f", vec![fa()], "v_x = aria_array_len(v_fa);"),
        ("array_get$f", vec![fa(), one()], "v_x = aria_i2f(aria_array_get(v_fa, INT64_C(1)));"),
        ("map_new$i_s", vec![], "v_x = aria_map_new(INT64_C(0), INT64_C(2));"),
        (
            "map_insert$i_s",
            vec![m(), one(), s()],
            "v_x = aria_map_insert(v_m, (int64_t)(INT64_C(1)), (int64_t)(uintptr_t)(v_s), INT64_C(0), INT64_C(2));",
        ),
        (
            "map_get_or$i_s",
            vec![m(), one(), s()],
            "v_x = (void*)(uintptr_t)(aria_map_get_or(v_m, (int64_t)(INT64_C(1)), (int64_t)(uintptr_t)(v_s), INT64_C(0), INT64_C(2)));",
        ),
        ("map_has$i_s", vec![m(), one()], "v_x = aria_map_has(v_m, (int64_t)(INT64_C(1)), INT64_C(0));"),
        ("map_len$i_s", vec![m()], "v_x = aria_map_len(v_m);"),
        ("map_show$i_s", vec![m()], "v_x = aria_map_show(v_m);"),
        ("map_keys$i_s", vec![m()], "v_x = aria_map_keys(v_m, INT64_C(0), INT64_C(0));"),
        ("map_values$i_s", vec![m()], "v_x = aria_map_values(v_m, INT64_C(2), INT64_C(2));"),
        (
            "map_remove$i_s",
            vec![m(), one()],
            "v_x = aria_map_remove(v_m, (int64_t)(INT64_C(1)), INT64_C(0));",
        ),
        ("set_new$s", vec![], "v_x = aria_set_new(INT64_C(2));"),
        ("set_add$i", vec![k(), one()], "v_x = aria_set_add(v_k, (int64_t)(INT64_C(1)), INT64_C(0));"),
        ("set_has$i", vec![k(), one()], "v_x = aria_set_has(v_k, (int64_t)(INT64_C(1)), INT64_C(0));"),
        ("set_len$i", vec![k()], "v_x = aria_set_len(v_k);"),
        ("set_show$i", vec![k()], "v_x = aria_set_show(v_k);"),
        (
            "set_remove$i",
            vec![k(), one()],
            "v_x = aria_set_remove(v_k, (int64_t)(INT64_C(1)), INT64_C(0));",
        ),
        ("set_to_array$i", vec![k()], "v_x = aria_set_to_array(v_k, INT64_C(0), INT64_C(0));"),
    ];
    for (name, args, expected) in cases {
        let c = behind(call(name, args)).unwrap_or_else(|e| panic!("{}: {}", name, e));
        assert_eq!(c, format!("    {}\n", expected), "{}", name);
    }
    for (name, arg, expected) in [
        ("print_int", num(1), "aria_print_int(INT64_C(1));"),
        ("print_bool", Atom::Bool(false), "aria_print_bool(0);"),
        ("print_str", var("s"), "aria_print_str(v_s);"),
    ] {
        let c = behind(call(name, vec![arg])).unwrap();
        assert_eq!(c, format!("    {}\n    v_x = 0;\n", expected));
    }
}

#[test]
fn equality_and_counts_by_kind() {
    for (a, b, helper) in [
        ("s", "t", "aria_streq_consume"),
        ("b", "b", "aria_byteseq_consume"),
        ("v", "v", "aria_veceq_consume"),
        ("m", "m", "aria_map_eq_consume"),
        ("k", "k", "aria_set_eq_consume"),
    ] {
        let c = behind(Bind::Prim(BinOp::Eq, var(a), var(b))).unwrap();
        assert_eq!(c, format!("    v_x = {}(v_{}, v_{});\n", helper, a, b));
        let c = behind(Bind::Prim(BinOp::Ne, var(a), var(b))).unwrap();
        assert_eq!(c, format!("    v_x = !{}(v_{}, v_{});\n", helper, a, b));
    }
    for (make, stem) in [
        (call("bytes_new", vec![]), "aria_bytes"),
        (call("vec_new", vec![]), "aria_vec"),
        (call("array_new$i", vec![]), "aria_array"),
        (call("map_new$i_i", vec![]), "aria_map"),
        (call("set_new$i", vec![]), "aria_set"),
        (Bind::Atom(text("q")), "aria_str"),
    ] {
        let c = main_body(bind("y", make, dup_of("y", drop_of("y", ret(num(0)))))).unwrap();
        assert!(c.ends_with(&format!("    {}_dup(v_y);\n    {}_drop(v_y);\n", stem, stem)), "{}", c);
    }
    // A number is not counted.
    let c = main_body(bind("y", Bind::Atom(num(1)), dup_of("y", drop_of("y", ret(num(0)))))).unwrap();
    assert_eq!(c, "    int64_t v_y;\n    v_y = INT64_C(1);\n");
}

#[test]
fn builtins_refuse_other_arguments() {
    let s = || var("s");
    let cases: Vec<(&str, Vec<Atom>, &str)> = vec![
        ("int_to_str", vec![s()], "int_to_str expects one Int"),
        ("print_bool", vec![num(1)], "print_bool expects one Bool"),
        ("print_float", vec![num(1)], "print_float expects one Float"),
        ("print_str", vec![num(1)], "print_str expects one String"),
        ("bytes_new", vec![s()], "bytes_new expects no arguments"),
        ("bytes_len", vec![s()], "bytes_len expects one Bytes"),
        ("bytes_get", vec![s(), num(0)], "bytes_get expects (Bytes, Int)"),
        ("bytes_get", vec![var("b"), s()], "bytes_get index must be Int"),
        ("bytes_set", vec![var("b"), num(0)], "bytes_set expects (Bytes, Int, Int)"),
        ("bytes_set", vec![var("b"), num(0), s()], "bytes_set index/value must be Int"),
        ("bytes_push", vec![s(), num(0)], "bytes_push expects (Bytes, Int)"),
        ("bytes_push", vec![var("b"), s()], "bytes_push value must be Int"),
        ("bytes_from_str", vec![num(0)], "bytes_from_str expects one String"),
        ("bytes_to_str", vec![num(0)], "bytes_to_str expects one Bytes"),
        ("vec_new", vec![s()], "vec_new expects no arguments"),
        ("vec_from_array", vec![s()], "vec_from_array expects one Array[Float]"),
        ("vec_to_array", vec![s()], "vec_to_array expects one Vector"),
        ("vec_len", vec![s()], "vec_len expects one Vector"),
        ("vec_get", vec![s(), num(0)], "vec_get expects (Vector, Int)"),
        ("vec_get", vec![var("v"), s()], "vec_get index must be Int"),
        ("vec_push", vec![s(), num(0)], "vec_push expects (Vector, Float)"),
        ("vec_push", vec![var("v"), num(0)], "vec_push value must be Float"),
        ("vec_dot", vec![var("v"), s()], "vec_dot expects (Vector, Vector)"),
        ("vec_norm", vec![s()], "vec_norm expects one Vector"),
        ("vec_cosine", vec![s(), s()], "vec_cosine expects (Vector, Vector)"),
        ("vec_add", vec![s(), s()], "vec_add expects (Vector, Vector)"),
        ("vec_scale", vec![s(), s()], "vec_scale expects (Vector, Float)"),
        ("vec_scale", vec![var("v"), num(0)], "vec_scale factor must be Float"),
        ("array_new$i", vec![s()], "array_new expects no arguments"),
        ("array_len$i", vec![], "array_len expects one array"),
        ("array_get$i", vec![var("fa"), s()], "array_get index must be Int"),
        ("array_set$f", vec![var("fa")], "array_set expects (array, index, value)"),
        ("array_set$f", vec![var("fa"), s(), s()], "array_set index must be Int"),
        ("array_push$f", vec![var("fa")], "array_push expects (array, value)"),
        (
            "array_push$f",
            vec![var("fa"), num(1)],
            "array element type mismatch (got Int, expected Float)",
        ),
        ("map_new$i_i", vec![s()], "map_new expects no arguments"),
        ("map_insert$i_i", vec![s()], "map_insert expects (map, key, value)"),
        ("map_get_or$i_i", vec![s()], "map_get_or expects (map, key, default)"),
        ("map_has$i_i", vec![s()], "map_has expects (map, key)"),
        ("map_has$i_i", vec![s(), s()], "expected a Map, got Str"),
        ("map_len$i_i", vec![], "map_len expects (map)"),
        ("map_show$i_i", vec![], "map_show expects (map)"),
        ("map_keys$i_i", vec![], "map_keys expects (map)"),
        ("map_values$i_i", vec![], "map_values expects (map)"),
        ("map_remove$i_i", vec![s()], "map_remove expects (map, key)"),
        ("set_new$i", vec![s()], "set_new expects no arguments"),
        ("set_add$i", vec![s()], "set_add expects (set, elem)"),
        ("set_add$i", vec![var("m"), num(1)], "expected a Set, got Map(Int, Str)"),
        ("set_has$i", vec![s()], "set_has expects (set, elem)"),
        ("set_len$i", vec![], "set_len expects (set)"),
        ("set_show$i", vec![], "set_show expects (set)"),
        ("set_remove$i", vec![s()], "set_remove expects (set, elem)"),
        ("set_to_array$i", vec![], "set_to_array expects (set)"),
    ];
    for (name, args, expected) in cases {
        let shown = format!("{}{:?}", name, args);
        match behind(call(name, args)) {
            Ok(c) => panic!("{} gave {}", shown, c),
            Err(e) => assert_eq!(e, format!("c backend: {}", expected), "{}", shown),
        }
    }
}

#[test]
fn equality_and_release_go_by_constructor() {
    let node = Item::Type(TypeDecl {
        name: "N".to_string(),
        params: Vec::new(),
        variants: vec![
            Variant {
                name: "A".to_string(),
                fields: vec![Ty::Int, Ty::Str, Ty::Float],
                field_names: None,
            },
            Variant {
                name: "B".to_string(),
                fields: vec![
                    Ty::Named("Bytes".to_string(), Vec::new()),
                    Ty::Named("Vector".to_string(), Vec::new()),
                    Ty::Named("N".to_string(), Vec::new()),
                ],
                field_names: None,
            },
        ],
    });
    let c = built(
        vec![node, decl("main", &[], Ty::Int)],
        vec![("main", lowered(&[], ret(num(0))))],
    )
    .unwrap();
    let eq = &c[c.rfind("static int64_t aria_eq(").unwrap()..];
    let eq = &eq[..eq.find("\n}\n").unwrap()];
    for line in [
        "        eq = eq && aria_streq((void*)(uintptr_t)aria_field(a, 1), (void*)(uintptr_t)aria_field(b, 1));\n",
        "        eq = eq && aria_byteseq((void*)(uintptr_t)aria_field(a, 0), (void*)(uintptr_t)aria_field(b, 0));\n",
        "        eq = eq && aria_veceq((void*)(uintptr_t)aria_field(a, 1), (void*)(uintptr_t)aria_field(b, 1));\n",
        "        eq = eq && aria_eq((void*)(uintptr_t)aria_field(a, 2), (void*)(uintptr_t)aria_field(b, 2));\n",
    ] {
        assert!(eq.contains(line), "{}\nin\n{}", line, eq);
    }
    let at = c.rfind("static void aria_drop_children(").unwrap();
    let drops = &c[at..at + c[at..].find("\n}\n").unwrap()];
    for line in [
        "        aria_str_drop((void*)(uintptr_t)aria_field(p, 1));\n",
        "        aria_bytes_drop((void*)(uintptr_t)aria_field(p, 0));\n",
        "        aria_vec_drop((void*)(uintptr_t)aria_field(p, 1));\n",
        "        aria_drop((void*)(uintptr_t)aria_field(p, 2));\n",
    ] {
        assert!(drops.contains(line), "{}\nin\n{}", line, drops);
    }
}

#[test]
fn a_refused_builtin_emits_nothing() {
    let lits: Vec<String> = Vec::new();
    let mut types = NameMap::new();
    types.insert("s", CType::Str);
    let mut em = Emitter { types, tmp: 7, out: "before".to_string() };
    for (name, args) in [
        ("no_such_builtin", vec![]),
        ("concat", vec![var("s"), num(1)]),
        ("array_len$i", vec![]),
        ("array_push$i", vec![var("s"), var("s")]),
        ("map_len$i_i", vec![]),
        ("set_has$i", vec![var("s"), num(1)]),
    ] {
        assert!(emit_builtin(name, &args, "d", &mut em, &lits, "").is_err(), "{}", name);
        assert_eq!((em.out.as_str(), em.tmp), ("before", 7));
        assert!(em.types.contains("s") && em.types.entries.len() == 1);
    }
    // An array literal is emitted up to the element that does not fit.
    assert!(emit_builtin("array_lit$i", &vec![num(1), var("s")], "d", &mut em, &lits, "").is_err());
    assert!(em.out.starts_with("befored = aria_array_new("));
    assert_eq!(em.tmp, 7);
    // What is accepted adds text alone.
    let mut em = Emitter { types: em.types, tmp: 7, out: "before".to_string() };
    assert!(emit_builtin("concat", &vec![var("s"), var("s")], "d", &mut em, &lits, "  ").is_ok());
    assert!(em.out.starts_with("before  d = ") && em.tmp == 7);
}
