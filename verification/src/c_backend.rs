//! The native backend: a C emitter for the intermediate representation.
//!
//! Runtime model:
//!   * Values: `Int -> int64_t`, `Bool -> int64_t` (0/1), `Float -> double`,
//!     `Ref`/`String -> void*` (a heap pointer).
//!   * ADT cell: `{ int64_t rc; int64_t tag; int64_t fields[]; }`, one 64-bit slot
//!     per field. The backend knows each field's type from the constructor table
//!     and casts on store and load.
//!   * Reference counts: dup and drop per type; at zero a cell's managed fields
//!     are released by tag. A program is garbage-free iff its live counter is 0 at
//!     exit.
//!   * Overflow: integer `+`/`-`/`*` and unary `-` are checked, and `/0` and
//!     `INT64_MIN / -1` trap.
//!
//! A program outside the supported subset yields a clean `Err` from [`compile`].

use vstd::prelude::*;
use vstd::string::*;

use crate::ast::Program;
use crate::c_backend::body::{
    emit_iexpr, iexpr_code, iexpr_fits, join_after, joined_after,
};
use crate::c_backend::emit::{counted, emit_count, Emitter, St};
use crate::c_backend::env::{
    build_ctors, ctor_table, ctor_views, sig_views, typed_views, ClosureTable, CtorInfo, CtorModel,
    Cx, CxV, FnSig,
};
use crate::c_backend::infer::with_binders;
use crate::c_backend::kinds::CType;
use crate::c_backend::mangle::{cfn, cvar, fn_name, var_name};
use crate::c_backend::program::{
    build_sigs, check_main, collect_lits_fns, ctor_map, dispatch_table, drop_helper,
    emit_dispatch_table, emit_drop_children_helper, emit_eq_helper, emit_fn_decls, emit_lam_decls,
    emit_lit_decls, eq_helper, fn_decls, fns_lits, lam_c_types, lam_decls, lam_types, lambda_names,
    lemma_ctor_map, lemma_order_has_sigs, lit_decls, main_check, param_list, params_text,
    sig_table, sorted_lambdas,
};
use crate::c_backend::runtime::{runtime, runtime_text};
use crate::ir::IFn;
use crate::names::{listed, NameMap};
use crate::text::{dec, fill1, fill2, fill3, fmt, put1, put3, usize_text, views};

pub mod body;
pub mod builtins;
pub mod emit;
pub mod env;
pub mod forms;
pub mod infer;
pub mod kinds;
pub mod layout;
pub mod mangle;
pub mod meaning;
pub mod order;
pub mod places;
pub mod pool;
pub mod program;
pub mod runtime;

verus! {

// ---------------------------------------------------------------------------
// Functions
// ---------------------------------------------------------------------------

/// The declarations of parameters: type and name.
pub open spec fn param_decls(names: Seq<String>, types: Seq<CType>) -> Seq<Seq<char>> {
    Seq::new(
        names.len(),
        |i: int| fmt("{} {}"@, seq![types[i].declared(), var_name(names[i]@)]),
    )
}

fn decls_with_names(names: &Vec<String>, types: &Vec<CType>) -> (r: Vec<String>)
    requires
        names@.len() == types@.len(),
    ensures
        views(r@) == param_decls(names@, types@),
{
    let mut r: Vec<String> = Vec::new();
    let mut i: usize = 0;
    while i < names.len()
        invariant
            i <= names@.len(),
            names@.len() == types@.len(),
            r@.len() == i,
            forall|j: int|
                0 <= j < i ==> (#[trigger] r@[j])@ == fmt(
                    "{} {}"@,
                    seq![types@[j].declared(), var_name(names@[j]@)],
                ),
        decreases names@.len() - i,
    {
        let cv: String = cvar(names[i].as_str());
        r.push(fill2("{} {}", types[i].decl(), cv.as_str()));
        i = i + 1;
    }
    assert(views(r@) =~= param_decls(names@, types@));
    r
}

fn scope_of(names: &Vec<String>, types: &Vec<CType>) -> (r: NameMap<CType>)
    requires
        names@.len() == types@.len(),
    ensures
        r@ == with_binders(Map::empty(), names@, types@, names@.len()),
{
    let mut r: NameMap<CType> = NameMap::new();
    let mut i: usize = 0;
    while i < names.len()
        invariant
            i <= names@.len(),
            names@.len() == types@.len(),
            r@ == with_binders(Map::empty(), names@, types@, i as nat),
        decreases names@.len() - i,
    {
        r.insert(names[i].as_str(), types[i]);
        i = i + 1;
    }
    r
}

/// The parameters that a self-tail-recursive function reassigns.
pub open spec fn loop_params(f: IFn, types: Seq<CType>) -> Seq<(Seq<char>, CType)> {
    if f.tail_recursive {
        Seq::new(f.params@.len(), |i: int| (f.params@[i]@, types[i]))
    } else {
        Seq::empty()
    }
}

fn tail_params_of(f: &IFn, types: &Vec<CType>) -> (r: Vec<(String, CType)>)
    requires
        f.params@.len() == types@.len(),
    ensures
        typed_views(r@) == loop_params(*f, types@),
{
    let mut r: Vec<(String, CType)> = Vec::new();
    if f.tail_recursive {
        let mut i: usize = 0;
        while i < f.params.len()
            invariant
                i <= f.params@.len(),
                f.params@.len() == types@.len(),
                r@.len() == i,
                forall|j: int|
                    0 <= j < i ==> (#[trigger] r@[j]).0@ == f.params@[j]@ && r@[j].1 == types@[j],
            decreases f.params@.len() - i,
        {
            r.push((f.params[i].clone(), types[i]));
            i = i + 1;
        }
    }
    assert(typed_views(r@) =~= loop_params(*f, types@));
    r
}

/// A function: its head, the result variable, the loop label if it has one, the
/// body and the return.
pub open spec fn fn_code(name: Seq<char>, cx: CxV, fns: Map<Seq<char>, IFn>, out: Seq<char>) -> Result<
    Seq<char>,
    Seq<char>,
> {
    let sig = cx.sigs[name];
    if !fns.contains_key(name) {
        Err(fmt("c backend: function `{}` missing from IR"@, seq![name]))
    } else {
        let f = fns[name];
        if f.params@.len() != sig.params.len() {
            Err(
                fmt(
                    "c backend: fn `{}` IR arity {} != signature arity {}"@,
                    seq![name, dec(f.params@.len() as int), dec(sig.params.len() as int)],
                ),
            )
        } else {
            let head = out + fmt(
                "static {} {}({}) {\n"@,
                seq![
                    sig.ret.declared(),
                    fn_name(name),
                    param_list(param_decls(f.params@, sig.params)),
                ],
            ) + fmt("    {} aria_ret;\n"@, seq![sig.ret.declared()]);
            let start = if f.tail_recursive {
                head + "    aria_loop_top:;\n"@
            } else {
                head
            };
            match iexpr_code(
                f.body,
                "aria_ret"@,
                St {
                    types: with_binders(Map::empty(), f.params@, sig.params, f.params@.len()),
                    tmp: 0,
                    out: start,
                },
                CxV { tail_params: loop_params(f, sig.params), fn_ret: sig.ret, ..cx },
                "    "@,
            ) {
                Err(e) => Err(e),
                Ok(st) => Ok(st.out + "    return aria_ret;\n}\n\n"@),
            }
        }
    }
}

/// The first `n` functions.
pub open spec fn fns_code(
    order: Seq<Seq<char>>,
    n: nat,
    cx: CxV,
    fns: Map<Seq<char>, IFn>,
    out: Seq<char>,
) -> Result<Seq<char>, Seq<char>>
    decreases n,
{
    if n == 0 || n > order.len() {
        Ok(out)
    } else {
        match fns_code(order, (n - 1) as nat, cx, fns, out) {
            Err(e) => Err(e),
            Ok(o) => fn_code(order[n - 1], cx, fns, o),
        }
    }
}

/// The C expression that loads capture `i` from the closure cell.
pub open spec fn capture_load(t: CType, i: nat) -> Seq<char> {
    let ix = dec(i as int);
    match t {
        CType::Int | CType::Bool => fmt("(int64_t)aria_field(__aria_clo, {})"@, seq![ix]),
        CType::Float => fmt("aria_i2f(aria_field(__aria_clo, {}))"@, seq![ix]),
        _ => fmt("(void*)(uintptr_t)aria_field(__aria_clo, {})"@, seq![ix]),
    }
}

/// The loads of the first `n` captures. A managed capture is also dup'd: the cell
/// keeps its own reference.
pub open spec fn captures_loaded(
    names: Seq<String>,
    types: Seq<CType>,
    n: nat,
    st: St,
) -> St
    decreases n,
{
    if n == 0 || n > names.len() || n > types.len() {
        st
    } else {
        let t = types[n - 1];
        counted(
            captures_loaded(names, types, (n - 1) as nat, st).bind(names[n - 1]@, t).put(
                "    {} {} = {};\n"@,
                seq![t.declared(), var_name(names[n - 1]@), capture_load(t, (n - 1) as nat)],
            ),
            t,
            "dup"@,
            names[n - 1]@,
            "    "@,
        )
    }
}

fn emit_capture_loads(names: &Vec<String>, types: &Vec<CType>, em: &mut Emitter)
    requires
        names@.len() == types@.len(),
    ensures
        final(em)@ == captures_loaded(names@, types@, names@.len(), old(em)@),
{
    let ghost start = em@;
    let mut i: usize = 0;
    while i < names.len()
        invariant
            i <= names@.len(),
            names@.len() == types@.len(),
            em@ == captures_loaded(names@, types@, i as nat, start),
        decreases names@.len() - i,
    {
        let t: CType = types[i];
        let ix: String = usize_text(i);
        let load: String = match t {
            CType::Int | CType::Bool => fill1("(int64_t)aria_field(__aria_clo, {})", ix.as_str()),
            CType::Float => fill1("aria_i2f(aria_field(__aria_clo, {}))", ix.as_str()),
            _ => fill1("(void*)(uintptr_t)aria_field(__aria_clo, {})", ix.as_str()),
        };
        em.types.insert(names[i].as_str(), t);
        let cv: String = cvar(names[i].as_str());
        put3(&mut em.out, "    {} {} = {};\n", t.decl(), cv.as_str(), load.as_str());
        emit_count(em, t, "dup", names[i].as_str(), "    ");
        i = i + 1;
    }
}

fn bind_params(names: &Vec<String>, types: &Vec<CType>, em: &mut Emitter)
    requires
        names@.len() == types@.len(),
    ensures
        final(em)@ == (St {
            types: with_binders(old(em)@.types, names@, types@, names@.len()),
            ..old(em)@
        }),
{
    let ghost start = em@;
    let mut i: usize = 0;
    while i < names.len()
        invariant
            i <= names@.len(),
            names@.len() == types@.len(),
            em@ == (St { types: with_binders(start.types, names@, types@, i as nat), ..start }),
        decreases names@.len() - i,
    {
        em.types.insert(names[i].as_str(), types[i]);
        i = i + 1;
    }
}

/// A lifted lambda: it takes the closure cell before its parameters, loads its
/// captures, and then runs like a function.
pub open spec fn lambda_code(name: Seq<char>, f: IFn, cx: CxV, out: Seq<char>) -> Result<
    Seq<char>,
    Seq<char>,
> {
    match lam_types(f) {
        Err(e) => Err(e),
        Ok((ret, params, caps)) => if f.params@.len() != params.len() || f.captures@.len()
            != caps.len() {
            Err(fmt("c backend: lambda `{}` arity/signature mismatch"@, seq![name]))
        } else {
            let loaded = captures_loaded(
                f.captures@,
                caps,
                f.captures@.len(),
                St {
                    types: Map::empty(),
                    tmp: 0,
                    out: out + fmt(
                        "static {} {}({}) {\n"@,
                        seq![
                            ret.declared(),
                            fn_name(name),
                            joined_after("void* __aria_clo"@, param_decls(f.params@, params)),
                        ],
                    ),
                },
            );
            match iexpr_code(
                f.body,
                "aria_ret"@,
                St {
                    types: with_binders(loaded.types, f.params@, params, f.params@.len()),
                    ..loaded
                }.put("    {} aria_ret;\n"@, seq![ret.declared()]),
                CxV { tail_params: Seq::empty(), fn_ret: ret, ..cx },
                "    "@,
            ) {
                Err(e) => Err(e),
                Ok(st) => Ok(st.out + "    return aria_ret;\n}\n\n"@),
            }
        },
    }
}

/// The first `n` lambdas.
pub open spec fn lambdas_code(
    lams: Seq<Seq<char>>,
    n: nat,
    cx: CxV,
    fns: Map<Seq<char>, IFn>,
    out: Seq<char>,
) -> Result<Seq<char>, Seq<char>>
    decreases n,
{
    if n == 0 || n > lams.len() {
        Ok(out)
    } else {
        match lambdas_code(lams, (n - 1) as nat, cx, fns, out) {
            Err(e) => Err(e),
            Ok(o) => lambda_code(lams[n - 1], fns[lams[n - 1]], cx, o),
        }
    }
}

/// The tables that function bodies are emitted against.
struct Tables<'a> {
    sigs: &'a NameMap<FnSig>,
    ctors: &'a NameMap<CtorInfo>,
    lits: &'a Vec<String>,
    closures: &'a ClosureTable,
}

impl<'a> Tables<'a> {
    /// The context of the tables, for no function in particular.
    spec fn view(&self) -> CxV {
        CxV {
            sigs: sig_views(self.sigs@),
            ctors: ctor_views(self.ctors@),
            lits: views(self.lits@),
            closure_base: self.closures.base as nat,
            closure_names: views(self.closures.names@),
            tail_params: Seq::empty(),
            fn_ret: CType::Int,
        }
    }
}

fn emit_fn(name: &str, sig: &FnSig, f: &IFn, tables: &Tables, out: String) -> (r: Result<
    String,
    String,
>)
    requires
        f.params@.len() == sig.params@.len(),
        iexpr_fits(f.body, tables@.ctors),
    ensures
        forall|fns: Map<Seq<char>, IFn>|
            fns.contains_key(name@) && fns[name@] == *f && tables@.sigs.contains_key(name@)
                && tables@.sigs[name@] == sig@ ==> match #[trigger] fn_code(
                name@,
                tables@,
                fns,
                out@,
            ) {
                Ok(o) => r matches Ok(s) && s@ == o,
                Err(e) => r matches Err(x) && x@ == e,
            },
{
    let decls: Vec<String> = decls_with_names(&f.params, &sig.params);
    let params: String = params_text(&decls);
    let cname: String = cfn(name);
    let tail_params: Vec<(String, CType)> = tail_params_of(f, &sig.params);
    let types: NameMap<CType> = scope_of(&f.params, &sig.params);
    let mut em = Emitter { types, tmp: 0, out };
    put3(
        &mut em.out,
        "static {} {}({}) {\n",
        sig.ret.decl(),
        cname.as_str(),
        params.as_str(),
    );
    put1(&mut em.out, "    {} aria_ret;\n", sig.ret.decl());
    if f.tail_recursive {
        em.out.append("    aria_loop_top:;\n");
    }
    let cx = Cx {
        sigs: tables.sigs,
        ctors: tables.ctors,
        lits: tables.lits,
        closures: tables.closures,
        tail_params: &tail_params,
        fn_ret: sig.ret,
    };
    assert(cx@ == CxV {
        tail_params: loop_params(*f, sig.params@),
        fn_ret: sig.ret,
        ..tables@
    });
    emit_iexpr(&f.body, "aria_ret", &mut em, &cx, "    ")?;
    let mut text: String = em.out;
    text.append("    return aria_ret;\n}\n\n");
    Ok(text)
}

fn emit_fns(order: &Vec<String>, n: usize, fns: &NameMap<IFn>, tables: &Tables, out: String) -> (r:
    Result<String, String>)
    requires
        n <= order@.len(),
        forall|i: int|
            0 <= i < order@.len() ==> tables.sigs@.contains_key((#[trigger] order@[i])@),
        forall|name: Seq<char>| #[trigger]
            fns@.contains_key(name) ==> iexpr_fits(fns@[name].body, tables@.ctors),
    ensures
        match fns_code(views(order@), n as nat, tables@, fns@, out@) {
            Ok(o) => r matches Ok(s) && s@ == o,
            Err(e) => r matches Err(x) && x@ == e,
        },
    decreases n,
{
    if n == 0 {
        return Ok(out);
    }
    let before: String = emit_fns(order, n - 1, fns, tables, out)?;
    assert(views(order@)[n - 1] == order@[n - 1]@);
    let name: &str = order[n - 1].as_str();
    let sig: &FnSig = match tables.sigs.get(name) {
        Some(s) => s,
        None => {
            assert(false);
            return Ok(before);
        },
    };
    let f: &IFn = match fns.get(name) {
        Some(f) => f,
        None => return Err(fill1("c backend: function `{}` missing from IR", name)),
    };
    if f.params.len() != sig.params.len() {
        let got: String = usize_text(f.params.len());
        let expected: String = usize_text(sig.params.len());
        return Err(
            fill3(
                "c backend: fn `{}` IR arity {} != signature arity {}",
                name,
                got.as_str(),
                expected.as_str(),
            ),
        );
    }
    emit_fn(name, sig, f, tables, before)
}

/// Emits a lifted lambda.
fn emit_lambda(name: &str, f: &IFn, tables: &Tables, out: String) -> (r: Result<String, String>)
    requires
        iexpr_fits(f.body, tables@.ctors),
    ensures
        match lambda_code(name@, *f, tables@, out@) {
            Ok(o) => r matches Ok(s) && s@ == o,
            Err(e) => r matches Err(x) && x@ == e,
        },
{
    let (ret, params, caps) = lam_c_types(f)?;
    if f.params.len() != params.len() || f.captures.len() != caps.len() {
        return Err(fill1("c backend: lambda `{}` arity/signature mismatch", name));
    }
    let decls: Vec<String> = decls_with_names(&f.params, &params);
    let list: String = join_after("void* __aria_clo", &decls);
    let cname: String = cfn(name);
    let mut em = Emitter { types: NameMap::new(), tmp: 0, out };
    put3(&mut em.out, "static {} {}({}) {\n", ret.decl(), cname.as_str(), list.as_str());
    emit_capture_loads(&f.captures, &caps, &mut em);
    bind_params(&f.params, &params, &mut em);
    put1(&mut em.out, "    {} aria_ret;\n", ret.decl());
    let tail_params: Vec<(String, CType)> = Vec::new();
    let cx = Cx {
        sigs: tables.sigs,
        ctors: tables.ctors,
        lits: tables.lits,
        closures: tables.closures,
        tail_params: &tail_params,
        fn_ret: ret,
    };
    assert(typed_views(tail_params@) =~= Seq::empty());
    assert(cx@ == CxV { tail_params: Seq::empty(), fn_ret: ret, ..tables@ });
    emit_iexpr(&f.body, "aria_ret", &mut em, &cx, "    ")?;
    let mut text: String = em.out;
    text.append("    return aria_ret;\n}\n\n");
    Ok(text)
}

fn emit_lambdas(lams: &Vec<String>, n: usize, fns: &NameMap<IFn>, tables: &Tables, out: String) -> (r:
    Result<String, String>)
    requires
        n <= lams@.len(),
        forall|i: int| 0 <= i < lams@.len() ==> fns@.contains_key((#[trigger] lams@[i])@),
        forall|name: Seq<char>| #[trigger]
            fns@.contains_key(name) ==> iexpr_fits(fns@[name].body, tables@.ctors),
    ensures
        match lambdas_code(views(lams@), n as nat, tables@, fns@, out@) {
            Ok(o) => r matches Ok(s) && s@ == o,
            Err(e) => r matches Err(x) && x@ == e,
        },
    decreases n,
{
    if n == 0 {
        return Ok(out);
    }
    let before: String = emit_lambdas(lams, n - 1, fns, tables, out)?;
    assert(views(lams@)[n - 1] == lams@[n - 1]@);
    let name: &str = lams[n - 1].as_str();
    match fns.get(name) {
        Some(f) => emit_lambda(name, f, tables, before),
        None => {
            assert(false);
            Ok(before)
        },
    }
}

// ---------------------------------------------------------------------------
// The program
// ---------------------------------------------------------------------------

/// The statements of the C `main` that run the program and print its result.
pub open spec fn print_result(ret: CType) -> Result<Seq<char>, Seq<char>> {
    let m = seq![fn_name("main"@)];
    match ret {
        CType::Int => Ok(
            fmt("    int64_t r = {}();\n    printf(\"%lld\\n\", (long long)r);\n"@, m),
        ),
        CType::Bool => Ok(
            fmt("    int64_t r = {}();\n    fputs(r ? \"true\\n\" : \"false\\n\", stdout);\n"@, m),
        ),
        CType::Float => Ok(fmt("    double r = {}();\n    aria_print_float(r);\n"@, m)),
        CType::Str => Ok(
            fmt(
                "    void* r = {}();\n    AriaStr* s = (AriaStr*)r;\n    fwrite(s->bytes, 1, (size_t)s->len, stdout);\n    fputc('\\n', stdout);\n    aria_str_drop(r);\n"@,
                m,
            ),
        ),
        CType::Bytes => Ok(
            fmt("    void* r = {}();\n    aria_print_bytes_value(r);\n    aria_bytes_drop(r);\n"@, m),
        ),
        CType::Dict(_, _) => Ok(
            fmt("    void* r = {}();\n    aria_print_map_value(r);\n    aria_map_drop(r);\n"@, m),
        ),
        CType::Bag(_) => Ok(
            fmt("    void* r = {}();\n    aria_print_set_value(r);\n    aria_set_drop(r);\n"@, m),
        ),
        CType::Vector => Ok(
            fmt("    void* r = {}();\n    aria_print_vec_value(r);\n    aria_vec_drop(r);\n"@, m),
        ),
        CType::Ref | CType::Array(_) => Err(
            "c backend: `main` must return a printable value (Int/Bool/Float/Str/Bytes/Map/Set)"@,
        ),
    }
}

fn print_text(ret: CType) -> (r: Result<String, String>)
    ensures
        match print_result(ret) {
            Ok(o) => r matches Ok(s) && s@ == o,
            Err(e) => r matches Err(x) && x@ == e,
        },
{
    let name: String = cfn("main");
    let m: &str = name.as_str();
    match ret {
        CType::Int => Ok(
            fill1("    int64_t r = {}();\n    printf(\"%lld\\n\", (long long)r);\n", m),
        ),
        CType::Bool => Ok(
            fill1("    int64_t r = {}();\n    fputs(r ? \"true\\n\" : \"false\\n\", stdout);\n", m),
        ),
        CType::Float => Ok(fill1("    double r = {}();\n    aria_print_float(r);\n", m)),
        CType::Str => Ok(
            fill1(
                "    void* r = {}();\n    AriaStr* s = (AriaStr*)r;\n    fwrite(s->bytes, 1, (size_t)s->len, stdout);\n    fputc('\\n', stdout);\n    aria_str_drop(r);\n",
                m,
            ),
        ),
        CType::Bytes => Ok(
            fill1("    void* r = {}();\n    aria_print_bytes_value(r);\n    aria_bytes_drop(r);\n", m),
        ),
        CType::Dict(_, _) => Ok(
            fill1("    void* r = {}();\n    aria_print_map_value(r);\n    aria_map_drop(r);\n", m),
        ),
        CType::Bag(_) => Ok(
            fill1("    void* r = {}();\n    aria_print_set_value(r);\n    aria_set_drop(r);\n", m),
        ),
        CType::Vector => Ok(
            fill1("    void* r = {}();\n    aria_print_vec_value(r);\n    aria_vec_drop(r);\n", m),
        ),
        CType::Ref | CType::Array(_) => Err(
            "c backend: `main` must return a printable value (Int/Bool/Float/Str/Bytes/Map/Set)".to_owned(),
        ),
    }
}

/// The C source, given the tables: the runtime, the literals, the declarations,
/// the helpers, the functions, the lambdas and `main`.
pub open spec fn source(
    order: Seq<Seq<char>>,
    table: Seq<CtorModel>,
    cx: CxV,
    fns: Map<Seq<char>, IFn>,
    ret: CType,
) -> Result<Seq<char>, Seq<char>> {
    let lams = cx.closure_names;
    let head = fn_decls(
        order,
        order.len(),
        cx.sigs,
        lit_decls(cx.lits, cx.lits.len(), runtime() + "\n"@) + "\n"@,
    );
    match lam_decls(lams, lams.len(), fns, head) {
        Err(e) => Err(e),
        Ok(declared) => match drop_helper(
            table,
            lams,
            fns,
            eq_helper(table, declared + dispatch_table(lams)),
        ) {
            Err(e) => Err(e),
            Ok(helped) => match fns_code(order, order.len(), cx, fns, helped) {
                Err(e) => Err(e),
                Ok(bodies) => match lambdas_code(lams, lams.len(), cx, fns, bodies) {
                    Err(e) => Err(e),
                    Ok(all) => match print_result(ret) {
                        Err(e) => Err(e),
                        Ok(print) => Ok(
                            all + "int main(void) {\n"@ + print
                                + "    fprintf(stderr, \"aria_live=%lld aria_reuses=%lld\\n\", (long long)aria_live, (long long)aria_reuses);\n    return 0;\n}\n"@,
                        ),
                    },
                },
            },
        },
    }
}

/// The tables of a program: its signatures and constructors, the lambdas in name
/// order with tags past the last constructor's, and the literals in the order of
/// their occurrence.
pub open spec fn program_cx(
    order: Seq<Seq<char>>,
    sigs: Map<Seq<char>, crate::c_backend::env::SigV>,
    table: Seq<CtorModel>,
    fns: Map<Seq<char>, IFn>,
) -> CxV {
    let lams = listed(lambda_names(fns));
    CxV {
        sigs,
        ctors: ctor_map(table, table.len()),
        lits: fns_lits(
            lams,
            lams.len(),
            fns,
            fns_lits(order, order.len(), fns, Seq::empty()),
        ),
        closure_base: table.len(),
        closure_names: lams,
        tail_params: Seq::empty(),
        fn_ret: CType::Int,
    }
}

/// The C source of a program whose functions were lowered to `fns`.
pub open spec fn compiled(program: Program, fns: Map<Seq<char>, IFn>) -> Result<
    Seq<char>,
    Seq<char>,
> {
    let items = program.items@;
    match sig_table(items, items.len()) {
        Err(e) => Err(e),
        Ok(t) => match main_check(t.sigs) {
            Err(e) => Err(e),
            Ok(ret) => match ctor_table(items, items.len()) {
                Err(e) => Err(e),
                Ok(table) => source(
                    t.order,
                    table,
                    program_cx(t.order, t.sigs, table, fns),
                    fns,
                    ret,
                ),
            },
        },
    }
}

/// Compile a monomorphic program to portable C source, or return a clean `Err`
/// for a program outside the supported subset. `fns` holds the program's
/// functions and lifted lambdas in the intermediate representation, with
/// reference counting and tail calls made explicit.
pub fn compile(program: &Program, fns: &NameMap<IFn>) -> (r: Result<String, String>)
    requires
        ctor_table(program.items@, program.items@.len()) matches Ok(table) ==> forall|
            name: Seq<char>,
        | #[trigger]
            fns@.contains_key(name) ==> iexpr_fits(
                fns@[name].body,
                ctor_map(table, table.len()),
            ),
    ensures
        match compiled(*program, fns@) {
            Ok(o) => r matches Ok(s) && s@ == o,
            Err(e) => r matches Err(x) && x@ == e,
        },
{
    let ghost items = program.items@;
    let (order, sigs) = build_sigs(program)?;
    let ret: CType = check_main(&sigs)?;
    let ctors: NameMap<CtorInfo> = build_ctors(program)?;
    let ghost table = ctor_table(items, items.len())->Ok_0;
    let lams: Vec<String> = sorted_lambdas(fns);
    let mut lits: Vec<String> = Vec::new();
    assert(views(lits@) =~= Seq::empty());
    collect_lits_fns(&order, fns, &mut lits);
    collect_lits_fns(&lams, fns, &mut lits);
    let closures = ClosureTable { base: ctors.entries.len(), names: lams };
    let tables = Tables { sigs: &sigs, ctors: &ctors, lits: &lits, closures: &closures };
    proof {
        lemma_ctor_map(ctors.entries@, table, table.len());
        assert(ctors.entries@.take(table.len() as int) =~= ctors.entries@);
        lemma_order_has_sigs(items, items.len());
        assert forall|i: int| 0 <= i < order@.len() implies sigs@.contains_key(
            (#[trigger] order@[i])@,
        ) by {
            assert(views(order@)[i] == order@[i]@);
            assert(sig_views(sigs@).contains_key(views(order@)[i]));
        }
        assert(tables@ == program_cx(views(order@), sig_views(sigs@), table, fns@));
    }
    let mut src: String = runtime_text();
    src.append("\n");
    emit_lit_decls(&lits, &mut src);
    src.append("\n");
    emit_fn_decls(&order, &sigs, &mut src);
    emit_lam_decls(&closures.names, closures.names.len(), fns, &mut src)?;
    emit_dispatch_table(&closures.names, &mut src);
    emit_eq_helper(&ctors, &mut src, Ghost(table));
    emit_drop_children_helper(&ctors, &closures.names, fns, &mut src, Ghost(table))?;
    let bodies: String = emit_fns(&order, order.len(), fns, &tables, src)?;
    let mut all: String = emit_lambdas(
        &closures.names,
        closures.names.len(),
        fns,
        &tables,
        bodies,
    )?;
    let print: String = print_text(ret)?;
    all.append("int main(void) {\n");
    all.append(print.as_str());
    all.append(
        "    fprintf(stderr, \"aria_live=%lld aria_reuses=%lld\\n\", (long long)aria_live, (long long)aria_reuses);\n    return 0;\n}\n",
    );
    Ok(all)
}

} // verus!
