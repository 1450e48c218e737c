//! The parts of an emitted program around its function bodies: the tables, the
//! literals, the declarations and the per-tag helpers.

use vstd::prelude::*;
use vstd::string::*;
use vstd::utf8::encode_utf8;

use crate::ast::{FnDecl, Item, Param, Program};
use crate::c_backend::body::{declared_all, decls_of, join_after, joined_after};
use crate::c_backend::emit::{managed_stem, stem};
use crate::c_backend::env::{
    ctor_views, ctypes_of, current, holds_table, is_current, literal_name, map_ctypes, position,
    position_of, sig_views, CtorInfo, CtorModel, CtorV, CxV, FnSig, SigV,
};
use crate::c_backend::kinds::CType;
use crate::c_backend::mangle::{cfn, fn_name};
use crate::ir::{Atom, Bind, IArm, IExpr, IFn};
use crate::names::{bindings, listed, NameMap, NameSet};
use crate::text::{
    dec, fill1, fill2, fmt, join, join_strings, put1, put2, put3, u128_text, usize_text, views,
};

verus! {

// ---------------------------------------------------------------------------
// Signatures
// ---------------------------------------------------------------------------

/// The C types of the first `n` parameters, or the first error.
pub open spec fn param_ctypes(params: Seq<Param>, n: nat) -> Result<Seq<CType>, Seq<char>>
    decreases n,
{
    if n == 0 || n > params.len() {
        Ok(Seq::empty())
    } else {
        match param_ctypes(params, (n - 1) as nat) {
            Err(e) => Err(e),
            Ok(done) => match CType::of(params[n - 1].ty) {
                Ok(t) => Ok(done.push(t)),
                Err(e) => Err(e),
            },
        }
    }
}

proof fn lemma_params_error(params: Seq<Param>, i: nat, n: nat)
    requires
        i <= n <= params.len(),
        param_ctypes(params, i) is Err,
    ensures
        param_ctypes(params, n) == param_ctypes(params, i),
    decreases n - i,
{
    if i < n {
        lemma_params_error(params, i, (n - 1) as nat);
    }
}

fn map_params(params: &Vec<Param>) -> (r: Result<Vec<CType>, String>)
    ensures
        match param_ctypes(params@, params@.len()) {
            Ok(ts) => r matches Ok(v) && v@ == ts,
            Err(e) => r matches Err(x) && x@ == e,
        },
{
    let mut out: Vec<CType> = Vec::new();
    let mut i: usize = 0;
    while i < params.len()
        invariant
            i <= params@.len(),
            param_ctypes(params@, i as nat) == Ok::<Seq<CType>, Seq<char>>(out@),
        decreases params@.len() - i,
    {
        match CType::from_ty(&params[i].ty) {
            Ok(t) => {
                out.push(t);
                i = i + 1;
            },
            Err(e) => {
                proof {
                    lemma_params_error(params@, (i + 1) as nat, params@.len());
                }
                return Err(e);
            },
        }
    }
    Ok(out)
}

/// The signature of a function declaration.
pub open spec fn fn_sig(f: FnDecl) -> Result<SigV, Seq<char>> {
    match (param_ctypes(f.params@, f.params@.len()), CType::of(f.ret)) {
        (Err(e), _) => Err(fmt("fn `{}`: {}"@, seq![f.name@, e])),
        (_, Err(e)) => Err(fmt("fn `{}`: {}"@, seq![f.name@, e])),
        (Ok(params), Ok(ret)) => Ok(SigV { params, ret }),
    }
}

fn sig_of(f: &FnDecl) -> (r: Result<FnSig, String>)
    ensures
        match fn_sig(*f) {
            Ok(s) => r matches Ok(x) && x@ == s,
            Err(e) => r matches Err(x) && x@ == e,
        },
{
    match map_params(&f.params) {
        Err(e) => Err(fill2("fn `{}`: {}", f.name.as_str(), e.as_str())),
        Ok(params) => match CType::from_ty(&f.ret) {
            Err(e) => Err(fill2("fn `{}`: {}", f.name.as_str(), e.as_str())),
            Ok(ret) => Ok(FnSig { params, ret }),
        },
    }
}

/// The functions of a program: their names in declaration order, and their
/// signatures.
pub struct SigTable {
    pub order: Seq<Seq<char>>,
    pub sigs: Map<Seq<char>, SigV>,
}

/// The functions among the first `n` items.
pub open spec fn sig_table(items: Seq<Item>, n: nat) -> Result<SigTable, Seq<char>>
    decreases n,
{
    if n == 0 || n > items.len() {
        Ok(SigTable { order: Seq::empty(), sigs: Map::empty() })
    } else {
        match sig_table(items, (n - 1) as nat) {
            Err(e) => Err(e),
            Ok(t) => match items[n - 1] {
                Item::Type(_) => Ok(t),
                Item::Fn(f) => match fn_sig(f) {
                    Err(e) => Err(e),
                    Ok(sig) => Ok(
                        SigTable {
                            order: t.order.push(f.name@),
                            sigs: t.sigs.insert(f.name@, sig),
                        },
                    ),
                },
            },
        }
    }
}

proof fn lemma_sigs_error(items: Seq<Item>, i: nat, n: nat)
    requires
        i <= n <= items.len(),
        sig_table(items, i) is Err,
    ensures
        sig_table(items, n) == sig_table(items, i),
    decreases n - i,
{
    if i < n {
        lemma_sigs_error(items, i, (n - 1) as nat);
    }
}

/// Every function in the order has a signature.
pub proof fn lemma_order_has_sigs(items: Seq<Item>, n: nat)
    requires
        n <= items.len(),
    ensures
        sig_table(items, n) matches Ok(t) ==> forall|i: int|
            0 <= i < t.order.len() ==> t.sigs.contains_key(#[trigger] t.order[i]),
    decreases n,
{
    if n > 0 {
        lemma_order_has_sigs(items, (n - 1) as nat);
    }
}

/// Collects the functions of a program.
pub fn build_sigs(program: &Program) -> (r: Result<(Vec<String>, NameMap<FnSig>), String>)
    ensures
        match sig_table(program.items@, program.items@.len()) {
            Ok(t) => r matches Ok(p) && views(p.0@) == t.order && sig_views(p.1@) == t.sigs,
            Err(e) => r matches Err(x) && x@ == e,
        },
{
    let mut order: Vec<String> = Vec::new();
    let mut sigs: NameMap<FnSig> = NameMap::new();
    let ghost mut model = SigTable { order: Seq::empty(), sigs: Map::empty() };
    let mut i: usize = 0;
    assert(views(order@) =~= model.order);
    assert(sig_views(sigs@) =~= model.sigs);
    while i < program.items.len()
        invariant
            i <= program.items@.len(),
            sig_table(program.items@, i as nat) == Ok::<SigTable, Seq<char>>(model),
            views(order@) == model.order,
            sig_views(sigs@) == model.sigs,
        decreases program.items@.len() - i,
    {
        if let Item::Fn(f) = &program.items[i] {
            match sig_of(f) {
                Err(e) => {
                    proof {
                        lemma_sigs_error(program.items@, (i + 1) as nat, program.items@.len());
                    }
                    return Err(e);
                },
                Ok(sig) => {
                    let ghost before = (order@, sigs@);
                    let ghost sv = sig@;
                    let ghost old_model = model;
                    order.push(f.name.clone());
                    sigs.insert(f.name.as_str(), sig);
                    proof {
                        model = SigTable {
                            order: model.order.push(f.name@),
                            sigs: model.sigs.insert(f.name@, sv),
                        };
                        assert(views(order@) =~= model.order);
                        assert(sig_views(sigs@) =~= model.sigs);
                    }
                },
            }
        }
        i = i + 1;
    }
    Ok((order, sigs))
}

/// What `main` has to be: present, without parameters, and with a result that can
/// be printed.
pub open spec fn main_check(sigs: Map<Seq<char>, SigV>) -> Result<CType, Seq<char>> {
    if !sigs.contains_key("main"@) {
        Err("c backend: no `main` function"@)
    } else if sigs["main"@].params.len() > 0 {
        Err("c backend: `main` must take no parameters"@)
    } else {
        match sigs["main"@].ret {
            CType::Int
            | CType::Float
            | CType::Bool
            | CType::Str
            | CType::Bytes
            | CType::Vector => Ok(sigs["main"@].ret),
            _ => Err(
                "c backend: `main` must return Int, Bool, Float, String, Bytes, or Vector"@,
            ),
        }
    }
}

/// Checks `main` and gives its result type.
pub fn check_main(sigs: &NameMap<FnSig>) -> (r: Result<CType, String>)
    ensures
        crate::c_backend::kinds::same(r, main_check(sig_views(sigs@))),
{
    match sigs.get("main") {
        None => Err("c backend: no `main` function".to_owned()),
        Some(m) => {
            if m.params.len() > 0 {
                return Err("c backend: `main` must take no parameters".to_owned());
            }
            match m.ret {
                CType::Int
                | CType::Float
                | CType::Bool
                | CType::Str
                | CType::Bytes
                | CType::Vector => Ok(m.ret),
                _ => Err(
                    "c backend: `main` must return Int, Bool, Float, String, Bytes, or Vector".to_owned(),
                ),
            }
        },
    }
}

/// The constructors by name: a later declaration replaces an earlier one.
pub open spec fn ctor_map(table: Seq<CtorModel>, n: nat) -> Map<Seq<char>, CtorV>
    decreases n,
{
    if n == 0 || n > table.len() {
        Map::empty()
    } else {
        ctor_map(table, (n - 1) as nat).insert(
            table[n - 1].name,
            CtorV { tag: (n - 1) as nat, fields: table[n - 1].fields },
        )
    }
}

/// The entries of the table give the constructors by name.
pub proof fn lemma_ctor_map(entries: Seq<(String, CtorInfo)>, table: Seq<CtorModel>, n: nat)
    requires
        holds_table(entries, table),
        n <= table.len(),
    ensures
        ctor_views(bindings(entries.take(n as int))) == ctor_map(table, n),
    decreases n,
{
    if n == 0 {
        assert(ctor_views(bindings(entries.take(0))) =~= Map::empty());
    } else {
        lemma_ctor_map(entries, table, (n - 1) as nat);
        let e = entries.take(n as int);
        assert(e.drop_last() =~= entries.take(n - 1));
        assert(e.last() == entries[n - 1]);
        assert(ctor_views(bindings(e)) =~= ctor_map(table, n));
    }
}

/// Every constructor tag is below the number of constructors.
pub proof fn lemma_ctor_tags(table: Seq<CtorModel>, n: nat, name: Seq<char>)
    requires
        n <= table.len(),
        ctor_map(table, n).contains_key(name),
    ensures
        ctor_map(table, n)[name].tag < n,
    decreases n,
{
    if table[n - 1].name != name {
        lemma_ctor_tags(table, (n - 1) as nat, name);
    }
}

/// A closure tag never collides with a constructor tag.
pub proof fn tags_disjoint(table: Seq<CtorModel>, ctor: Seq<char>, cx: CxV, lam: Seq<char>)
    requires
        cx.ctors == ctor_map(table, table.len()),
        cx.closure_base == table.len(),
        cx.ctors.contains_key(ctor),
        cx.closure_tag(lam) is Some,
    ensures
        cx.ctors[ctor].tag < cx.closure_tag(lam)->Some_0,
{
    lemma_ctor_tags(table, table.len(), ctor);
}

// ---------------------------------------------------------------------------
// String literals
// ---------------------------------------------------------------------------

/// The pool with the literal of an atom, if it is one.
pub open spec fn atom_lits(a: Atom, pool: Seq<Seq<char>>) -> Seq<Seq<char>> {
    match a {
        Atom::Str(s) => if position(pool, s@) is Some {
            pool
        } else {
            pool.push(s@)
        },
        _ => pool,
    }
}

/// The pool with the literals of the first `n` atoms.
pub open spec fn atoms_lits(atoms: Seq<Atom>, n: nat, pool: Seq<Seq<char>>) -> Seq<Seq<char>>
    decreases n,
{
    if n == 0 || n > atoms.len() {
        pool
    } else {
        atom_lits(atoms[n - 1], atoms_lits(atoms, (n - 1) as nat, pool))
    }
}

/// The pool with the literals of a binding, in the order of their occurrence.
pub open spec fn bind_lits(b: Bind, pool: Seq<Seq<char>>) -> Seq<Seq<char>>
    decreases b, 0nat,
{
    match b {
        Bind::Atom(a) => atom_lits(a, pool),
        Bind::Unary(_, a) => atom_lits(a, pool),
        Bind::Prim(_, l, r) => atom_lits(r, atom_lits(l, pool)),
        Bind::Ctor(_, fs) => atoms_lits(fs@, fs@.len(), pool),
        Bind::Call(_, fs) => atoms_lits(fs@, fs@.len(), pool),
        Bind::CtorReuse(_, _, fs) => atoms_lits(fs@, fs@.len(), pool),
        Bind::MakeClosure(_, fs) => atoms_lits(fs@, fs@.len(), pool),
        Bind::ApplyClosure(c, fs, _) => atoms_lits(fs@, fs@.len(), atom_lits(c, pool)),
        Bind::If(c, t, e) => iexpr_lits(*e, iexpr_lits(*t, atom_lits(c, pool))),
        Bind::Match(s, arms) => arms_lits(arms@, arms@.len(), atom_lits(s, pool)),
    }
}

/// The pool with the literals of the first `n` arms.
pub open spec fn arms_lits(arms: Seq<IArm>, n: nat, pool: Seq<Seq<char>>) -> Seq<Seq<char>>
    decreases arms, n,
{
    if n == 0 || n > arms.len() {
        pool
    } else {
        iexpr_lits(arms[n - 1].body, arms_lits(arms, (n - 1) as nat, pool))
    }
}

/// The pool with the literals of an expression.
pub open spec fn iexpr_lits(e: IExpr, pool: Seq<Seq<char>>) -> Seq<Seq<char>>
    decreases e, 0nat,
{
    match e {
        IExpr::Ret(a) => atom_lits(a, pool),
        IExpr::Let(_, b, body) => iexpr_lits(*body, bind_lits(b, pool)),
        IExpr::Dup(_, b) => iexpr_lits(*b, pool),
        IExpr::Drop(_, b) => iexpr_lits(*b, pool),
        IExpr::DropReuse(_, _, b) => iexpr_lits(*b, pool),
        IExpr::TailCall(args) => atoms_lits(args@, args@.len(), pool),
    }
}

/// Adds the literal of an atom to the pool.
pub fn collect_lit_atom(a: &Atom, out: &mut Vec<String>)
    ensures
        views(final(out)@) == atom_lits(*a, views(old(out)@)),
{
    if let Atom::Str(s) = a {
        if position_of(out, s.as_str()).is_none() {
            let ghost before = out@;
            out.push(s.clone());
            assert(views(out@) =~= views(before).push(s@));
        }
    }
}

fn collect_lits_atoms(atoms: &Vec<Atom>, n: usize, out: &mut Vec<String>)
    requires
        n <= atoms@.len(),
    ensures
        views(final(out)@) == atoms_lits(atoms@, n as nat, views(old(out)@)),
    decreases n,
{
    if n > 0 {
        collect_lits_atoms(atoms, n - 1, out);
        collect_lit_atom(&atoms[n - 1], out);
    }
}

/// Adds the literals of a binding to the pool.
pub fn collect_lits_bind(b: &Bind, out: &mut Vec<String>)
    ensures
        views(final(out)@) == bind_lits(*b, views(old(out)@)),
    decreases b, 0nat,
{
    match b {
        Bind::Atom(a) => collect_lit_atom(a, out),
        Bind::Unary(_, a) => collect_lit_atom(a, out),
        Bind::Prim(_, l, r) => {
            collect_lit_atom(l, out);
            collect_lit_atom(r, out);
        },
        Bind::Ctor(_, fs) => collect_lits_atoms(fs, fs.len(), out),
        Bind::Call(_, fs) => collect_lits_atoms(fs, fs.len(), out),
        Bind::CtorReuse(_, _, fs) => collect_lits_atoms(fs, fs.len(), out),
        Bind::MakeClosure(_, fs) => collect_lits_atoms(fs, fs.len(), out),
        Bind::ApplyClosure(c, fs, _) => {
            collect_lit_atom(c, out);
            collect_lits_atoms(fs, fs.len(), out);
        },
        Bind::If(c, t, e) => {
            collect_lit_atom(c, out);
            collect_lits_iexpr(t, out);
            collect_lits_iexpr(e, out);
        },
        Bind::Match(s, arms) => {
            collect_lit_atom(s, out);
            collect_lits_arms(arms, arms.len(), out);
        },
    }
}

fn collect_lits_arms(arms: &Vec<IArm>, n: usize, out: &mut Vec<String>)
    requires
        n <= arms@.len(),
    ensures
        views(final(out)@) == arms_lits(arms@, n as nat, views(old(out)@)),
    decreases arms@, n,
{
    if n > 0 {
        collect_lits_arms(arms, n - 1, out);
        collect_lits_iexpr(&arms[n - 1].body, out);
    }
}

/// Adds the literals of an expression to the pool.
pub fn collect_lits_iexpr(e: &IExpr, out: &mut Vec<String>)
    ensures
        views(final(out)@) == iexpr_lits(*e, views(old(out)@)),
    decreases e, 0nat,
{
    match e {
        IExpr::Ret(a) => collect_lit_atom(a, out),
        IExpr::Let(_, b, body) => {
            collect_lits_bind(b, out);
            collect_lits_iexpr(body, out);
        },
        IExpr::Dup(_, b) => collect_lits_iexpr(b, out),
        IExpr::Drop(_, b) => collect_lits_iexpr(b, out),
        IExpr::DropReuse(_, _, b) => collect_lits_iexpr(b, out),
        IExpr::TailCall(args) => collect_lits_atoms(args, args.len(), out),
    }
}

/// The pool with the literals of the first `n` named functions, those without a
/// body left out.
pub open spec fn fns_lits(
    names: Seq<Seq<char>>,
    n: nat,
    fns: Map<Seq<char>, IFn>,
    pool: Seq<Seq<char>>,
) -> Seq<Seq<char>>
    decreases n,
{
    if n == 0 || n > names.len() {
        pool
    } else {
        let before = fns_lits(names, (n - 1) as nat, fns, pool);
        if fns.contains_key(names[n - 1]) {
            iexpr_lits(fns[names[n - 1]].body, before)
        } else {
            before
        }
    }
}

/// Adds the literals of the named functions to the pool.
pub fn collect_lits_fns(names: &Vec<String>, fns: &NameMap<IFn>, out: &mut Vec<String>)
    ensures
        views(final(out)@) == fns_lits(views(names@), names@.len(), fns@, views(old(out)@)),
{
    let ghost start = views(out@);
    let mut i: usize = 0;
    while i < names.len()
        invariant
            i <= names@.len(),
            views(out@) == fns_lits(views(names@), i as nat, fns@, start),
        decreases names@.len() - i,
    {
        assert(views(names@)[i as int] == names@[i as int]@);
        if let Some(f) = fns.get(names[i].as_str()) {
            collect_lits_iexpr(&f.body, out);
        }
        i = i + 1;
    }
}

/// Bytes in decimal.
pub open spec fn byte_texts(bytes: Seq<u8>) -> Seq<Seq<char>> {
    bytes.map_values(|b: u8| dec(b as int))
}

/// The declarations of the first `n` literals: the UTF-8 bytes of each and a
/// trailing zero.
pub open spec fn lit_decls(lits: Seq<Seq<char>>, n: nat, out: Seq<char>) -> Seq<char>
    decreases n,
{
    if n == 0 || n > lits.len() {
        out
    } else {
        lit_decls(lits, (n - 1) as nat, out) + fmt(
            "static const char {}[] = {{}};\n"@,
            seq![
                literal_name((n - 1) as nat),
                join(byte_texts(encode_utf8(lits[n - 1]).push(0)), ","@),
            ],
        )
    }
}

fn bytes_text(s: &str) -> (r: String)
    ensures
        r@ == join(byte_texts(encode_utf8(s@).push(0)), ","@),
{
    let bytes: &[u8] = s.as_bytes();
    let mut parts: Vec<String> = Vec::new();
    let mut i: usize = 0;
    while i < bytes.len()
        invariant
            i <= bytes@.len(),
            parts@.len() == i,
            forall|j: int| 0 <= j < i ==> (#[trigger] parts@[j])@ == dec(bytes@[j] as int),
        decreases bytes@.len() - i,
    {
        parts.push(usize_text(bytes[i] as usize));
        i = i + 1;
    }
    parts.push(usize_text(0));
    assert(views(parts@) =~= byte_texts(encode_utf8(s@).push(0)));
    join_strings(&parts, ",")
}

/// Emits the literal declarations.
pub fn emit_lit_decls(lits: &Vec<String>, out: &mut String)
    ensures
        final(out)@ == lit_decls(views(lits@), lits@.len(), old(out)@),
{
    let ghost start = out@;
    let mut i: usize = 0;
    while i < lits.len()
        invariant
            i <= lits@.len(),
            out@ == lit_decls(views(lits@), i as nat, start),
        decreases lits@.len() - i,
    {
        assert(views(lits@)[i as int] == lits@[i as int]@);
        let index: String = usize_text(i);
        let name: String = fill1("aria_lit_{}", index.as_str());
        let bytes: String = bytes_text(lits[i].as_str());
        put2(out, "static const char {}[] = {{}};\n", name.as_str(), bytes.as_str());
        i = i + 1;
    }
}

// ---------------------------------------------------------------------------
// Lambdas
// ---------------------------------------------------------------------------

/// The types of a lifted lambda: result, parameters, captures.
pub open spec fn lam_types(f: IFn) -> Result<(CType, Seq<CType>, Seq<CType>), Seq<char>> {
    match f.lam_sig {
        None => Err("c backend: lifted lambda missing its type signature"@),
        Some(sig) => match (
            CType::of(sig.ret_ty),
            ctypes_of(sig.param_tys@, sig.param_tys@.len()),
            ctypes_of(sig.capture_tys@, sig.capture_tys@.len()),
        ) {
            (Err(e), _, _) => Err(e),
            (_, Err(e), _) => Err(e),
            (_, _, Err(e)) => Err(e),
            (Ok(ret), Ok(params), Ok(caps)) => Ok((ret, params, caps)),
        },
    }
}

/// The C value types of a lifted lambda: (return, parameters, captures).
pub fn lam_c_types(f: &IFn) -> (r: Result<(CType, Vec<CType>, Vec<CType>), String>)
    ensures
        match lam_types(*f) {
            Ok((ret, params, caps)) => r matches Ok(p) && p.0 == ret && p.1@ == params && p.2@
                == caps,
            Err(e) => r matches Err(x) && x@ == e,
        },
{
    match &f.lam_sig {
        None => Err("c backend: lifted lambda missing its type signature".to_owned()),
        Some(sig) => {
            let ret: CType = CType::from_ty(&sig.ret_ty)?;
            let params: Vec<CType> = map_ctypes(&sig.param_tys)?;
            let caps: Vec<CType> = map_ctypes(&sig.capture_tys)?;
            Ok((ret, params, caps))
        },
    }
}

/// The names of the lifted lambdas.
pub open spec fn lambda_names(fns: Map<Seq<char>, IFn>) -> Set<Seq<char>> {
    Set::new(|n: Seq<char>| fns.contains_key(n) && fns[n].lam_sig is Some)
}

proof fn lemma_bound_names(s: Seq<(String, IFn)>, name: Seq<char>)
    ensures
        bindings(s).contains_key(name) <==> exists|i: int|
            0 <= i < s.len() && (#[trigger] s[i]).0@ == name,
    decreases s.len(),
{
    if s.len() > 0 {
        let t = s.drop_last();
        lemma_bound_names(t, name);
        if bindings(t).contains_key(name) {
            let i = choose|i: int| 0 <= i < t.len() && (#[trigger] t[i]).0@ == name;
            assert(s[i].0@ == name);
        }
        if s.last().0@ == name {
            assert(s[s.len() - 1].0@ == name);
        }
        if exists|i: int| 0 <= i < s.len() && (#[trigger] s[i]).0@ == name {
            let i = choose|i: int| 0 <= i < s.len() && (#[trigger] s[i]).0@ == name;
            if i < t.len() {
                assert(t[i].0@ == name);
            }
        }
    }
}

/// The lifted lambdas in name order.
pub fn sorted_lambdas(fns: &NameMap<IFn>) -> (r: Vec<String>)
    ensures
        views(r@) == listed(lambda_names(fns@)),
        forall|i: int|
            0 <= i < r@.len() ==> fns@.contains_key((#[trigger] r@[i])@) && fns@[r@[i]@].lam_sig is Some,
{
    let mut set: NameSet = NameSet::new();
    let mut i: usize = 0;
    while i < fns.entries.len()
        invariant
            i <= fns.entries@.len(),
            set.wf(),
            forall|n: Seq<char>| #[trigger]
                set@.contains(n) <==> lambda_names(fns@).contains(n) && exists|j: int|
                    0 <= j < i && (#[trigger] fns.entries@[j]).0@ == n,
        decreases fns.entries@.len() - i,
    {
        let name: &str = fns.entries[i].0.as_str();
        let ghost before = set@;
        proof {
            lemma_bound_names(fns.entries@, name@);
            assert(fns.entries@[i as int].0@ == name@);
        }
        if let Some(f) = fns.get(name) {
            if f.lam_sig.is_some() {
                set.insert(name);
            }
        }
        i = i + 1;
        proof {
            assert forall|n: Seq<char>| #[trigger] set@.contains(n) <==> lambda_names(
                fns@,
            ).contains(n) && exists|j: int| 0 <= j < i && (#[trigger] fns.entries@[j]).0@ == n by {
                if before.contains(n) {
                    let j = choose|j: int| 0 <= j < i - 1 && (#[trigger] fns.entries@[j]).0@ == n;
                    assert(fns.entries@[j].0@ == n);
                }
                if lambda_names(fns@).contains(n) && exists|j: int|
                    0 <= j < i && (#[trigger] fns.entries@[j]).0@ == n {
                    let j = choose|j: int| 0 <= j < i && (#[trigger] fns.entries@[j]).0@ == n;
                    if j < i - 1 {
                        assert(before.contains(n));
                    }
                }
            }
        }
    }
    proof {
        assert forall|n: Seq<char>| set@.contains(n) <==> lambda_names(fns@).contains(n) by {
            lemma_bound_names(fns.entries@, n);
        }
        assert(set@ =~= lambda_names(fns@));
    }
    let r: Vec<String> = set.into_vec();
    proof {
        assert forall|i: int| 0 <= i < r@.len() implies fns@.contains_key((#[trigger] r@[i])@)
            && fns@[r@[i]@].lam_sig is Some by {
            assert(views(r@)[i] == r@[i]@);
            assert(views(r@).contains(r@[i]@));
            assert(lambda_names(fns@).contains(r@[i]@));
        }
    }
    r
}

// ---------------------------------------------------------------------------
// Declarations
// ---------------------------------------------------------------------------

/// The parameter list of a function without captures.
pub open spec fn param_list(parts: Seq<Seq<char>>) -> Seq<char> {
    if parts.len() == 0 {
        "void"@
    } else {
        join(parts, ", "@)
    }
}

pub fn params_text(parts: &Vec<String>) -> (r: String)
    ensures
        r@ == param_list(views(parts@)),
{
    if parts.len() == 0 {
        "void".to_owned()
    } else {
        join_strings(parts, ", ")
    }
}

/// The forward declarations of the first `n` functions.
pub open spec fn fn_decls(
    order: Seq<Seq<char>>,
    n: nat,
    sigs: Map<Seq<char>, SigV>,
    out: Seq<char>,
) -> Seq<char>
    decreases n,
{
    if n == 0 || n > order.len() {
        out
    } else {
        let sig = sigs[order[n - 1]];
        fn_decls(order, (n - 1) as nat, sigs, out) + fmt(
            "static {} {}({});\n"@,
            seq![
                sig.ret.declared(),
                fn_name(order[n - 1]),
                param_list(declared_all(sig.params)),
            ],
        )
    }
}

/// Emits the forward declarations.
pub fn emit_fn_decls(order: &Vec<String>, sigs: &NameMap<FnSig>, out: &mut String)
    requires
        forall|i: int| 0 <= i < order@.len() ==> sigs@.contains_key((#[trigger] order@[i])@),
    ensures
        final(out)@ == fn_decls(views(order@), order@.len(), sig_views(sigs@), old(out)@),
{
    let ghost start = out@;
    let mut i: usize = 0;
    while i < order.len()
        invariant
            i <= order@.len(),
            forall|i: int| 0 <= i < order@.len() ==> sigs@.contains_key((#[trigger] order@[i])@),
            out@ == fn_decls(views(order@), i as nat, sig_views(sigs@), start),
        decreases order@.len() - i,
    {
        assert(views(order@)[i as int] == order@[i as int]@);
        let name: &str = order[i].as_str();
        if let Some(sig) = sigs.get(name) {
            let decls: Vec<String> = decls_of(&sig.params);
            let params: String = params_text(&decls);
            let cname: String = cfn(name);
            put3(out, "static {} {}({});\n", sig.ret.decl(), cname.as_str(), params.as_str());
        }
        i = i + 1;
    }
}

/// The forward declarations of the first `n` lambdas, which take the closure cell
/// before their parameters.
pub open spec fn lam_decls(
    lams: Seq<Seq<char>>,
    n: nat,
    fns: Map<Seq<char>, IFn>,
    out: Seq<char>,
) -> Result<Seq<char>, Seq<char>>
    decreases n,
{
    if n == 0 || n > lams.len() {
        Ok(out)
    } else {
        match lam_decls(lams, (n - 1) as nat, fns, out) {
            Err(e) => Err(e),
            Ok(o) => match lam_types(fns[lams[n - 1]]) {
                Err(e) => Err(e),
                Ok((ret, params, _)) => Ok(
                    o + fmt(
                        "static {} {}({});\n"@,
                        seq![
                            ret.declared(),
                            fn_name(lams[n - 1]),
                            joined_after("void*"@, declared_all(params)),
                        ],
                    ),
                ),
            },
        }
    }
}

/// What a text emission promises.
pub open spec fn appends(r: Result<(), String>, after: Seq<char>, code: Result<
    Seq<char>,
    Seq<char>,
>) -> bool {
    match code {
        Ok(o) => r is Ok && after == o,
        Err(e) => r matches Err(x) && x@ == e,
    }
}

pub fn emit_lam_decls(lams: &Vec<String>, n: usize, fns: &NameMap<IFn>, out: &mut String) -> (res:
    Result<(), String>)
    requires
        n <= lams@.len(),
        forall|i: int| 0 <= i < lams@.len() ==> fns@.contains_key((#[trigger] lams@[i])@),
    ensures
        appends(res, final(out)@, lam_decls(views(lams@), n as nat, fns@, old(out)@)),
    decreases n,
{
    if n == 0 {
        return Ok(());
    }
    emit_lam_decls(lams, n - 1, fns, out)?;
    assert(views(lams@)[n - 1] == lams@[n - 1]@);
    let name: &str = lams[n - 1].as_str();
    if let Some(f) = fns.get(name) {
        let (ret, params, _caps) = lam_c_types(f)?;
        let decls: Vec<String> = decls_of(&params);
        let list: String = join_after("void*", &decls);
        let cname: String = cfn(name);
        put3(out, "static {} {}({});\n", ret.decl(), cname.as_str(), list.as_str());
    }
    Ok(())
}

/// The entries of the dispatch table.
pub open spec fn table_entries(lams: Seq<Seq<char>>) -> Seq<Seq<char>> {
    lams.map_values(|l: Seq<char>| fmt("(void*){}"@, seq![fn_name(l)]))
}

/// The dispatch table, indexed by the closure tag less the closure base. A table
/// without lambdas holds a zero.
pub open spec fn dispatch_table(lams: Seq<Seq<char>>) -> Seq<char> {
    fmt(
        "static void* __aria_lam_table[] = {{}};\n\n"@,
        seq![
            if lams.len() == 0 {
                "0"@
            } else {
                join(table_entries(lams), ", "@)
            },
        ],
    )
}

pub fn emit_dispatch_table(lams: &Vec<String>, out: &mut String)
    ensures
        final(out)@ == old(out)@ + dispatch_table(views(lams@)),
{
    let mut parts: Vec<String> = Vec::new();
    let mut i: usize = 0;
    while i < lams.len()
        invariant
            i <= lams@.len(),
            parts@.len() == i,
            forall|j: int|
                0 <= j < i ==> (#[trigger] parts@[j])@ == fmt("(void*){}"@, seq![fn_name(lams@[j]@)]),
        decreases lams@.len() - i,
    {
        let cname: String = cfn(lams[i].as_str());
        parts.push(fill1("(void*){}", cname.as_str()));
        i = i + 1;
    }
    assert(views(parts@) =~= table_entries(views(lams@)));
    let inner: String = if lams.len() == 0 {
        "0".to_owned()
    } else {
        join_strings(&parts, ", ")
    };
    put1(out, "static void* __aria_lam_table[] = {{}};\n\n", inner.as_str());
}

// ---------------------------------------------------------------------------
// Per-tag helpers
// ---------------------------------------------------------------------------

/// Whether the constructor at `i` is the one that its name stands for.
pub open spec fn in_force(table: Seq<CtorModel>, i: int) -> bool {
    forall|j: int| i < j < table.len() ==> (#[trigger] table[j]).name != table[i].name
}

/// The runtime function that compares two fields by content, for the types that
/// have one.
pub open spec fn field_equality(t: CType) -> Option<Seq<char>> {
    match t {
        CType::Str => Some("aria_streq"@),
        CType::Ref => Some("aria_eq"@),
        CType::Bytes => Some("aria_byteseq"@),
        CType::Dict(_, _) => Some("aria_map_eq"@),
        CType::Bag(_) => Some("aria_set_eq"@),
        CType::Vector => Some("aria_veceq"@),
        _ => None,
    }
}

fn field_eq_fn(t: CType) -> (r: Option<&'static str>)
    ensures
        match r {
            Some(s) => field_equality(t) == Some(s@),
            None => field_equality(t) is None,
        },
{
    match t {
        CType::Str => Some("aria_streq"),
        CType::Ref => Some("aria_eq"),
        CType::Bytes => Some("aria_byteseq"),
        CType::Dict(_, _) => Some("aria_map_eq"),
        CType::Bag(_) => Some("aria_set_eq"),
        CType::Vector => Some("aria_veceq"),
        _ => None,
    }
}

/// The comparison of field `i`: Int, Bool and array fields by slot, Float fields
/// as numbers, the others by content.
pub open spec fn field_eq_line(t: CType, i: nat) -> Seq<char> {
    let ix = dec(i as int);
    match field_equality(t) {
        Some(f) => fmt(
            "        eq = eq && {}((void*)(uintptr_t)aria_field(a, {}), (void*)(uintptr_t)aria_field(b, {}));\n"@,
            seq![f, ix, ix],
        ),
        None => if t == CType::Float {
            fmt(
                "        eq = eq && (aria_i2f(aria_field(a, {})) == aria_i2f(aria_field(b, {})));\n"@,
                seq![ix, ix],
            )
        } else {
            fmt("        eq = eq && (aria_field(a, {}) == aria_field(b, {}));\n"@, seq![ix, ix])
        },
    }
}

/// The comparisons of the first `n` fields.
pub open spec fn fields_eq(types: Seq<CType>, n: nat, out: Seq<char>) -> Seq<char>
    decreases n,
{
    if n == 0 || n > types.len() {
        out
    } else {
        fields_eq(types, (n - 1) as nat, out) + field_eq_line(types[n - 1], (n - 1) as nat)
    }
}

fn emit_fields_eq(types: &Vec<CType>, out: &mut String)
    ensures
        final(out)@ == fields_eq(types@, types@.len(), old(out)@),
{
    let ghost start = out@;
    let mut i: usize = 0;
    while i < types.len()
        invariant
            i <= types@.len(),
            out@ == fields_eq(types@, i as nat, start),
        decreases types@.len() - i,
    {
        let ix: String = usize_text(i);
        let t: CType = types[i];
        match field_eq_fn(t) {
            Some(f) => put3(
                out,
                "        eq = eq && {}((void*)(uintptr_t)aria_field(a, {}), (void*)(uintptr_t)aria_field(b, {}));\n",
                f,
                ix.as_str(),
                ix.as_str(),
            ),
            None => {
                if t == CType::Float {
                    put2(
                        out,
                        "        eq = eq && (aria_i2f(aria_field(a, {})) == aria_i2f(aria_field(b, {})));\n",
                        ix.as_str(),
                        ix.as_str(),
                    );
                } else {
                    put2(
                        out,
                        "        eq = eq && (aria_field(a, {}) == aria_field(b, {}));\n",
                        ix.as_str(),
                        ix.as_str(),
                    );
                }
            },
        }
        i = i + 1;
    }
}

/// The equality cases of the first `n` constructors.
pub open spec fn eq_cases(table: Seq<CtorModel>, n: nat, out: Seq<char>) -> Seq<char>
    decreases n,
{
    if n == 0 || n > table.len() {
        out
    } else {
        let before = eq_cases(table, (n - 1) as nat, out);
        if in_force(table, n - 1) {
            fields_eq(
                table[n - 1].fields,
                table[n - 1].fields.len(),
                before + fmt("    if (aria_tag(a) == INT64_C({})) {\n"@, seq![dec(n - 1)])
                    + "        int64_t eq = 1;\n"@,
            ) + "        return eq;\n    }\n"@
        } else {
            before
        }
    }
}

/// `aria_eq`: structural equality of cells, by tag.
pub open spec fn eq_helper(table: Seq<CtorModel>, out: Seq<char>) -> Seq<char> {
    eq_cases(
        table,
        table.len(),
        out + "static int64_t aria_eq(void* a, void* b) {\n    if (aria_tag(a) != aria_tag(b)) return 0;\n"@,
    ) + "    return 0;\n}\n\n"@
}

/// Emits `aria_eq`: structural equality of cells, per tag, recursing into Ref
/// fields.
pub fn emit_eq_helper(ctors: &NameMap<CtorInfo>, out: &mut String, Ghost(table): Ghost<
    Seq<CtorModel>,
>)
    requires
        holds_table(ctors.entries@, table),
    ensures
        final(out)@ == eq_helper(table, old(out)@),
{
    out.append(
        "static int64_t aria_eq(void* a, void* b) {\n    if (aria_tag(a) != aria_tag(b)) return 0;\n",
    );
    let ghost start = out@;
    let mut i: usize = 0;
    while i < ctors.entries.len()
        invariant
            i <= ctors.entries@.len(),
            holds_table(ctors.entries@, table),
            out@ == eq_cases(table, i as nat, start),
        decreases ctors.entries@.len() - i,
    {
        proof {
            lemma_in_force(ctors.entries@, table, i as int);
        }
        if is_current(ctors, i) {
            let info: &CtorInfo = &ctors.entries[i].1;
            assert(ctors.entries@[i as int].1.tag == i);
            let tag: String = usize_text(info.tag);
            put1(out, "    if (aria_tag(a) == INT64_C({})) {\n", tag.as_str());
            out.append("        int64_t eq = 1;\n");
            emit_fields_eq(&info.field_types, out);
            out.append("        return eq;\n    }\n");
        }
        i = i + 1;
    }
    out.append("    return 0;\n}\n\n");
}

proof fn lemma_in_force(entries: Seq<(String, CtorInfo)>, table: Seq<CtorModel>, i: int)
    requires
        holds_table(entries, table),
        0 <= i < table.len(),
    ensures
        current(entries, i) == in_force(table, i),
{
    assert(entries[i].0@ == table[i].name);
    if current(entries, i) {
        assert forall|j: int| i < j < table.len() implies (#[trigger] table[j]).name
            != table[i].name by {
            assert(entries[j].0@ == table[j].name);
        }
    }
    if in_force(table, i) {
        assert forall|j: int| i < j < entries.len() implies (#[trigger] entries[j]).0@
            != entries[i].0@ by {
            assert(table[j].name != table[i].name);
        }
    }
}

/// The releases of the managed ones among the first `n` fields.
pub open spec fn releases(types: Seq<CType>, n: nat, out: Seq<char>) -> Seq<char>
    decreases n,
{
    if n == 0 || n > types.len() {
        out
    } else {
        let before = releases(types, (n - 1) as nat, out);
        match managed_stem(types[n - 1]) {
            Some(s) => before + fmt(
                "        {}drop((void*)(uintptr_t)aria_field(p, {}));\n"@,
                seq![s, dec(n - 1)],
            ),
            None => before,
        }
    }
}

/// Emits the release of field `i` of a dead cell, if it is managed.
pub fn emit_drop_managed_field(t: CType, i: usize, out: &mut String)
    ensures
        final(out)@ == (match managed_stem(t) {
            Some(s) => old(out)@ + fmt(
                "        {}drop((void*)(uintptr_t)aria_field(p, {}));\n"@,
                seq![s, dec(i as int)],
            ),
            None => old(out)@,
        }),
{
    if let Some(s) = stem(t) {
        let ix: String = usize_text(i);
        put2(out, "        {}drop((void*)(uintptr_t)aria_field(p, {}));\n", s, ix.as_str());
    }
}

/// Whether any of the types is managed.
pub open spec fn any_managed(types: Seq<CType>) -> bool {
    exists|i: int| 0 <= i < types.len() && (#[trigger] types[i]).managed()
}

fn has_managed(types: &Vec<CType>) -> (r: bool)
    ensures
        r == any_managed(types@),
{
    let mut i: usize = 0;
    while i < types.len()
        invariant
            i <= types@.len(),
            forall|j: int| 0 <= j < i ==> !(#[trigger] types@[j]).managed(),
        decreases types@.len() - i,
    {
        if types[i].is_managed() {
            return true;
        }
        i = i + 1;
    }
    false
}

/// The release case of a tag; nothing if no field is managed.
pub open spec fn drop_case(types: Seq<CType>, tag: int, out: Seq<char>) -> Seq<char> {
    if any_managed(types) {
        releases(
            types,
            types.len(),
            out + fmt("    if (tag == INT64_C({})) {\n"@, seq![dec(tag)]),
        ) + "        return;\n    }\n"@
    } else {
        out
    }
}

fn emit_drop_case(types: &Vec<CType>, tag: u128, out: &mut String)
    ensures
        final(out)@ == drop_case(types@, tag as int, old(out)@),
{
    if has_managed(types) {
        let text: String = u128_text(tag);
        put1(out, "    if (tag == INT64_C({})) {\n", text.as_str());
        let ghost start = out@;
        let mut i: usize = 0;
        while i < types.len()
            invariant
                i <= types@.len(),
                out@ == releases(types@, i as nat, start),
            decreases types@.len() - i,
        {
            emit_drop_managed_field(types[i], i, out);
            i = i + 1;
        }
        out.append("        return;\n    }\n");
    }
}

/// The release cases of the first `n` constructors.
pub open spec fn ctor_drops(table: Seq<CtorModel>, n: nat, out: Seq<char>) -> Seq<char>
    decreases n,
{
    if n == 0 || n > table.len() {
        out
    } else {
        let before = ctor_drops(table, (n - 1) as nat, out);
        if in_force(table, n - 1) {
            drop_case(table[n - 1].fields, n - 1, before)
        } else {
            before
        }
    }
}

/// The release cases of the first `n` closures.
pub open spec fn closure_drops(
    lams: Seq<Seq<char>>,
    n: nat,
    base: nat,
    fns: Map<Seq<char>, IFn>,
    out: Seq<char>,
) -> Result<Seq<char>, Seq<char>>
    decreases n,
{
    if n == 0 || n > lams.len() {
        Ok(out)
    } else {
        match closure_drops(lams, (n - 1) as nat, base, fns, out) {
            Err(e) => Err(e),
            Ok(before) => match lam_types(fns[lams[n - 1]]) {
                Err(e) => Err(e),
                Ok((_, _, caps)) => Ok(drop_case(caps, base + n - 1, before)),
            },
        }
    }
}

/// `aria_drop_children`: the release of a dead cell's managed fields, by tag.
pub open spec fn drop_helper(
    table: Seq<CtorModel>,
    lams: Seq<Seq<char>>,
    fns: Map<Seq<char>, IFn>,
    out: Seq<char>,
) -> Result<Seq<char>, Seq<char>> {
    match closure_drops(
        lams,
        lams.len(),
        table.len(),
        fns,
        ctor_drops(
            table,
            table.len(),
            out + "static void aria_drop_children(void* p) {\n    int64_t tag = aria_tag(p);\n"@,
        ),
    ) {
        Err(e) => Err(e),
        Ok(o) => Ok(o + "    (void)tag;\n}\n\n"@),
    }
}

fn emit_closure_drops(
    lams: &Vec<String>,
    n: usize,
    base: usize,
    fns: &NameMap<IFn>,
    out: &mut String,
) -> (res: Result<(), String>)
    requires
        n <= lams@.len(),
        forall|i: int| 0 <= i < lams@.len() ==> fns@.contains_key((#[trigger] lams@[i])@),
    ensures
        appends(
            res,
            final(out)@,
            closure_drops(views(lams@), n as nat, base as nat, fns@, old(out)@),
        ),
    decreases n,
{
    if n == 0 {
        return Ok(());
    }
    emit_closure_drops(lams, n - 1, base, fns, out)?;
    assert(views(lams@)[n - 1] == lams@[n - 1]@);
    if let Some(f) = fns.get(lams[n - 1].as_str()) {
        let (_ret, _params, caps) = lam_c_types(f)?;
        emit_drop_case(&caps, base as u128 + (n - 1) as u128, out);
    }
    Ok(())
}

/// Emits `aria_drop_children`.
pub fn emit_drop_children_helper(
    ctors: &NameMap<CtorInfo>,
    lams: &Vec<String>,
    fns: &NameMap<IFn>,
    out: &mut String,
    Ghost(table): Ghost<Seq<CtorModel>>,
) -> (res: Result<(), String>)
    requires
        holds_table(ctors.entries@, table),
        forall|i: int| 0 <= i < lams@.len() ==> fns@.contains_key((#[trigger] lams@[i])@),
    ensures
        appends(res, final(out)@, drop_helper(table, views(lams@), fns@, old(out)@)),
{
    out.append("static void aria_drop_children(void* p) {\n    int64_t tag = aria_tag(p);\n");
    let ghost start = out@;
    let mut i: usize = 0;
    while i < ctors.entries.len()
        invariant
            i <= ctors.entries@.len(),
            holds_table(ctors.entries@, table),
            out@ == ctor_drops(table, i as nat, start),
        decreases ctors.entries@.len() - i,
    {
        proof {
            lemma_in_force(ctors.entries@, table, i as int);
            assert(ctors.entries@[i as int].1.tag == i);
        }
        if is_current(ctors, i) {
            let info: &CtorInfo = &ctors.entries[i].1;
            emit_drop_case(&info.field_types, info.tag as u128, out);
        }
        i = i + 1;
    }
    emit_closure_drops(lams, lams.len(), ctors.entries.len(), fns, out)?;
    out.append("    (void)tag;\n}\n\n");
    Ok(())
}

} // verus!
