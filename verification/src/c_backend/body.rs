//! Emission of function bodies: constructors, closures, matches and the chain of
//! bindings itself.

use vstd::prelude::*;
use vstd::string::*;

use crate::ast::Ty;
use crate::c_backend::emit::{
    call_code, counted, emit_call, emit_count, emit_prim, emit_store, emit_unary, emits, grew,
    prim_code, stored, taken, temp_name, unary_code, Emitter, St,
};
use crate::c_backend::env::{
    atom_code, atom_type, atoms_code, ctor_of, emit_atom, emit_atoms, get_ctor, position_of,
    type_of_atom, type_of_var, var_type, CtorInfo, CtorV, Cx, CxV, typed_views,
};
use crate::c_backend::infer::{bind_type, dead_end, is_unreachable_unit, type_of_bind};
use crate::c_backend::kinds::CType;
use crate::c_backend::mangle::{cvar, var_name};
use crate::ir::{Atom, Bind, IArm, IExpr};
use crate::text::{
    dec, fill1, fill2, fill4, fmt, join, join_strings, put1, put2, put3, put4, put7, u128_text,
    usize_text, views,
};

verus! {

// ---------------------------------------------------------------------------
// Constructors
// ---------------------------------------------------------------------------

/// The constructor of a name, if the number of fields is right.
pub open spec fn checked_ctor(name: Seq<char>, fields: Seq<Atom>, cx: CxV) -> Result<
    CtorV,
    Seq<char>,
> {
    match ctor_of(cx.ctors, name) {
        Err(e) => Err(e),
        Ok(info) => if fields.len() != info.fields.len() {
            Err(
                fmt(
                    "c backend: ctor `{}` got {} fields, expected {}"@,
                    seq![name, dec(fields.len() as int), dec(info.fields.len() as int)],
                ),
            )
        } else {
            Ok(info)
        },
    }
}

/// The constructor of a name, if the number of fields is right.
pub fn check_ctor<'a>(name: &str, fields: &Vec<Atom>, cx: &Cx<'a>) -> (r: Result<
    &'a CtorInfo,
    String,
>)
    ensures
        match checked_ctor(name@, fields@, cx@) {
            Ok(info) => r matches Ok(i) && i@ == info,
            Err(e) => r matches Err(x) && x@ == e,
        },
{
    let info: &'a CtorInfo = get_ctor(cx.ctors, name)?;
    if fields.len() != info.arity() {
        let got: String = usize_text(fields.len());
        let expected: String = usize_text(info.arity());
        return Err(
            crate::text::fill3(
                "c backend: ctor `{}` got {} fields, expected {}",
                name,
                got.as_str(),
                expected.as_str(),
            ),
        );
    }
    Ok(info)
}

/// The stores of the first `n` fields of a constructor.
pub open spec fn fields_code(
    name: Seq<char>,
    fields: Seq<Atom>,
    types: Seq<CType>,
    n: nat,
    cell: Seq<char>,
    st: St,
    lits: Seq<Seq<char>>,
    ind: Seq<char>,
) -> Result<St, Seq<char>>
    decreases n,
{
    if n == 0 || n > fields.len() || n > types.len() {
        Ok(st)
    } else {
        match fields_code(name, fields, types, (n - 1) as nat, cell, st, lits, ind) {
            Err(e) => Err(e),
            Ok(s) => match atom_code(fields[n - 1], s.types, lits) {
                Err(e) => Err(e),
                Ok((t, ex)) => if t != types[n - 1] {
                    Err(
                        fmt(
                            "c backend: ctor `{}` field {} type mismatch (got {}, expected {})"@,
                            seq![name, dec(n - 1), t.text(), types[n - 1].text()],
                        ),
                    )
                } else {
                    Ok(stored(s, t, cell, (n - 1) as nat, ex, ind))
                },
            },
        }
    }
}

fn emit_fields(
    name: &str,
    fields: &Vec<Atom>,
    types: &Vec<CType>,
    n: usize,
    cell: &str,
    em: &mut Emitter,
    lits: &Vec<String>,
    ind: &str,
) -> (res: Result<(), String>)
    requires
        n <= fields@.len(),
        n <= types@.len(),
    ensures
        emits(
            res,
            old(em)@,
            final(em)@,
            fields_code(name@, fields@, types@, n as nat, cell@, old(em)@, views(lits@), ind@),
        ),
    decreases n,
{
    if n == 0 {
        return Ok(());
    }
    emit_fields(name, fields, types, n - 1, cell, em, lits, ind)?;
    let (t, ex) = emit_atom(&fields[n - 1], &em.types, lits)?;
    if t != types[n - 1] {
        let index: String = usize_text(n - 1);
        let got: String = t.describe();
        let expected: String = types[n - 1].describe();
        return Err(
            fill4(
                "c backend: ctor `{}` field {} type mismatch (got {}, expected {})",
                name,
                index.as_str(),
                got.as_str(),
                expected.as_str(),
            ),
        );
    }
    emit_store(em, t, cell, n - 1, ex.as_str(), ind);
    Ok(())
}

/// The tag and the fields of a constructor, stored in a cell.
pub open spec fn store_code(
    name: Seq<char>,
    fields: Seq<Atom>,
    cell: Seq<char>,
    info: CtorV,
    st: St,
    lits: Seq<Seq<char>>,
    ind: Seq<char>,
) -> Result<St, Seq<char>> {
    fields_code(
        name,
        fields,
        info.fields,
        fields.len(),
        cell,
        st.put("{}aria_set_tag({}, INT64_C({}));\n"@, seq![ind, cell, dec(info.tag as int)]),
        lits,
        ind,
    )
}

/// Stores the tag and each field into the cell.
pub fn emit_store_fields(
    name: &str,
    fields: &Vec<Atom>,
    cell: &str,
    info: &CtorInfo,
    em: &mut Emitter,
    lits: &Vec<String>,
    ind: &str,
) -> (res: Result<(), String>)
    requires
        fields@.len() == info.field_types@.len(),
    ensures
        emits(
            res,
            old(em)@,
            final(em)@,
            store_code(name@, fields@, cell@, info@, old(em)@, views(lits@), ind@),
        ),
{
    let tag: String = usize_text(info.tag);
    put3(&mut em.out, "{}aria_set_tag({}, INT64_C({}));\n", ind, cell, tag.as_str());
    emit_fields(name, fields, &info.field_types, fields.len(), cell, em, lits, ind)
}

/// A constructor in a fresh cell.
pub open spec fn ctor_code(
    name: Seq<char>,
    fields: Seq<Atom>,
    dst: Seq<char>,
    st: St,
    cx: CxV,
    ind: Seq<char>,
) -> Result<St, Seq<char>> {
    match checked_ctor(name, fields, cx) {
        Err(e) => Err(e),
        Ok(info) => store_code(
            name,
            fields,
            dst,
            info,
            st.put(
                "{}{} = aria_alloc({});\n"@,
                seq![ind, dst, dec(info.fields.len() as int)],
            ),
            cx.lits,
            ind,
        ),
    }
}

/// Emits a constructor in a fresh cell.
pub fn emit_ctor(
    name: &str,
    fields: &Vec<Atom>,
    dst: &str,
    em: &mut Emitter,
    cx: &Cx,
    ind: &str,
) -> (res: Result<(), String>)
    ensures
        emits(res, old(em)@, final(em)@, ctor_code(name@, fields@, dst@, old(em)@, cx@, ind@)),
        checked_ctor(name@, fields@, cx@) is Err ==> final(em)@ == old(em)@,
{
    let info: &CtorInfo = check_ctor(name, fields, cx)?;
    let arity: String = usize_text(info.arity());
    put3(&mut em.out, "{}{} = aria_alloc({});\n", ind, dst, arity.as_str());
    emit_store_fields(name, fields, dst, info, em, cx.lits, ind)
}

/// A constructor in the cell that the token holds, or in a fresh one.
pub open spec fn reuse_code(
    tok: Seq<char>,
    name: Seq<char>,
    fields: Seq<Atom>,
    dst: Seq<char>,
    st: St,
    cx: CxV,
    ind: Seq<char>,
) -> Result<St, Seq<char>> {
    match checked_ctor(name, fields, cx) {
        Err(e) => Err(e),
        Ok(info) => {
            let tv = var_name(tok);
            store_code(
                name,
                fields,
                dst,
                info,
                st.put(
                    "{}if ({} != NULL) { {} = aria_reuse({}); } else { {} = aria_alloc({}); }\n"@,
                    seq![ind, tv, dst, tv, dst, dec(info.fields.len() as int)],
                ),
                cx.lits,
                ind,
            )
        },
    }
}

/// Emits a constructor in the cell that the token holds, or in a fresh one.
pub fn emit_ctor_reuse(
    tok: &str,
    name: &str,
    fields: &Vec<Atom>,
    dst: &str,
    em: &mut Emitter,
    cx: &Cx,
    ind: &str,
) -> (res: Result<(), String>)
    ensures
        emits(res, old(em)@, final(em)@, reuse_code(tok@, name@, fields@, dst@, old(em)@, cx@, ind@)),
        checked_ctor(name@, fields@, cx@) is Err ==> final(em)@ == old(em)@,
{
    let info: &CtorInfo = check_ctor(name, fields, cx)?;
    let tv: String = cvar(tok);
    let arity: String = usize_text(info.arity());
    crate::text::put6(
        &mut em.out,
        "{}if ({} != NULL) { {} = aria_reuse({}); } else { {} = aria_alloc({}); }\n",
        ind,
        tv.as_str(),
        dst,
        tv.as_str(),
        dst,
        arity.as_str(),
    );
    emit_store_fields(name, fields, dst, info, em, cx.lits, ind)
}

// ---------------------------------------------------------------------------
// Closures
// ---------------------------------------------------------------------------

/// The stores of the first `n` captured values.
pub open spec fn captures_code(
    caps: Seq<Atom>,
    n: nat,
    cell: Seq<char>,
    st: St,
    lits: Seq<Seq<char>>,
    ind: Seq<char>,
) -> Result<St, Seq<char>>
    decreases n,
{
    if n == 0 || n > caps.len() {
        Ok(st)
    } else {
        match captures_code(caps, (n - 1) as nat, cell, st, lits, ind) {
            Err(e) => Err(e),
            Ok(s) => match atom_code(caps[n - 1], s.types, lits) {
                Err(e) => Err(e),
                Ok((t, ex)) => Ok(stored(s, t, cell, (n - 1) as nat, ex, ind)),
            },
        }
    }
}

fn emit_captures(
    caps: &Vec<Atom>,
    n: usize,
    cell: &str,
    em: &mut Emitter,
    lits: &Vec<String>,
    ind: &str,
) -> (res: Result<(), String>)
    requires
        n <= caps@.len(),
    ensures
        emits(
            res,
            old(em)@,
            final(em)@,
            captures_code(caps@, n as nat, cell@, old(em)@, views(lits@), ind@),
        ),
    decreases n,
{
    if n == 0 {
        return Ok(());
    }
    emit_captures(caps, n - 1, cell, em, lits, ind)?;
    let (t, ex) = emit_atom(&caps[n - 1], &em.types, lits)?;
    emit_store(em, t, cell, n - 1, ex.as_str(), ind);
    Ok(())
}

/// A closure cell: tagged with the lambda's closure tag, with the captured values
/// as fields.
pub open spec fn closure_code(
    lam: Seq<char>,
    caps: Seq<Atom>,
    dst: Seq<char>,
    st: St,
    cx: CxV,
    ind: Seq<char>,
) -> Result<St, Seq<char>> {
    match cx.closure_tag(lam) {
        None => Err(fmt("c backend: unknown lambda `{}`"@, seq![lam])),
        Some(tag) => captures_code(
            caps,
            caps.len(),
            dst,
            st.put("{}{} = aria_alloc({});\n"@, seq![ind, dst, dec(caps.len() as int)]).put(
                "{}aria_set_tag({}, INT64_C({}));\n"@,
                seq![ind, dst, dec(tag)],
            ),
            cx.lits,
            ind,
        ),
    }
}

/// Emits the allocation of a closure cell.
pub fn emit_make_closure(
    lam: &str,
    caps: &Vec<Atom>,
    dst: &str,
    em: &mut Emitter,
    cx: &Cx,
    ind: &str,
) -> (res: Result<(), String>)
    ensures
        emits(res, old(em)@, final(em)@, closure_code(lam@, caps@, dst@, old(em)@, cx@, ind@)),
        cx@.closure_tag(lam@) is None ==> final(em)@ == old(em)@,
{
    let index: usize = match position_of(&cx.closures.names, lam) {
        Some(i) => i,
        None => return Err(fill1("c backend: unknown lambda `{}`", lam)),
    };
    let tag: String = u128_text(cx.closures.base as u128 + index as u128);
    let count: String = usize_text(caps.len());
    put3(&mut em.out, "{}{} = aria_alloc({});\n", ind, dst, count.as_str());
    put3(&mut em.out, "{}aria_set_tag({}, INT64_C({}));\n", ind, dst, tag.as_str());
    emit_captures(caps, caps.len(), dst, em, cx.lits, ind)
}

/// The C names of a list of types.
pub open spec fn declared_all(ts: Seq<CType>) -> Seq<Seq<char>> {
    ts.map_values(|t: CType| t.declared())
}

/// The C names of a list of types.
pub fn decls_of(ts: &Vec<CType>) -> (r: Vec<String>)
    ensures
        views(r@) == declared_all(ts@),
{
    let mut r: Vec<String> = Vec::new();
    let mut i: usize = 0;
    while i < ts.len()
        invariant
            i <= ts@.len(),
            r@.len() == i,
            forall|j: int| 0 <= j < i ==> (#[trigger] r@[j])@ == ts@[j].declared(),
        decreases ts@.len() - i,
    {
        r.push(ts[i].decl().to_owned());
        i = i + 1;
    }
    assert(views(r@) =~= declared_all(ts@));
    r
}

/// The joined list with a first element before it.
pub open spec fn joined_after(first: Seq<char>, rest: Seq<Seq<char>>) -> Seq<char> {
    join(seq![first] + rest, ", "@)
}

/// The joined list with a first element before it.
pub fn join_after(first: &str, rest: &Vec<String>) -> (r: String)
    ensures
        r@ == joined_after(first@, views(rest@)),
{
    let mut all: Vec<String> = Vec::new();
    all.push(first.to_owned());
    let mut i: usize = 0;
    while i < rest.len()
        invariant
            i <= rest@.len(),
            all@.len() == i + 1,
            all@[0]@ == first@,
            forall|j: int| 0 <= j < i ==> (#[trigger] all@[j + 1])@ == rest@[j]@,
        decreases rest@.len() - i,
    {
        all.push(rest[i].clone());
        i = i + 1;
    }
    proof {
        assert forall|j: int| 0 < j < all@.len() implies (#[trigger] all@[j])@ == rest@[j - 1]@ by {
            assert(all@[(j - 1) + 1]@ == rest@[j - 1]@);
        }
        assert(views(all@) =~= seq![first@] + views(rest@));
    }
    join_strings(&all, ", ")
}

/// A closure applied: the tag selects the lambda in the dispatch table, which is
/// called with the cell and the arguments, and the application's hold on the
/// closure is released.
pub open spec fn apply_code(
    callee: Atom,
    args: Seq<Atom>,
    ret: Option<Ty>,
    dst: Seq<char>,
    st: St,
    cx: CxV,
    ind: Seq<char>,
) -> Result<St, Seq<char>> {
    match ret {
        None => Err("c backend: closure application missing its result type"@),
        Some(ty) => match CType::of(ty) {
            Err(e) => Err(e),
            Ok(rt) => match atom_code(callee, st.types, cx.lits) {
                Err(e) => Err(e),
                Ok((ct, fx)) => if ct != CType::Ref {
                    Err("c backend: applying a non-closure value"@)
                } else {
                    match atoms_code(args, args.len(), st.types, cx.lits) {
                        Err(e) => Err(e),
                        Ok((ts, exs)) => Ok(
                            st.put(
                                "{}{} = (({} (*)({})) __aria_lam_table[(aria_tag({}) - INT64_C({}))])({});\n"@,
                                seq![
                                    ind,
                                    dst,
                                    rt.declared(),
                                    joined_after("void*"@, declared_all(ts)),
                                    fx,
                                    dec(cx.closure_base as int),
                                    joined_after(fmt("(void*){}"@, seq![fx]), exs),
                                ],
                            ).put("{}aria_drop((void*){});\n"@, seq![ind, fx]),
                        ),
                    }
                },
            },
        },
    }
}

/// Emits the application of a closure.
pub fn emit_apply_closure(
    callee: &Atom,
    args: &Vec<Atom>,
    ret: &Option<Ty>,
    dst: &str,
    em: &mut Emitter,
    cx: &Cx,
    ind: &str,
) -> (res: Result<(), String>)
    ensures
        emits(res, old(em)@, final(em)@, apply_code(*callee, args@, *ret, dst@, old(em)@, cx@, ind@)),
        res is Err ==> final(em)@ == old(em)@,
{
    let rt: CType = match ret {
        Some(ty) => CType::from_ty(ty)?,
        None => {
            return Err("c backend: closure application missing its result type".to_owned());
        },
    };
    let (ct, fx) = emit_atom(callee, &em.types, cx.lits)?;
    if ct != CType::Ref {
        return Err("c backend: applying a non-closure value".to_owned());
    }
    let (ts, exs) = emit_atoms(args, &em.types, cx.lits)?;
    let decls: Vec<String> = decls_of(&ts);
    let params: String = join_after("void*", &decls);
    let cell: String = fill1("(void*){}", fx.as_str());
    let call_args: String = join_after(cell.as_str(), &exs);
    let base: String = usize_text(cx.closures.base);
    put7(
        &mut em.out,
        "{}{} = (({} (*)({})) __aria_lam_table[(aria_tag({}) - INT64_C({}))])({});\n",
        ind,
        dst,
        rt.decl(),
        params.as_str(),
        fx.as_str(),
        base.as_str(),
        call_args.as_str(),
    );
    put2(&mut em.out, "{}aria_drop((void*){});\n", ind, fx.as_str());
    Ok(())
}

// ---------------------------------------------------------------------------
// Bodies
// ---------------------------------------------------------------------------

/// The C expression that loads field `i` of the cell `sv` as a value of type `t`.
pub open spec fn field_load(t: CType, sv: Seq<char>, i: nat) -> Seq<char> {
    let args = seq![sv, dec(i as int)];
    match t {
        CType::Int | CType::Bool => fmt("aria_field({}, {})"@, args),
        CType::Float => fmt("aria_i2f(aria_field({}, {}))"@, args),
        _ => fmt("(void*)(uintptr_t)aria_field({}, {})"@, args),
    }
}

fn load_field(t: CType, sv: &str, i: usize) -> (r: String)
    ensures
        r@ == field_load(t, sv@, i as nat),
{
    let index: String = usize_text(i);
    match t {
        CType::Int | CType::Bool => fill2("aria_field({}, {})", sv, index.as_str()),
        CType::Float => fill2("aria_i2f(aria_field({}, {}))", sv, index.as_str()),
        _ => fill2("(void*)(uintptr_t)aria_field({}, {})", sv, index.as_str()),
    }
}

/// The declarations of the first `n` binders of a constructor arm.
pub open spec fn binders_code(
    sv: Seq<char>,
    binders: Seq<String>,
    types: Seq<CType>,
    n: nat,
    st: St,
    ind: Seq<char>,
) -> St
    decreases n,
{
    if n == 0 || n > binders.len() || n > types.len() {
        st
    } else {
        let t = types[n - 1];
        binders_code(sv, binders, types, (n - 1) as nat, st, ind).put(
            "{}{} {} = {};\n"@,
            seq![
                ind,
                t.declared(),
                var_name(binders[n - 1]@),
                field_load(t, sv, (n - 1) as nat),
            ],
        ).bind(binders[n - 1]@, t)
    }
}

fn emit_binders(
    sv: &str,
    binders: &Vec<String>,
    types: &Vec<CType>,
    n: usize,
    em: &mut Emitter,
    ind: &str,
)
    requires
        n <= binders@.len(),
        n <= types@.len(),
    ensures
        final(em)@ == binders_code(sv@, binders@, types@, n as nat, old(em)@, ind@),
        grew(old(em)@, final(em)@),
    decreases n,
{
    if n > 0 {
        emit_binders(sv, binders, types, n - 1, em, ind);
        let t: CType = types[n - 1];
        let cv: String = cvar(binders[n - 1].as_str());
        let load: String = load_field(t, sv, n - 1);
        put4(&mut em.out, "{}{} {} = {};\n", ind, t.decl(), cv.as_str(), load.as_str());
        em.types.insert(binders[n - 1].as_str(), t);
    }
}

/// The new values of the first `n` parameters of a tail call, each in a fresh
/// temporary: a parameter may occur in another argument.
pub open spec fn tail_temps(
    args: Seq<Atom>,
    params: Seq<(Seq<char>, CType)>,
    n: nat,
    st: St,
    lits: Seq<Seq<char>>,
    ind: Seq<char>,
) -> Result<St, Seq<char>>
    decreases n,
{
    if n == 0 || n > args.len() || n > params.len() {
        Ok(st)
    } else {
        match tail_temps(args, params, (n - 1) as nat, st, lits, ind) {
            Err(e) => Err(e),
            Ok(s) => match atom_code(args[n - 1], s.types, lits) {
                Err(e) => Err(e),
                Ok((_, ex)) => match taken(s) {
                    Err(e) => Err(e),
                    Ok(s2) => Ok(
                        s2.put(
                            "{}{} {} = {};\n"@,
                            seq![ind, params[n - 1].1.declared(), var_name(s.temp()), ex],
                        ),
                    ),
                },
            },
        }
    }
}

/// The reassignments of the first `n` parameters from the temporaries that start
/// at `first`.
pub open spec fn tail_moves(
    params: Seq<(Seq<char>, CType)>,
    n: nat,
    first: nat,
    st: St,
    ind: Seq<char>,
) -> St
    decreases n,
{
    if n == 0 || n > params.len() {
        st
    } else {
        tail_moves(params, (n - 1) as nat, first, st, ind).put(
            "{}{} = {};\n"@,
            seq![ind, var_name(params[n - 1].0), var_name(temp_name((first + n - 1) as nat))],
        )
    }
}

/// A self tail call: all arguments are evaluated, then the parameters are
/// overwritten and control goes back to the loop top.
pub open spec fn tail_code(args: Seq<Atom>, st: St, cx: CxV, ind: Seq<char>) -> Result<
    St,
    Seq<char>,
> {
    let params = cx.tail_params;
    if params.len() != args.len() {
        Err("c backend: TailCall arity mismatch (internal)"@)
    } else {
        match tail_temps(args, params, args.len(), st, cx.lits, ind) {
            Err(e) => Err(e),
            Ok(s) => Ok(
                tail_moves(params, params.len(), st.tmp, s, ind).put(
                    "{}goto aria_loop_top;\n"@,
                    seq![ind],
                ),
            ),
        }
    }
}

fn emit_tail_temps(
    args: &Vec<Atom>,
    params: &Vec<(String, CType)>,
    n: usize,
    em: &mut Emitter,
    lits: &Vec<String>,
    ind: &str,
) -> (res: Result<(), String>)
    requires
        n <= args@.len(),
        n <= params@.len(),
    ensures
        emits(
            res,
            old(em)@,
            final(em)@,
            tail_temps(args@, typed_views(params@), n as nat, old(em)@, views(lits@), ind@),
        ),
        res is Ok ==> final(em)@.tmp == old(em)@.tmp + n,
    decreases n,
{
    if n == 0 {
        return Ok(());
    }
    emit_tail_temps(args, params, n - 1, em, lits, ind)?;
    let (_t, ex) = emit_atom(&args[n - 1], &em.types, lits)?;
    let tn: String = em.fresh()?;
    let cv: String = cvar(tn.as_str());
    put4(
        &mut em.out,
        "{}{} {} = {};\n",
        ind,
        params[n - 1].1.decl(),
        cv.as_str(),
        ex.as_str(),
    );
    Ok(())
}

fn emit_tail_moves(
    params: &Vec<(String, CType)>,
    n: usize,
    first: usize,
    em: &mut Emitter,
    ind: &str,
)
    requires
        n <= params@.len(),
        first + n <= usize::MAX,
    ensures
        final(em)@ == tail_moves(typed_views(params@), n as nat, first as nat, old(em)@, ind@),
        grew(old(em)@, final(em)@),
    decreases n,
{
    if n > 0 {
        emit_tail_moves(params, n - 1, first, em, ind);
        let index: String = usize_text(first + (n - 1));
        let tn: String = fill1("t_{}", index.as_str());
        let pv: String = cvar(params[n - 1].0.as_str());
        let cv: String = cvar(tn.as_str());
        put3(&mut em.out, "{}{} = {};\n", ind, pv.as_str(), cv.as_str());
    }
}

fn emit_tail_call(args: &Vec<Atom>, em: &mut Emitter, cx: &Cx, ind: &str) -> (res: Result<
    (),
    String,
>)
    ensures
        emits(res, old(em)@, final(em)@, tail_code(args@, old(em)@, cx@, ind@)),
{
    if cx.tail_params.len() != args.len() {
        return Err("c backend: TailCall arity mismatch (internal)".to_owned());
    }
    let first: usize = em.tmp;
    emit_tail_temps(args, cx.tail_params, args.len(), em, cx.lits, ind)?;
    emit_tail_moves(cx.tail_params, args.len(), first, em, ind);
    put1(&mut em.out, "{}goto aria_loop_top;\n", ind);
    Ok(())
}

/// A branch: a trap where it is unreachable, else its statements.
pub open spec fn branch_code(e: IExpr, dst: Seq<char>, st: St, cx: CxV, ind: Seq<char>) -> Result<
    St,
    Seq<char>,
>
    decreases e, 1nat,
{
    if dead_end(e) {
        Ok(st.put("{}aria_trap_msg(\"unreachable expression evaluated\");\n"@, seq![ind]))
    } else {
        iexpr_code(e, dst, st, cx, ind)
    }
}

/// The indentation one level deeper.
pub open spec fn deeper(ind: Seq<char>) -> Seq<char> {
    fmt("{}    "@, seq![ind])
}

/// The statements of a binding, which assign its value to `dst`.
pub open spec fn bind_code(bind: Bind, dst: Seq<char>, st: St, cx: CxV, ind: Seq<char>) -> Result<
    St,
    Seq<char>,
>
    decreases bind, 0nat,
{
    let lits = cx.lits;
    match bind {
        Bind::Atom(a) => match atom_code(a, st.types, lits) {
            Err(e) => Err(e),
            Ok((_, ex)) => Ok(st.put("{}{} = {};\n"@, seq![ind, dst, ex])),
        },
        Bind::Prim(op, l, r) => prim_code(op, l, r, dst, st, lits, ind),
        Bind::Unary(op, a) => unary_code(op, a, dst, st, lits, ind),
        Bind::Call(name, args) => call_code(name@, args@, dst, st, cx, ind),
        Bind::Ctor(name, fields) => ctor_code(name@, fields@, dst, st, cx, ind),
        Bind::CtorReuse(tok, name, fields) => reuse_code(tok@, name@, fields@, dst, st, cx, ind),
        Bind::MakeClosure(lam, caps) => closure_code(lam@, caps@, dst, st, cx, ind),
        Bind::ApplyClosure(callee, args, ret) => apply_code(callee, args@, ret, dst, st, cx, ind),
        Bind::If(c, then, els) => match atom_code(c, st.types, lits) {
            Err(e) => Err(e),
            Ok((ct, ex)) => if ct != CType::Bool {
                Err("c backend: `if` condition must be a Bool"@)
            } else {
                match branch_code(
                    *then,
                    dst,
                    st.put("{}if ({}) {\n"@, seq![ind, ex]),
                    cx,
                    deeper(ind),
                ) {
                    Err(e) => Err(e),
                    Ok(s) => match branch_code(
                        *els,
                        dst,
                        s.put("{}} else {\n"@, seq![ind]),
                        cx,
                        deeper(ind),
                    ) {
                        Err(e) => Err(e),
                        Ok(s2) => Ok(s2.put("{}}\n"@, seq![ind])),
                    },
                }
            },
        },
        Bind::Match(scrut, arms) => match type_of_atom(scrut, st.types) {
            Err(e) => Err(e),
            Ok(t) => if t != CType::Ref {
                Err("c backend: `match` scrutinee must be an ADT (Ref)"@)
            } else {
                match (atom_code(scrut, st.types, lits), taken(st)) {
                    (Err(e), _) => Err(e),
                    (_, Err(e)) => Err(e),
                    (Ok((_, sx)), Ok(s)) => chain_code(
                        st.temp(),
                        arms@,
                        0,
                        dst,
                        s.put("{}void* {} = {};\n"@, seq![ind, st.temp(), sx]),
                        cx,
                        ind,
                    ),
                }
            },
        },
    }
}

/// The arms of a match from `i` on, as a chain of tag tests on the cell `sv`; a
/// value that no arm matches traps.
pub open spec fn chain_code(
    sv: Seq<char>,
    arms: Seq<IArm>,
    i: nat,
    dst: Seq<char>,
    st: St,
    cx: CxV,
    ind: Seq<char>,
) -> Result<St, Seq<char>>
    decreases arms, arms.len() - i,
{
    if i >= arms.len() {
        Ok(
            st.put(
                "{}aria_trap_msg(\"no matching pattern (non-exhaustive match)\");\n"@,
                seq![ind],
            ),
        )
    } else {
        let arm = arms[i as int];
        match arm.ctor {
            None => iexpr_code(
                arm.body,
                dst,
                if arm.binders@.len() > 0 {
                    st.put("{}void* {} = {};\n"@, seq![ind, var_name(arm.binders@[0]@), sv]).bind(
                        arm.binders@[0]@,
                        CType::Ref,
                    )
                } else {
                    st
                },
                cx,
                ind,
            ),
            Some(c) => match ctor_of(cx.ctors, c@) {
                Err(e) => Err(e),
                Ok(info) => match iexpr_code(
                    arm.body,
                    dst,
                    binders_code(
                        sv,
                        arm.binders@,
                        info.fields,
                        arm.binders@.len(),
                        st.put(
                            "{}if (aria_tag({}) == INT64_C({})) {\n"@,
                            seq![ind, sv, dec(info.tag as int)],
                        ),
                        deeper(ind),
                    ),
                    cx,
                    deeper(ind),
                ) {
                    Err(e) => Err(e),
                    Ok(s) => match chain_code(
                        sv,
                        arms,
                        i + 1,
                        dst,
                        s.put("{}} else {\n"@, seq![ind]),
                        cx,
                        deeper(ind),
                    ) {
                        Err(e) => Err(e),
                        Ok(s2) => Ok(s2.put("{}}\n"@, seq![ind])),
                    },
                },
            },
        }
    }
}

/// The statements of an expression, which assign its value to `result`.
pub open spec fn iexpr_code(e: IExpr, result: Seq<char>, st: St, cx: CxV, ind: Seq<char>) -> Result<
    St,
    Seq<char>,
>
    decreases e, 0nat,
{
    match e {
        IExpr::Ret(a) => match atom_code(a, st.types, cx.lits) {
            Err(e) => Err(e),
            Ok((_, ex)) => Ok(st.put("{}{} = {};\n"@, seq![ind, result, ex])),
        },
        IExpr::Let(x, bind, body) => match type_of_bind(bind, st.types, cx) {
            Err(e) => Err(e),
            Ok(t) => match bind_code(
                bind,
                var_name(x@),
                st.put("{}{} {};\n"@, seq![ind, t.declared(), var_name(x@)]),
                cx,
                ind,
            ) {
                Err(e) => Err(e),
                Ok(s) => iexpr_code(*body, result, s.bind(x@, t), cx, ind),
            },
        },
        IExpr::Dup(v, body) => match type_of_var(st.types, v@) {
            Err(e) => Err(e),
            Ok(t) => iexpr_code(*body, result, counted(st, t, "dup"@, v@, ind), cx, ind),
        },
        IExpr::Drop(v, body) => match type_of_var(st.types, v@) {
            Err(e) => Err(e),
            Ok(t) => iexpr_code(*body, result, counted(st, t, "drop"@, v@, ind), cx, ind),
        },
        IExpr::DropReuse(scrut, tok, body) => match type_of_var(st.types, scrut@) {
            Err(e) => Err(e),
            Ok(t) => iexpr_code(
                *body,
                result,
                (if t == CType::Ref {
                    st.put(
                        "{}void* {} = aria_drop_reuse({});\n"@,
                        seq![ind, var_name(tok@), var_name(scrut@)],
                    )
                } else {
                    st.put("{}void* {} = NULL;\n"@, seq![ind, var_name(tok@)])
                }).bind(tok@, CType::Ref),
                cx,
                ind,
            ),
        },
        IExpr::TailCall(args) => tail_code(args@, st, cx, ind),
    }
}

/// The binders of every constructor arm in an expression have fields to bind.
pub open spec fn iexpr_fits(e: IExpr, ctors: Map<Seq<char>, CtorV>) -> bool
    decreases e, 0nat,
{
    match e {
        IExpr::Let(_, bind, body) => bind_fits(bind, ctors) && iexpr_fits(*body, ctors),
        IExpr::Dup(_, body) => iexpr_fits(*body, ctors),
        IExpr::Drop(_, body) => iexpr_fits(*body, ctors),
        IExpr::DropReuse(_, _, body) => iexpr_fits(*body, ctors),
        _ => true,
    }
}

/// The binders of every constructor arm in a binding have fields to bind.
pub open spec fn bind_fits(bind: Bind, ctors: Map<Seq<char>, CtorV>) -> bool
    decreases bind, 0nat,
{
    match bind {
        Bind::If(_, t, e) => iexpr_fits(*t, ctors) && iexpr_fits(*e, ctors),
        Bind::Match(_, arms) => arms_fit(arms@, 0, ctors),
        _ => true,
    }
}

/// The binders of every constructor arm from `i` on have fields to bind.
pub open spec fn arms_fit(arms: Seq<IArm>, i: nat, ctors: Map<Seq<char>, CtorV>) -> bool
    decreases arms, arms.len() - i,
{
    if i >= arms.len() {
        true
    } else {
        let arm = arms[i as int];
        &&& arm.ctor matches Some(c) ==> (ctor_of(ctors, c@) matches Ok(info)
            ==> arm.binders@.len() <= info.fields.len())
        &&& iexpr_fits(arm.body, ctors)
        &&& arms_fit(arms, i + 1, ctors)
    }
}

fn emit_branch(e: &IExpr, dst: &str, em: &mut Emitter, cx: &Cx, ind: &str) -> (res: Result<
    (),
    String,
>)
    requires
        iexpr_fits(*e, cx@.ctors),
    ensures
        emits(res, old(em)@, final(em)@, branch_code(*e, dst@, old(em)@, cx@, ind@)),
    decreases e, 1nat,
{
    if is_unreachable_unit(e) {
        put1(&mut em.out, "{}aria_trap_msg(\"unreachable expression evaluated\");\n", ind);
        Ok(())
    } else {
        emit_iexpr(e, dst, em, cx, ind)
    }
}

/// Emits the C statements for a binding, assigning its value to the (already
/// declared) lvalue `dst`.
pub fn emit_bind(bind: &Bind, dst: &str, em: &mut Emitter, cx: &Cx, ind: &str) -> (res: Result<
    (),
    String,
>)
    requires
        bind_fits(*bind, cx@.ctors),
    ensures
        emits(res, old(em)@, final(em)@, bind_code(*bind, dst@, old(em)@, cx@, ind@)),
    decreases bind, 0nat,
{
    match bind {
        Bind::Atom(a) => {
            let (_t, ex) = emit_atom(a, &em.types, cx.lits)?;
            put3(&mut em.out, "{}{} = {};\n", ind, dst, ex.as_str());
            Ok(())
        },
        Bind::Prim(op, l, r) => emit_prim(*op, l, r, dst, em, cx.lits, ind),
        Bind::Unary(op, a) => emit_unary(*op, a, dst, em, cx.lits, ind),
        Bind::Call(name, args) => emit_call(name.as_str(), args, dst, em, cx, ind),
        Bind::Ctor(name, fields) => emit_ctor(name.as_str(), fields, dst, em, cx, ind),
        Bind::CtorReuse(tok, name, fields) => emit_ctor_reuse(
            tok.as_str(),
            name.as_str(),
            fields,
            dst,
            em,
            cx,
            ind,
        ),
        Bind::MakeClosure(lam, caps) => emit_make_closure(lam.as_str(), caps, dst, em, cx, ind),
        Bind::ApplyClosure(callee, args, ret) => emit_apply_closure(
            callee,
            args,
            ret,
            dst,
            em,
            cx,
            ind,
        ),
        Bind::If(c, then, els) => {
            let (ct, ex) = emit_atom(c, &em.types, cx.lits)?;
            if ct != CType::Bool {
                return Err("c backend: `if` condition must be a Bool".to_owned());
            }
            put2(&mut em.out, "{}if ({}) {\n", ind, ex.as_str());
            let inner: String = fill1("{}    ", ind);
            emit_branch(then, dst, em, cx, inner.as_str())?;
            put1(&mut em.out, "{}} else {\n", ind);
            emit_branch(els, dst, em, cx, inner.as_str())?;
            put1(&mut em.out, "{}}\n", ind);
            Ok(())
        },
        Bind::Match(scrut, arms) => emit_match(scrut, arms, dst, em, cx, ind),
    }
}

/// Emits a match: the scrutinee is held in a temporary, and the arms are tested
/// in order.
pub fn emit_match(
    scrut: &Atom,
    arms: &Vec<IArm>,
    dst: &str,
    em: &mut Emitter,
    cx: &Cx,
    ind: &str,
) -> (res: Result<(), String>)
    requires
        arms_fit(arms@, 0, cx@.ctors),
    ensures
        match type_of_atom(*scrut, old(em)@.types) {
            Err(e) => res matches Err(x) && x@ == e && final(em)@ == old(em)@,
            Ok(t) => if t != CType::Ref {
                &&& res matches Err(x) && x@ == "c backend: `match` scrutinee must be an ADT (Ref)"@
                &&& final(em)@ == old(em)@
            } else {
                match (atom_code(*scrut, old(em)@.types, cx@.lits), taken(old(em)@)) {
                    (Err(e), _) => res matches Err(x) && x@ == e && final(em)@ == old(em)@,
                    (_, Err(e)) => res matches Err(x) && x@ == e && final(em)@ == old(em)@,
                    (Ok((_, sx)), Ok(s)) => emits(
                        res,
                        old(em)@,
                        final(em)@,
                        chain_code(
                            old(em)@.temp(),
                            arms@,
                            0,
                            dst@,
                            s.put("{}void* {} = {};\n"@, seq![ind@, old(em)@.temp(), sx]),
                            cx@,
                            ind@,
                        ),
                    ),
                }
            },
        },
    decreases arms@, arms@.len() + 1,
{
    if atom_type(scrut, &em.types)? != CType::Ref {
        return Err("c backend: `match` scrutinee must be an ADT (Ref)".to_owned());
    }
    let (_t, sx) = emit_atom(scrut, &em.types, cx.lits)?;
    let sv: String = em.fresh()?;
    put3(&mut em.out, "{}void* {} = {};\n", ind, sv.as_str(), sx.as_str());
    emit_match_chain(sv.as_str(), arms, 0, dst, em, cx, ind)
}

/// Emits the arms of a match from `i` on.
pub fn emit_match_chain(
    sv: &str,
    arms: &Vec<IArm>,
    i: usize,
    dst: &str,
    em: &mut Emitter,
    cx: &Cx,
    ind: &str,
) -> (res: Result<(), String>)
    requires
        i <= arms@.len(),
        arms_fit(arms@, i as nat, cx@.ctors),
    ensures
        emits(res, old(em)@, final(em)@, chain_code(sv@, arms@, i as nat, dst@, old(em)@, cx@, ind@)),
    decreases arms@, arms@.len() - i,
{
    if i >= arms.len() {
        put1(
            &mut em.out,
            "{}aria_trap_msg(\"no matching pattern (non-exhaustive match)\");\n",
            ind,
        );
        return Ok(());
    }
    let arm: &IArm = &arms[i];
    match &arm.ctor {
        None => {
            if arm.binders.len() > 0 {
                let cv: String = cvar(arm.binders[0].as_str());
                put3(&mut em.out, "{}void* {} = {};\n", ind, cv.as_str(), sv);
                em.types.insert(arm.binders[0].as_str(), CType::Ref);
            }
            emit_iexpr(&arm.body, dst, em, cx, ind)
        },
        Some(c) => {
            let info: &CtorInfo = get_ctor(cx.ctors, c.as_str())?;
            let tag: String = usize_text(info.tag);
            put3(
                &mut em.out,
                "{}if (aria_tag({}) == INT64_C({})) {\n",
                ind,
                sv,
                tag.as_str(),
            );
            let inner: String = fill1("{}    ", ind);
            emit_binders(
                sv,
                &arm.binders,
                &info.field_types,
                arm.binders.len(),
                em,
                inner.as_str(),
            );
            emit_iexpr(&arm.body, dst, em, cx, inner.as_str())?;
            put1(&mut em.out, "{}} else {\n", ind);
            emit_match_chain(sv, arms, i + 1, dst, em, cx, inner.as_str())?;
            put1(&mut em.out, "{}}\n", ind);
            Ok(())
        },
    }
}

/// Emits the C statements for an expression. `result` names a (pre-declared) C
/// lvalue to assign the expression's value to.
pub fn emit_iexpr(e: &IExpr, result: &str, em: &mut Emitter, cx: &Cx, ind: &str) -> (res: Result<
    (),
    String,
>)
    requires
        iexpr_fits(*e, cx@.ctors),
    ensures
        emits(res, old(em)@, final(em)@, iexpr_code(*e, result@, old(em)@, cx@, ind@)),
        res is Err && e is Ret ==> final(em)@ == old(em)@,
    decreases e, 0nat,
{
    match e {
        IExpr::Ret(a) => {
            let (_t, ex) = emit_atom(a, &em.types, cx.lits)?;
            put3(&mut em.out, "{}{} = {};\n", ind, result, ex.as_str());
            Ok(())
        },
        IExpr::Let(x, bind, body) => {
            let t: CType = bind_type(bind, &em.types, cx)?;
            let cv: String = cvar(x.as_str());
            put3(&mut em.out, "{}{} {};\n", ind, t.decl(), cv.as_str());
            emit_bind(bind, cv.as_str(), em, cx, ind)?;
            em.types.insert(x.as_str(), t);
            emit_iexpr(body, result, em, cx, ind)
        },
        IExpr::Dup(v, body) => {
            let t: CType = var_type(&em.types, v.as_str())?;
            emit_count(em, t, "dup", v.as_str(), ind);
            emit_iexpr(body, result, em, cx, ind)
        },
        IExpr::Drop(v, body) => {
            let t: CType = var_type(&em.types, v.as_str())?;
            emit_count(em, t, "drop", v.as_str(), ind);
            emit_iexpr(body, result, em, cx, ind)
        },
        IExpr::DropReuse(scrut, tok, body) => {
            let t: CType = var_type(&em.types, scrut.as_str())?;
            let tv: String = cvar(tok.as_str());
            if t == CType::Ref {
                let sv: String = cvar(scrut.as_str());
                put3(
                    &mut em.out,
                    "{}void* {} = aria_drop_reuse({});\n",
                    ind,
                    tv.as_str(),
                    sv.as_str(),
                );
            } else {
                put2(&mut em.out, "{}void* {} = NULL;\n", ind, tv.as_str());
            }
            em.types.insert(tok.as_str(), CType::Ref);
            emit_iexpr(body, result, em, cx, ind)
        },
        IExpr::TailCall(args) => emit_tail_call(args, em, cx, ind),
    }
}

} // verus!
