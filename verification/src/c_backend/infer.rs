//! The C types of expressions, without emitting code.

use vstd::prelude::*;

use crate::ast::{BinOp, UnOp};
use crate::c_backend::builtins::{
    array_builtin, builtin_ret, builtin_type, map_set_builtin, map_set_suffix_kinds,
    parse_array_builtin, parse_map_set_builtin, suffix_kinds, ArrayOp, MapSetOp,
};
use crate::c_backend::env::{
    atom_type, ctor_of, get_ctor, type_of_atom, Cx, CxV, Types,
};
use crate::c_backend::kinds::{same, slot_kind_ctype, CType, ElemKind, SlotKind};
use crate::ir::{Atom, Bind, IArm, IExpr};
use crate::names::NameMap;
use crate::text::{fill1, fill2, fmt, str_eq};

verus! {

// ---------------------------------------------------------------------------
// Expressions that yield no value
// ---------------------------------------------------------------------------

/// The dead fall-through marker: a Unit return under reference-count operations.
pub open spec fn dead_end(e: IExpr) -> bool
    decreases e,
{
    match e {
        IExpr::Ret(a) => a is Unit,
        IExpr::Dup(_, b) => dead_end(*b),
        IExpr::Drop(_, b) => dead_end(*b),
        IExpr::DropReuse(_, _, b) => dead_end(*b),
        _ => false,
    }
}

/// Whether an expression is the dead fall-through marker: the only branch that
/// is unreachable, for which a trap is emitted.
pub fn is_unreachable_unit(e: &IExpr) -> (r: bool)
    ensures
        r == dead_end(*e),
    decreases e,
{
    match e {
        IExpr::Ret(a) => match a {
            Atom::Unit => true,
            _ => false,
        },
        IExpr::Dup(_, b) => is_unreachable_unit(b),
        IExpr::Drop(_, b) => is_unreachable_unit(b),
        IExpr::DropReuse(_, _, b) => is_unreachable_unit(b),
        _ => false,
    }
}

/// Whether `cont` returns the variable `x` at once.
pub open spec fn returns_var(cont: IExpr, x: Seq<char>) -> bool {
    cont matches IExpr::Ret(a) && a matches Atom::Var(v) && v@ == x
}

fn is_return_of(cont: &IExpr, x: &str) -> (r: bool)
    ensures
        r == returns_var(*cont, x@),
{
    match cont {
        IExpr::Ret(a) => match a {
            Atom::Var(v) => str_eq(v.as_str(), x),
            _ => false,
        },
        _ => false,
    }
}

/// Whether an expression yields no value: it is the dead marker, it ends in a
/// tail call, or it ends in an `if` or `match` all of whose branches do so.
pub open spec fn diverges(e: IExpr) -> bool
    decreases e, 0nat,
{
    match e {
        IExpr::Ret(a) => a is Unit,
        IExpr::TailCall(_) => true,
        IExpr::Let(x, bind, cont) => match bind {
            Bind::If(_, t, el) => if returns_var(*cont, x@) {
                diverges(*t) && diverges(*el)
            } else {
                diverges(*cont)
            },
            Bind::Match(_, arms) => if returns_var(*cont, x@) {
                all_diverge(arms@, arms@.len())
            } else {
                diverges(*cont)
            },
            _ => diverges(*cont),
        },
        IExpr::Dup(_, b) => diverges(*b),
        IExpr::Drop(_, b) => diverges(*b),
        IExpr::DropReuse(_, _, b) => diverges(*b),
    }
}

/// Whether the bodies of the first `n` arms yield no value.
pub open spec fn all_diverge(arms: Seq<IArm>, n: nat) -> bool
    decreases arms, n,
{
    if n == 0 || n > arms.len() {
        true
    } else {
        all_diverge(arms, (n - 1) as nat) && diverges(arms[n - 1].body)
    }
}

/// Whether an expression yields no value at its position. Such a branch puts no
/// constraint on the type of a sibling branch.
pub fn is_diverging(e: &IExpr) -> (r: bool)
    ensures
        r == diverges(*e),
    decreases e, 0nat,
{
    match e {
        IExpr::Ret(a) => match a {
            Atom::Unit => true,
            _ => false,
        },
        IExpr::TailCall(_) => true,
        IExpr::Let(x, bind, cont) => match bind {
            Bind::If(_, t, el) => {
                if is_return_of(cont, x.as_str()) {
                    is_diverging(t) && is_diverging(el)
                } else {
                    is_diverging(cont)
                }
            },
            Bind::Match(_, arms) => {
                if is_return_of(cont, x.as_str()) {
                    are_diverging(arms, arms.len())
                } else {
                    is_diverging(cont)
                }
            },
            _ => is_diverging(cont),
        },
        IExpr::Dup(_, b) => is_diverging(b),
        IExpr::Drop(_, b) => is_diverging(b),
        IExpr::DropReuse(_, _, b) => is_diverging(b),
    }
}

fn are_diverging(arms: &Vec<IArm>, n: usize) -> (r: bool)
    requires
        n <= arms@.len(),
    ensures
        r == all_diverge(arms@, n as nat),
    decreases arms@, n,
{
    if n == 0 {
        true
    } else {
        are_diverging(arms, n - 1) && is_diverging(&arms[n - 1].body)
    }
}

// ---------------------------------------------------------------------------
// Builtins
// ---------------------------------------------------------------------------

/// The result type of an array builtin: builders yield an array, `array_get` an
/// element, `array_len` an Int.
pub open spec fn array_type(op: ArrayOp, kind: ElemKind) -> CType {
    match op {
        ArrayOp::Get => kind.ctype(),
        ArrayOp::Len => CType::Int,
        _ => CType::Array(kind),
    }
}

/// The C result type of an array builtin.
pub fn array_builtin_ret(op: ArrayOp, kind: ElemKind) -> (r: CType)
    ensures
        r == array_type(op, kind),
{
    match op {
        ArrayOp::Get => kind.elem_ctype(),
        ArrayOp::Len => CType::Int,
        _ => CType::Array(kind),
    }
}

/// The type of argument `i`, if there is one and it has a type.
pub open spec fn arg_type(args: Seq<Atom>, i: int, types: Types) -> Option<CType> {
    if i < args.len() {
        match type_of_atom(args[i], types) {
            Ok(t) => Some(t),
            Err(_) => None,
        }
    } else {
        None
    }
}

fn arg_type_of(args: &Vec<Atom>, i: usize, types: &NameMap<CType>) -> (r: Option<CType>)
    ensures
        r == arg_type(args@, i as int, types@),
{
    if i < args.len() {
        match atom_type(&args[i], types) {
            Ok(t) => Some(t),
            Err(_) => None,
        }
    } else {
        None
    }
}

/// The slot kind of argument `i`, or `fallback` if it has no type.
pub open spec fn arg_kind(args: Seq<Atom>, i: int, types: Types, fallback: SlotKind) -> SlotKind {
    match arg_type(args, i, types) {
        Some(t) => SlotKind::holding(t),
        None => fallback,
    }
}

fn arg_kind_of(args: &Vec<Atom>, i: usize, types: &NameMap<CType>, fallback: SlotKind) -> (r:
    SlotKind)
    ensures
        r == arg_kind(args@, i as int, types@, fallback),
{
    match arg_type_of(args, i, types) {
        Some(t) => SlotKind::from_ctype(t),
        None => fallback,
    }
}

/// The kinds of the container that is the first argument, or those of the name's
/// suffix.
pub open spec fn container_kinds(name: Seq<char>, args: Seq<Atom>, types: Types) -> (
    SlotKind,
    SlotKind,
) {
    match arg_type(args, 0, types) {
        Some(CType::Dict(k, v)) => (k, v),
        Some(CType::Bag(e)) => (e, e),
        _ => suffix_kinds(name),
    }
}

fn container_kinds_of(name: &str, args: &Vec<Atom>, types: &NameMap<CType>) -> (r: (
    SlotKind,
    SlotKind,
))
    ensures
        r == container_kinds(name@, args@, types@),
{
    match arg_type_of(args, 0, types) {
        Some(CType::Dict(k, v)) => (k, v),
        Some(CType::Bag(e)) => (e, e),
        _ => map_set_suffix_kinds(name),
    }
}

/// The result type of a map or set builtin. The kinds come from the operands
/// where those have types, and else from the name's suffix.
pub open spec fn map_set_type(
    op: MapSetOp,
    name: Seq<char>,
    args: Seq<Atom>,
    types: Types,
) -> CType {
    let (sk, sv) = suffix_kinds(name);
    let (ck, cv) = container_kinds(name, args, types);
    match op {
        MapSetOp::MapNew => CType::Dict(sk, sv),
        MapSetOp::MapInsert => CType::Dict(
            arg_kind(args, 1, types, sk),
            arg_kind(args, 2, types, sv),
        ),
        MapSetOp::MapRemove => CType::Dict(ck, cv),
        MapSetOp::MapGetOr => match arg_type(args, 2, types) {
            Some(t) => t,
            None => sv.ctype(),
        },
        MapSetOp::MapHas | MapSetOp::SetHas => CType::Bool,
        MapSetOp::MapLen | MapSetOp::SetLen => CType::Int,
        MapSetOp::MapShow | MapSetOp::SetShow => CType::Str,
        MapSetOp::MapKeys | MapSetOp::SetToArray => CType::Array(ElemKind::holding(ck.ctype())),
        MapSetOp::MapValues => CType::Array(ElemKind::holding(cv.ctype())),
        MapSetOp::SetNew => CType::Bag(sk),
        MapSetOp::SetAdd => CType::Bag(arg_kind(args, 1, types, sk)),
        MapSetOp::SetRemove => CType::Bag(ck),
    }
}

/// The C result type of a map or set builtin.
pub fn map_set_builtin_ret(
    op: MapSetOp,
    name: &str,
    args: &Vec<Atom>,
    types: &NameMap<CType>,
) -> (r: CType)
    ensures
        r == map_set_type(op, name@, args@, types@),
{
    let (sk, sv) = map_set_suffix_kinds(name);
    let (ck, cv) = container_kinds_of(name, args, types);
    match op {
        MapSetOp::MapNew => CType::Dict(sk, sv),
        MapSetOp::MapInsert => {
            let k: SlotKind = arg_kind_of(args, 1, types, sk);
            let v: SlotKind = arg_kind_of(args, 2, types, sv);
            CType::Dict(k, v)
        },
        MapSetOp::MapRemove => CType::Dict(ck, cv),
        MapSetOp::MapGetOr => match arg_type_of(args, 2, types) {
            Some(t) => t,
            None => slot_kind_ctype(sv),
        },
        MapSetOp::MapHas | MapSetOp::SetHas => CType::Bool,
        MapSetOp::MapLen | MapSetOp::SetLen => CType::Int,
        MapSetOp::MapShow | MapSetOp::SetShow => CType::Str,
        MapSetOp::MapKeys | MapSetOp::SetToArray => CType::Array(
            ElemKind::from_ctype(&slot_kind_ctype(ck)),
        ),
        MapSetOp::MapValues => CType::Array(ElemKind::from_ctype(&slot_kind_ctype(cv))),
        MapSetOp::SetNew => CType::Bag(sk),
        MapSetOp::SetAdd => CType::Bag(arg_kind_of(args, 1, types, sk)),
        MapSetOp::SetRemove => CType::Bag(ck),
    }
}

// ---------------------------------------------------------------------------
// Bindings and expressions
// ---------------------------------------------------------------------------

/// The scope with the first `n` binders bound to the field types.
pub open spec fn with_binders(
    types: Types,
    binders: Seq<String>,
    fields: Seq<CType>,
    n: nat,
) -> Types
    decreases n,
{
    if n == 0 || n > binders.len() || n > fields.len() {
        types
    } else {
        with_binders(types, binders, fields, (n - 1) as nat).insert(binders[n - 1]@, fields[n - 1])
    }
}

/// The smaller of two lengths.
pub open spec fn min_len(a: nat, b: nat) -> nat {
    if a < b {
        a
    } else {
        b
    }
}

/// The scope of an arm's body: a constructor arm binds the fields, a catch-all
/// binds the scrutinee.
pub open spec fn arm_types(arm: IArm, types: Types, cx: CxV) -> Result<Types, Seq<char>> {
    match arm.ctor {
        Some(c) => match ctor_of(cx.ctors, c@) {
            Ok(info) => Ok(
                with_binders(
                    types,
                    arm.binders@,
                    info.fields,
                    min_len(arm.binders@.len(), info.fields.len()),
                ),
            ),
            Err(e) => Err(e),
        },
        None => if arm.binders@.len() > 0 {
            Ok(types.insert(arm.binders@[0]@, CType::Ref))
        } else {
            Ok(types)
        },
    }
}

/// The type of a called function: an inline builtin or a function of the
/// program.
pub open spec fn call_type(name: Seq<char>, args: Seq<Atom>, types: Types, cx: CxV) -> Result<
    CType,
    Seq<char>,
> {
    match array_builtin(name) {
        Some((op, kind)) => Ok(array_type(op, kind)),
        None => match map_set_builtin(name) {
            Some(op) => Ok(map_set_type(op, name, args, types)),
            None => match builtin_type(name) {
                Some(t) => Ok(t),
                None => if cx.sigs.contains_key(name) {
                    Ok(cx.sigs[name].ret)
                } else {
                    Err(fmt("c backend: call to unknown fn `{}`"@, seq![name]))
                },
            },
        },
    }
}

/// The type of a binding.
pub open spec fn type_of_bind(bind: Bind, types: Types, cx: CxV) -> Result<CType, Seq<char>>
    decreases bind, 0nat,
{
    match bind {
        Bind::Atom(a) => type_of_atom(a, types),
        Bind::Prim(op, l, _) => match op {
            BinOp::Add | BinOp::Sub | BinOp::Mul | BinOp::Div | BinOp::Mod => type_of_atom(
                l,
                types,
            ),
            _ => Ok(CType::Bool),
        },
        Bind::Unary(op, a) => match op {
            UnOp::Neg => type_of_atom(a, types),
            UnOp::Not => Ok(CType::Bool),
        },
        Bind::Call(name, args) => call_type(name@, args@, types, cx),
        Bind::Ctor(name, _) => match ctor_of(cx.ctors, name@) {
            Ok(_) => Ok(CType::Ref),
            Err(e) => Err(e),
        },
        Bind::CtorReuse(_, name, _) => match ctor_of(cx.ctors, name@) {
            Ok(_) => Ok(CType::Ref),
            Err(e) => Err(e),
        },
        Bind::MakeClosure(_, _) => Ok(CType::Ref),
        Bind::ApplyClosure(_, _, ret) => match ret {
            Some(t) => CType::of(t),
            None => Err("c backend: closure application missing its result type"@),
        },
        Bind::If(_, then, els) => {
            let t = type_of_iexpr(*then, types, cx);
            let e = type_of_iexpr(*els, types, cx);
            if t is Ok && e is Ok && t->Ok_0 == e->Ok_0 {
                t
            } else if t is Ok && diverges(*els) {
                t
            } else if e is Ok && diverges(*then) {
                e
            } else if diverges(*then) && diverges(*els) {
                Ok(cx.fn_ret)
            } else {
                match (t, e) {
                    (Err(x), _) => Err(x),
                    (_, Err(x)) => Err(x),
                    (Ok(a), Ok(b)) => Err(
                        fmt(
                            "c backend: if-branches differ in type ({} vs {})"@,
                            seq![a.text(), b.text()],
                        ),
                    ),
                }
            }
        },
        Bind::Match(scrut, arms) => match type_of_atom(scrut, types) {
            Err(e) => Err(e),
            Ok(t) => if t != CType::Ref {
                Err("c backend: `match` scrutinee must be an ADT (Ref)"@)
            } else {
                match type_of_arms(arms@, arms@.len(), types, cx) {
                    Err(e) => Err(e),
                    Ok(Some(t)) => Ok(t),
                    Ok(None) => Ok(cx.fn_ret),
                }
            },
        },
    }
}

/// The common type of the first `n` arms: `None` if they all diverge.
pub open spec fn type_of_arms(arms: Seq<IArm>, n: nat, types: Types, cx: CxV) -> Result<
    Option<CType>,
    Seq<char>,
>
    decreases arms, n,
{
    if n == 0 || n > arms.len() {
        Ok(None)
    } else {
        match type_of_arms(arms, (n - 1) as nat, types, cx) {
            Err(e) => Err(e),
            Ok(before) => {
                let arm = arms[n - 1];
                match arm_types(arm, types, cx) {
                    Err(e) => Err(e),
                    Ok(inner) => match type_of_iexpr(arm.body, inner, cx) {
                        Ok(t) => match before {
                            Some(prev) => if prev != t {
                                Err(
                                    fmt(
                                        "c backend: match arms differ in type ({} vs {})"@,
                                        seq![prev.text(), t.text()],
                                    ),
                                )
                            } else {
                                Ok(before)
                            },
                            None => Ok(Some(t)),
                        },
                        Err(e) => if diverges(arm.body) {
                            Ok(before)
                        } else {
                            Err(e)
                        },
                    },
                }
            },
        }
    }
}

/// The type of an expression's value.
pub open spec fn type_of_iexpr(e: IExpr, types: Types, cx: CxV) -> Result<CType, Seq<char>>
    decreases e, 0nat,
{
    match e {
        IExpr::Ret(a) => type_of_atom(a, types),
        IExpr::Let(x, bind, body) => match type_of_bind(bind, types, cx) {
            Ok(t) => type_of_iexpr(*body, types.insert(x@, t), cx),
            Err(e) => Err(e),
        },
        IExpr::Dup(_, body) => type_of_iexpr(*body, types, cx),
        IExpr::Drop(_, body) => type_of_iexpr(*body, types, cx),
        IExpr::DropReuse(_, tok, body) => type_of_iexpr(*body, types.insert(tok@, CType::Ref), cx),
        IExpr::TailCall(_) => Err("c backend: TailCall has no value type"@),
    }
}

/// The C type of a call.
fn call_ret(name: &str, args: &Vec<Atom>, types: &NameMap<CType>, cx: &Cx) -> (r: Result<
    CType,
    String,
>)
    ensures
        same(r, call_type(name@, args@, types@, cx@)),
{
    if let Some((op, kind)) = parse_array_builtin(name) {
        return Ok(array_builtin_ret(op, kind));
    }
    if let Some(op) = parse_map_set_builtin(name) {
        return Ok(map_set_builtin_ret(op, name, args, types));
    }
    if let Some(t) = builtin_ret(name) {
        return Ok(t);
    }
    match cx.sigs.get(name) {
        Some(sig) => Ok(sig.ret),
        None => Err(fill1("c backend: call to unknown fn `{}`", name)),
    }
}

/// Infer the C result type of a binding without emitting code.
pub fn bind_type(bind: &Bind, types: &NameMap<CType>, cx: &Cx) -> (r: Result<CType, String>)
    ensures
        same(r, type_of_bind(*bind, types@, cx@)),
    decreases bind, 0nat,
{
    match bind {
        Bind::Atom(a) => atom_type(a, types),
        Bind::Prim(op, l, _) => match op {
            BinOp::Add | BinOp::Sub | BinOp::Mul | BinOp::Div | BinOp::Mod => atom_type(l, types),
            _ => Ok(CType::Bool),
        },
        Bind::Unary(op, a) => match op {
            UnOp::Neg => atom_type(a, types),
            UnOp::Not => Ok(CType::Bool),
        },
        Bind::Call(name, args) => call_ret(name.as_str(), args, types, cx),
        Bind::Ctor(name, _) => match get_ctor(cx.ctors, name.as_str()) {
            Ok(_) => Ok(CType::Ref),
            Err(e) => Err(e),
        },
        Bind::CtorReuse(_, name, _) => match get_ctor(cx.ctors, name.as_str()) {
            Ok(_) => Ok(CType::Ref),
            Err(e) => Err(e),
        },
        Bind::MakeClosure(_, _) => Ok(CType::Ref),
        Bind::ApplyClosure(_, _, ret) => match ret {
            Some(t) => CType::from_ty(t),
            None => Err("c backend: closure application missing its result type".to_owned()),
        },
        Bind::If(_, then, els) => {
            let t: Result<CType, String> = iexpr_type(then, types, cx);
            let e: Result<CType, String> = iexpr_type(els, types, cx);
            let then_diverges: bool = is_diverging(then);
            let els_diverges: bool = is_diverging(els);
            match (t, e) {
                (Ok(a), Ok(b)) => {
                    if a == b || els_diverges {
                        Ok(a)
                    } else if then_diverges {
                        Ok(b)
                    } else {
                        let at: String = a.describe();
                        let bt: String = b.describe();
                        Err(
                            fill2(
                                "c backend: if-branches differ in type ({} vs {})",
                                at.as_str(),
                                bt.as_str(),
                            ),
                        )
                    }
                },
                (Ok(a), Err(x)) => {
                    if els_diverges {
                        Ok(a)
                    } else {
                        Err(x)
                    }
                },
                (Err(x), Ok(b)) => {
                    if then_diverges {
                        Ok(b)
                    } else {
                        Err(x)
                    }
                },
                (Err(x), Err(_)) => {
                    if then_diverges && els_diverges {
                        Ok(cx.fn_ret)
                    } else {
                        Err(x)
                    }
                },
            }
        },
        Bind::Match(scrut, arms) => match_type(scrut, arms, types, cx),
    }
}

/// The common type of a match's arms.
pub fn match_type(scrut: &Atom, arms: &Vec<IArm>, types: &NameMap<CType>, cx: &Cx) -> (r: Result<
    CType,
    String,
>)
    ensures
        match type_of_atom(*scrut, types@) {
            Err(e) => r matches Err(x) && x@ == e,
            Ok(t) => if t != CType::Ref {
                r matches Err(x) && x@ == "c backend: `match` scrutinee must be an ADT (Ref)"@
            } else {
                match type_of_arms(arms@, arms@.len(), types@, cx@) {
                    Err(e) => r matches Err(x) && x@ == e,
                    Ok(Some(t)) => r == Ok::<CType, String>(t),
                    Ok(None) => r == Ok::<CType, String>(cx.fn_ret),
                }
            },
        },
    decreases arms@, arms@.len() + 1,
{
    if atom_type(scrut, types)? != CType::Ref {
        return Err("c backend: `match` scrutinee must be an ADT (Ref)".to_owned());
    }
    match arms_type(arms, arms.len(), types, cx)? {
        Some(t) => Ok(t),
        None => Ok(cx.fn_ret),
    }
}

fn arms_type(arms: &Vec<IArm>, n: usize, types: &NameMap<CType>, cx: &Cx) -> (r: Result<
    Option<CType>,
    String,
>)
    requires
        n <= arms@.len(),
    ensures
        same(r, type_of_arms(arms@, n as nat, types@, cx@)),
    decreases arms@, n,
{
    if n == 0 {
        return Ok(None);
    }
    let before: Option<CType> = arms_type(arms, n - 1, types, cx)?;
    let arm: &IArm = &arms[n - 1];
    let inner: NameMap<CType> = arm_scope(arm, types, cx)?;
    match iexpr_type(&arm.body, &inner, cx) {
        Ok(t) => match before {
            Some(prev) => {
                if prev != t {
                    let pt: String = prev.describe();
                    let tt: String = t.describe();
                    Err(
                        fill2(
                            "c backend: match arms differ in type ({} vs {})",
                            pt.as_str(),
                            tt.as_str(),
                        ),
                    )
                } else {
                    Ok(before)
                }
            },
            None => Ok(Some(t)),
        },
        Err(e) => {
            if is_diverging(&arm.body) {
                Ok(before)
            } else {
                Err(e)
            }
        },
    }
}

fn arm_scope(arm: &IArm, types: &NameMap<CType>, cx: &Cx) -> (r: Result<NameMap<CType>, String>)
    ensures
        match arm_types(*arm, types@, cx@) {
            Ok(m) => r matches Ok(t) && t@ == m,
            Err(e) => r matches Err(x) && x@ == e,
        },
{
    let mut inner: NameMap<CType> = types.copy();
    match &arm.ctor {
        Some(c) => {
            let info = get_ctor(cx.ctors, c.as_str())?;
            let mut i: usize = 0;
            while i < arm.binders.len() && i < info.field_types.len()
                invariant
                    i <= arm.binders@.len(),
                    i <= info.field_types@.len(),
                    inner@ == with_binders(types@, arm.binders@, info.field_types@, i as nat),
                decreases arm.binders@.len() - i,
            {
                inner.insert(arm.binders[i].as_str(), info.field_types[i]);
                i = i + 1;
            }
        },
        None => {
            if arm.binders.len() > 0 {
                inner.insert(arm.binders[0].as_str(), CType::Ref);
            }
        },
    }
    Ok(inner)
}

/// Infer the C type of an expression without emitting code.
pub fn iexpr_type(e: &IExpr, types: &NameMap<CType>, cx: &Cx) -> (r: Result<CType, String>)
    ensures
        same(r, type_of_iexpr(*e, types@, cx@)),
    decreases e, 0nat,
{
    match e {
        IExpr::Ret(a) => atom_type(a, types),
        IExpr::Let(x, bind, body) => {
            let t: CType = bind_type(bind, types, cx)?;
            let mut inner: NameMap<CType> = types.copy();
            inner.insert(x.as_str(), t);
            iexpr_type(body, &inner, cx)
        },
        IExpr::Dup(_, body) => iexpr_type(body, types, cx),
        IExpr::Drop(_, body) => iexpr_type(body, types, cx),
        IExpr::DropReuse(_, tok, body) => {
            let mut inner: NameMap<CType> = types.copy();
            inner.insert(tok.as_str(), CType::Ref);
            iexpr_type(body, &inner, cx)
        },
        IExpr::TailCall(_) => Err("c backend: TailCall has no value type".to_owned()),
    }
}

} // verus!
