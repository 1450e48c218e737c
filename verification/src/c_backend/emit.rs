//! Emission of C statements.
//!
//! Each `emit_*` function appends to an [`Emitter`]; the `*_code` function beside
//! it says what state, with what text, comes out.

use vstd::prelude::*;
use vstd::string::*;

use crate::ast::{BinOp, UnOp};
use crate::c_backend::builtins::{
    array_builtin, builtin_form, form_of, forms_complete, inline_builtin, is_builtin,
    literals_start_alike, map_set_builtin, map_set_suffix_kinds, parse_array_builtin,
    parse_map_set_builtin, suffix_kinds, ArrayOp, BuiltinForm, FormModel, MapSetOp,
};
use crate::c_backend::env::{
    atom_code, atom_type, atoms_code, emit_atom, emit_atoms, type_of_atom, Cx, CxV, FnSig, Types,
};
use crate::c_backend::kinds::{same, slot_kind_ctype, CType, ElemKind, SlotKind};
use crate::c_backend::mangle::{cfn, cvar, fn_name, var_name};
use crate::ir::Atom;
use crate::names::NameMap;
use crate::text::{
    begins, dec, fill1, fill2, fill3, fill4, fmt, fmt_at, i64_text, join, join_strings, put2, put3,
    put4, put5, put6, usize_text, views,
};

verus! {

// ---------------------------------------------------------------------------
// The emitter
// ---------------------------------------------------------------------------

/// The state of emission: the variables in scope, the number of temporaries
/// taken, and the text so far.
pub struct St {
    pub types: Types,
    pub tmp: nat,
    pub out: Seq<char>,
}

impl St {
    /// The state with a filled template appended.
    pub open spec fn put(self, t: Seq<char>, args: Seq<Seq<char>>) -> St {
        St { out: self.out + fmt(t, args), ..self }
    }

    /// The state with a variable in scope.
    pub open spec fn bind(self, x: Seq<char>, t: CType) -> St {
        St { types: self.types.insert(x, t), ..self }
    }

    /// The name of the next temporary.
    pub open spec fn temp(self) -> Seq<char> {
        temp_name(self.tmp)
    }
}

/// The name of a temporary.
pub open spec fn temp_name(n: nat) -> Seq<char> {
    fmt("t_{}"@, seq![dec(n as int)])
}

/// The state after one more temporary was taken.
pub open spec fn taken(st: St) -> Result<St, Seq<char>> {
    if st.tmp >= usize::MAX {
        Err("c backend: too many temporaries"@)
    } else {
        Ok(St { tmp: st.tmp + 1, ..st })
    }
}

/// The emitter: the variables in scope, the counter of temporaries, and the text
/// so far.
pub struct Emitter {
    pub types: NameMap<CType>,
    pub tmp: usize,
    pub out: String,
}

impl Emitter {
    /// The state of emission.
    pub open spec fn view(&self) -> St {
        St { types: self.types@, tmp: self.tmp as nat, out: self.out@ }
    }

    /// Takes a fresh temporary.
    pub fn fresh(&mut self) -> (r: Result<String, String>)
        ensures
            match taken(old(self)@) {
                Ok(st) => r matches Ok(t) && t@ == old(self)@.temp() && final(self)@ == st,
                Err(e) => r matches Err(x) && x@ == e && final(self)@ == old(self)@,
            },
    {
        if self.tmp == usize::MAX {
            return Err("c backend: too many temporaries".to_owned());
        }
        let n: String = usize_text(self.tmp);
        self.tmp = self.tmp + 1;
        Ok(fill1("t_{}", n.as_str()))
    }
}

/// Whether text and temporaries were added to a state, and none taken back.
pub open spec fn grew(before: St, after: St) -> bool {
    &&& before.tmp <= after.tmp
    &&& before.out.len() <= after.out.len()
    &&& forall|i: int| 0 <= i < before.out.len() ==> #[trigger] after.out[i] == before.out[i]
}

/// What an emission promises: on success the emitter is in the stated state, on
/// failure the error is the stated one, and either way what was emitted before
/// still stands.
pub open spec fn emits(
    r: Result<(), String>,
    before: St,
    after: St,
    code: Result<St, Seq<char>>,
) -> bool {
    &&& grew(before, after)
    &&& match code {
        Ok(st) => r is Ok && after == st,
        Err(e) => r matches Err(x) && x@ == e,
    }
}

// ---------------------------------------------------------------------------
// Reference counting and slots
// ---------------------------------------------------------------------------

/// The runtime's stem for a reference-counted type: `aria_dup` and `aria_drop`
/// for cells, `aria_str_dup` for strings, and so on.
pub open spec fn managed_stem(t: CType) -> Option<Seq<char>> {
    match t {
        CType::Ref => Some("aria_"@),
        CType::Str => Some("aria_str_"@),
        CType::Array(_) => Some("aria_array_"@),
        CType::Bytes => Some("aria_bytes_"@),
        CType::Dict(_, _) => Some("aria_map_"@),
        CType::Bag(_) => Some("aria_set_"@),
        CType::Vector => Some("aria_vec_"@),
        _ => None,
    }
}

/// The runtime's stem for a reference-counted type.
pub fn stem(t: CType) -> (r: Option<&'static str>)
    ensures
        match r {
            Some(s) => managed_stem(t) == Some(s@),
            None => managed_stem(t) is None,
        },
{
    match t {
        CType::Ref => Some("aria_"),
        CType::Str => Some("aria_str_"),
        CType::Array(_) => Some("aria_array_"),
        CType::Bytes => Some("aria_bytes_"),
        CType::Dict(_, _) => Some("aria_map_"),
        CType::Bag(_) => Some("aria_set_"),
        CType::Vector => Some("aria_vec_"),
        _ => None,
    }
}

/// Exactly the reference-counted types have runtime dup and drop functions.
pub proof fn managed_have_stems(t: CType)
    ensures
        managed_stem(t) is Some <==> t.managed(),
{
}

/// The state after a dup or drop statement for a variable of type `t`; nothing
/// for an unmanaged type.
pub open spec fn counted(st: St, t: CType, op: Seq<char>, v: Seq<char>, ind: Seq<char>) -> St {
    match managed_stem(t) {
        Some(s) => st.put("{}{}{}({});\n"@, seq![ind, s, op, var_name(v)]),
        None => st,
    }
}

/// Emits the dup or drop statement for a variable.
pub fn emit_count(em: &mut Emitter, t: CType, op: &str, v: &str, ind: &str)
    ensures
        final(em)@ == counted(old(em)@, t, op@, v@, ind@),
{
    if let Some(s) = stem(t) {
        let cv: String = cvar(v);
        put4(&mut em.out, "{}{}{}({});\n", ind, s, op, cv.as_str());
    }
}

/// The state after a value of type `t` was stored in field `i` of a cell.
pub open spec fn stored(
    st: St,
    t: CType,
    cell: Seq<char>,
    i: nat,
    ex: Seq<char>,
    ind: Seq<char>,
) -> St {
    st.put(
        "{}aria_field({}, {}) = {};\n"@,
        seq![ind, cell, dec(i as int), SlotKind::holding(t).encoded(ex)],
    )
}

/// Emits the store of a value in a field of a cell.
pub fn emit_store(em: &mut Emitter, t: CType, cell: &str, i: usize, ex: &str, ind: &str)
    ensures
        final(em)@ == stored(old(em)@, t, cell@, i as nat, ex@, ind@),
{
    let index: String = usize_text(i);
    let slot: String = SlotKind::from_ctype(t).encode(ex);
    put4(
        &mut em.out,
        "{}aria_field({}, {}) = {};\n",
        ind,
        cell,
        index.as_str(),
        slot.as_str(),
    );
}

// ---------------------------------------------------------------------------
// Operators
// ---------------------------------------------------------------------------

/// The runtime function that compares and consumes two heap values.
pub open spec fn equality_fn(l: CType, r: CType) -> Option<Seq<char>> {
    match (l, r) {
        (CType::Str, CType::Str) => Some("aria_streq_consume"@),
        (CType::Ref, CType::Ref) => Some("aria_eq_consume"@),
        (CType::Bytes, CType::Bytes) => Some("aria_byteseq_consume"@),
        (CType::Dict(_, _), CType::Dict(_, _)) => Some("aria_map_eq_consume"@),
        (CType::Bag(_), CType::Bag(_)) => Some("aria_set_eq_consume"@),
        (CType::Vector, CType::Vector) => Some("aria_veceq_consume"@),
        _ => None,
    }
}

fn equality_helper(l: CType, r: CType) -> (f: Option<&'static str>)
    ensures
        match f {
            Some(s) => equality_fn(l, r) == Some(s@),
            None => equality_fn(l, r) is None,
        },
{
    match (l, r) {
        (CType::Str, CType::Str) => Some("aria_streq_consume"),
        (CType::Ref, CType::Ref) => Some("aria_eq_consume"),
        (CType::Bytes, CType::Bytes) => Some("aria_byteseq_consume"),
        (CType::Dict(_, _), CType::Dict(_, _)) => Some("aria_map_eq_consume"),
        (CType::Bag(_), CType::Bag(_)) => Some("aria_set_eq_consume"),
        (CType::Vector, CType::Vector) => Some("aria_veceq_consume"),
        _ => None,
    }
}

/// The C spelling of an operator.
pub open spec fn c_operator(op: BinOp) -> Seq<char> {
    match op {
        BinOp::Add => "+"@,
        BinOp::Sub => "-"@,
        BinOp::Mul => "*"@,
        BinOp::Div => "/"@,
        BinOp::Mod => "%"@,
        BinOp::Eq => "=="@,
        BinOp::Ne => "!="@,
        BinOp::Lt => "<"@,
        BinOp::Le => "<="@,
        BinOp::Gt => ">"@,
        BinOp::Ge => ">="@,
        BinOp::And => "&&"@,
        BinOp::Or => "||"@,
    }
}

/// The C spelling of an operator.
pub fn operator(op: BinOp) -> (r: &'static str)
    ensures
        r@ == c_operator(op),
{
    match op {
        BinOp::Add => "+",
        BinOp::Sub => "-",
        BinOp::Mul => "*",
        BinOp::Div => "/",
        BinOp::Mod => "%",
        BinOp::Eq => "==",
        BinOp::Ne => "!=",
        BinOp::Lt => "<",
        BinOp::Le => "<=",
        BinOp::Gt => ">",
        BinOp::Ge => ">=",
        BinOp::And => "&&",
        BinOp::Or => "||",
    }
}

/// The overflow-checking primitive of an operator.
pub open spec fn checked_builtin(op: BinOp) -> Seq<char> {
    match op {
        BinOp::Add => "__builtin_add_overflow"@,
        BinOp::Sub => "__builtin_sub_overflow"@,
        _ => "__builtin_mul_overflow"@,
    }
}

/// The statements of a binary operator. Int arithmetic traps on overflow and on
/// division by zero, Float arithmetic is IEEE, and heap values are compared by
/// content.
pub open spec fn prim_code(
    op: BinOp,
    l: Atom,
    r: Atom,
    dst: Seq<char>,
    st: St,
    lits: Seq<Seq<char>>,
    ind: Seq<char>,
) -> Result<St, Seq<char>> {
    match (atom_code(l, st.types, lits), atom_code(r, st.types, lits)) {
        (Err(e), _) => Err(e),
        (_, Err(e)) => Err(e),
        (Ok((lt, lx)), Ok((rt, rx))) => {
            let floats = lt == CType::Float && rt == CType::Float;
            let ints = lt == CType::Int && rt == CType::Int;
            match op {
                BinOp::Add | BinOp::Sub | BinOp::Mul => if floats {
                    Ok(st.put("{}{} = {} {} {};\n"@, seq![ind, dst, lx, c_operator(op), rx]))
                } else if !ints {
                    Err("c backend: arithmetic expects matching Int/Float operands"@)
                } else {
                    Ok(
                        st.put(
                            "{}if ({}({}, {}, &{})) aria_trap_msg(\"integer overflow\");\n"@,
                            seq![ind, checked_builtin(op), lx, rx, dst],
                        ),
                    )
                },
                BinOp::Div | BinOp::Mod => if floats {
                    if op == BinOp::Mod {
                        Err("c backend: Float has no `%`"@)
                    } else {
                        Ok(st.put("{}{} = {} / {};\n"@, seq![ind, dst, lx, rx]))
                    }
                } else if !ints {
                    Err("c backend: arithmetic expects Int operands"@)
                } else {
                    Ok(
                        st.put(
                            "{}if ({} == 0 || ({} == INT64_MIN && {} == -1)) aria_trap_msg(\"division by zero or overflow\");\n"@,
                            seq![ind, rx, lx, rx],
                        ).put("{}{} = {} {} {};\n"@, seq![ind, dst, lx, c_operator(op), rx]),
                    )
                },
                BinOp::Eq | BinOp::Ne => match equality_fn(lt, rt) {
                    Some(f) => Ok(
                        st.put(
                            "{}{} = {}{}({}, {});\n"@,
                            seq![
                                ind,
                                dst,
                                if op == BinOp::Eq {
                                    ""@
                                } else {
                                    "!"@
                                },
                                f,
                                lx,
                                rx,
                            ],
                        ),
                    ),
                    None => Ok(
                        st.put("{}{} = ({} {} {});\n"@, seq![ind, dst, lx, c_operator(op), rx]),
                    ),
                },
                _ => Ok(st.put("{}{} = ({} {} {});\n"@, seq![ind, dst, lx, c_operator(op), rx])),
            }
        },
    }
}

/// Emits a binary operator.
pub fn emit_prim(
    op: BinOp,
    l: &Atom,
    r: &Atom,
    dst: &str,
    em: &mut Emitter,
    lits: &Vec<String>,
    ind: &str,
) -> (res: Result<(), String>)
    ensures
        emits(res, old(em)@, final(em)@, prim_code(op, *l, *r, dst@, old(em)@, views(lits@), ind@)),
        res is Err ==> final(em)@ == old(em)@,
{
    let (lt, lx) = emit_atom(l, &em.types, lits)?;
    let (rt, rx) = emit_atom(r, &em.types, lits)?;
    let floats: bool = lt == CType::Float && rt == CType::Float;
    let ints: bool = lt == CType::Int && rt == CType::Int;
    let cop: &str = operator(op);
    match op {
        BinOp::Add | BinOp::Sub | BinOp::Mul => {
            if floats {
                put5(&mut em.out, "{}{} = {} {} {};\n", ind, dst, lx.as_str(), cop, rx.as_str());
                return Ok(());
            }
            if !ints {
                return Err(
                    "c backend: arithmetic expects matching Int/Float operands".to_owned(),
                );
            }
            let bi: &str = match op {
                BinOp::Add => "__builtin_add_overflow",
                BinOp::Sub => "__builtin_sub_overflow",
                _ => "__builtin_mul_overflow",
            };
            put5(
                &mut em.out,
                "{}if ({}({}, {}, &{})) aria_trap_msg(\"integer overflow\");\n",
                ind,
                bi,
                lx.as_str(),
                rx.as_str(),
                dst,
            );
            Ok(())
        },
        BinOp::Div | BinOp::Mod => {
            if floats {
                if op == BinOp::Mod {
                    return Err("c backend: Float has no `%`".to_owned());
                }
                put4(&mut em.out, "{}{} = {} / {};\n", ind, dst, lx.as_str(), rx.as_str());
                return Ok(());
            }
            if !ints {
                return Err("c backend: arithmetic expects Int operands".to_owned());
            }
            put4(
                &mut em.out,
                "{}if ({} == 0 || ({} == INT64_MIN && {} == -1)) aria_trap_msg(\"division by zero or overflow\");\n",
                ind,
                rx.as_str(),
                lx.as_str(),
                rx.as_str(),
            );
            put5(&mut em.out, "{}{} = {} {} {};\n", ind, dst, lx.as_str(), cop, rx.as_str());
            Ok(())
        },
        BinOp::Eq | BinOp::Ne => {
            match equality_helper(lt, rt) {
                Some(f) => {
                    let neg: &str = if op == BinOp::Eq {
                        ""
                    } else {
                        "!"
                    };
                    put6(
                        &mut em.out,
                        "{}{} = {}{}({}, {});\n",
                        ind,
                        dst,
                        neg,
                        f,
                        lx.as_str(),
                        rx.as_str(),
                    );
                },
                None => {
                    put5(
                        &mut em.out,
                        "{}{} = ({} {} {});\n",
                        ind,
                        dst,
                        lx.as_str(),
                        cop,
                        rx.as_str(),
                    );
                },
            }
            Ok(())
        },
        _ => {
            put5(&mut em.out, "{}{} = ({} {} {});\n", ind, dst, lx.as_str(), cop, rx.as_str());
            Ok(())
        },
    }
}

/// The statement of a unary operator. Negating the least Int traps.
pub open spec fn unary_code(
    op: UnOp,
    a: Atom,
    dst: Seq<char>,
    st: St,
    lits: Seq<Seq<char>>,
    ind: Seq<char>,
) -> Result<St, Seq<char>> {
    match atom_code(a, st.types, lits) {
        Err(e) => Err(e),
        Ok((t, ax)) => match op {
            UnOp::Neg => if t == CType::Float {
                Ok(st.put("{}{} = -{};\n"@, seq![ind, dst, ax]))
            } else if t == CType::Int {
                Ok(
                    st.put(
                        "{}if (__builtin_sub_overflow((int64_t)0, {}, &{})) aria_trap_msg(\"integer overflow\");\n"@,
                        seq![ind, ax, dst],
                    ),
                )
            } else {
                Err("c backend: unary `-` expects Int/Float"@)
            },
            UnOp::Not => if t != CType::Bool {
                Err("c backend: unary `!` expects Bool"@)
            } else {
                Ok(st.put("{}{} = !{};\n"@, seq![ind, dst, ax]))
            },
        },
    }
}

/// Emits a unary operator.
pub fn emit_unary(
    op: UnOp,
    a: &Atom,
    dst: &str,
    em: &mut Emitter,
    lits: &Vec<String>,
    ind: &str,
) -> (res: Result<(), String>)
    ensures
        emits(res, old(em)@, final(em)@, unary_code(op, *a, dst@, old(em)@, views(lits@), ind@)),
        res is Err ==> final(em)@ == old(em)@,
{
    let (t, ax) = emit_atom(a, &em.types, lits)?;
    match op {
        UnOp::Neg => {
            if t == CType::Float {
                put3(&mut em.out, "{}{} = -{};\n", ind, dst, ax.as_str());
            } else if t == CType::Int {
                put3(
                    &mut em.out,
                    "{}if (__builtin_sub_overflow((int64_t)0, {}, &{})) aria_trap_msg(\"integer overflow\");\n",
                    ind,
                    ax.as_str(),
                    dst,
                );
            } else {
                return Err("c backend: unary `-` expects Int/Float".to_owned());
            }
            Ok(())
        },
        UnOp::Not => {
            if t != CType::Bool {
                return Err("c backend: unary `!` expects Bool".to_owned());
            }
            put3(&mut em.out, "{}{} = !{};\n", ind, dst, ax.as_str());
            Ok(())
        },
    }
}

// ---------------------------------------------------------------------------
// Builtin calls
// ---------------------------------------------------------------------------

/// Whether the early arguments have the types of the form: the error of an
/// argument without a type comes first, then the usage message.
pub open spec fn early_check(form: FormModel, args: Seq<Atom>, n: nat, types: Types) -> Result<
    (),
    Seq<char>,
>
    decreases n,
{
    if n == 0 || n > args.len() {
        Ok(())
    } else {
        match early_check(form, args, (n - 1) as nat, types) {
            Err(e) => Err(e),
            Ok(_) => match type_of_atom(args[n - 1], types) {
                Err(e) => Err(e),
                Ok(t) => if t == form.type_at(n - 1) {
                    Ok(())
                } else {
                    Err(form.usage)
                },
            },
        }
    }
}

fn check_early(form: &BuiltinForm, args: &Vec<Atom>, n: usize, types: &NameMap<CType>) -> (r:
    Result<(), String>)
    requires
        n <= args@.len(),
    ensures
        match early_check(form@, args@, n as nat, types@) {
            Ok(_) => r is Ok,
            Err(e) => r matches Err(x) && x@ == e,
        },
    decreases n,
{
    if n == 0 {
        return Ok(());
    }
    check_early(form, args, n - 1, types)?;
    let t: CType = atom_type(&args[n - 1], types)?;
    if t == form.type_of(n - 1) {
        Ok(())
    } else {
        Err(form.usage.to_owned())
    }
}

/// Whether the late arguments have the types of the form.
pub open spec fn late_ok(form: FormModel, ts: Seq<CType>) -> bool {
    forall|i: int| form.early <= i < ts.len() ==> #[trigger] ts[i] == form.type_at(i)
}

fn check_late(form: &BuiltinForm, ts: &Vec<CType>) -> (r: bool)
    ensures
        r == late_ok(form@, ts@),
{
    let mut i: usize = form.early;
    while i < ts.len()
        invariant
            form.early <= i,
            forall|j: int| form.early <= j < i && j < ts@.len() ==> #[trigger] ts@[j] == form@.type_at(j),
        decreases ts@.len() - i,
    {
        if ts[i] != form.type_of(i) {
            return false;
        }
        i = i + 1;
    }
    true
}

/// The statements of an unsuffixed builtin, by its form.
pub open spec fn form_code(
    form: FormModel,
    args: Seq<Atom>,
    dst: Seq<char>,
    st: St,
    lits: Seq<Seq<char>>,
    ind: Seq<char>,
) -> Result<St, Seq<char>> {
    if args.len() != form.arity {
        Err(form.usage)
    } else {
        match early_check(form, args, form.early, st.types) {
            Err(e) => Err(e),
            Ok(_) => match atoms_code(args, args.len(), st.types, lits) {
                Err(e) => Err(e),
                Ok((ts, exs)) => if !late_ok(form, ts) {
                    Err(form.mismatch)
                } else if form.prints {
                    Ok(
                        st.put("{}{}({});\n"@, seq![ind, form.callee, join(exs, ", "@)]).put(
                            "{}{} = 0;\n"@,
                            seq![ind, dst],
                        ),
                    )
                } else {
                    Ok(
                        st.put(
                            "{}{} = {}({});\n"@,
                            seq![ind, dst, form.callee, join(exs, ", "@)],
                        ),
                    )
                },
            },
        }
    }
}

fn emit_form(
    form: &BuiltinForm,
    args: &Vec<Atom>,
    dst: &str,
    em: &mut Emitter,
    lits: &Vec<String>,
    ind: &str,
) -> (res: Result<(), String>)
    requires
        form.early <= form.arity,
    ensures
        emits(res, old(em)@, final(em)@, form_code(form@, args@, dst@, old(em)@, views(lits@), ind@)),
        res is Err ==> final(em)@ == old(em)@,
{
    if args.len() != form.arity {
        return Err(form.usage.to_owned());
    }
    check_early(form, args, form.early, &em.types)?;
    let (ts, exs) = emit_atoms(args, &em.types, lits)?;
    if !check_late(form, &ts) {
        return Err(form.mismatch.to_owned());
    }
    let joined: String = join_strings(&exs, ", ");
    if form.prints {
        put3(&mut em.out, "{}{}({});\n", ind, form.callee, joined.as_str());
        put2(&mut em.out, "{}{} = 0;\n", ind, dst);
    } else {
        put4(&mut em.out, "{}{} = {}({});\n", ind, dst, form.callee, joined.as_str());
    }
    Ok(())
}

/// Whether a value of type `t` can be an element of an array of the kind.
pub open spec fn element_fits(kind: ElemKind, t: CType) -> bool {
    ElemKind::holding(t) == kind
}

/// The slot of an array element.
pub open spec fn element_slot(kind: ElemKind, t: CType, ex: Seq<char>) -> Result<
    Seq<char>,
    Seq<char>,
> {
    if element_fits(kind, t) {
        Ok(SlotKind::holding(kind.ctype()).encoded(ex))
    } else {
        Err(
            fmt(
                "c backend: array element type mismatch (got {}, expected {})"@,
                seq![t.text(), kind.ctype().text()],
            ),
        )
    }
}

/// Encode an evaluated element value into the int64 slot of an array of the
/// given kind.
pub fn encode_elem_slot(kind: ElemKind, t: CType, ex: &str) -> (r: Result<String, String>)
    ensures
        match element_slot(kind, t, ex@) {
            Ok(s) => r matches Ok(x) && x@ == s,
            Err(e) => r matches Err(x) && x@ == e,
        },
{
    if ElemKind::from_ctype(&t) != kind {
        let got: String = t.describe();
        let expected: String = kind.elem_ctype().describe();
        return Err(
            fill2(
                "c backend: array element type mismatch (got {}, expected {})",
                got.as_str(),
                expected.as_str(),
            ),
        );
    }
    Ok(SlotKind::from_ctype(kind.elem_ctype()).encode(ex))
}

/// Decode an int64 slot C expression back to the element's C value.
pub fn decode_elem_slot(kind: ElemKind, slot: &str) -> (r: String)
    ensures
        r@ == SlotKind::holding(kind.ctype()).decoded(slot@),
{
    SlotKind::from_ctype(kind.elem_ctype()).decode(slot)
}

/// The pushes of the first `n` elements of an array literal.
pub open spec fn pushes_code(
    kind: ElemKind,
    args: Seq<Atom>,
    n: nat,
    dst: Seq<char>,
    st: St,
    lits: Seq<Seq<char>>,
    ind: Seq<char>,
) -> Result<St, Seq<char>>
    decreases n,
{
    if n == 0 || n > args.len() {
        Ok(st)
    } else {
        match pushes_code(kind, args, (n - 1) as nat, dst, st, lits, ind) {
            Err(e) => Err(e),
            Ok(s) => match atom_code(args[n - 1], s.types, lits) {
                Err(e) => Err(e),
                Ok((t, ex)) => match element_slot(kind, t, ex) {
                    Err(e) => Err(e),
                    Ok(slot) => Ok(
                        s.put(
                            "{}{} = aria_array_push({}, {}, INT64_C({}));\n"@,
                            seq![ind, dst, dst, slot, dec(kind.code_of())],
                        ),
                    ),
                },
            },
        }
    }
}

fn emit_pushes(
    kind: ElemKind,
    args: &Vec<Atom>,
    n: usize,
    dst: &str,
    em: &mut Emitter,
    lits: &Vec<String>,
    ind: &str,
) -> (res: Result<(), String>)
    requires
        n <= args@.len(),
    ensures
        emits(
            res,
            old(em)@,
            final(em)@,
            pushes_code(kind, args@, n as nat, dst@, old(em)@, views(lits@), ind@),
        ),
    decreases n,
{
    if n == 0 {
        return Ok(());
    }
    emit_pushes(kind, args, n - 1, dst, em, lits, ind)?;
    let (t, ex) = emit_atom(&args[n - 1], &em.types, lits)?;
    let slot: String = encode_elem_slot(kind, t, ex.as_str())?;
    let code: String = i64_text(kind.code());
    put5(
        &mut em.out,
        "{}{} = aria_array_push({}, {}, INT64_C({}));\n",
        ind,
        dst,
        dst,
        slot.as_str(),
        code.as_str(),
    );
    Ok(())
}

/// The statements of an array builtin.
pub open spec fn array_code(
    op: ArrayOp,
    kind: ElemKind,
    args: Seq<Atom>,
    dst: Seq<char>,
    st: St,
    lits: Seq<Seq<char>>,
    ind: Seq<char>,
) -> Result<St, Seq<char>> {
    let fresh = st.put(
        "{}{} = aria_array_new(INT64_C({}));\n"@,
        seq![ind, dst, dec(kind.code_of())],
    );
    match op {
        ArrayOp::New => if args.len() != 0 {
            Err("c backend: array_new expects no arguments"@)
        } else {
            Ok(fresh)
        },
        ArrayOp::Lit => pushes_code(kind, args, args.len(), dst, fresh, lits, ind),
        ArrayOp::Len => if args.len() != 1 {
            Err("c backend: array_len expects one array"@)
        } else {
            match atom_code(args[0], st.types, lits) {
                Err(e) => Err(e),
                Ok((_, arr)) => Ok(st.put("{}{} = aria_array_len({});\n"@, seq![ind, dst, arr])),
            }
        },
        ArrayOp::Get => if args.len() != 2 {
            Err("c backend: array_get expects (array, index)"@)
        } else {
            match (atom_code(args[0], st.types, lits), atom_code(args[1], st.types, lits)) {
                (Err(e), _) => Err(e),
                (_, Err(e)) => Err(e),
                (Ok((_, arr)), Ok((it, idx))) => if it != CType::Int {
                    Err("c backend: array_get index must be Int"@)
                } else {
                    Ok(
                        st.put(
                            "{}{} = {};\n"@,
                            seq![
                                ind,
                                dst,
                                SlotKind::holding(kind.ctype()).decoded(
                                    fmt("aria_array_get({}, {})"@, seq![arr, idx]),
                                ),
                            ],
                        ),
                    )
                },
            }
        },
        ArrayOp::Put => if args.len() != 3 {
            Err("c backend: array_set expects (array, index, value)"@)
        } else {
            match (atom_code(args[0], st.types, lits), atom_code(args[1], st.types, lits)) {
                (Err(e), _) => Err(e),
                (_, Err(e)) => Err(e),
                (Ok((_, arr)), Ok((it, idx))) => if it != CType::Int {
                    Err("c backend: array_set index must be Int"@)
                } else {
                    match atom_code(args[2], st.types, lits) {
                        Err(e) => Err(e),
                        Ok((t, ex)) => match element_slot(kind, t, ex) {
                            Err(e) => Err(e),
                            Ok(slot) => Ok(
                                st.put(
                                    "{}{} = aria_array_set({}, {}, {});\n"@,
                                    seq![ind, dst, arr, idx, slot],
                                ),
                            ),
                        },
                    }
                },
            }
        },
        ArrayOp::Push => if args.len() != 2 {
            Err("c backend: array_push expects (array, value)"@)
        } else {
            match (atom_code(args[0], st.types, lits), atom_code(args[1], st.types, lits)) {
                (Err(e), _) => Err(e),
                (_, Err(e)) => Err(e),
                (Ok((_, arr)), Ok((t, ex))) => match element_slot(kind, t, ex) {
                    Err(e) => Err(e),
                    Ok(slot) => Ok(
                        st.put(
                            "{}{} = aria_array_push({}, {}, INT64_C({}));\n"@,
                            seq![ind, dst, arr, slot, dec(kind.code_of())],
                        ),
                    ),
                },
            }
        },
    }
}

/// Emits a native array builtin: the runtime call, with the elements encoded by
/// kind.
pub fn emit_array_builtin(
    op: ArrayOp,
    kind: ElemKind,
    args: &Vec<Atom>,
    dst: &str,
    em: &mut Emitter,
    lits: &Vec<String>,
    ind: &str,
) -> (res: Result<(), String>)
    ensures
        emits(res, old(em)@, final(em)@, array_code(op, kind, args@, dst@, old(em)@, views(lits@), ind@)),
        res is Err && op != ArrayOp::Lit ==> final(em)@ == old(em)@,
{
    let code: String = i64_text(kind.code());
    match op {
        ArrayOp::New => {
            if args.len() != 0 {
                return Err("c backend: array_new expects no arguments".to_owned());
            }
            put3(
                &mut em.out,
                "{}{} = aria_array_new(INT64_C({}));\n",
                ind,
                dst,
                code.as_str(),
            );
            Ok(())
        },
        ArrayOp::Lit => {
            put3(
                &mut em.out,
                "{}{} = aria_array_new(INT64_C({}));\n",
                ind,
                dst,
                code.as_str(),
            );
            emit_pushes(kind, args, args.len(), dst, em, lits, ind)
        },
        ArrayOp::Len => {
            if args.len() != 1 {
                return Err("c backend: array_len expects one array".to_owned());
            }
            let (_t, arr) = emit_atom(&args[0], &em.types, lits)?;
            put3(&mut em.out, "{}{} = aria_array_len({});\n", ind, dst, arr.as_str());
            Ok(())
        },
        ArrayOp::Get => {
            if args.len() != 2 {
                return Err("c backend: array_get expects (array, index)".to_owned());
            }
            let (_t, arr) = emit_atom(&args[0], &em.types, lits)?;
            let (it, idx) = emit_atom(&args[1], &em.types, lits)?;
            if it != CType::Int {
                return Err("c backend: array_get index must be Int".to_owned());
            }
            let slot: String = fill2("aria_array_get({}, {})", arr.as_str(), idx.as_str());
            let value: String = decode_elem_slot(kind, slot.as_str());
            put3(&mut em.out, "{}{} = {};\n", ind, dst, value.as_str());
            Ok(())
        },
        ArrayOp::Put => {
            if args.len() != 3 {
                return Err("c backend: array_set expects (array, index, value)".to_owned());
            }
            let (_t, arr) = emit_atom(&args[0], &em.types, lits)?;
            let (it, idx) = emit_atom(&args[1], &em.types, lits)?;
            if it != CType::Int {
                return Err("c backend: array_set index must be Int".to_owned());
            }
            let (t, ex) = emit_atom(&args[2], &em.types, lits)?;
            let slot: String = encode_elem_slot(kind, t, ex.as_str())?;
            put5(
                &mut em.out,
                "{}{} = aria_array_set({}, {}, {});\n",
                ind,
                dst,
                arr.as_str(),
                idx.as_str(),
                slot.as_str(),
            );
            Ok(())
        },
        ArrayOp::Push => {
            if args.len() != 2 {
                return Err("c backend: array_push expects (array, value)".to_owned());
            }
            let (_t, arr) = emit_atom(&args[0], &em.types, lits)?;
            let (t, ex) = emit_atom(&args[1], &em.types, lits)?;
            let slot: String = encode_elem_slot(kind, t, ex.as_str())?;
            put5(
                &mut em.out,
                "{}{} = aria_array_push({}, {}, INT64_C({}));\n",
                ind,
                dst,
                arr.as_str(),
                slot.as_str(),
                code.as_str(),
            );
            Ok(())
        },
    }
}

// ---------------------------------------------------------------------------
// Map and set builtins
// ---------------------------------------------------------------------------

/// The key and value kinds of a map type.
pub open spec fn kinds_of_map(t: CType) -> Result<(SlotKind, SlotKind), Seq<char>> {
    match t {
        CType::Dict(k, v) => Ok((k, v)),
        _ => Err(fmt("c backend: expected a Map, got {}"@, seq![t.text()])),
    }
}

/// The (key, value) slot kinds of a map type.
pub fn map_kinds_of(t: CType) -> (r: Result<(SlotKind, SlotKind), String>)
    ensures
        same(r, kinds_of_map(t)),
{
    match t {
        CType::Dict(k, v) => Ok((k, v)),
        _ => {
            let got: String = t.describe();
            Err(fill1("c backend: expected a Map, got {}", got.as_str()))
        },
    }
}

/// The element kind of a set type.
pub open spec fn kind_of_set(t: CType) -> Result<SlotKind, Seq<char>> {
    match t {
        CType::Bag(e) => Ok(e),
        _ => Err(fmt("c backend: expected a Set, got {}"@, seq![t.text()])),
    }
}

/// The element slot kind of a set type.
pub fn set_kind_of(t: CType) -> (r: Result<SlotKind, String>)
    ensures
        same(r, kind_of_set(t)),
{
    match t {
        CType::Bag(e) => Ok(e),
        _ => {
            let got: String = t.describe();
            Err(fill1("c backend: expected a Set, got {}", got.as_str()))
        },
    }
}

/// The number of arguments of a map or set builtin, and the message for any other
/// number.
pub open spec fn map_set_usage(op: MapSetOp) -> (nat, Seq<char>) {
    match op {
        MapSetOp::MapNew => (0, "c backend: map_new expects no arguments"@),
        MapSetOp::MapInsert => (3, "c backend: map_insert expects (map, key, value)"@),
        MapSetOp::MapGetOr => (3, "c backend: map_get_or expects (map, key, default)"@),
        MapSetOp::MapHas => (2, "c backend: map_has expects (map, key)"@),
        MapSetOp::MapLen => (1, "c backend: map_len expects (map)"@),
        MapSetOp::MapShow => (1, "c backend: map_show expects (map)"@),
        MapSetOp::MapKeys => (1, "c backend: map_keys expects (map)"@),
        MapSetOp::MapValues => (1, "c backend: map_values expects (map)"@),
        MapSetOp::MapRemove => (2, "c backend: map_remove expects (map, key)"@),
        MapSetOp::SetNew => (0, "c backend: set_new expects no arguments"@),
        MapSetOp::SetAdd => (2, "c backend: set_add expects (set, elem)"@),
        MapSetOp::SetHas => (2, "c backend: set_has expects (set, elem)"@),
        MapSetOp::SetLen => (1, "c backend: set_len expects (set)"@),
        MapSetOp::SetShow => (1, "c backend: set_show expects (set)"@),
        MapSetOp::SetRemove => (2, "c backend: set_remove expects (set, elem)"@),
        MapSetOp::SetToArray => (1, "c backend: set_to_array expects (set)"@),
    }
}

fn usage_of(op: MapSetOp) -> (r: (usize, &'static str))
    ensures
        r.0 == map_set_usage(op).0,
        r.1@ == map_set_usage(op).1,
        r.0 <= 3,
{
    match op {
        MapSetOp::MapNew => (0, "c backend: map_new expects no arguments"),
        MapSetOp::MapInsert => (3, "c backend: map_insert expects (map, key, value)"),
        MapSetOp::MapGetOr => (3, "c backend: map_get_or expects (map, key, default)"),
        MapSetOp::MapHas => (2, "c backend: map_has expects (map, key)"),
        MapSetOp::MapLen => (1, "c backend: map_len expects (map)"),
        MapSetOp::MapShow => (1, "c backend: map_show expects (map)"),
        MapSetOp::MapKeys => (1, "c backend: map_keys expects (map)"),
        MapSetOp::MapValues => (1, "c backend: map_values expects (map)"),
        MapSetOp::MapRemove => (2, "c backend: map_remove expects (map, key)"),
        MapSetOp::SetNew => (0, "c backend: set_new expects no arguments"),
        MapSetOp::SetAdd => (2, "c backend: set_add expects (set, elem)"),
        MapSetOp::SetHas => (2, "c backend: set_has expects (set, elem)"),
        MapSetOp::SetLen => (1, "c backend: set_len expects (set)"),
        MapSetOp::SetShow => (1, "c backend: set_show expects (set)"),
        MapSetOp::SetRemove => (2, "c backend: set_remove expects (set, elem)"),
        MapSetOp::SetToArray => (1, "c backend: set_to_array expects (set)"),
    }
}

/// The runtime function of a map or set builtin.
pub open spec fn map_set_fn(op: MapSetOp) -> Seq<char> {
    match op {
        MapSetOp::MapNew => "aria_map_new"@,
        MapSetOp::MapInsert => "aria_map_insert"@,
        MapSetOp::MapGetOr => "aria_map_get_or"@,
        MapSetOp::MapHas => "aria_map_has"@,
        MapSetOp::MapLen => "aria_map_len"@,
        MapSetOp::MapShow => "aria_map_show"@,
        MapSetOp::MapKeys => "aria_map_keys"@,
        MapSetOp::MapValues => "aria_map_values"@,
        MapSetOp::MapRemove => "aria_map_remove"@,
        MapSetOp::SetNew => "aria_set_new"@,
        MapSetOp::SetAdd => "aria_set_add"@,
        MapSetOp::SetHas => "aria_set_has"@,
        MapSetOp::SetLen => "aria_set_len"@,
        MapSetOp::SetShow => "aria_set_show"@,
        MapSetOp::SetRemove => "aria_set_remove"@,
        MapSetOp::SetToArray => "aria_set_to_array"@,
    }
}

fn runtime_fn(op: MapSetOp) -> (r: &'static str)
    ensures
        r@ == map_set_fn(op),
{
    match op {
        MapSetOp::MapNew => "aria_map_new",
        MapSetOp::MapInsert => "aria_map_insert",
        MapSetOp::MapGetOr => "aria_map_get_or",
        MapSetOp::MapHas => "aria_map_has",
        MapSetOp::MapLen => "aria_map_len",
        MapSetOp::MapShow => "aria_map_show",
        MapSetOp::MapKeys => "aria_map_keys",
        MapSetOp::MapValues => "aria_map_values",
        MapSetOp::MapRemove => "aria_map_remove",
        MapSetOp::SetNew => "aria_set_new",
        MapSetOp::SetAdd => "aria_set_add",
        MapSetOp::SetHas => "aria_set_has",
        MapSetOp::SetLen => "aria_set_len",
        MapSetOp::SetShow => "aria_set_show",
        MapSetOp::SetRemove => "aria_set_remove",
        MapSetOp::SetToArray => "aria_set_to_array",
    }
}

/// The slot and the kind code of an operand, by the operand's own type.
pub open spec fn operand_slot(t: CType, ex: Seq<char>) -> Seq<char> {
    SlotKind::holding(t).encoded(ex)
}

/// The kind code of an operand.
pub open spec fn operand_code(t: CType) -> Seq<char> {
    dec(SlotKind::holding(t).code_of())
}

/// The code of the array elements that a slot kind is enumerated into.
pub open spec fn enumerated_code(k: SlotKind) -> Seq<char> {
    dec(ElemKind::holding(k.ctype()).code_of())
}

/// The value expression of a map or set builtin's call, given the types and
/// expressions of its operands.
pub open spec fn map_set_value(
    op: MapSetOp,
    name: Seq<char>,
    ts: Seq<CType>,
    exs: Seq<Seq<char>>,
) -> Seq<char> {
    let f = map_set_fn(op);
    let (sk, sv) = suffix_kinds(name);
    match op {
        MapSetOp::MapNew => fmt(
            "{}(INT64_C({}), INT64_C({}))"@,
            seq![f, dec(sk.code_of()), dec(sv.code_of())],
        ),
        MapSetOp::SetNew => fmt("{}(INT64_C({}))"@, seq![f, dec(sk.code_of())]),
        MapSetOp::MapInsert => fmt(
            "{}({}, {}, {}, INT64_C({}), INT64_C({}))"@,
            seq![
                f,
                exs[0],
                operand_slot(ts[1], exs[1]),
                operand_slot(ts[2], exs[2]),
                operand_code(ts[1]),
                operand_code(ts[2]),
            ],
        ),
        MapSetOp::MapGetOr => SlotKind::holding(ts[2]).decoded(
            fmt(
                "{}({}, {}, {}, INT64_C({}), INT64_C({}))"@,
                seq![
                    f,
                    exs[0],
                    operand_slot(ts[1], exs[1]),
                    operand_slot(ts[2], exs[2]),
                    operand_code(ts[1]),
                    operand_code(ts[2]),
                ],
            ),
        ),
        MapSetOp::MapHas
        | MapSetOp::MapRemove
        | MapSetOp::SetAdd
        | MapSetOp::SetHas
        | MapSetOp::SetRemove => fmt(
            "{}({}, {}, INT64_C({}))"@,
            seq![f, exs[0], operand_slot(ts[1], exs[1]), operand_code(ts[1])],
        ),
        MapSetOp::MapLen | MapSetOp::MapShow | MapSetOp::SetLen | MapSetOp::SetShow => fmt(
            "{}({})"@,
            seq![f, exs[0]],
        ),
        MapSetOp::MapKeys => {
            let k = kinds_of_map(ts[0])->Ok_0.0;
            fmt(
                "{}({}, INT64_C({}), INT64_C({}))"@,
                seq![f, exs[0], dec(k.code_of()), enumerated_code(k)],
            )
        },
        MapSetOp::MapValues => {
            let v = kinds_of_map(ts[0])->Ok_0.1;
            fmt(
                "{}({}, INT64_C({}), INT64_C({}))"@,
                seq![f, exs[0], dec(v.code_of()), enumerated_code(v)],
            )
        },
        MapSetOp::SetToArray => {
            let e = kind_of_set(ts[0])->Ok_0;
            fmt(
                "{}({}, INT64_C({}), INT64_C({}))"@,
                seq![f, exs[0], dec(e.code_of()), enumerated_code(e)],
            )
        },
    }
}

/// What a builtin asks of its container operand.
pub open spec fn container_check(op: MapSetOp, t: CType) -> Result<(), Seq<char>> {
    match op {
        MapSetOp::MapInsert
        | MapSetOp::MapGetOr
        | MapSetOp::MapHas
        | MapSetOp::MapRemove
        | MapSetOp::MapKeys
        | MapSetOp::MapValues => match kinds_of_map(t) {
            Ok(_) => Ok(()),
            Err(e) => Err(e),
        },
        MapSetOp::SetAdd | MapSetOp::SetHas | MapSetOp::SetRemove | MapSetOp::SetToArray =>
        match kind_of_set(t) {
            Ok(_) => Ok(()),
            Err(e) => Err(e),
        },
        _ => Ok(()),
    }
}

fn check_container(op: MapSetOp, t: CType) -> (r: Result<(), String>)
    ensures
        same(r, container_check(op, t)),
{
    match op {
        MapSetOp::MapInsert
        | MapSetOp::MapGetOr
        | MapSetOp::MapHas
        | MapSetOp::MapRemove
        | MapSetOp::MapKeys
        | MapSetOp::MapValues => match map_kinds_of(t) {
            Ok(_) => Ok(()),
            Err(e) => Err(e),
        },
        MapSetOp::SetAdd | MapSetOp::SetHas | MapSetOp::SetRemove | MapSetOp::SetToArray =>
        match set_kind_of(t) {
            Ok(_) => Ok(()),
            Err(e) => Err(e),
        },
        _ => Ok(()),
    }
}

/// The statement of a map or set builtin: the operands are emitted left to right,
/// the container is checked as soon as it is.
pub open spec fn map_set_code(
    op: MapSetOp,
    name: Seq<char>,
    args: Seq<Atom>,
    dst: Seq<char>,
    st: St,
    lits: Seq<Seq<char>>,
    ind: Seq<char>,
) -> Result<St, Seq<char>> {
    if args.len() != map_set_usage(op).0 {
        Err(map_set_usage(op).1)
    } else if args.len() == 0 {
        Ok(
            st.put(
                "{}{} = {};\n"@,
                seq![ind, dst, map_set_value(op, name, Seq::empty(), Seq::empty())],
            ),
        )
    } else {
        match atom_code(args[0], st.types, lits) {
            Err(e) => Err(e),
            Ok((ct, _)) => match container_check(op, ct) {
                Err(e) => Err(e),
                Ok(_) => match atoms_code(args, args.len(), st.types, lits) {
                    Err(e) => Err(e),
                    Ok((ts, exs)) => Ok(
                        st.put("{}{} = {};\n"@, seq![ind, dst, map_set_value(op, name, ts, exs)]),
                    ),
                },
            },
        }
    }
}

/// The value expression of a map or set builtin's call.
fn map_set_call(op: MapSetOp, name: &str, ts: &Vec<CType>, exs: &Vec<String>) -> (r: String)
    requires
        ts@.len() == map_set_usage(op).0,
        exs@.len() == map_set_usage(op).0,
        ts@.len() > 0 ==> container_check(op, ts@[0]) is Ok,
    ensures
        r@ == map_set_value(op, name@, ts@, views(exs@)),
{
    let f: &str = runtime_fn(op);
    let (sk, sv) = map_set_suffix_kinds(name);
    match op {
        MapSetOp::MapNew => {
            let a: String = i64_text(sk.code());
            let b: String = i64_text(sv.code());
            fill3("{}(INT64_C({}), INT64_C({}))", f, a.as_str(), b.as_str())
        },
        MapSetOp::SetNew => {
            let a: String = i64_text(sk.code());
            fill2("{}(INT64_C({}))", f, a.as_str())
        },
        MapSetOp::MapInsert => insert_call(f, ts, exs),
        MapSetOp::MapGetOr => {
            let call: String = insert_call(f, ts, exs);
            SlotKind::from_ctype(ts[2]).decode(call.as_str())
        },
        MapSetOp::MapHas
        | MapSetOp::MapRemove
        | MapSetOp::SetAdd
        | MapSetOp::SetHas
        | MapSetOp::SetRemove => {
            let k: SlotKind = SlotKind::from_ctype(ts[1]);
            let slot: String = k.encode(exs[1].as_str());
            let code: String = i64_text(k.code());
            assert(views(exs@)[1] == exs@[1]@);
            assert(views(exs@)[0] == exs@[0]@);
            fill4(
                "{}({}, {}, INT64_C({}))",
                f,
                exs[0].as_str(),
                slot.as_str(),
                code.as_str(),
            )
        },
        MapSetOp::MapLen | MapSetOp::MapShow | MapSetOp::SetLen | MapSetOp::SetShow => {
            assert(views(exs@)[0] == exs@[0]@);
            fill2("{}({})", f, exs[0].as_str())
        },
        MapSetOp::MapKeys | MapSetOp::MapValues | MapSetOp::SetToArray => {
            let k: SlotKind = match ts[0] {
                CType::Dict(k, v) => match op {
                    MapSetOp::MapKeys => k,
                    _ => v,
                },
                CType::Bag(e) => e,
                _ => SlotKind::Ref,
            };
            let src: String = i64_text(k.code());
            let dst: String = i64_text(ElemKind::from_ctype(&slot_kind_ctype(k)).code());
            assert(views(exs@)[0] == exs@[0]@);
            fill4(
                "{}({}, INT64_C({}), INT64_C({}))",
                f,
                exs[0].as_str(),
                src.as_str(),
                dst.as_str(),
            )
        },
    }
}

fn insert_call(f: &str, ts: &Vec<CType>, exs: &Vec<String>) -> (r: String)
    requires
        ts@.len() == 3,
        exs@.len() == 3,
    ensures
        r@ == fmt(
            "{}({}, {}, {}, INT64_C({}), INT64_C({}))"@,
            seq![
                f@,
                views(exs@)[0],
                operand_slot(ts@[1], views(exs@)[1]),
                operand_slot(ts@[2], views(exs@)[2]),
                operand_code(ts@[1]),
                operand_code(ts@[2]),
            ],
        ),
{
    let kk: SlotKind = SlotKind::from_ctype(ts[1]);
    let vk: SlotKind = SlotKind::from_ctype(ts[2]);
    let kslot: String = kk.encode(exs[1].as_str());
    let vslot: String = vk.encode(exs[2].as_str());
    let kcode: String = i64_text(kk.code());
    let vcode: String = i64_text(vk.code());
    let mut r = String::new();
    put6(
        &mut r,
        "{}({}, {}, {}, INT64_C({}), INT64_C({}))",
        f,
        exs[0].as_str(),
        kslot.as_str(),
        vslot.as_str(),
        kcode.as_str(),
        vcode.as_str(),
    );
    proof {
        let vs = views(exs@);
        assert(vs[0] == exs@[0]@ && vs[1] == exs@[1]@ && vs[2] == exs@[2]@);
        assert(r@ =~= fmt(
            "{}({}, {}, {}, INT64_C({}), INT64_C({}))"@,
            seq![f@, vs[0], kslot@, vslot@, kcode@, vcode@],
        ));
    }
    r
}

/// Emits a native map or set builtin. The kinds are read from the operands'
/// types and passed to the runtime.
pub fn emit_map_set_builtin(
    op: MapSetOp,
    name: &str,
    args: &Vec<Atom>,
    dst: &str,
    em: &mut Emitter,
    lits: &Vec<String>,
    ind: &str,
) -> (res: Result<(), String>)
    ensures
        emits(res, old(em)@, final(em)@, map_set_code(op, name@, args@, dst@, old(em)@, views(lits@), ind@)),
        res is Err ==> final(em)@ == old(em)@,
{
    let (arity, usage) = usage_of(op);
    if args.len() != arity {
        return Err(usage.to_owned());
    }
    if args.len() > 0 {
        let (ct, _ex) = emit_atom(&args[0], &em.types, lits)?;
        check_container(op, ct)?;
    }
    let (ts, exs) = emit_atoms(args, &em.types, lits)?;
    proof {
        lemma_first_atom(args@, args@.len(), em.types@, views(lits@));
        if args@.len() == 0 {
            assert(ts@ =~= Seq::empty());
            assert(views(exs@) =~= Seq::empty());
        }
    }
    let value: String = map_set_call(op, name, &ts, &exs);
    put3(&mut em.out, "{}{} = {};\n", ind, dst, value.as_str());
    Ok(())
}

/// The first of the emitted atoms is the first atom's.
proof fn lemma_first_atom(atoms: Seq<Atom>, n: nat, types: Types, lits: Seq<Seq<char>>)
    requires
        n <= atoms.len(),
    ensures
        n > 0 ==> (atoms_code(atoms, n, types, lits) matches Ok((ts, exs)) ==> ts.len() == n
            && exs.len() == n && atom_code(atoms[0], types, lits) == Ok::<
            (CType, Seq<char>),
            Seq<char>,
        >((ts[0], exs[0]))),
    decreases n,
{
    if n > 1 {
        lemma_first_atom(atoms, (n - 1) as nat, types, lits);
    } else if n == 1 {
        reveal_with_fuel(atoms_code, 2);
    }
}

// ---------------------------------------------------------------------------
// Calls
// ---------------------------------------------------------------------------

/// The statements of an inline builtin.
pub open spec fn builtin_code(
    name: Seq<char>,
    args: Seq<Atom>,
    dst: Seq<char>,
    st: St,
    lits: Seq<Seq<char>>,
    ind: Seq<char>,
) -> Result<St, Seq<char>> {
    match array_builtin(name) {
        Some((op, kind)) => array_code(op, kind, args, dst, st, lits, ind),
        None => match map_set_builtin(name) {
            Some(op) => map_set_code(op, name, args, dst, st, lits, ind),
            None => match form_of(name) {
                Some(form) => form_code(form, args, dst, st, lits, ind),
                None => Err(fmt("c backend: unsupported builtin `{}`"@, seq![name])),
            },
        },
    }
}

/// Emits an inline builtin. Call arguments are consumed: the runtime helpers
/// release their String and Ref operands.
pub fn emit_builtin(
    name: &str,
    args: &Vec<Atom>,
    dst: &str,
    em: &mut Emitter,
    lits: &Vec<String>,
    ind: &str,
) -> (res: Result<(), String>)
    ensures
        emits(res, old(em)@, final(em)@, builtin_code(name@, args@, dst@, old(em)@, views(lits@), ind@)),
        res is Err && !begins(name@, "array_lit$"@) ==> final(em)@ == old(em)@,
{
    proof {
        literals_start_alike(name@);
    }
    if let Some((op, kind)) = parse_array_builtin(name) {
        return emit_array_builtin(op, kind, args, dst, em, lits, ind);
    }
    if let Some(op) = parse_map_set_builtin(name) {
        return emit_map_set_builtin(op, name, args, dst, em, lits, ind);
    }
    match builtin_form(name) {
        Some(form) => {
            proof {
                forms_complete(name@);
            }
            emit_form(&form, args, dst, em, lits, ind)
        },
        None => Err(fill1("c backend: unsupported builtin `{}`", name)),
    }
}

/// A builtin adds statements, and neither variables nor temporaries.
pub proof fn builtins_add_text(
    name: Seq<char>,
    args: Seq<Atom>,
    dst: Seq<char>,
    st: St,
    lits: Seq<Seq<char>>,
    ind: Seq<char>,
)
    ensures
        builtin_code(name, args, dst, st, lits, ind) matches Ok(s) ==> s.types == st.types && s.tmp
            == st.tmp && grew(st, s) && s.out.len() > st.out.len(),
{
    lemma_lines();
    if let Some((op, kind)) = array_builtin(name) {
        if op == ArrayOp::Lit {
            let fresh = st.put(
                "{}{} = aria_array_new(INT64_C({}));\n"@,
                seq![ind, dst, dec(kind.code_of())],
            );
            lemma_pushes(kind, args, args.len(), dst, fresh, lits, ind);
        }
    }
}

proof fn lemma_pushes(
    kind: ElemKind,
    args: Seq<Atom>,
    n: nat,
    dst: Seq<char>,
    st: St,
    lits: Seq<Seq<char>>,
    ind: Seq<char>,
)
    ensures
        pushes_code(kind, args, n, dst, st, lits, ind) matches Ok(s) ==> s.types == st.types && s.tmp
            == st.tmp && grew(st, s),
    decreases n,
{
    if n > 0 && n <= args.len() {
        lemma_pushes(kind, args, (n - 1) as nat, dst, st, lits, ind);
    }
}

/// A template that does not end in `}` gives some text.
proof fn lemma_some_text(t: Seq<char>, i: nat, args: Seq<Seq<char>>, k: nat)
    requires
        i < t.len(),
        t.last() != '}',
    ensures
        fmt_at(t, i, args, k).len() > 0,
    decreases t.len() - i,
{
    if i + 1 < t.len() && t[i as int] == '{' && t[(i + 1) as int] == '}' {
        lemma_some_text(t, i + 2, args, k + 1);
    }
}

proof fn lemma_line(t: Seq<char>)
    requires
        t.len() > 0,
        t.last() != '}',
    ensures
        forall|args: Seq<Seq<char>>| #[trigger] fmt(t, args).len() > 0,
{
    reveal(fmt);
    assert forall|args: Seq<Seq<char>>| #[trigger] fmt(t, args).len() > 0 by {
        lemma_some_text(t, 0, args, 0);
    }
}

/// The statements of the builtins are not empty.
proof fn lemma_lines()
    ensures
        forall|args: Seq<Seq<char>>| #[trigger] fmt("{}{}({});\n"@, args).len() > 0,
        forall|args: Seq<Seq<char>>| #[trigger] fmt("{}{} = {}({});\n"@, args).len() > 0,
        forall|args: Seq<Seq<char>>| #[trigger] fmt("{}{} = {};\n"@, args).len() > 0,
        forall|args: Seq<Seq<char>>| #[trigger]
            fmt("{}{} = aria_array_new(INT64_C({}));\n"@, args).len() > 0,
        forall|args: Seq<Seq<char>>| #[trigger]
            fmt("{}{} = aria_array_len({});\n"@, args).len() > 0,
        forall|args: Seq<Seq<char>>| #[trigger]
            fmt("{}{} = aria_array_set({}, {}, {});\n"@, args).len() > 0,
        forall|args: Seq<Seq<char>>| #[trigger]
            fmt("{}{} = aria_array_push({}, {}, INT64_C({}));\n"@, args).len() > 0,
{
    reveal_strlit("{}{}({});\n");
    reveal_strlit("{}{} = {}({});\n");
    reveal_strlit("{}{} = {};\n");
    reveal_strlit("{}{} = aria_array_new(INT64_C({}));\n");
    reveal_strlit("{}{} = aria_array_len({});\n");
    reveal_strlit("{}{} = aria_array_set({}, {}, {});\n");
    reveal_strlit("{}{} = aria_array_push({}, {}, INT64_C({}));\n");
    lemma_line("{}{}({});\n"@);
    lemma_line("{}{} = {}({});\n"@);
    lemma_line("{}{} = {};\n"@);
    lemma_line("{}{} = aria_array_new(INT64_C({}));\n"@);
    lemma_line("{}{} = aria_array_len({});\n"@);
    lemma_line("{}{} = aria_array_set({}, {}, {});\n"@);
    lemma_line("{}{} = aria_array_push({}, {}, INT64_C({}));\n"@);
}

/// The statement of a call.
pub open spec fn call_code(
    name: Seq<char>,
    args: Seq<Atom>,
    dst: Seq<char>,
    st: St,
    cx: CxV,
    ind: Seq<char>,
) -> Result<St, Seq<char>> {
    if inline_builtin(name) {
        builtin_code(name, args, dst, st, cx.lits, ind)
    } else if !cx.sigs.contains_key(name) {
        Err(fmt("c backend: call to unknown fn `{}`"@, seq![name]))
    } else if cx.sigs[name].params.len() != args.len() {
        Err(
            fmt(
                "c backend: fn `{}` got {} args, expected {}"@,
                seq![name, dec(args.len() as int), dec(cx.sigs[name].params.len() as int)],
            ),
        )
    } else {
        match atoms_code(args, args.len(), st.types, cx.lits) {
            Err(e) => Err(e),
            Ok((_, exs)) => Ok(
                st.put("{}{} = {}({});\n"@, seq![ind, dst, fn_name(name), join(exs, ", "@)]),
            ),
        }
    }
}

/// Emits a call of a builtin or of a function of the program.
pub fn emit_call(
    name: &str,
    args: &Vec<Atom>,
    dst: &str,
    em: &mut Emitter,
    cx: &Cx,
    ind: &str,
) -> (res: Result<(), String>)
    ensures
        emits(res, old(em)@, final(em)@, call_code(name@, args@, dst@, old(em)@, cx@, ind@)),
        res is Err && !begins(name@, "array_lit$"@) ==> final(em)@ == old(em)@,
{
    if is_builtin(name) {
        return emit_builtin(name, args, dst, em, cx.lits, ind);
    }
    let sig: &FnSig = match cx.sigs.get(name) {
        Some(s) => s,
        None => return Err(fill1("c backend: call to unknown fn `{}`", name)),
    };
    if sig.params.len() != args.len() {
        let got: String = usize_text(args.len());
        let expected: String = usize_text(sig.params.len());
        return Err(
            fill3(
                "c backend: fn `{}` got {} args, expected {}",
                name,
                got.as_str(),
                expected.as_str(),
            ),
        );
    }
    let (_ts, exs) = emit_atoms(args, &em.types, cx.lits)?;
    let joined: String = join_strings(&exs, ", ");
    let callee: String = cfn(name);
    put4(&mut em.out, "{}{} = {}({});\n", ind, dst, callee.as_str(), joined.as_str());
    Ok(())
}

} // verus!
