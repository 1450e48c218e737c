//! What the code generator knows: the program's functions, constructors,
//! closures and string literals, and the types of the variables in scope.

use vstd::prelude::*;
use vstd::string::*;
use vstd::utf8::encode_utf8;

use crate::ast::{FloatLit, Item, Program, TypeDecl, Variant};
use crate::c_backend::kinds::{same, CType};
use crate::c_backend::mangle::{cvar, var_name};
use crate::ir::Atom;
use crate::names::NameMap;
use crate::text::{dec, fill1, fill2, fill3, fmt, i64_text, str_eq, usize_text, views};

verus! {

/// A function's C-level signature.
pub struct FnSig {
    pub params: Vec<CType>,
    pub ret: CType,
}

/// A constructor: its tag and the types of its fields.
pub struct CtorInfo {
    pub tag: usize,
    pub field_types: Vec<CType>,
}

/// A function's C-level signature, as a model.
pub struct SigV {
    pub params: Seq<CType>,
    pub ret: CType,
}

impl FnSig {
    /// The signature's model.
    pub open spec fn view(&self) -> SigV {
        SigV { params: self.params@, ret: self.ret }
    }
}

/// A constructor, as a model.
pub struct CtorV {
    pub tag: nat,
    pub fields: Seq<CType>,
}

impl CtorInfo {
    /// The constructor's model.
    pub open spec fn view(&self) -> CtorV {
        CtorV { tag: self.tag as nat, fields: self.field_types@ }
    }

    /// The number of fields.
    pub fn arity(&self) -> (r: usize)
        ensures
            r == self.field_types@.len(),
    {
        self.field_types.len()
    }
}

/// Lifted-lambda dispatch metadata.
pub struct ClosureTable {
    /// First closure tag (one past the last constructor tag), so closure tags
    /// never collide with constructor tags.
    pub base: usize,
    /// Lambda names in tag order; index `i` has tag `base + i`.
    pub names: Vec<String>,
}

/// The position of a name in a list, if it is there.
pub open spec fn position(names: Seq<Seq<char>>, name: Seq<char>) -> Option<nat>
    decreases names.len(),
{
    if names.len() == 0 {
        None
    } else if names[0] == name {
        Some(0)
    } else {
        match position(names.drop_first(), name) {
            Some(i) => Some(i + 1),
            None => None,
        }
    }
}

/// The position of a name in a list, if it is there.
pub fn position_of(names: &Vec<String>, name: &str) -> (r: Option<usize>)
    ensures
        match r {
            Some(i) => position(views(names@), name@) == Some(i as nat) && i < names@.len(),
            None => position(views(names@), name@) is None,
        },
{
    let ghost all = views(names@);
    let mut i: usize = 0;
    assert(all.skip(0) =~= all);
    while i < names.len()
        invariant
            i <= names@.len(),
            all == views(names@),
            position(all, name@) == (match position(all.skip(i as int), name@) {
                Some(k) => Some((i + k) as nat),
                None => None,
            }),
        decreases names@.len() - i,
    {
        assert(all.skip(i as int)[0] == names@[i as int]@);
        if str_eq(names[i].as_str(), name) {
            return Some(i);
        }
        assert(all.skip(i as int).drop_first() =~= all.skip(i + 1));
        i = i + 1;
    }
    None
}

/// A position that was found holds the name.
pub proof fn lemma_position(names: Seq<Seq<char>>, name: Seq<char>)
    ensures
        match position(names, name) {
            Some(i) => i < names.len() && names[i as int] == name,
            None => forall|i: int| 0 <= i < names.len() ==> #[trigger] names[i] != name,
        },
    decreases names.len(),
{
    if names.len() > 0 && names[0] != name {
        let rest = names.drop_first();
        lemma_position(rest, name);
        match position(rest, name) {
            Some(i) => {
                assert(names[(i + 1) as int] == rest[i as int]);
            },
            None => {
                assert forall|i: int| 0 <= i < names.len() implies #[trigger] names[i] != name by {
                    if i > 0 {
                        assert(rest[i - 1] == names[i]);
                    }
                }
            },
        }
    }
}

/// What stays fixed while a function is emitted.
pub struct Cx<'a> {
    pub sigs: &'a NameMap<FnSig>,
    pub ctors: &'a NameMap<CtorInfo>,
    /// The string-literal pool: literal `i` is the C array `aria_lit_<i>`.
    pub lits: &'a Vec<String>,
    pub closures: &'a ClosureTable,
    /// The enclosing function's parameters, if it is self-tail-recursive: a tail
    /// call reassigns these. Empty otherwise.
    pub tail_params: &'a Vec<(String, CType)>,
    /// The enclosing function's return type: the type of an `if` or `match` all
    /// of whose branches diverge.
    pub fn_ret: CType,
}

/// What stays fixed while a function is emitted, as a model.
pub struct CxV {
    pub sigs: Map<Seq<char>, SigV>,
    pub ctors: Map<Seq<char>, CtorV>,
    pub lits: Seq<Seq<char>>,
    pub closure_base: nat,
    pub closure_names: Seq<Seq<char>>,
    pub tail_params: Seq<(Seq<char>, CType)>,
    pub fn_ret: CType,
}

impl CxV {
    /// The closure tag of a lambda.
    pub open spec fn closure_tag(self, lam: Seq<char>) -> Option<int> {
        match position(self.closure_names, lam) {
            Some(i) => Some((self.closure_base + i) as int),
            None => None,
        }
    }
}

/// The models of the constructors.
pub open spec fn ctor_views(m: Map<Seq<char>, CtorInfo>) -> Map<Seq<char>, CtorV> {
    m.map_values(|i: CtorInfo| i@)
}

/// The models of the signatures.
pub open spec fn sig_views(m: Map<Seq<char>, FnSig>) -> Map<Seq<char>, SigV> {
    m.map_values(|i: FnSig| i@)
}

/// Typed names, as models.
pub open spec fn typed_views(v: Seq<(String, CType)>) -> Seq<(Seq<char>, CType)> {
    v.map_values(|p: (String, CType)| (p.0@, p.1))
}

impl<'a> Cx<'a> {
    /// The model of what stays fixed.
    pub open spec fn view(&self) -> CxV {
        CxV {
            sigs: sig_views(self.sigs@),
            ctors: ctor_views(self.ctors@),
            lits: views(self.lits@),
            closure_base: self.closures.base as nat,
            closure_names: views(self.closures.names@),
            tail_params: typed_views(self.tail_params@),
            fn_ret: self.fn_ret,
        }
    }
}

/// The variables in scope.
pub type Types = Map<Seq<char>, CType>;

// ---------------------------------------------------------------------------
// The constructor table
// ---------------------------------------------------------------------------

/// The C types of the first `n` types, or the first error.
pub open spec fn ctypes_of(tys: Seq<crate::ast::Ty>, n: nat) -> Result<Seq<CType>, Seq<char>>
    decreases n,
{
    if n == 0 || n > tys.len() {
        Ok(Seq::empty())
    } else {
        match ctypes_of(tys, (n - 1) as nat) {
            Err(e) => Err(e),
            Ok(done) => match CType::of(tys[n - 1]) {
                Ok(t) => Ok(done.push(t)),
                Err(e) => Err(e),
            },
        }
    }
}

/// The C types of a list of types, or the first error.
pub fn map_ctypes(tys: &Vec<crate::ast::Ty>) -> (r: Result<Vec<CType>, String>)
    ensures
        match ctypes_of(tys@, tys@.len()) {
            Ok(ts) => r matches Ok(v) && v@ == ts,
            Err(e) => r matches Err(x) && x@ == e,
        },
{
    let mut out: Vec<CType> = Vec::new();
    let mut i: usize = 0;
    while i < tys.len()
        invariant
            i <= tys@.len(),
            ctypes_of(tys@, i as nat) == Ok::<Seq<CType>, Seq<char>>(out@),
        decreases tys@.len() - i,
    {
        match CType::from_ty(&tys[i]) {
            Ok(t) => {
                out.push(t);
                i = i + 1;
            },
            Err(e) => {
                proof {
                    lemma_ctypes_error(tys@, (i + 1) as nat, tys@.len());
                }
                return Err(e);
            },
        }
    }
    Ok(out)
}

proof fn lemma_ctypes_error(tys: Seq<crate::ast::Ty>, i: nat, n: nat)
    requires
        i <= n <= tys.len(),
        ctypes_of(tys, i) is Err,
    ensures
        ctypes_of(tys, n) == ctypes_of(tys, i),
    decreases n - i,
{
    if i < n {
        lemma_ctypes_error(tys, i, (n - 1) as nat);
    }
}

/// One entry of the constructor table.
pub struct CtorModel {
    pub name: Seq<char>,
    pub fields: Seq<CType>,
}

/// The table after the first `n` variants of a type were added, in order.
pub open spec fn variants_added(
    table: Seq<CtorModel>,
    t: TypeDecl,
    n: nat,
) -> Result<Seq<CtorModel>, Seq<char>>
    decreases n,
{
    if n == 0 || n > t.variants@.len() {
        Ok(table)
    } else {
        match variants_added(table, t, (n - 1) as nat) {
            Err(e) => Err(e),
            Ok(done) => {
                let v = t.variants@[n - 1];
                match ctypes_of(v.fields@, v.fields@.len()) {
                    Ok(fields) => Ok(done.push(CtorModel { name: v.name@, fields })),
                    Err(e) => Err(fmt("type `{}` ctor `{}`: {}"@, seq![t.name@, v.name@, e])),
                }
            },
        }
    }
}

/// The table after the first `n` items: every variant of every type declaration,
/// in source order. A generic type is an error.
pub open spec fn ctor_table(items: Seq<Item>, n: nat) -> Result<Seq<CtorModel>, Seq<char>>
    decreases n,
{
    if n == 0 || n > items.len() {
        Ok(Seq::empty())
    } else {
        match ctor_table(items, (n - 1) as nat) {
            Err(e) => Err(e),
            Ok(done) => match items[n - 1] {
                Item::Fn(_) => Ok(done),
                Item::Type(t) => if t.params@.len() > 0 {
                    Err(
                        fmt(
                            "c backend: generic type `{}` survived monomorphization"@,
                            seq![t.name@],
                        ),
                    )
                } else {
                    variants_added(done, t, t.variants@.len())
                },
            },
        }
    }
}

/// The entries of the table hold the constructors in tag order: the tag is the
/// position.
pub open spec fn holds_table(entries: Seq<(String, CtorInfo)>, table: Seq<CtorModel>) -> bool {
    entries.len() == table.len() && forall|i: int|
        0 <= i < table.len() ==> (#[trigger] entries[i]).0@ == table[i].name && entries[i].1.tag == i
            && entries[i].1.field_types@ == table[i].fields
}

proof fn lemma_variants_error(table: Seq<CtorModel>, t: TypeDecl, i: nat, n: nat)
    requires
        i <= n <= t.variants@.len(),
        variants_added(table, t, i) is Err,
    ensures
        variants_added(table, t, n) == variants_added(table, t, i),
    decreases n - i,
{
    if i < n {
        lemma_variants_error(table, t, i, (n - 1) as nat);
    }
}

proof fn lemma_table_error(items: Seq<Item>, i: nat, n: nat)
    requires
        i <= n <= items.len(),
        ctor_table(items, i) is Err,
    ensures
        ctor_table(items, n) == ctor_table(items, i),
    decreases n - i,
{
    if i < n {
        lemma_table_error(items, i, (n - 1) as nat);
    }
}

fn add_variants(
    table: &mut NameMap<CtorInfo>,
    t: &TypeDecl,
    Ghost(start): Ghost<Seq<CtorModel>>,
) -> (r: Result<(), String>)
    requires
        holds_table(old(table).entries@, start),
    ensures
        match variants_added(start, *t, t.variants@.len()) {
            Ok(done) => r is Ok && holds_table(final(table).entries@, done),
            Err(e) => r matches Err(x) && x@ == e,
        },
{
    let mut i: usize = 0;
    let ghost mut model = start;
    while i < t.variants.len()
        invariant
            i <= t.variants@.len(),
            variants_added(start, *t, i as nat) == Ok::<Seq<CtorModel>, Seq<char>>(model),
            holds_table(table.entries@, model),
        decreases t.variants@.len() - i,
    {
        let v: &Variant = &t.variants[i];
        match map_ctypes(&v.fields) {
            Ok(field_types) => {
                let tag: usize = table.entries.len();
                proof {
                    model = model.push(CtorModel { name: v.name@, fields: field_types@ });
                }
                let ghost before = table.entries@;
                table.entries.push((v.name.clone(), CtorInfo { tag, field_types }));
                i = i + 1;
            },
            Err(e) => {
                proof {
                    lemma_variants_error(start, *t, (i + 1) as nat, t.variants@.len());
                }
                return Err(
                    fill3("type `{}` ctor `{}`: {}", t.name.as_str(), v.name.as_str(), e.as_str()),
                );
            },
        }
    }
    Ok(())
}

/// Build the program-wide constructor table from every type declaration.
pub fn build_ctors(program: &Program) -> (r: Result<NameMap<CtorInfo>, String>)
    ensures
        match ctor_table(program.items@, program.items@.len()) {
            Ok(table) => r matches Ok(m) && holds_table(m.entries@, table),
            Err(e) => r matches Err(x) && x@ == e,
        },
{
    let mut table: NameMap<CtorInfo> = NameMap::new();
    let ghost mut model: Seq<CtorModel> = Seq::empty();
    assert(holds_table(table.entries@, model)) by {
        assert(table@.dom() =~= Set::empty());
        if table.entries@.len() > 0 {
            assert(table@.contains_key(table.entries@.last().0@));
        }
    }
    let mut i: usize = 0;
    while i < program.items.len()
        invariant
            i <= program.items@.len(),
            ctor_table(program.items@, i as nat) == Ok::<Seq<CtorModel>, Seq<char>>(model),
            holds_table(table.entries@, model),
        decreases program.items@.len() - i,
    {
        if let Item::Type(t) = &program.items[i] {
            if t.params.len() > 0 {
                proof {
                    lemma_table_error(program.items@, (i + 1) as nat, program.items@.len());
                }
                return Err(
                    fill1(
                        "c backend: generic type `{}` survived monomorphization",
                        t.name.as_str(),
                    ),
                );
            }
            match add_variants(&mut table, t, Ghost(model)) {
                Ok(_) => {
                    proof {
                        model = variants_added(model, *t, t.variants@.len())->Ok_0;
                    }
                },
                Err(e) => {
                    proof {
                        lemma_table_error(program.items@, (i + 1) as nat, program.items@.len());
                    }
                    return Err(e);
                },
            }
        }
        i = i + 1;
    }
    Ok(table)
}

/// The constructor of a name: the last one declared under it.
pub open spec fn ctor_of(ctors: Map<Seq<char>, CtorV>, name: Seq<char>) -> Result<
    CtorV,
    Seq<char>,
> {
    if ctors.contains_key(name) {
        Ok(ctors[name])
    } else {
        Err(fmt("c backend: unknown constructor `{}`"@, seq![name]))
    }
}

/// The constructor of a name.
pub fn get_ctor<'a>(ctors: &'a NameMap<CtorInfo>, name: &str) -> (r: Result<&'a CtorInfo, String>)
    ensures
        match ctor_of(ctor_views(ctors@), name@) {
            Ok(info) => r matches Ok(i) && i@ == info,
            Err(e) => r matches Err(x) && x@ == e,
        },
{
    match ctors.get(name) {
        Some(i) => Ok(i),
        None => Err(fill1("c backend: unknown constructor `{}`", name)),
    }
}

/// Whether the entry at `i` is the one that its name stands for.
pub open spec fn current<V>(entries: Seq<(String, V)>, i: int) -> bool {
    forall|j: int| i < j < entries.len() ==> (#[trigger] entries[j]).0@ != entries[i].0@
}

/// Whether the entry at `i` is the one that its name stands for.
pub fn is_current<V>(table: &NameMap<V>, i: usize) -> (r: bool)
    requires
        i < table.entries@.len(),
    ensures
        r == current(table.entries@, i as int),
{
    let n: usize = table.entries.len();
    let mut j: usize = i + 1;
    while j < n
        invariant
            i < j <= n,
            n == table.entries@.len(),
            forall|k: int|
                i < k < j ==> (#[trigger] table.entries@[k]).0@ != table.entries@[i as int].0@,
        decreases table.entries@.len() - j,
    {
        if str_eq(table.entries[j].0.as_str(), table.entries[i].0.as_str()) {
            return false;
        }
        j = j + 1;
    }
    true
}

// ---------------------------------------------------------------------------
// Atoms
// ---------------------------------------------------------------------------

/// The type of a variable.
pub open spec fn type_of_var(types: Types, name: Seq<char>) -> Result<CType, Seq<char>> {
    if types.contains_key(name) {
        Ok(types[name])
    } else {
        Err(fmt("c backend: unbound variable `{}`"@, seq![name]))
    }
}

/// The type of a variable.
pub fn var_type(types: &NameMap<CType>, name: &str) -> (r: Result<CType, String>)
    ensures
        same(r, type_of_var(types@, name@)),
{
    match types.get(name) {
        Some(t) => Ok(*t),
        None => Err(fill1("c backend: unbound variable `{}`", name)),
    }
}

/// The type of an atom.
pub open spec fn type_of_atom(a: Atom, types: Types) -> Result<CType, Seq<char>> {
    match a {
        Atom::Int(_) => Ok(CType::Int),
        Atom::Bool(_) => Ok(CType::Bool),
        Atom::Float(_) => Ok(CType::Float),
        Atom::Str(_) => Ok(CType::Str),
        Atom::Var(n) => type_of_var(types, n@),
        Atom::Unit => Err("c backend: Unit value is outside the subset"@),
    }
}

/// The type of an atom.
pub fn atom_type(a: &Atom, types: &NameMap<CType>) -> (r: Result<CType, String>)
    ensures
        same(r, type_of_atom(*a, types@)),
{
    match a {
        Atom::Int(_) => Ok(CType::Int),
        Atom::Bool(_) => Ok(CType::Bool),
        Atom::Float(_) => Ok(CType::Float),
        Atom::Str(_) => Ok(CType::Str),
        Atom::Var(n) => var_type(types, n.as_str()),
        Atom::Unit => Err("c backend: Unit value is outside the subset".to_owned()),
    }
}

/// A C `double` literal; the values that have no literal are written as
/// quotients.
pub open spec fn float_literal(f: FloatLit) -> Seq<char> {
    if f.is_nan() {
        "(0.0/0.0)"@
    } else if f.is_infinite() {
        if f.is_negative() {
            "(-1.0/0.0)"@
        } else {
            "(1.0/0.0)"@
        }
    } else {
        f.scientific@
    }
}

/// A finite, parseable C double literal.
pub fn c_float_lit(f: &FloatLit) -> (r: String)
    ensures
        r@ == float_literal(*f),
{
    if f.nan() {
        "(0.0/0.0)".to_owned()
    } else if f.infinite() {
        if f.negative() {
            "(-1.0/0.0)".to_owned()
        } else {
            "(1.0/0.0)".to_owned()
        }
    } else {
        f.scientific.clone()
    }
}

/// The C expression of an atom that needs no statement.
pub open spec fn expr_of_atom(a: Atom) -> Result<Seq<char>, Seq<char>> {
    match a {
        Atom::Int(n) => Ok(fmt("INT64_C({})"@, seq![dec(n as int)])),
        Atom::Bool(b) => Ok(
            if b {
                "1"@
            } else {
                "0"@
            },
        ),
        Atom::Float(f) => Ok(float_literal(f)),
        Atom::Var(n) => Ok(var_name(n@)),
        Atom::Str(_) => Err("c backend: string literal needs statement context"@),
        Atom::Unit => Err("c backend: Unit value is outside the subset"@),
    }
}

/// Render an atom as a C expression (no side effects).
pub fn atom_expr(a: &Atom) -> (r: Result<String, String>)
    ensures
        match expr_of_atom(*a) {
            Ok(t) => r matches Ok(s) && s@ == t,
            Err(e) => r matches Err(x) && x@ == e,
        },
{
    match a {
        Atom::Int(n) => {
            let text: String = i64_text(*n);
            Ok(fill1("INT64_C({})", text.as_str()))
        },
        Atom::Bool(b) => Ok(
            if *b {
                "1".to_owned()
            } else {
                "0".to_owned()
            },
        ),
        Atom::Float(f) => Ok(c_float_lit(f)),
        Atom::Var(n) => Ok(cvar(n.as_str())),
        Atom::Str(_) => Err("c backend: string literal needs statement context".to_owned()),
        Atom::Unit => Err("c backend: Unit value is outside the subset".to_owned()),
    }
}

/// The name of the C array of a string literal.
pub open spec fn literal_name(i: nat) -> Seq<char> {
    fmt("aria_lit_{}"@, seq![dec(i as int)])
}

/// The type and the C expression of an atom. A string literal is copied into a
/// fresh String object from its pooled bytes.
pub open spec fn atom_code(a: Atom, types: Types, lits: Seq<Seq<char>>) -> Result<
    (CType, Seq<char>),
    Seq<char>,
> {
    match a {
        Atom::Str(s) => match position(lits, s@) {
            None => Err("c backend: string literal missing from pool (internal)"@),
            Some(i) => Ok(
                (
                    CType::Str,
                    fmt(
                        "aria_str_lit({}, {})"@,
                        seq![literal_name(i), dec(encode_utf8(s@).len() as int)],
                    ),
                ),
            ),
        },
        _ => match (type_of_atom(a, types), expr_of_atom(a)) {
            (Err(e), _) => Err(e),
            (_, Err(e)) => Err(e),
            (Ok(t), Ok(ex)) => Ok((t, ex)),
        },
    }
}

/// Emit an atom as a C expression, materializing a string literal if needed.
pub fn emit_atom(a: &Atom, types: &NameMap<CType>, lits: &Vec<String>) -> (r: Result<
    (CType, String),
    String,
>)
    ensures
        match atom_code(*a, types@, views(lits@)) {
            Ok((t, ex)) => r matches Ok(p) && p.0 == t && p.1@ == ex,
            Err(e) => r matches Err(x) && x@ == e,
        },
{
    if let Atom::Str(s) = a {
        match position_of(lits, s.as_str()) {
            None => Err("c backend: string literal missing from pool (internal)".to_owned()),
            Some(i) => {
                let index: String = usize_text(i);
                let global: String = fill1("aria_lit_{}", index.as_str());
                let len: String = usize_text(s.as_str().as_bytes().len());
                Ok((CType::Str, fill2("aria_str_lit({}, {})", global.as_str(), len.as_str())))
            },
        }
    } else {
        let t: CType = atom_type(a, types)?;
        let ex: String = atom_expr(a)?;
        Ok((t, ex))
    }
}

/// The types and C expressions of the first `n` atoms, or the first error.
pub open spec fn atoms_code(atoms: Seq<Atom>, n: nat, types: Types, lits: Seq<Seq<char>>) -> Result<
    (Seq<CType>, Seq<Seq<char>>),
    Seq<char>,
>
    decreases n,
{
    if n == 0 || n > atoms.len() {
        Ok((Seq::empty(), Seq::empty()))
    } else {
        match atoms_code(atoms, (n - 1) as nat, types, lits) {
            Err(e) => Err(e),
            Ok((ts, exs)) => match atom_code(atoms[n - 1], types, lits) {
                Err(e) => Err(e),
                Ok((t, ex)) => Ok((ts.push(t), exs.push(ex))),
            },
        }
    }
}

proof fn lemma_atoms_error(atoms: Seq<Atom>, i: nat, n: nat, types: Types, lits: Seq<Seq<char>>)
    requires
        i <= n <= atoms.len(),
        atoms_code(atoms, i, types, lits) is Err,
    ensures
        atoms_code(atoms, n, types, lits) == atoms_code(atoms, i, types, lits),
    decreases n - i,
{
    if i < n {
        lemma_atoms_error(atoms, i, (n - 1) as nat, types, lits);
    }
}

/// Emit a list of atoms, left to right.
pub fn emit_atoms(atoms: &Vec<Atom>, types: &NameMap<CType>, lits: &Vec<String>) -> (r: Result<
    (Vec<CType>, Vec<String>),
    String,
>)
    ensures
        match atoms_code(atoms@, atoms@.len(), types@, views(lits@)) {
            Ok((ts, exs)) => r matches Ok(p) && p.0@ == ts && views(p.1@) == exs && ts.len()
                == atoms@.len() && exs.len() == atoms@.len(),
            Err(e) => r matches Err(x) && x@ == e,
        },
{
    let mut ts: Vec<CType> = Vec::new();
    let mut exs: Vec<String> = Vec::new();
    let mut i: usize = 0;
    assert(views(exs@) =~= Seq::empty());
    while i < atoms.len()
        invariant
            i <= atoms@.len(),
            ts@.len() == i,
            exs@.len() == i,
            atoms_code(atoms@, i as nat, types@, views(lits@)) == Ok::<
                (Seq<CType>, Seq<Seq<char>>),
                Seq<char>,
            >((ts@, views(exs@))),
        decreases atoms@.len() - i,
    {
        match emit_atom(&atoms[i], types, lits) {
            Ok((t, ex)) => {
                let ghost before = exs@;
                ts.push(t);
                exs.push(ex);
                assert(views(exs@) =~= views(before).push(ex@));
                i = i + 1;
            },
            Err(e) => {
                proof {
                    lemma_atoms_error(
                        atoms@,
                        (i + 1) as nat,
                        atoms@.len(),
                        types@,
                        views(lits@),
                    );
                }
                return Err(e);
            },
        }
    }
    Ok((ts, exs))
}

} // verus!
