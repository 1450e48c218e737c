//! The C-level value types of Aria values, and the 64-bit slots that hold them.

use vstd::prelude::*;
use vstd::string::*;

use crate::ast::Ty;
use crate::text::{fill1, fill2, fmt, str_eq};
use crate::types::{debug_ty, show, shown, ty_debug};

verus! {

/// The concrete element kind of a native array, encoding both the slot storage
/// and whether elements are heap references. It mirrors the one-character suffix
/// that array builtins carry.
#[derive(Debug, Clone, Copy, PartialEq, Eq, Structural)]
pub enum ElemKind {
    /// Stored directly in an int64 slot.
    Int,
    /// Stored inline like `Int`, but typed as Bool.
    Bool,
    /// Bit-reinterpreted into an int64 slot.
    Float,
    /// A heap String object.
    Str,
    /// A boxed heap value: an ADT cell or a closure.
    Ref,
    /// A heap byte buffer.
    Bytes,
    /// A nested array.
    Array,
    /// A heap map.
    Dict,
    /// A heap set.
    Bag,
    /// A dense float vector.
    Vector,
}

/// The per-slot kind of a map key, a map value or a set element. Its code is
/// stored in the container's header and drives the kind-aware dup and drop.
#[derive(Debug, Clone, Copy, PartialEq, Eq, Structural)]
pub enum SlotKind {
    Int,
    Float,
    Str,
    Ref,
    Bytes,
    Array,
    Dict,
    Bag,
    /// Stored directly (0/1); distinct from `Int` so that it displays as
    /// `true`/`false`.
    Bool,
    Vector,
}

/// A C-level value type for an Aria value.
#[derive(Debug, Clone, Copy, PartialEq, Eq, Structural)]
pub enum CType {
    /// `int64_t`.
    Int,
    /// `int64_t`, 0 or 1.
    Bool,
    /// `double`.
    Float,
    /// `void*`: a heap ADT cell.
    Ref,
    /// `void*`: a heap String object.
    Str,
    /// `void*`: a heap byte buffer.
    Bytes,
    /// `void*`: a heap array of the given element kind.
    Array(ElemKind),
    /// `void*`: a heap map (key kind, value kind).
    Dict(SlotKind, SlotKind),
    /// `void*`: a heap set (element kind).
    Bag(SlotKind),
    /// `void*`: a dense float vector.
    Vector,
}

// ---------------------------------------------------------------------------
// Element kinds
// ---------------------------------------------------------------------------

impl ElemKind {
    /// The element kind of a one-character suffix.
    pub open spec fn tagged(c: char) -> Option<ElemKind> {
        if c == 'i' {
            Some(ElemKind::Int)
        } else if c == 'o' {
            Some(ElemKind::Bool)
        } else if c == 'f' {
            Some(ElemKind::Float)
        } else if c == 's' {
            Some(ElemKind::Str)
        } else if c == 'r' {
            Some(ElemKind::Ref)
        } else if c == 'b' {
            Some(ElemKind::Bytes)
        } else if c == 'a' {
            Some(ElemKind::Array)
        } else if c == 'm' {
            Some(ElemKind::Dict)
        } else if c == 'e' {
            Some(ElemKind::Bag)
        } else if c == 'v' {
            Some(ElemKind::Vector)
        } else {
            None
        }
    }

    /// Parse the one-character element-kind suffix.
    pub fn from_tag(c: char) -> (r: Result<ElemKind, String>)
        ensures
            match ElemKind::tagged(c) {
                Some(k) => r == Ok::<ElemKind, String>(k),
                None => r matches Err(e) && e@ == fmt(
                    "c backend: bad array element-kind tag `{}`"@,
                    seq![seq![c]],
                ),
            },
    {
        if c == 'i' {
            Ok(ElemKind::Int)
        } else if c == 'o' {
            Ok(ElemKind::Bool)
        } else if c == 'f' {
            Ok(ElemKind::Float)
        } else if c == 's' {
            Ok(ElemKind::Str)
        } else if c == 'r' {
            Ok(ElemKind::Ref)
        } else if c == 'b' {
            Ok(ElemKind::Bytes)
        } else if c == 'a' {
            Ok(ElemKind::Array)
        } else if c == 'm' {
            Ok(ElemKind::Dict)
        } else if c == 'e' {
            Ok(ElemKind::Bag)
        } else if c == 'v' {
            Ok(ElemKind::Vector)
        } else {
            let mut tag = String::new();
            tag.push(c);
            assert(tag@ =~= seq![c]);
            Err(fill1("c backend: bad array element-kind tag `{}`", tag.as_str()))
        }
    }

    /// The code stored in an array's header.
    pub open spec fn code_of(self) -> int {
        match self {
            ElemKind::Int => 0,
            ElemKind::Float => 1,
            ElemKind::Str => 2,
            ElemKind::Ref => 3,
            ElemKind::Bytes => 4,
            ElemKind::Array => 5,
            ElemKind::Dict => 6,
            ElemKind::Bag => 7,
            ElemKind::Bool => 8,
            ElemKind::Vector => 9,
        }
    }

    /// The code stored in an array's header; the same as the slot kind's.
    pub fn code(self) -> (r: i64)
        ensures
            r == self.code_of(),
    {
        match self {
            ElemKind::Int => 0,
            ElemKind::Float => 1,
            ElemKind::Str => 2,
            ElemKind::Ref => 3,
            ElemKind::Bytes => 4,
            ElemKind::Array => 5,
            ElemKind::Dict => 6,
            ElemKind::Bag => 7,
            ElemKind::Bool => 8,
            ElemKind::Vector => 9,
        }
    }

    /// The C value type of an element. The inner kind of a nested container is
    /// not part of the suffix, so it is reported as `Ref`.
    pub open spec fn ctype(self) -> CType {
        match self {
            ElemKind::Int => CType::Int,
            ElemKind::Bool => CType::Bool,
            ElemKind::Float => CType::Float,
            ElemKind::Str => CType::Str,
            ElemKind::Ref => CType::Ref,
            ElemKind::Bytes => CType::Bytes,
            ElemKind::Vector => CType::Vector,
            ElemKind::Array => CType::Array(ElemKind::Ref),
            ElemKind::Dict => CType::Dict(SlotKind::Ref, SlotKind::Ref),
            ElemKind::Bag => CType::Bag(SlotKind::Ref),
        }
    }

    /// The C value type of an element of this kind.
    pub fn elem_ctype(self) -> (r: CType)
        ensures
            r == self.ctype(),
    {
        match self {
            ElemKind::Int => CType::Int,
            ElemKind::Bool => CType::Bool,
            ElemKind::Float => CType::Float,
            ElemKind::Str => CType::Str,
            ElemKind::Ref => CType::Ref,
            ElemKind::Bytes => CType::Bytes,
            ElemKind::Vector => CType::Vector,
            ElemKind::Array => CType::Array(ElemKind::Ref),
            ElemKind::Dict => CType::Dict(SlotKind::Ref, SlotKind::Ref),
            ElemKind::Bag => CType::Bag(SlotKind::Ref),
        }
    }

    /// The element kind that holds a value of a C value type.
    pub open spec fn holding(ct: CType) -> ElemKind {
        match ct {
            CType::Int => ElemKind::Int,
            CType::Bool => ElemKind::Bool,
            CType::Float => ElemKind::Float,
            CType::Str => ElemKind::Str,
            CType::Ref => ElemKind::Ref,
            CType::Bytes => ElemKind::Bytes,
            CType::Vector => ElemKind::Vector,
            CType::Array(_) => ElemKind::Array,
            CType::Dict(_, _) => ElemKind::Dict,
            CType::Bag(_) => ElemKind::Bag,
        }
    }

    /// The element kind that holds a value of the given C value type.
    pub fn from_ctype(ct: &CType) -> (r: ElemKind)
        ensures
            r == ElemKind::holding(*ct),
    {
        match ct {
            CType::Int => ElemKind::Int,
            CType::Bool => ElemKind::Bool,
            CType::Float => ElemKind::Float,
            CType::Str => ElemKind::Str,
            CType::Ref => ElemKind::Ref,
            CType::Bytes => ElemKind::Bytes,
            CType::Vector => ElemKind::Vector,
            CType::Array(_) => ElemKind::Array,
            CType::Dict(_, _) => ElemKind::Dict,
            CType::Bag(_) => ElemKind::Bag,
        }
    }

    /// The name of the kind in messages.
    pub open spec fn named(self) -> Seq<char> {
        match self {
            ElemKind::Int => "Int"@,
            ElemKind::Bool => "Bool"@,
            ElemKind::Float => "Float"@,
            ElemKind::Str => "Str"@,
            ElemKind::Ref => "Ref"@,
            ElemKind::Bytes => "Bytes"@,
            ElemKind::Array => "Array"@,
            ElemKind::Dict => "Map"@,
            ElemKind::Bag => "Set"@,
            ElemKind::Vector => "Vector"@,
        }
    }

    /// The name of the kind in messages.
    pub fn name(self) -> (r: &'static str)
        ensures
            r@ == self.named(),
    {
        match self {
            ElemKind::Int => "Int",
            ElemKind::Bool => "Bool",
            ElemKind::Float => "Float",
            ElemKind::Str => "Str",
            ElemKind::Ref => "Ref",
            ElemKind::Bytes => "Bytes",
            ElemKind::Array => "Array",
            ElemKind::Dict => "Map",
            ElemKind::Bag => "Set",
            ElemKind::Vector => "Vector",
        }
    }
}

// ---------------------------------------------------------------------------
// Slot kinds
// ---------------------------------------------------------------------------

impl SlotKind {
    /// The code stored in a container's header.
    pub open spec fn code_of(self) -> int {
        match self {
            SlotKind::Int => 0,
            SlotKind::Float => 1,
            SlotKind::Str => 2,
            SlotKind::Ref => 3,
            SlotKind::Bytes => 4,
            SlotKind::Array => 5,
            SlotKind::Dict => 6,
            SlotKind::Bag => 7,
            SlotKind::Bool => 8,
            SlotKind::Vector => 9,
        }
    }

    /// The code stored in a container's header.
    pub fn code(self) -> (r: i64)
        ensures
            r == self.code_of(),
    {
        match self {
            SlotKind::Int => 0,
            SlotKind::Float => 1,
            SlotKind::Str => 2,
            SlotKind::Ref => 3,
            SlotKind::Bytes => 4,
            SlotKind::Array => 5,
            SlotKind::Dict => 6,
            SlotKind::Bag => 7,
            SlotKind::Bool => 8,
            SlotKind::Vector => 9,
        }
    }

    /// The slot kind that holds a value of a C value type.
    pub open spec fn holding(ct: CType) -> SlotKind {
        match ct {
            CType::Int => SlotKind::Int,
            CType::Bool => SlotKind::Bool,
            CType::Float => SlotKind::Float,
            CType::Str => SlotKind::Str,
            CType::Ref => SlotKind::Ref,
            CType::Bytes => SlotKind::Bytes,
            CType::Array(_) => SlotKind::Array,
            CType::Dict(_, _) => SlotKind::Dict,
            CType::Bag(_) => SlotKind::Bag,
            CType::Vector => SlotKind::Vector,
        }
    }

    /// The slot kind that holds a value of the given C value type.
    pub fn from_ctype(ct: CType) -> (r: SlotKind)
        ensures
            r == SlotKind::holding(ct),
    {
        match ct {
            CType::Int => SlotKind::Int,
            CType::Bool => SlotKind::Bool,
            CType::Float => SlotKind::Float,
            CType::Str => SlotKind::Str,
            CType::Ref => SlotKind::Ref,
            CType::Bytes => SlotKind::Bytes,
            CType::Array(_) => SlotKind::Array,
            CType::Dict(_, _) => SlotKind::Dict,
            CType::Bag(_) => SlotKind::Bag,
            CType::Vector => SlotKind::Vector,
        }
    }

    /// The C expression of the slot that holds the value of `ex`: scalars are
    /// widened, floats reinterpreted, pointers cast.
    pub open spec fn encoded(self, ex: Seq<char>) -> Seq<char> {
        match self {
            SlotKind::Int | SlotKind::Bool => fmt("(int64_t)({})"@, seq![ex]),
            SlotKind::Float => fmt("aria_f2i({})"@, seq![ex]),
            _ => fmt("(int64_t)(uintptr_t)({})"@, seq![ex]),
        }
    }

    /// Encode an evaluated C expression into an int64 slot.
    pub fn encode(self, ex: &str) -> (r: String)
        ensures
            r@ == self.encoded(ex@),
    {
        match self {
            SlotKind::Int | SlotKind::Bool => fill1("(int64_t)({})", ex),
            SlotKind::Float => fill1("aria_f2i({})", ex),
            _ => fill1("(int64_t)(uintptr_t)({})", ex),
        }
    }

    /// The C expression of the value that the slot `slot` holds.
    pub open spec fn decoded(self, slot: Seq<char>) -> Seq<char> {
        match self {
            SlotKind::Int | SlotKind::Bool => slot,
            SlotKind::Float => fmt("aria_i2f({})"@, seq![slot]),
            _ => fmt("(void*)(uintptr_t)({})"@, seq![slot]),
        }
    }

    /// Decode an int64 slot back to a C value expression.
    pub fn decode(self, slot: &str) -> (r: String)
        ensures
            r@ == self.decoded(slot@),
    {
        match self {
            SlotKind::Int | SlotKind::Bool => slot.to_owned(),
            SlotKind::Float => fill1("aria_i2f({})", slot),
            _ => fill1("(void*)(uintptr_t)({})", slot),
        }
    }

    /// The slot kind of a suffix character; `Ref` for any other.
    pub open spec fn tagged(c: char) -> SlotKind {
        if c == 'i' {
            SlotKind::Int
        } else if c == 'f' {
            SlotKind::Float
        } else if c == 's' {
            SlotKind::Str
        } else if c == 'b' {
            SlotKind::Bytes
        } else if c == 'v' {
            SlotKind::Vector
        } else if c == 'a' {
            SlotKind::Array
        } else if c == 'm' {
            SlotKind::Dict
        } else if c == 'e' {
            SlotKind::Bag
        } else if c == 'o' {
            SlotKind::Bool
        } else {
            SlotKind::Ref
        }
    }

    /// A representative C value type.
    pub open spec fn ctype(self) -> CType {
        match self {
            SlotKind::Int => CType::Int,
            SlotKind::Bool => CType::Bool,
            SlotKind::Float => CType::Float,
            SlotKind::Str => CType::Str,
            SlotKind::Bytes => CType::Bytes,
            SlotKind::Array => CType::Array(ElemKind::Ref),
            SlotKind::Dict => CType::Dict(SlotKind::Ref, SlotKind::Ref),
            SlotKind::Bag => CType::Bag(SlotKind::Ref),
            SlotKind::Vector => CType::Vector,
            SlotKind::Ref => CType::Ref,
        }
    }

    /// The name of the kind in messages.
    pub open spec fn named(self) -> Seq<char> {
        ElemKind::holding(self.ctype()).named()
    }
}

/// The slot kind of a suffix character; `Ref` for any other.
pub fn slot_kind_from_tag(c: char) -> (r: SlotKind)
    ensures
        r == SlotKind::tagged(c),
{
    if c == 'i' {
        SlotKind::Int
    } else if c == 'f' {
        SlotKind::Float
    } else if c == 's' {
        SlotKind::Str
    } else if c == 'b' {
        SlotKind::Bytes
    } else if c == 'v' {
        SlotKind::Vector
    } else if c == 'a' {
        SlotKind::Array
    } else if c == 'm' {
        SlotKind::Dict
    } else if c == 'e' {
        SlotKind::Bag
    } else if c == 'o' {
        SlotKind::Bool
    } else {
        SlotKind::Ref
    }
}

/// A representative C value type of a slot kind.
pub fn slot_kind_ctype(k: SlotKind) -> (r: CType)
    ensures
        r == k.ctype(),
{
    match k {
        SlotKind::Int => CType::Int,
        SlotKind::Bool => CType::Bool,
        SlotKind::Float => CType::Float,
        SlotKind::Str => CType::Str,
        SlotKind::Bytes => CType::Bytes,
        SlotKind::Array => CType::Array(ElemKind::Ref),
        SlotKind::Dict => CType::Dict(SlotKind::Ref, SlotKind::Ref),
        SlotKind::Bag => CType::Bag(SlotKind::Ref),
        SlotKind::Vector => CType::Vector,
        SlotKind::Ref => CType::Ref,
    }
}

/// Array headers and container headers use one numbering: the element kind and
/// the slot kind that hold a type have the same code.
pub proof fn codes_agree(t: CType)
    ensures
        ElemKind::holding(t).code_of() == SlotKind::holding(t).code_of(),
{
}

/// A representative type is held by the slot kind that it represents, and
/// distinct slot kinds have distinct codes.
pub proof fn slot_kinds_distinct(a: SlotKind, b: SlotKind)
    ensures
        SlotKind::holding(a.ctype()) == a,
        a.code_of() == b.code_of() ==> a == b,
{
}

// ---------------------------------------------------------------------------
// C value types
// ---------------------------------------------------------------------------

/// Where a value type can be stored in a map: the flat kinds.
pub open spec fn flat(t: CType) -> bool {
    t == CType::Int || t == CType::Bool || t == CType::Float || t == CType::Str || t
        == CType::Bytes
}

impl CType {
    /// The C type name used to declare a local or a parameter.
    pub open spec fn declared(self) -> Seq<char> {
        match self {
            CType::Int | CType::Bool => "int64_t"@,
            CType::Float => "double"@,
            _ => "void*"@,
        }
    }

    /// The C type name used to declare a local or a parameter.
    pub fn decl(self) -> (r: &'static str)
        ensures
            r@ == self.declared(),
    {
        match self {
            CType::Int | CType::Bool => "int64_t",
            CType::Float => "double",
            _ => "void*",
        }
    }

    /// Whether values of the type are reference-counted heap objects.
    pub open spec fn managed(self) -> bool {
        !(self is Int || self is Bool || self is Float)
    }

    /// Whether values of the type are reference-counted heap objects.
    pub fn is_managed(self) -> (r: bool)
        ensures
            r == self.managed(),
    {
        match self {
            CType::Int | CType::Bool | CType::Float => false,
            _ => true,
        }
    }

    /// The text of the type in messages.
    pub open spec fn text(self) -> Seq<char> {
        match self {
            CType::Array(k) => fmt("Array({})"@, seq![k.named()]),
            CType::Dict(k, v) => fmt("Map({}, {})"@, seq![k.named(), v.named()]),
            CType::Bag(k) => fmt("Set({})"@, seq![k.named()]),
            _ => ElemKind::holding(self).named(),
        }
    }

    /// The text of the type in messages.
    pub fn describe(self) -> (r: String)
        ensures
            r@ == self.text(),
    {
        match self {
            CType::Array(k) => fill1("Array({})", k.name()),
            CType::Dict(k, v) => fill2(
                "Map({}, {})",
                ElemKind::from_ctype(&slot_kind_ctype(k)).name(),
                ElemKind::from_ctype(&slot_kind_ctype(v)).name(),
            ),
            CType::Bag(k) => fill1(
                "Set({})",
                ElemKind::from_ctype(&slot_kind_ctype(k)).name(),
            ),
            _ => ElemKind::from_ctype(&self).name().to_owned(),
        }
    }

    /// The C value type of an Aria type. Generic type variables, Unit and other
    /// generic types are outside the subset, and so are maps with values that
    /// are not flat.
    pub open spec fn of(ty: Ty) -> Result<CType, Seq<char>>
        decreases ty,
    {
        match ty {
            Ty::Int => Ok(CType::Int),
            Ty::Bool => Ok(CType::Bool),
            Ty::Float => Ok(CType::Float),
            Ty::Str => Ok(CType::Str),
            Ty::Fn(_, _) => Ok(CType::Ref),
            Ty::Named(n, args) => {
                if n@ == "Array"@ && args@.len() == 1 {
                    match CType::of(args@[0]) {
                        Ok(t) => Ok(CType::Array(ElemKind::holding(t))),
                        Err(e) => Err(e),
                    }
                } else if n@ == "Bytes"@ {
                    Ok(CType::Bytes)
                } else if n@ == "Vector"@ {
                    Ok(CType::Vector)
                } else if n@ == "Map"@ && args@.len() == 2 {
                    match (CType::of(args@[0]), CType::of(args@[1])) {
                        (Err(e), _) => Err(e),
                        (_, Err(e)) => Err(e),
                        (Ok(k), Ok(v)) => if flat(v) {
                            Ok(CType::Dict(SlotKind::holding(k), SlotKind::holding(v)))
                        } else {
                            Err(
                                fmt(
                                    "c backend: a Map value of type `{}` is not yet supported (native maps support value types Int, Float, Bool, Str, Bytes); use the interpreter `aria run` for richer value types"@,
                                    seq![shown(args@[1])],
                                ),
                            )
                        },
                    }
                } else if n@ == "Set"@ && args@.len() == 1 {
                    match CType::of(args@[0]) {
                        Ok(t) => Ok(CType::Bag(SlotKind::holding(t))),
                        Err(e) => Err(e),
                    }
                } else if args@.len() == 0 {
                    Ok(CType::Ref)
                } else {
                    Err(unsupported(ty))
                }
            },
            _ => Err(unsupported(ty)),
        }
    }

    /// Map an AST type to a C value type.
    pub fn from_ty(ty: &Ty) -> (r: Result<CType, String>)
        ensures
            same(r, CType::of(*ty)),
        decreases ty,
    {
        match ty {
            Ty::Int => Ok(CType::Int),
            Ty::Bool => Ok(CType::Bool),
            Ty::Float => Ok(CType::Float),
            Ty::Str => Ok(CType::Str),
            Ty::Fn(_, _) => Ok(CType::Ref),
            Ty::Named(n, args) => {
                if str_eq(n.as_str(), "Array") && args.len() == 1 {
                    let t: CType = CType::from_ty(&args[0])?;
                    Ok(CType::Array(ElemKind::from_ctype(&t)))
                } else if str_eq(n.as_str(), "Bytes") {
                    Ok(CType::Bytes)
                } else if str_eq(n.as_str(), "Vector") {
                    Ok(CType::Vector)
                } else if str_eq(n.as_str(), "Map") && args.len() == 2 {
                    let k: CType = CType::from_ty(&args[0])?;
                    let v: CType = CType::from_ty(&args[1])?;
                    match v {
                        CType::Int | CType::Bool | CType::Float | CType::Str | CType::Bytes => {
                            Ok(CType::Dict(SlotKind::from_ctype(k), SlotKind::from_ctype(v)))
                        },
                        _ => {
                            let shown_ty: String = show(&args[1]);
                            Err(
                                fill1(
                                    "c backend: a Map value of type `{}` is not yet supported (native maps support value types Int, Float, Bool, Str, Bytes); use the interpreter `aria run` for richer value types",
                                    shown_ty.as_str(),
                                ),
                            )
                        },
                    }
                } else if str_eq(n.as_str(), "Set") && args.len() == 1 {
                    let t: CType = CType::from_ty(&args[0])?;
                    Ok(CType::Bag(SlotKind::from_ctype(t)))
                } else if args.len() == 0 {
                    Ok(CType::Ref)
                } else {
                    Err(unsupported_type(ty))
                }
            },
            _ => Err(unsupported_type(ty)),
        }
    }
}

/// A result and its model: equal values, or errors with the same text.
pub open spec fn same<T>(r: Result<T, String>, s: Result<T, Seq<char>>) -> bool {
    match (r, s) {
        (Ok(a), Ok(b)) => a == b,
        (Err(e), Err(f)) => e@ == f,
        _ => false,
    }
}

/// The error for a type outside the subset.
pub open spec fn unsupported(ty: Ty) -> Seq<char> {
    fmt(
        "c backend: unsupported type `{}` (subset: Int/Bool/Float/String, Array, and non-generic ADTs)"@,
        seq![ty_debug(ty)],
    )
}

fn unsupported_type(ty: &Ty) -> (r: String)
    ensures
        r@ == unsupported(*ty),
{
    let text: String = debug_ty(ty);
    fill1(
        "c backend: unsupported type `{}` (subset: Int/Bool/Float/String, Array, and non-generic ADTs)",
        text.as_str(),
    )
}

} // verus!
