//! The builtins that the backend emits inline: their names, their result types
//! and their calling forms.

use vstd::prelude::*;
use vstd::string::*;

use crate::c_backend::kinds::{slot_kind_from_tag, CType, ElemKind, SlotKind};
use crate::text::{
    begins, chars_of, find_char, first_index, last_index, rfind_char, str_eq, string_of,
};

verus! {

/// The operation of an array builtin.
#[derive(Debug, Clone, Copy, PartialEq, Eq, Structural)]
pub enum ArrayOp {
    New,
    Lit,
    Len,
    Get,
    Put,
    Push,
}

/// The operation of a map or set builtin.
#[derive(Debug, Clone, Copy, PartialEq, Eq, Structural)]
pub enum MapSetOp {
    MapNew,
    MapInsert,
    MapGetOr,
    MapHas,
    MapLen,
    MapRemove,
    MapShow,
    MapKeys,
    MapValues,
    SetNew,
    SetAdd,
    SetHas,
    SetLen,
    SetRemove,
    SetShow,
    SetToArray,
}

/// The array operation of a base name.
pub open spec fn array_op(base: Seq<char>) -> Option<ArrayOp> {
    if base == "array_new"@ {
        Some(ArrayOp::New)
    } else if base == "array_lit"@ {
        Some(ArrayOp::Lit)
    } else if base == "array_len"@ {
        Some(ArrayOp::Len)
    } else if base == "array_get"@ {
        Some(ArrayOp::Get)
    } else if base == "array_set"@ {
        Some(ArrayOp::Put)
    } else if base == "array_push"@ {
        Some(ArrayOp::Push)
    } else {
        None
    }
}

fn parse_array_op(base: &str) -> (r: Option<ArrayOp>)
    ensures
        r == array_op(base@),
{
    if str_eq(base, "array_new") {
        Some(ArrayOp::New)
    } else if str_eq(base, "array_lit") {
        Some(ArrayOp::Lit)
    } else if str_eq(base, "array_len") {
        Some(ArrayOp::Len)
    } else if str_eq(base, "array_get") {
        Some(ArrayOp::Get)
    } else if str_eq(base, "array_set") {
        Some(ArrayOp::Put)
    } else if str_eq(base, "array_push") {
        Some(ArrayOp::Push)
    } else {
        None
    }
}

/// The map or set operation of a base name.
pub open spec fn map_set_op(base: Seq<char>) -> Option<MapSetOp> {
    if base == "map_new"@ {
        Some(MapSetOp::MapNew)
    } else if base == "map_insert"@ {
        Some(MapSetOp::MapInsert)
    } else if base == "map_get_or"@ {
        Some(MapSetOp::MapGetOr)
    } else if base == "map_has"@ {
        Some(MapSetOp::MapHas)
    } else if base == "map_len"@ {
        Some(MapSetOp::MapLen)
    } else if base == "map_remove"@ {
        Some(MapSetOp::MapRemove)
    } else if base == "map_show"@ {
        Some(MapSetOp::MapShow)
    } else if base == "map_keys"@ {
        Some(MapSetOp::MapKeys)
    } else if base == "map_values"@ {
        Some(MapSetOp::MapValues)
    } else if base == "set_new"@ {
        Some(MapSetOp::SetNew)
    } else if base == "set_add"@ {
        Some(MapSetOp::SetAdd)
    } else if base == "set_has"@ {
        Some(MapSetOp::SetHas)
    } else if base == "set_len"@ {
        Some(MapSetOp::SetLen)
    } else if base == "set_remove"@ {
        Some(MapSetOp::SetRemove)
    } else if base == "set_show"@ {
        Some(MapSetOp::SetShow)
    } else if base == "set_to_array"@ {
        Some(MapSetOp::SetToArray)
    } else {
        None
    }
}

fn parse_map_set_op(base: &str) -> (r: Option<MapSetOp>)
    ensures
        r == map_set_op(base@),
{
    if str_eq(base, "map_new") {
        Some(MapSetOp::MapNew)
    } else if str_eq(base, "map_insert") {
        Some(MapSetOp::MapInsert)
    } else if str_eq(base, "map_get_or") {
        Some(MapSetOp::MapGetOr)
    } else if str_eq(base, "map_has") {
        Some(MapSetOp::MapHas)
    } else if str_eq(base, "map_len") {
        Some(MapSetOp::MapLen)
    } else if str_eq(base, "map_remove") {
        Some(MapSetOp::MapRemove)
    } else if str_eq(base, "map_show") {
        Some(MapSetOp::MapShow)
    } else if str_eq(base, "map_keys") {
        Some(MapSetOp::MapKeys)
    } else if str_eq(base, "map_values") {
        Some(MapSetOp::MapValues)
    } else if str_eq(base, "set_new") {
        Some(MapSetOp::SetNew)
    } else if str_eq(base, "set_add") {
        Some(MapSetOp::SetAdd)
    } else if str_eq(base, "set_has") {
        Some(MapSetOp::SetHas)
    } else if str_eq(base, "set_len") {
        Some(MapSetOp::SetLen)
    } else if str_eq(base, "set_remove") {
        Some(MapSetOp::SetRemove)
    } else if str_eq(base, "set_show") {
        Some(MapSetOp::SetShow)
    } else if str_eq(base, "set_to_array") {
        Some(MapSetOp::SetToArray)
    } else {
        None
    }
}

/// The array operation and element kind of a suffixed name such as
/// `array_get$r`: what stands before the last `$`, and the first character after
/// it.
pub open spec fn array_builtin(name: Seq<char>) -> Option<(ArrayOp, ElemKind)> {
    let i = last_index(name, '$');
    if i < 0 || i + 1 >= name.len() {
        None
    } else {
        match (array_op(name.take(i)), ElemKind::tagged(name[i + 1])) {
            (Some(op), Some(kind)) => Some((op, kind)),
            _ => None,
        }
    }
}

/// The name of an array literal starts with `array_lit$`.
pub proof fn literals_start_alike(name: Seq<char>)
    ensures
        array_builtin(name) matches Some((ArrayOp::Lit, _)) ==> begins(name, "array_lit$"@),
{
    let i = last_index(name, '$');
    lemma_last_index(name, '$');
    if let Some((ArrayOp::Lit, _)) = array_builtin(name) {
        reveal_strlit("array_lit");
        reveal_strlit("array_lit$");
        assert(name.take(i) == "array_lit"@);
        assert forall|j: int| 0 <= j < 9 implies name[j] == "array_lit"@[j] by {
            assert(name.take(i)[j] == name[j]);
        }
        assert(name.subrange(0, 10) =~= "array_lit$"@);
    }
}

proof fn lemma_last_index(s: Seq<char>, c: char)
    ensures
        -1 <= last_index(s, c) < s.len(),
        last_index(s, c) >= 0 ==> s[last_index(s, c)] == c,
    decreases s.len(),
{
    if s.len() > 0 && s.last() != c {
        lemma_last_index(s.drop_last(), c);
    }
}

/// Parse a suffixed array-builtin name (`array_get$r`, `array_lit$f`, ..) into its
/// operation and concrete element kind.
pub fn parse_array_builtin(name: &str) -> (r: Option<(ArrayOp, ElemKind)>)
    ensures
        r == array_builtin(name@),
{
    let cs: Vec<char> = chars_of(name);
    let i: usize = match rfind_char(&cs, '$') {
        Some(i) => i,
        None => return None,
    };
    if i + 1 >= cs.len() {
        return None;
    }
    let base: String = string_of(&cs, 0, i);
    let kind: ElemKind = match ElemKind::from_tag(cs[i + 1]) {
        Ok(k) => k,
        Err(_) => return None,
    };
    match parse_array_op(base.as_str()) {
        Some(op) => Some((op, kind)),
        None => None,
    }
}

/// The map or set operation of a suffixed name such as `map_insert$i_r`: what
/// stands before the last `$`.
pub open spec fn map_set_builtin(name: Seq<char>) -> Option<MapSetOp> {
    let i = last_index(name, '$');
    if i < 0 {
        None
    } else {
        map_set_op(name.take(i))
    }
}

/// Parse a suffixed map/set builtin name (`map_insert$i_r`, `set_add$s`, ..) into
/// its operation.
pub fn parse_map_set_builtin(name: &str) -> (r: Option<MapSetOp>)
    ensures
        r == map_set_builtin(name@),
{
    let cs: Vec<char> = chars_of(name);
    match rfind_char(&cs, '$') {
        Some(i) => {
            let base: String = string_of(&cs, 0, i);
            parse_map_set_op(base.as_str())
        },
        None => None,
    }
}

/// The first character of `s`, or `i`.
pub open spec fn head_tag(s: Seq<char>) -> char {
    if s.len() == 0 {
        'i'
    } else {
        s[0]
    }
}

/// The slot kinds of a map or set builtin's suffix: `$<key>_<value>`, or
/// `$<element>` twice.
pub open spec fn suffix_kinds(name: Seq<char>) -> (SlotKind, SlotKind) {
    let i = last_index(name, '$');
    let suffix = if i < 0 {
        Seq::empty()
    } else {
        name.skip(i + 1)
    };
    let j = first_index(suffix, '_');
    if j < suffix.len() {
        (
            SlotKind::tagged(head_tag(suffix.take(j))),
            SlotKind::tagged(head_tag(suffix.skip(j + 1))),
        )
    } else {
        (SlotKind::tagged(head_tag(suffix)), SlotKind::tagged(head_tag(suffix)))
    }
}

/// Parse the name suffix of a map or set builtin into coarse slot kinds.
pub fn map_set_suffix_kinds(name: &str) -> (r: (SlotKind, SlotKind))
    ensures
        r == suffix_kinds(name@),
{
    let cs: Vec<char> = chars_of(name);
    let start: usize = match rfind_char(&cs, '$') {
        Some(i) => i + 1,
        None => cs.len(),
    };
    let ghost suffix = if last_index(name@, '$') < 0 {
        Seq::empty()
    } else {
        name@.skip(last_index(name@, '$') + 1)
    };
    assert(cs@.skip(start as int) =~= suffix);
    let j: usize = find_char(&cs, start, '_');
    if j < cs.len() {
        let k: char = if j > start {
            cs[start]
        } else {
            'i'
        };
        let v: char = if j + 1 < cs.len() {
            cs[j + 1]
        } else {
            'i'
        };
        (slot_kind_from_tag(k), slot_kind_from_tag(v))
    } else {
        let e: char = if start < cs.len() {
            cs[start]
        } else {
            'i'
        };
        (slot_kind_from_tag(e), slot_kind_from_tag(e))
    }
}

/// The result type of an unsuffixed inline builtin. The print builtins are
/// modelled as an Int that is never used.
pub open spec fn builtin_type(name: Seq<char>) -> Option<CType> {
    if name == "concat"@ || name == "int_to_str"@ || name == "bytes_to_str"@ {
        Some(CType::Str)
    } else if name == "print_int"@ || name == "print_bool"@ || name == "print_float"@ || name == "print_str"@ || name == "bytes_len"@ || name == "bytes_get"@ || name == "vec_len"@ {
        Some(CType::Int)
    } else if name == "bytes_new"@ || name == "bytes_set"@ || name == "bytes_push"@ || name == "bytes_from_str"@ {
        Some(CType::Bytes)
    } else if name == "vec_new"@ || name == "vec_from_array"@ || name == "vec_push"@ || name == "vec_add"@ || name == "vec_scale"@ {
        Some(CType::Vector)
    } else if name == "vec_to_array"@ {
        Some(CType::Array(ElemKind::Float))
    } else if name == "vec_get"@ || name == "vec_dot"@ || name == "vec_norm"@ || name == "vec_cosine"@ {
        Some(CType::Float)
    } else {
        None
    }
}

/// The result type of an inline builtin, or `None` if `name` is not a supported
/// one.
pub fn builtin_ret(name: &str) -> (r: Option<CType>)
    ensures
        r == builtin_type(name@),
{
    if str_eq(name, "concat") || str_eq(name, "int_to_str") || str_eq(name, "bytes_to_str") {
        Some(CType::Str)
    } else if str_eq(name, "print_int") || str_eq(name, "print_bool") || str_eq(name, "print_float") || str_eq(name, "print_str") || str_eq(name, "bytes_len") || str_eq(name, "bytes_get") || str_eq(name, "vec_len") {
        Some(CType::Int)
    } else if str_eq(name, "bytes_new") || str_eq(name, "bytes_set") || str_eq(name, "bytes_push") || str_eq(name, "bytes_from_str") {
        Some(CType::Bytes)
    } else if str_eq(name, "vec_new") || str_eq(name, "vec_from_array") || str_eq(name, "vec_push") || str_eq(name, "vec_add") || str_eq(name, "vec_scale") {
        Some(CType::Vector)
    } else if str_eq(name, "vec_to_array") {
        Some(CType::Array(ElemKind::Float))
    } else if str_eq(name, "vec_get") || str_eq(name, "vec_dot") || str_eq(name, "vec_norm") || str_eq(name, "vec_cosine") {
        Some(CType::Float)
    } else {
        None
    }
}

/// Whether `name` is any inline builtin.
pub open spec fn inline_builtin(name: Seq<char>) -> bool {
    builtin_type(name) is Some || array_builtin(name) is Some || map_set_builtin(name) is Some
}

/// Whether `name` is any inline builtin.
pub fn is_builtin(name: &str) -> (r: bool)
    ensures
        r == inline_builtin(name@),
{
    builtin_ret(name).is_some() || parse_array_builtin(name).is_some() || parse_map_set_builtin(
        name,
    ).is_some()
}

/// How an unsuffixed builtin is called: the types of its arguments, of which the
/// first `early` are checked before anything is emitted (else: `usage`) and the
/// rest after all arguments are (else: `mismatch`), and the runtime function. A
/// builtin that `prints` assigns 0.
pub struct FormModel {
    pub arity: nat,
    pub early: nat,
    pub types: (CType, CType, CType),
    pub usage: Seq<char>,
    pub mismatch: Seq<char>,
    pub callee: Seq<char>,
    pub prints: bool,
}

impl FormModel {
    /// The type of argument `i`.
    pub open spec fn type_at(self, i: int) -> CType {
        if i == 0 {
            self.types.0
        } else if i == 1 {
            self.types.1
        } else {
            self.types.2
        }
    }
}

/// How an unsuffixed builtin is called.
pub struct BuiltinForm {
    pub arity: usize,
    pub early: usize,
    pub types: (CType, CType, CType),
    pub usage: &'static str,
    pub mismatch: &'static str,
    pub callee: &'static str,
    pub prints: bool,
}

impl BuiltinForm {
    /// The form's model.
    pub open spec fn view(&self) -> FormModel {
        FormModel {
            arity: self.arity as nat,
            early: self.early as nat,
            types: self.types,
            usage: self.usage@,
            mismatch: self.mismatch@,
            callee: self.callee@,
            prints: self.prints,
        }
    }

    /// The type of argument `i`.
    pub fn type_of(&self, i: usize) -> (r: CType)
        ensures
            r == self@.type_at(i as int),
    {
        if i == 0 {
            self.types.0
        } else if i == 1 {
            self.types.1
        } else {
            self.types.2
        }
    }
}

/// The calling form of an unsuffixed builtin.
pub open spec fn form_of(name: Seq<char>) -> Option<FormModel> {
    if name == "concat"@ {
        Some(
            FormModel {
                arity: 2,
                early: 2,
                types: (CType::Str, CType::Str, CType::Int),
                usage: "c backend: concat expects two Strings"@,
                mismatch: ""@,
                callee: "aria_concat"@,
                prints: false,
            },
        )
    } else if name == "int_to_str"@ {
        Some(
            FormModel {
                arity: 1,
                early: 1,
                types: (CType::Int, CType::Int, CType::Int),
                usage: "c backend: int_to_str expects one Int"@,
                mismatch: ""@,
                callee: "aria_int_to_str"@,
                prints: false,
            },
        )
    } else if name == "print_int"@ {
        Some(
            FormModel {
                arity: 1,
                early: 1,
                types: (CType::Int, CType::Int, CType::Int),
                usage: "c backend: print_int expects one Int"@,
                mismatch: ""@,
                callee: "aria_print_int"@,
                prints: true,
            },
        )
    } else if name == "print_bool"@ {
        Some(
            FormModel {
                arity: 1,
                early: 1,
                types: (CType::Bool, CType::Int, CType::Int),
                usage: "c backend: print_bool expects one Bool"@,
                mismatch: ""@,
                callee: "aria_print_bool"@,
                prints: true,
            },
        )
    } else if name == "print_float"@ {
        Some(
            FormModel {
                arity: 1,
                early: 1,
                types: (CType::Float, CType::Int, CType::Int),
                usage: "c backend: print_float expects one Float"@,
                mismatch: ""@,
                callee: "aria_print_float"@,
                prints: true,
            },
        )
    } else if name == "print_str"@ {
        Some(
            FormModel {
                arity: 1,
                early: 1,
                types: (CType::Str, CType::Int, CType::Int),
                usage: "c backend: print_str expects one String"@,
                mismatch: ""@,
                callee: "aria_print_str"@,
                prints: true,
            },
        )
    } else if name == "bytes_new"@ {
        Some(
            FormModel {
                arity: 0,
                early: 0,
                types: (CType::Int, CType::Int, CType::Int),
                usage: "c backend: bytes_new expects no arguments"@,
                mismatch: ""@,
                callee: "aria_bytes_new"@,
                prints: false,
            },
        )
    } else if name == "bytes_len"@ {
        Some(
            FormModel {
                arity: 1,
                early: 1,
                types: (CType::Bytes, CType::Int, CType::Int),
                usage: "c backend: bytes_len expects one Bytes"@,
                mismatch: ""@,
                callee: "aria_bytes_len"@,
                prints: false,
            },
        )
    } else if name == "bytes_get"@ {
        Some(
            FormModel {
                arity: 2,
                early: 1,
                types: (CType::Bytes, CType::Int, CType::Int),
                usage: "c backend: bytes_get expects (Bytes, Int)"@,
                mismatch: "c backend: bytes_get index must be Int"@,
                callee: "aria_bytes_get"@,
                prints: false,
            },
        )
    } else if name == "bytes_set"@ {
        Some(
            FormModel {
                arity: 3,
                early: 1,
                types: (CType::Bytes, CType::Int, CType::Int),
                usage: "c backend: bytes_set expects (Bytes, Int, Int)"@,
                mismatch: "c backend: bytes_set index/value must be Int"@,
                callee: "aria_bytes_set"@,
                prints: false,
            },
        )
    } else if name == "bytes_push"@ {
        Some(
            FormModel {
                arity: 2,
                early: 1,
                types: (CType::Bytes, CType::Int, CType::Int),
                usage: "c backend: bytes_push expects (Bytes, Int)"@,
                mismatch: "c backend: bytes_push value must be Int"@,
                callee: "aria_bytes_push"@,
                prints: false,
            },
        )
    } else if name == "bytes_from_str"@ {
        Some(
            FormModel {
                arity: 1,
                early: 1,
                types: (CType::Str, CType::Int, CType::Int),
                usage: "c backend: bytes_from_str expects one String"@,
                mismatch: ""@,
                callee: "aria_bytes_from_str"@,
                prints: false,
            },
        )
    } else if name == "bytes_to_str"@ {
        Some(
            FormModel {
                arity: 1,
                early: 1,
                types: (CType::Bytes, CType::Int, CType::Int),
                usage: "c backend: bytes_to_str expects one Bytes"@,
                mismatch: ""@,
                callee: "aria_bytes_to_str"@,
                prints: false,
            },
        )
    } else if name == "vec_new"@ {
        Some(
            FormModel {
                arity: 0,
                early: 0,
                types: (CType::Int, CType::Int, CType::Int),
                usage: "c backend: vec_new expects no arguments"@,
                mismatch: ""@,
                callee: "aria_vec_new"@,
                prints: false,
            },
        )
    } else if name == "vec_from_array"@ {
        Some(
            FormModel {
                arity: 1,
                early: 1,
                types: (CType::Array(ElemKind::Float), CType::Int, CType::Int),
                usage: "c backend: vec_from_array expects one Array[Float]"@,
                mismatch: ""@,
                callee: "aria_vec_from_array"@,
                prints: false,
            },
        )
    } else if name == "vec_to_array"@ {
        Some(
            FormModel {
                arity: 1,
                early: 1,
                types: (CType::Vector, CType::Int, CType::Int),
                usage: "c backend: vec_to_array expects one Vector"@,
                mismatch: ""@,
                callee: "aria_vec_to_array"@,
                prints: false,
            },
        )
    } else if name == "vec_len"@ {
        Some(
            FormModel {
                arity: 1,
                early: 1,
                types: (CType::Vector, CType::Int, CType::Int),
                usage: "c backend: vec_len expects one Vector"@,
                mismatch: ""@,
                callee: "aria_vec_len"@,
                prints: false,
            },
        )
    } else if name == "vec_get"@ {
        Some(
            FormModel {
                arity: 2,
                early: 1,
                types: (CType::Vector, CType::Int, CType::Int),
                usage: "c backend: vec_get expects (Vector, Int)"@,
                mismatch: "c backend: vec_get index must be Int"@,
                callee: "aria_vec_get"@,
                prints: false,
            },
        )
    } else if name == "vec_push"@ {
        Some(
            FormModel {
                arity: 2,
                early: 1,
                types: (CType::Vector, CType::Float, CType::Int),
                usage: "c backend: vec_push expects (Vector, Float)"@,
                mismatch: "c backend: vec_push value must be Float"@,
                callee: "aria_vec_push"@,
                prints: false,
            },
        )
    } else if name == "vec_dot"@ {
        Some(
            FormModel {
                arity: 2,
                early: 2,
                types: (CType::Vector, CType::Vector, CType::Int),
                usage: "c backend: vec_dot expects (Vector, Vector)"@,
                mismatch: ""@,
                callee: "aria_vec_dot"@,
                prints: false,
            },
        )
    } else if name == "vec_norm"@ {
        Some(
            FormModel {
                arity: 1,
                early: 1,
                types: (CType::Vector, CType::Int, CType::Int),
                usage: "c backend: vec_norm expects one Vector"@,
                mismatch: ""@,
                callee: "aria_vec_norm"@,
                prints: false,
            },
        )
    } else if name == "vec_cosine"@ {
        Some(
            FormModel {
                arity: 2,
                early: 2,
                types: (CType::Vector, CType::Vector, CType::Int),
                usage: "c backend: vec_cosine expects (Vector, Vector)"@,
                mismatch: ""@,
                callee: "aria_vec_cosine"@,
                prints: false,
            },
        )
    } else if name == "vec_add"@ {
        Some(
            FormModel {
                arity: 2,
                early: 2,
                types: (CType::Vector, CType::Vector, CType::Int),
                usage: "c backend: vec_add expects (Vector, Vector)"@,
                mismatch: ""@,
                callee: "aria_vec_add"@,
                prints: false,
            },
        )
    } else if name == "vec_scale"@ {
        Some(
            FormModel {
                arity: 2,
                early: 1,
                types: (CType::Vector, CType::Float, CType::Int),
                usage: "c backend: vec_scale expects (Vector, Float)"@,
                mismatch: "c backend: vec_scale factor must be Float"@,
                callee: "aria_vec_scale"@,
                prints: false,
            },
        )
    } else {
        None
    }
}

/// The calling form of an unsuffixed builtin.
pub fn builtin_form(name: &str) -> (r: Option<BuiltinForm>)
    ensures
        match r {
            Some(f) => form_of(name@) == Some(f@),
            None => form_of(name@) is None,
        },
{
    if str_eq(name, "concat") {
        Some(
            BuiltinForm {
                arity: 2,
                early: 2,
                types: (CType::Str, CType::Str, CType::Int),
                usage: "c backend: concat expects two Strings",
                mismatch: "",
                callee: "aria_concat",
                prints: false,
            },
        )
    } else if str_eq(name, "int_to_str") {
        Some(
            BuiltinForm {
                arity: 1,
                early: 1,
                types: (CType::Int, CType::Int, CType::Int),
                usage: "c backend: int_to_str expects one Int",
                mismatch: "",
                callee: "aria_int_to_str",
                prints: false,
            },
        )
    } else if str_eq(name, "print_int") {
        Some(
            BuiltinForm {
                arity: 1,
                early: 1,
                types: (CType::Int, CType::Int, CType::Int),
                usage: "c backend: print_int expects one Int",
                mismatch: "",
                callee: "aria_print_int",
                prints: true,
            },
        )
    } else if str_eq(name, "print_bool") {
        Some(
            BuiltinForm {
                arity: 1,
                early: 1,
                types: (CType::Bool, CType::Int, CType::Int),
                usage: "c backend: print_bool expects one Bool",
                mismatch: "",
                callee: "aria_print_bool",
                prints: true,
            },
        )
    } else if str_eq(name, "print_float") {
        Some(
            BuiltinForm {
                arity: 1,
                early: 1,
                types: (CType::Float, CType::Int, CType::Int),
                usage: "c backend: print_float expects one Float",
                mismatch: "",
                callee: "aria_print_float",
                prints: true,
            },
        )
    } else if str_eq(name, "print_str") {
        Some(
            BuiltinForm {
                arity: 1,
                early: 1,
                types: (CType::Str, CType::Int, CType::Int),
                usage: "c backend: print_str expects one String",
                mismatch: "",
                callee: "aria_print_str",
                prints: true,
            },
        )
    } else if str_eq(name, "bytes_new") {
        Some(
            BuiltinForm {
                arity: 0,
                early: 0,
                types: (CType::Int, CType::Int, CType::Int),
                usage: "c backend: bytes_new expects no arguments",
                mismatch: "",
                callee: "aria_bytes_new",
                prints: false,
            },
        )
    } else if str_eq(name, "bytes_len") {
        Some(
            BuiltinForm {
                arity: 1,
                early: 1,
                types: (CType::Bytes, CType::Int, CType::Int),
                usage: "c backend: bytes_len expects one Bytes",
                mismatch: "",
                callee: "aria_bytes_len",
                prints: false,
            },
        )
    } else if str_eq(name, "bytes_get") {
        Some(
            BuiltinForm {
                arity: 2,
                early: 1,
                types: (CType::Bytes, CType::Int, CType::Int),
                usage: "c backend: bytes_get expects (Bytes, Int)",
                mismatch: "c backend: bytes_get index must be Int",
                callee: "aria_bytes_get",
                prints: false,
            },
        )
    } else if str_eq(name, "bytes_set") {
        Some(
            BuiltinForm {
                arity: 3,
                early: 1,
                types: (CType::Bytes, CType::Int, CType::Int),
                usage: "c backend: bytes_set expects (Bytes, Int, Int)",
                mismatch: "c backend: bytes_set index/value must be Int",
                callee: "aria_bytes_set",
                prints: false,
            },
        )
    } else if str_eq(name, "bytes_push") {
        Some(
            BuiltinForm {
                arity: 2,
                early: 1,
                types: (CType::Bytes, CType::Int, CType::Int),
                usage: "c backend: bytes_push expects (Bytes, Int)",
                mismatch: "c backend: bytes_push value must be Int",
                callee: "aria_bytes_push",
                prints: false,
            },
        )
    } else if str_eq(name, "bytes_from_str") {
        Some(
            BuiltinForm {
                arity: 1,
                early: 1,
                types: (CType::Str, CType::Int, CType::Int),
                usage: "c backend: bytes_from_str expects one String",
                mismatch: "",
                callee: "aria_bytes_from_str",
                prints: false,
            },
        )
    } else if str_eq(name, "bytes_to_str") {
        Some(
            BuiltinForm {
                arity: 1,
                early: 1,
                types: (CType::Bytes, CType::Int, CType::Int),
                usage: "c backend: bytes_to_str expects one Bytes",
                mismatch: "",
                callee: "aria_bytes_to_str",
                prints: false,
            },
        )
    } else if str_eq(name, "vec_new") {
        Some(
            BuiltinForm {
                arity: 0,
                early: 0,
                types: (CType::Int, CType::Int, CType::Int),
                usage: "c backend: vec_new expects no arguments",
                mismatch: "",
                callee: "aria_vec_new",
                prints: false,
            },
        )
    } else if str_eq(name, "vec_from_array") {
        Some(
            BuiltinForm {
                arity: 1,
                early: 1,
                types: (CType::Array(ElemKind::Float), CType::Int, CType::Int),
                usage: "c backend: vec_from_array expects one Array[Float]",
                mismatch: "",
                callee: "aria_vec_from_array",
                prints: false,
            },
        )
    } else if str_eq(name, "vec_to_array") {
        Some(
            BuiltinForm {
                arity: 1,
                early: 1,
                types: (CType::Vector, CType::Int, CType::Int),
                usage: "c backend: vec_to_array expects one Vector",
                mismatch: "",
                callee: "aria_vec_to_array",
                prints: false,
            },
        )
    } else if str_eq(name, "vec_len") {
        Some(
            BuiltinForm {
                arity: 1,
                early: 1,
                types: (CType::Vector, CType::Int, CType::Int),
                usage: "c backend: vec_len expects one Vector",
                mismatch: "",
                callee: "aria_vec_len",
                prints: false,
            },
        )
    } else if str_eq(name, "vec_get") {
        Some(
            BuiltinForm {
                arity: 2,
                early: 1,
                types: (CType::Vector, CType::Int, CType::Int),
                usage: "c backend: vec_get expects (Vector, Int)",
                mismatch: "c backend: vec_get index must be Int",
                callee: "aria_vec_get",
                prints: false,
            },
        )
    } else if str_eq(name, "vec_push") {
        Some(
            BuiltinForm {
                arity: 2,
                early: 1,
                types: (CType::Vector, CType::Float, CType::Int),
                usage: "c backend: vec_push expects (Vector, Float)",
                mismatch: "c backend: vec_push value must be Float",
                callee: "aria_vec_push",
                prints: false,
            },
        )
    } else if str_eq(name, "vec_dot") {
        Some(
            BuiltinForm {
                arity: 2,
                early: 2,
                types: (CType::Vector, CType::Vector, CType::Int),
                usage: "c backend: vec_dot expects (Vector, Vector)",
                mismatch: "",
                callee: "aria_vec_dot",
                prints: false,
            },
        )
    } else if str_eq(name, "vec_norm") {
        Some(
            BuiltinForm {
                arity: 1,
                early: 1,
                types: (CType::Vector, CType::Int, CType::Int),
                usage: "c backend: vec_norm expects one Vector",
                mismatch: "",
                callee: "aria_vec_norm",
                prints: false,
            },
        )
    } else if str_eq(name, "vec_cosine") {
        Some(
            BuiltinForm {
                arity: 2,
                early: 2,
                types: (CType::Vector, CType::Vector, CType::Int),
                usage: "c backend: vec_cosine expects (Vector, Vector)",
                mismatch: "",
                callee: "aria_vec_cosine",
                prints: false,
            },
        )
    } else if str_eq(name, "vec_add") {
        Some(
            BuiltinForm {
                arity: 2,
                early: 2,
                types: (CType::Vector, CType::Vector, CType::Int),
                usage: "c backend: vec_add expects (Vector, Vector)",
                mismatch: "",
                callee: "aria_vec_add",
                prints: false,
            },
        )
    } else if str_eq(name, "vec_scale") {
        Some(
            BuiltinForm {
                arity: 2,
                early: 1,
                types: (CType::Vector, CType::Float, CType::Int),
                usage: "c backend: vec_scale expects (Vector, Float)",
                mismatch: "c backend: vec_scale factor must be Float",
                callee: "aria_vec_scale",
                prints: false,
            },
        )
    } else {
        None
    }
}

/// Every builtin with a result type has a calling form, and the other way round.
pub proof fn forms_complete(name: Seq<char>)
    ensures
        form_of(name) is Some <==> builtin_type(name) is Some,
        form_of(name) matches Some(f) ==> f.early <= f.arity <= 3,
{
}

} // verus!
