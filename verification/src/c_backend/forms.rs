//! The builtins that the backend emits as calls, against the language's own table.

use vstd::prelude::*;
use vstd::string::*;

use crate::builtins::laws::lookup_finds_each;
use crate::builtins::{
    all_signatures, array_of, array_signatures, bytes_signatures, core_signatures, find_sig,
    map_signatures, opaque, set_signatures, tensor_signatures, vector_signatures,
};
use crate::c_backend::builtins::{builtin_type, form_of, map_set_op, FormModel};
use crate::c_backend::emit::{map_set_fn, map_set_usage};
use crate::c_backend::kinds::{CType, ElemKind};
use crate::text::begins;
use crate::types::TyV;

verus! {

/// Whether a C type holds the values of a type.
pub open spec fn represents(t: CType, ty: TyV) -> bool {
    match t {
        CType::Int => ty == TyV::Int,
        CType::Bool => ty == TyV::Bool,
        CType::Float => ty == TyV::Float,
        CType::Str => ty == TyV::Str,
        CType::Bytes => ty == opaque("Bytes"@),
        CType::Vector => ty == opaque("Vector"@),
        CType::Array(k) => k == ElemKind::Float && ty == array_of(TyV::Float),
        _ => false,
    }
}

/// Whether a form is that of a builtin: it calls the function of the runtime that is
/// named after it, takes the arguments of its signature, and returns what the signature
/// says; what returns nothing returns an Int to C. What is printed is what the name
/// says.
pub open spec fn form_fits(name: Seq<char>, f: FormModel) -> bool {
    &&& f.callee == "aria_"@ + name
    &&& f.early <= f.arity
    &&& f.prints <==> begins(name, "print_"@)
    &&& begins(f.usage, "c backend: "@ + name + " expects "@)
    &&& find_sig(all_signatures(), name) matches Some(s) && s.params.len() == f.arity && (
    forall|i: int| 0 <= i < s.params.len() ==> represents(f.type_at(i), #[trigger] s.params[i])) && (
    builtin_type(name) matches Some(t) && (represents(t, s.ret) || s.ret == TyV::Unit && t
        == CType::Int))
}

proof fn lemma_sections()
    ensures
        all_signatures().len() == 61,
        forall|i: int| 0 <= i < 6 ==> #[trigger] all_signatures()[i] == core_signatures()[i],
        forall|i: int| 32 <= i < 41 ==> #[trigger] all_signatures()[i] == map_signatures()[i - 32],
        forall|i: int| 41 <= i < 48 ==> #[trigger] all_signatures()[i] == set_signatures()[i - 41],
        forall|i: int| 25 <= i < 32 ==> #[trigger] all_signatures()[i] == bytes_signatures()[i - 25],
        forall|i: int|
            48 <= i < 61 ==> #[trigger] all_signatures()[i] == vector_signatures()[i - 48],
{
    assert(core_signatures().len() == 6);
    assert(tensor_signatures().len() == 14);
    assert(array_signatures().len() == 5);
    assert(bytes_signatures().len() == 7);
    assert(map_signatures().len() == 9);
    assert(set_signatures().len() == 7);
    assert(vector_signatures().len() == 13);
}

proof fn lemma_concat()
    ensures
        form_of("concat"@) matches Some(f) ==> form_fits("concat"@, f),
{
    let name = "concat"@;
    lemma_sections();
    lookup_finds_each(4);
    assert(all_signatures()[4] == core_signatures()[4]);
    reveal_strlit("concat");
    reveal_strlit("aria_");
    reveal_strlit("aria_concat");
    assert("aria_"@ + name =~= "aria_concat"@);
    reveal_strlit("c backend: ");
    reveal_strlit(" expects ");
    reveal_strlit("print_");
    reveal_strlit("c backend: concat expects two Strings");
    let head = "c backend: "@ + name + " expects "@;
    let usage = "c backend: concat expects two Strings"@;
    assert(usage.take(head.len() as int) =~= head);
    assert(name[0] != 'p');
    assert("print_"@[0] == 'p');
    if begins(name, "print_"@) {
        assert(name.take(6)[0] == name[0]);
    }
}

proof fn lemma_int_to_str()
    ensures
        form_of("int_to_str"@) matches Some(f) ==> form_fits("int_to_str"@, f),
{
    let name = "int_to_str"@;
    lemma_sections();
    lookup_finds_each(5);
    assert(all_signatures()[5] == core_signatures()[5]);
    reveal_strlit("int_to_str");
    reveal_strlit("aria_");
    reveal_strlit("aria_int_to_str");
    assert("aria_"@ + name =~= "aria_int_to_str"@);
    reveal_strlit("c backend: ");
    reveal_strlit(" expects ");
    reveal_strlit("print_");
    reveal_strlit("concat");
    assert("concat"@.len() != name.len());
    reveal_strlit("c backend: int_to_str expects one Int");
    let head = "c backend: "@ + name + " expects "@;
    let usage = "c backend: int_to_str expects one Int"@;
    assert(usage.take(head.len() as int) =~= head);
    assert(name[0] != 'p');
    assert("print_"@[0] == 'p');
    if begins(name, "print_"@) {
        assert(name.take(6)[0] == name[0]);
    }
}

proof fn lemma_print_int()
    ensures
        form_of("print_int"@) matches Some(f) ==> form_fits("print_int"@, f),
{
    let name = "print_int"@;
    lemma_sections();
    lookup_finds_each(0);
    assert(all_signatures()[0] == core_signatures()[0]);
    reveal_strlit("print_int");
    reveal_strlit("aria_");
    reveal_strlit("aria_print_int");
    assert("aria_"@ + name =~= "aria_print_int"@);
    reveal_strlit("c backend: ");
    reveal_strlit(" expects ");
    reveal_strlit("print_");
    reveal_strlit("concat");
    assert("concat"@.len() != name.len());
    reveal_strlit("int_to_str");
    assert("int_to_str"@.len() != name.len());
    reveal_strlit("bytes_to_str");
    assert("bytes_to_str"@.len() != name.len());
    reveal_strlit("c backend: print_int expects one Int");
    let head = "c backend: "@ + name + " expects "@;
    let usage = "c backend: print_int expects one Int"@;
    assert(usage.take(head.len() as int) =~= head);
    assert(name.take(6) =~= "print_"@);
}

proof fn lemma_print_bool()
    ensures
        form_of("print_bool"@) matches Some(f) ==> form_fits("print_bool"@, f),
{
    let name = "print_bool"@;
    lemma_sections();
    lookup_finds_each(2);
    assert(all_signatures()[2] == core_signatures()[2]);
    reveal_strlit("print_bool");
    reveal_strlit("aria_");
    reveal_strlit("aria_print_bool");
    assert("aria_"@ + name =~= "aria_print_bool"@);
    reveal_strlit("c backend: ");
    reveal_strlit(" expects ");
    reveal_strlit("print_");
    reveal_strlit("concat");
    assert("concat"@.len() != name.len());
    reveal_strlit("int_to_str");
    assert("int_to_str"@[0] != name[0]);
    reveal_strlit("print_int");
    assert("print_int"@.len() != name.len());
    reveal_strlit("bytes_to_str");
    assert("bytes_to_str"@.len() != name.len());
    reveal_strlit("c backend: print_bool expects one Bool");
    let head = "c backend: "@ + name + " expects "@;
    let usage = "c backend: print_bool expects one Bool"@;
    assert(usage.take(head.len() as int) =~= head);
    assert(name.take(6) =~= "print_"@);
}

proof fn lemma_print_float()
    ensures
        form_of("print_float"@) matches Some(f) ==> form_fits("print_float"@, f),
{
    let name = "print_float"@;
    lemma_sections();
    lookup_finds_each(1);
    assert(all_signatures()[1] == core_signatures()[1]);
    reveal_strlit("print_float");
    reveal_strlit("aria_");
    reveal_strlit("aria_print_float");
    assert("aria_"@ + name =~= "aria_print_float"@);
    reveal_strlit("c backend: ");
    reveal_strlit(" expects ");
    reveal_strlit("print_");
    reveal_strlit("concat");
    assert("concat"@.len() != name.len());
    reveal_strlit("int_to_str");
    assert("int_to_str"@.len() != name.len());
    reveal_strlit("print_int");
    assert("print_int"@.len() != name.len());
    reveal_strlit("print_bool");
    assert("print_bool"@.len() != name.len());
    reveal_strlit("bytes_to_str");
    assert("bytes_to_str"@.len() != name.len());
    reveal_strlit("c backend: print_float expects one Float");
    let head = "c backend: "@ + name + " expects "@;
    let usage = "c backend: print_float expects one Float"@;
    assert(usage.take(head.len() as int) =~= head);
    assert(name.take(6) =~= "print_"@);
}

proof fn lemma_print_str()
    ensures
        form_of("print_str"@) matches Some(f) ==> form_fits("print_str"@, f),
{
    let name = "print_str"@;
    lemma_sections();
    lookup_finds_each(3);
    assert(all_signatures()[3] == core_signatures()[3]);
    reveal_strlit("print_str");
    reveal_strlit("aria_");
    reveal_strlit("aria_print_str");
    assert("aria_"@ + name =~= "aria_print_str"@);
    reveal_strlit("c backend: ");
    reveal_strlit(" expects ");
    reveal_strlit("print_");
    reveal_strlit("concat");
    assert("concat"@.len() != name.len());
    reveal_strlit("int_to_str");
    assert("int_to_str"@.len() != name.len());
    reveal_strlit("print_int");
    assert("print_int"@[6] != name[6]);
    reveal_strlit("print_bool");
    assert("print_bool"@.len() != name.len());
    reveal_strlit("print_float");
    assert("print_float"@.len() != name.len());
    reveal_strlit("bytes_to_str");
    assert("bytes_to_str"@.len() != name.len());
    reveal_strlit("c backend: print_str expects one String");
    let head = "c backend: "@ + name + " expects "@;
    let usage = "c backend: print_str expects one String"@;
    assert(usage.take(head.len() as int) =~= head);
    assert(name.take(6) =~= "print_"@);
}

proof fn lemma_bytes_new()
    ensures
        form_of("bytes_new"@) matches Some(f) ==> form_fits("bytes_new"@, f),
{
    let name = "bytes_new"@;
    lemma_sections();
    lookup_finds_each(25);
    assert(all_signatures()[25] == bytes_signatures()[0]);
    reveal_strlit("bytes_new");
    reveal_strlit("aria_");
    reveal_strlit("aria_bytes_new");
    assert("aria_"@ + name =~= "aria_bytes_new"@);
    reveal_strlit("c backend: ");
    reveal_strlit(" expects ");
    reveal_strlit("print_");
    reveal_strlit("concat");
    assert("concat"@.len() != name.len());
    reveal_strlit("int_to_str");
    assert("int_to_str"@.len() != name.len());
    reveal_strlit("print_int");
    assert("print_int"@[0] != name[0]);
    reveal_strlit("print_bool");
    assert("print_bool"@.len() != name.len());
    reveal_strlit("print_float");
    assert("print_float"@.len() != name.len());
    reveal_strlit("print_str");
    assert("print_str"@[0] != name[0]);
    reveal_strlit("bytes_to_str");
    assert("bytes_to_str"@.len() != name.len());
    reveal_strlit("bytes_len");
    assert("bytes_len"@[6] != name[6]);
    reveal_strlit("bytes_get");
    assert("bytes_get"@[6] != name[6]);
    reveal_strlit("vec_len");
    assert("vec_len"@.len() != name.len());
    reveal_strlit("c backend: bytes_new expects no arguments");
    let head = "c backend: "@ + name + " expects "@;
    let usage = "c backend: bytes_new expects no arguments"@;
    assert(usage.take(head.len() as int) =~= head);
    assert(name[0] != 'p');
    assert("print_"@[0] == 'p');
    if begins(name, "print_"@) {
        assert(name.take(6)[0] == name[0]);
    }
}

proof fn lemma_bytes_len()
    ensures
        form_of("bytes_len"@) matches Some(f) ==> form_fits("bytes_len"@, f),
{
    let name = "bytes_len"@;
    lemma_sections();
    lookup_finds_each(26);
    assert(all_signatures()[26] == bytes_signatures()[1]);
    reveal_strlit("bytes_len");
    reveal_strlit("aria_");
    reveal_strlit("aria_bytes_len");
    assert("aria_"@ + name =~= "aria_bytes_len"@);
    reveal_strlit("c backend: ");
    reveal_strlit(" expects ");
    reveal_strlit("print_");
    reveal_strlit("concat");
    assert("concat"@.len() != name.len());
    reveal_strlit("int_to_str");
    assert("int_to_str"@.len() != name.len());
    reveal_strlit("print_int");
    assert("print_int"@[0] != name[0]);
    reveal_strlit("print_bool");
    assert("print_bool"@.len() != name.len());
    reveal_strlit("print_float");
    assert("print_float"@.len() != name.len());
    reveal_strlit("print_str");
    assert("print_str"@[0] != name[0]);
    reveal_strlit("bytes_new");
    assert("bytes_new"@[6] != name[6]);
    reveal_strlit("bytes_to_str");
    assert("bytes_to_str"@.len() != name.len());
    reveal_strlit("c backend: bytes_len expects one Bytes");
    let head = "c backend: "@ + name + " expects "@;
    let usage = "c backend: bytes_len expects one Bytes"@;
    assert(usage.take(head.len() as int) =~= head);
    assert(name[0] != 'p');
    assert("print_"@[0] == 'p');
    if begins(name, "print_"@) {
        assert(name.take(6)[0] == name[0]);
    }
}

proof fn lemma_bytes_get()
    ensures
        form_of("bytes_get"@) matches Some(f) ==> form_fits("bytes_get"@, f),
{
    let name = "bytes_get"@;
    lemma_sections();
    lookup_finds_each(27);
    assert(all_signatures()[27] == bytes_signatures()[2]);
    reveal_strlit("bytes_get");
    reveal_strlit("aria_");
    reveal_strlit("aria_bytes_get");
    assert("aria_"@ + name =~= "aria_bytes_get"@);
    reveal_strlit("c backend: ");
    reveal_strlit(" expects ");
    reveal_strlit("print_");
    reveal_strlit("concat");
    assert("concat"@.len() != name.len());
    reveal_strlit("int_to_str");
    assert("int_to_str"@.len() != name.len());
    reveal_strlit("print_int");
    assert("print_int"@[0] != name[0]);
    reveal_strlit("print_bool");
    assert("print_bool"@.len() != name.len());
    reveal_strlit("print_float");
    assert("print_float"@.len() != name.len());
    reveal_strlit("print_str");
    assert("print_str"@[0] != name[0]);
    reveal_strlit("bytes_new");
    assert("bytes_new"@[6] != name[6]);
    reveal_strlit("bytes_len");
    assert("bytes_len"@[6] != name[6]);
    reveal_strlit("bytes_to_str");
    assert("bytes_to_str"@.len() != name.len());
    reveal_strlit("c backend: bytes_get expects (Bytes, Int)");
    let head = "c backend: "@ + name + " expects "@;
    let usage = "c backend: bytes_get expects (Bytes, Int)"@;
    assert(usage.take(head.len() as int) =~= head);
    assert(name[0] != 'p');
    assert("print_"@[0] == 'p');
    if begins(name, "print_"@) {
        assert(name.take(6)[0] == name[0]);
    }
}

proof fn lemma_bytes_set()
    ensures
        form_of("bytes_set"@) matches Some(f) ==> form_fits("bytes_set"@, f),
{
    let name = "bytes_set"@;
    lemma_sections();
    lookup_finds_each(28);
    assert(all_signatures()[28] == bytes_signatures()[3]);
    reveal_strlit("bytes_set");
    reveal_strlit("aria_");
    reveal_strlit("aria_bytes_set");
    assert("aria_"@ + name =~= "aria_bytes_set"@);
    reveal_strlit("c backend: ");
    reveal_strlit(" expects ");
    reveal_strlit("print_");
    reveal_strlit("concat");
    assert("concat"@.len() != name.len());
    reveal_strlit("int_to_str");
    assert("int_to_str"@.len() != name.len());
    reveal_strlit("print_int");
    assert("print_int"@[0] != name[0]);
    reveal_strlit("print_bool");
    assert("print_bool"@.len() != name.len());
    reveal_strlit("print_float");
    assert("print_float"@.len() != name.len());
    reveal_strlit("print_str");
    assert("print_str"@[0] != name[0]);
    reveal_strlit("bytes_new");
    assert("bytes_new"@[6] != name[6]);
    reveal_strlit("bytes_len");
    assert("bytes_len"@[6] != name[6]);
    reveal_strlit("bytes_get");
    assert("bytes_get"@[6] != name[6]);
    reveal_strlit("bytes_to_str");
    assert("bytes_to_str"@.len() != name.len());
    reveal_strlit("vec_len");
    assert("vec_len"@.len() != name.len());
    reveal_strlit("c backend: bytes_set expects (Bytes, Int, Int)");
    let head = "c backend: "@ + name + " expects "@;
    let usage = "c backend: bytes_set expects (Bytes, Int, Int)"@;
    assert(usage.take(head.len() as int) =~= head);
    assert(name[0] != 'p');
    assert("print_"@[0] == 'p');
    if begins(name, "print_"@) {
        assert(name.take(6)[0] == name[0]);
    }
}

proof fn lemma_bytes_push()
    ensures
        form_of("bytes_push"@) matches Some(f) ==> form_fits("bytes_push"@, f),
{
    let name = "bytes_push"@;
    lemma_sections();
    lookup_finds_each(29);
    assert(all_signatures()[29] == bytes_signatures()[4]);
    reveal_strlit("bytes_push");
    reveal_strlit("aria_");
    reveal_strlit("aria_bytes_push");
    assert("aria_"@ + name =~= "aria_bytes_push"@);
    reveal_strlit("c backend: ");
    reveal_strlit(" expects ");
    reveal_strlit("print_");
    reveal_strlit("concat");
    assert("concat"@.len() != name.len());
    reveal_strlit("int_to_str");
    assert("int_to_str"@[0] != name[0]);
    reveal_strlit("print_int");
    assert("print_int"@.len() != name.len());
    reveal_strlit("print_bool");
    assert("print_bool"@[0] != name[0]);
    reveal_strlit("print_float");
    assert("print_float"@.len() != name.len());
    reveal_strlit("print_str");
    assert("print_str"@.len() != name.len());
    reveal_strlit("bytes_new");
    assert("bytes_new"@.len() != name.len());
    reveal_strlit("bytes_len");
    assert("bytes_len"@.len() != name.len());
    reveal_strlit("bytes_get");
    assert("bytes_get"@.len() != name.len());
    reveal_strlit("bytes_set");
    assert("bytes_set"@.len() != name.len());
    reveal_strlit("bytes_to_str");
    assert("bytes_to_str"@.len() != name.len());
    reveal_strlit("vec_len");
    assert("vec_len"@.len() != name.len());
    reveal_strlit("c backend: bytes_push expects (Bytes, Int)");
    let head = "c backend: "@ + name + " expects "@;
    let usage = "c backend: bytes_push expects (Bytes, Int)"@;
    assert(usage.take(head.len() as int) =~= head);
    assert(name[0] != 'p');
    assert("print_"@[0] == 'p');
    if begins(name, "print_"@) {
        assert(name.take(6)[0] == name[0]);
    }
}

proof fn lemma_bytes_from_str()
    ensures
        form_of("bytes_from_str"@) matches Some(f) ==> form_fits("bytes_from_str"@, f),
{
    let name = "bytes_from_str"@;
    lemma_sections();
    lookup_finds_each(30);
    assert(all_signatures()[30] == bytes_signatures()[5]);
    reveal_strlit("bytes_from_str");
    reveal_strlit("aria_");
    reveal_strlit("aria_bytes_from_str");
    assert("aria_"@ + name =~= "aria_bytes_from_str"@);
    reveal_strlit("c backend: ");
    reveal_strlit(" expects ");
    reveal_strlit("print_");
    reveal_strlit("concat");
    assert("concat"@.len() != name.len());
    reveal_strlit("int_to_str");
    assert("int_to_str"@.len() != name.len());
    reveal_strlit("print_int");
    assert("print_int"@.len() != name.len());
    reveal_strlit("print_bool");
    assert("print_bool"@.len() != name.len());
    reveal_strlit("print_float");
    assert("print_float"@.len() != name.len());
    reveal_strlit("print_str");
    assert("print_str"@.len() != name.len());
    reveal_strlit("bytes_new");
    assert("bytes_new"@.len() != name.len());
    reveal_strlit("bytes_len");
    assert("bytes_len"@.len() != name.len());
    reveal_strlit("bytes_get");
    assert("bytes_get"@.len() != name.len());
    reveal_strlit("bytes_set");
    assert("bytes_set"@.len() != name.len());
    reveal_strlit("bytes_push");
    assert("bytes_push"@.len() != name.len());
    reveal_strlit("bytes_to_str");
    assert("bytes_to_str"@.len() != name.len());
    reveal_strlit("vec_len");
    assert("vec_len"@.len() != name.len());
    reveal_strlit("c backend: bytes_from_str expects one String");
    let head = "c backend: "@ + name + " expects "@;
    let usage = "c backend: bytes_from_str expects one String"@;
    assert(usage.take(head.len() as int) =~= head);
    assert(name[0] != 'p');
    assert("print_"@[0] == 'p');
    if begins(name, "print_"@) {
        assert(name.take(6)[0] == name[0]);
    }
}

proof fn lemma_bytes_to_str()
    ensures
        form_of("bytes_to_str"@) matches Some(f) ==> form_fits("bytes_to_str"@, f),
{
    let name = "bytes_to_str"@;
    lemma_sections();
    lookup_finds_each(31);
    assert(all_signatures()[31] == bytes_signatures()[6]);
    reveal_strlit("bytes_to_str");
    reveal_strlit("aria_");
    reveal_strlit("aria_bytes_to_str");
    assert("aria_"@ + name =~= "aria_bytes_to_str"@);
    reveal_strlit("c backend: ");
    reveal_strlit(" expects ");
    reveal_strlit("print_");
    reveal_strlit("concat");
    assert("concat"@.len() != name.len());
    reveal_strlit("int_to_str");
    assert("int_to_str"@.len() != name.len());
    reveal_strlit("print_int");
    assert("print_int"@.len() != name.len());
    reveal_strlit("print_bool");
    assert("print_bool"@.len() != name.len());
    reveal_strlit("print_float");
    assert("print_float"@.len() != name.len());
    reveal_strlit("print_str");
    assert("print_str"@.len() != name.len());
    reveal_strlit("bytes_new");
    assert("bytes_new"@.len() != name.len());
    reveal_strlit("bytes_len");
    assert("bytes_len"@.len() != name.len());
    reveal_strlit("bytes_get");
    assert("bytes_get"@.len() != name.len());
    reveal_strlit("bytes_set");
    assert("bytes_set"@.len() != name.len());
    reveal_strlit("bytes_push");
    assert("bytes_push"@.len() != name.len());
    reveal_strlit("bytes_from_str");
    assert("bytes_from_str"@.len() != name.len());
    reveal_strlit("c backend: bytes_to_str expects one Bytes");
    let head = "c backend: "@ + name + " expects "@;
    let usage = "c backend: bytes_to_str expects one Bytes"@;
    assert(usage.take(head.len() as int) =~= head);
    assert(name[0] != 'p');
    assert("print_"@[0] == 'p');
    if begins(name, "print_"@) {
        assert(name.take(6)[0] == name[0]);
    }
}

proof fn lemma_vec_new()
    ensures
        form_of("vec_new"@) matches Some(f) ==> form_fits("vec_new"@, f),
{
    let name = "vec_new"@;
    lemma_sections();
    lookup_finds_each(48);
    assert(all_signatures()[48] == vector_signatures()[0]);
    reveal_strlit("vec_new");
    reveal_strlit("aria_");
    reveal_strlit("aria_vec_new");
    assert("aria_"@ + name =~= "aria_vec_new"@);
    reveal_strlit("c backend: ");
    reveal_strlit(" expects ");
    reveal_strlit("print_");
    reveal_strlit("concat");
    assert("concat"@.len() != name.len());
    reveal_strlit("int_to_str");
    assert("int_to_str"@.len() != name.len());
    reveal_strlit("print_int");
    assert("print_int"@.len() != name.len());
    reveal_strlit("print_bool");
    assert("print_bool"@.len() != name.len());
    reveal_strlit("print_float");
    assert("print_float"@.len() != name.len());
    reveal_strlit("print_str");
    assert("print_str"@.len() != name.len());
    reveal_strlit("bytes_new");
    assert("bytes_new"@.len() != name.len());
    reveal_strlit("bytes_len");
    assert("bytes_len"@.len() != name.len());
    reveal_strlit("bytes_get");
    assert("bytes_get"@.len() != name.len());
    reveal_strlit("bytes_set");
    assert("bytes_set"@.len() != name.len());
    reveal_strlit("bytes_push");
    assert("bytes_push"@.len() != name.len());
    reveal_strlit("bytes_from_str");
    assert("bytes_from_str"@.len() != name.len());
    reveal_strlit("bytes_to_str");
    assert("bytes_to_str"@.len() != name.len());
    reveal_strlit("vec_len");
    assert("vec_len"@[4] != name[4]);
    reveal_strlit("c backend: vec_new expects no arguments");
    let head = "c backend: "@ + name + " expects "@;
    let usage = "c backend: vec_new expects no arguments"@;
    assert(usage.take(head.len() as int) =~= head);
    assert(name[0] != 'p');
    assert("print_"@[0] == 'p');
    if begins(name, "print_"@) {
        assert(name.take(6)[0] == name[0]);
    }
}

proof fn lemma_vec_from_array()
    ensures
        form_of("vec_from_array"@) matches Some(f) ==> form_fits("vec_from_array"@, f),
{
    let name = "vec_from_array"@;
    lemma_sections();
    lookup_finds_each(49);
    assert(all_signatures()[49] == vector_signatures()[1]);
    reveal_strlit("vec_from_array");
    reveal_strlit("aria_");
    reveal_strlit("aria_vec_from_array");
    assert("aria_"@ + name =~= "aria_vec_from_array"@);
    reveal_strlit("c backend: ");
    reveal_strlit(" expects ");
    reveal_strlit("print_");
    reveal_strlit("concat");
    assert("concat"@.len() != name.len());
    reveal_strlit("int_to_str");
    assert("int_to_str"@.len() != name.len());
    reveal_strlit("print_int");
    assert("print_int"@.len() != name.len());
    reveal_strlit("print_bool");
    assert("print_bool"@.len() != name.len());
    reveal_strlit("print_float");
    assert("print_float"@.len() != name.len());
    reveal_strlit("print_str");
    assert("print_str"@.len() != name.len());
    reveal_strlit("bytes_new");
    assert("bytes_new"@.len() != name.len());
    reveal_strlit("bytes_len");
    assert("bytes_len"@.len() != name.len());
    reveal_strlit("bytes_get");
    assert("bytes_get"@.len() != name.len());
    reveal_strlit("bytes_set");
    assert("bytes_set"@.len() != name.len());
    reveal_strlit("bytes_push");
    assert("bytes_push"@.len() != name.len());
    reveal_strlit("bytes_from_str");
    assert("bytes_from_str"@[0] != name[0]);
    reveal_strlit("bytes_to_str");
    assert("bytes_to_str"@.len() != name.len());
    reveal_strlit("vec_new");
    assert("vec_new"@.len() != name.len());
    reveal_strlit("vec_len");
    assert("vec_len"@.len() != name.len());
    reveal_strlit("c backend: vec_from_array expects one Array[Float]");
    let head = "c backend: "@ + name + " expects "@;
    let usage = "c backend: vec_from_array expects one Array[Float]"@;
    assert(usage.take(head.len() as int) =~= head);
    assert(name[0] != 'p');
    assert("print_"@[0] == 'p');
    if begins(name, "print_"@) {
        assert(name.take(6)[0] == name[0]);
    }
}

proof fn lemma_vec_to_array()
    ensures
        form_of("vec_to_array"@) matches Some(f) ==> form_fits("vec_to_array"@, f),
{
    let name = "vec_to_array"@;
    lemma_sections();
    lookup_finds_each(50);
    assert(all_signatures()[50] == vector_signatures()[2]);
    reveal_strlit("vec_to_array");
    reveal_strlit("aria_");
    reveal_strlit("aria_vec_to_array");
    assert("aria_"@ + name =~= "aria_vec_to_array"@);
    reveal_strlit("c backend: ");
    reveal_strlit(" expects ");
    reveal_strlit("print_");
    reveal_strlit("concat");
    assert("concat"@.len() != name.len());
    reveal_strlit("int_to_str");
    assert("int_to_str"@.len() != name.len());
    reveal_strlit("print_int");
    assert("print_int"@.len() != name.len());
    reveal_strlit("print_bool");
    assert("print_bool"@.len() != name.len());
    reveal_strlit("print_float");
    assert("print_float"@.len() != name.len());
    reveal_strlit("print_str");
    assert("print_str"@.len() != name.len());
    reveal_strlit("bytes_new");
    assert("bytes_new"@.len() != name.len());
    reveal_strlit("bytes_len");
    assert("bytes_len"@.len() != name.len());
    reveal_strlit("bytes_get");
    assert("bytes_get"@.len() != name.len());
    reveal_strlit("bytes_set");
    assert("bytes_set"@.len() != name.len());
    reveal_strlit("bytes_push");
    assert("bytes_push"@.len() != name.len());
    reveal_strlit("bytes_from_str");
    assert("bytes_from_str"@.len() != name.len());
    reveal_strlit("bytes_to_str");
    assert("bytes_to_str"@[0] != name[0]);
    reveal_strlit("vec_new");
    assert("vec_new"@.len() != name.len());
    reveal_strlit("vec_from_array");
    assert("vec_from_array"@.len() != name.len());
    reveal_strlit("vec_len");
    assert("vec_len"@.len() != name.len());
    reveal_strlit("vec_push");
    assert("vec_push"@.len() != name.len());
    reveal_strlit("vec_add");
    assert("vec_add"@.len() != name.len());
    reveal_strlit("vec_scale");
    assert("vec_scale"@.len() != name.len());
    reveal_strlit("c backend: vec_to_array expects one Vector");
    let head = "c backend: "@ + name + " expects "@;
    let usage = "c backend: vec_to_array expects one Vector"@;
    assert(usage.take(head.len() as int) =~= head);
    assert(name[0] != 'p');
    assert("print_"@[0] == 'p');
    if begins(name, "print_"@) {
        assert(name.take(6)[0] == name[0]);
    }
}

proof fn lemma_vec_len()
    ensures
        form_of("vec_len"@) matches Some(f) ==> form_fits("vec_len"@, f),
{
    let name = "vec_len"@;
    lemma_sections();
    lookup_finds_each(51);
    assert(all_signatures()[51] == vector_signatures()[3]);
    reveal_strlit("vec_len");
    reveal_strlit("aria_");
    reveal_strlit("aria_vec_len");
    assert("aria_"@ + name =~= "aria_vec_len"@);
    reveal_strlit("c backend: ");
    reveal_strlit(" expects ");
    reveal_strlit("print_");
    reveal_strlit("concat");
    assert("concat"@.len() != name.len());
    reveal_strlit("int_to_str");
    assert("int_to_str"@.len() != name.len());
    reveal_strlit("print_int");
    assert("print_int"@.len() != name.len());
    reveal_strlit("print_bool");
    assert("print_bool"@.len() != name.len());
    reveal_strlit("print_float");
    assert("print_float"@.len() != name.len());
    reveal_strlit("print_str");
    assert("print_str"@.len() != name.len());
    reveal_strlit("bytes_new");
    assert("bytes_new"@.len() != name.len());
    reveal_strlit("bytes_len");
    assert("bytes_len"@.len() != name.len());
    reveal_strlit("bytes_get");
    assert("bytes_get"@.len() != name.len());
    reveal_strlit("bytes_set");
    assert("bytes_set"@.len() != name.len());
    reveal_strlit("bytes_push");
    assert("bytes_push"@.len() != name.len());
    reveal_strlit("bytes_from_str");
    assert("bytes_from_str"@.len() != name.len());
    reveal_strlit("bytes_to_str");
    assert("bytes_to_str"@.len() != name.len());
    reveal_strlit("vec_new");
    assert("vec_new"@[4] != name[4]);
    reveal_strlit("vec_from_array");
    assert("vec_from_array"@.len() != name.len());
    reveal_strlit("vec_to_array");
    assert("vec_to_array"@.len() != name.len());
    reveal_strlit("c backend: vec_len expects one Vector");
    let head = "c backend: "@ + name + " expects "@;
    let usage = "c backend: vec_len expects one Vector"@;
    assert(usage.take(head.len() as int) =~= head);
    assert(name[0] != 'p');
    assert("print_"@[0] == 'p');
    if begins(name, "print_"@) {
        assert(name.take(6)[0] == name[0]);
    }
}

proof fn lemma_vec_get()
    ensures
        form_of("vec_get"@) matches Some(f) ==> form_fits("vec_get"@, f),
{
    let name = "vec_get"@;
    lemma_sections();
    lookup_finds_each(52);
    assert(all_signatures()[52] == vector_signatures()[4]);
    reveal_strlit("vec_get");
    reveal_strlit("aria_");
    reveal_strlit("aria_vec_get");
    assert("aria_"@ + name =~= "aria_vec_get"@);
    reveal_strlit("c backend: ");
    reveal_strlit(" expects ");
    reveal_strlit("print_");
    reveal_strlit("concat");
    assert("concat"@.len() != name.len());
    reveal_strlit("int_to_str");
    assert("int_to_str"@.len() != name.len());
    reveal_strlit("print_int");
    assert("print_int"@.len() != name.len());
    reveal_strlit("print_bool");
    assert("print_bool"@.len() != name.len());
    reveal_strlit("print_float");
    assert("print_float"@.len() != name.len());
    reveal_strlit("print_str");
    assert("print_str"@.len() != name.len());
    reveal_strlit("bytes_new");
    assert("bytes_new"@.len() != name.len());
    reveal_strlit("bytes_len");
    assert("bytes_len"@.len() != name.len());
    reveal_strlit("bytes_get");
    assert("bytes_get"@.len() != name.len());
    reveal_strlit("bytes_set");
    assert("bytes_set"@.len() != name.len());
    reveal_strlit("bytes_push");
    assert("bytes_push"@.len() != name.len());
    reveal_strlit("bytes_from_str");
    assert("bytes_from_str"@.len() != name.len());
    reveal_strlit("bytes_to_str");
    assert("bytes_to_str"@.len() != name.len());
    reveal_strlit("vec_new");
    assert("vec_new"@[4] != name[4]);
    reveal_strlit("vec_from_array");
    assert("vec_from_array"@.len() != name.len());
    reveal_strlit("vec_to_array");
    assert("vec_to_array"@.len() != name.len());
    reveal_strlit("vec_len");
    assert("vec_len"@[4] != name[4]);
    reveal_strlit("vec_push");
    assert("vec_push"@.len() != name.len());
    reveal_strlit("vec_add");
    assert("vec_add"@[4] != name[4]);
    reveal_strlit("vec_scale");
    assert("vec_scale"@.len() != name.len());
    reveal_strlit("c backend: vec_get expects (Vector, Int)");
    let head = "c backend: "@ + name + " expects "@;
    let usage = "c backend: vec_get expects (Vector, Int)"@;
    assert(usage.take(head.len() as int) =~= head);
    assert(name[0] != 'p');
    assert("print_"@[0] == 'p');
    if begins(name, "print_"@) {
        assert(name.take(6)[0] == name[0]);
    }
}

proof fn lemma_vec_push()
    ensures
        form_of("vec_push"@) matches Some(f) ==> form_fits("vec_push"@, f),
{
    let name = "vec_push"@;
    lemma_sections();
    lookup_finds_each(53);
    assert(all_signatures()[53] == vector_signatures()[5]);
    reveal_strlit("vec_push");
    reveal_strlit("aria_");
    reveal_strlit("aria_vec_push");
    assert("aria_"@ + name =~= "aria_vec_push"@);
    reveal_strlit("c backend: ");
    reveal_strlit(" expects ");
    reveal_strlit("print_");
    reveal_strlit("concat");
    assert("concat"@.len() != name.len());
    reveal_strlit("int_to_str");
    assert("int_to_str"@.len() != name.len());
    reveal_strlit("print_int");
    assert("print_int"@.len() != name.len());
    reveal_strlit("print_bool");
    assert("print_bool"@.len() != name.len());
    reveal_strlit("print_float");
    assert("print_float"@.len() != name.len());
    reveal_strlit("print_str");
    assert("print_str"@.len() != name.len());
    reveal_strlit("bytes_new");
    assert("bytes_new"@.len() != name.len());
    reveal_strlit("bytes_len");
    assert("bytes_len"@.len() != name.len());
    reveal_strlit("bytes_get");
    assert("bytes_get"@.len() != name.len());
    reveal_strlit("bytes_set");
    assert("bytes_set"@.len() != name.len());
    reveal_strlit("bytes_push");
    assert("bytes_push"@.len() != name.len());
    reveal_strlit("bytes_from_str");
    assert("bytes_from_str"@.len() != name.len());
    reveal_strlit("bytes_to_str");
    assert("bytes_to_str"@.len() != name.len());
    reveal_strlit("vec_new");
    assert("vec_new"@.len() != name.len());
    reveal_strlit("vec_from_array");
    assert("vec_from_array"@.len() != name.len());
    reveal_strlit("vec_to_array");
    assert("vec_to_array"@.len() != name.len());
    reveal_strlit("vec_len");
    assert("vec_len"@.len() != name.len());
    reveal_strlit("vec_get");
    assert("vec_get"@.len() != name.len());
    reveal_strlit("c backend: vec_push expects (Vector, Float)");
    let head = "c backend: "@ + name + " expects "@;
    let usage = "c backend: vec_push expects (Vector, Float)"@;
    assert(usage.take(head.len() as int) =~= head);
    assert(name[0] != 'p');
    assert("print_"@[0] == 'p');
    if begins(name, "print_"@) {
        assert(name.take(6)[0] == name[0]);
    }
}

proof fn lemma_vec_dot()
    ensures
        form_of("vec_dot"@) matches Some(f) ==> form_fits("vec_dot"@, f),
{
    let name = "vec_dot"@;
    lemma_sections();
    lookup_finds_each(54);
    assert(all_signatures()[54] == vector_signatures()[6]);
    reveal_strlit("vec_dot");
    reveal_strlit("aria_");
    reveal_strlit("aria_vec_dot");
    assert("aria_"@ + name =~= "aria_vec_dot"@);
    reveal_strlit("c backend: ");
    reveal_strlit(" expects ");
    reveal_strlit("print_");
    reveal_strlit("concat");
    assert("concat"@.len() != name.len());
    reveal_strlit("int_to_str");
    assert("int_to_str"@.len() != name.len());
    reveal_strlit("print_int");
    assert("print_int"@.len() != name.len());
    reveal_strlit("print_bool");
    assert("print_bool"@.len() != name.len());
    reveal_strlit("print_float");
    assert("print_float"@.len() != name.len());
    reveal_strlit("print_str");
    assert("print_str"@.len() != name.len());
    reveal_strlit("bytes_new");
    assert("bytes_new"@.len() != name.len());
    reveal_strlit("bytes_len");
    assert("bytes_len"@.len() != name.len());
    reveal_strlit("bytes_get");
    assert("bytes_get"@.len() != name.len());
    reveal_strlit("bytes_set");
    assert("bytes_set"@.len() != name.len());
    reveal_strlit("bytes_push");
    assert("bytes_push"@.len() != name.len());
    reveal_strlit("bytes_from_str");
    assert("bytes_from_str"@.len() != name.len());
    reveal_strlit("bytes_to_str");
    assert("bytes_to_str"@.len() != name.len());
    reveal_strlit("vec_new");
    assert("vec_new"@[4] != name[4]);
    reveal_strlit("vec_from_array");
    assert("vec_from_array"@.len() != name.len());
    reveal_strlit("vec_to_array");
    assert("vec_to_array"@.len() != name.len());
    reveal_strlit("vec_len");
    assert("vec_len"@[4] != name[4]);
    reveal_strlit("vec_get");
    assert("vec_get"@[4] != name[4]);
    reveal_strlit("vec_push");
    assert("vec_push"@.len() != name.len());
    reveal_strlit("vec_add");
    assert("vec_add"@[4] != name[4]);
    reveal_strlit("vec_scale");
    assert("vec_scale"@.len() != name.len());
    reveal_strlit("c backend: vec_dot expects (Vector, Vector)");
    let head = "c backend: "@ + name + " expects "@;
    let usage = "c backend: vec_dot expects (Vector, Vector)"@;
    assert(usage.take(head.len() as int) =~= head);
    assert(name[0] != 'p');
    assert("print_"@[0] == 'p');
    if begins(name, "print_"@) {
        assert(name.take(6)[0] == name[0]);
    }
}

proof fn lemma_vec_norm()
    ensures
        form_of("vec_norm"@) matches Some(f) ==> form_fits("vec_norm"@, f),
{
    let name = "vec_norm"@;
    lemma_sections();
    lookup_finds_each(55);
    assert(all_signatures()[55] == vector_signatures()[7]);
    reveal_strlit("vec_norm");
    reveal_strlit("aria_");
    reveal_strlit("aria_vec_norm");
    assert("aria_"@ + name =~= "aria_vec_norm"@);
    reveal_strlit("c backend: ");
    reveal_strlit(" expects ");
    reveal_strlit("print_");
    reveal_strlit("concat");
    assert("concat"@.len() != name.len());
    reveal_strlit("int_to_str");
    assert("int_to_str"@.len() != name.len());
    reveal_strlit("print_int");
    assert("print_int"@.len() != name.len());
    reveal_strlit("print_bool");
    assert("print_bool"@.len() != name.len());
    reveal_strlit("print_float");
    assert("print_float"@.len() != name.len());
    reveal_strlit("print_str");
    assert("print_str"@.len() != name.len());
    reveal_strlit("bytes_new");
    assert("bytes_new"@.len() != name.len());
    reveal_strlit("bytes_len");
    assert("bytes_len"@.len() != name.len());
    reveal_strlit("bytes_get");
    assert("bytes_get"@.len() != name.len());
    reveal_strlit("bytes_set");
    assert("bytes_set"@.len() != name.len());
    reveal_strlit("bytes_push");
    assert("bytes_push"@.len() != name.len());
    reveal_strlit("bytes_from_str");
    assert("bytes_from_str"@.len() != name.len());
    reveal_strlit("bytes_to_str");
    assert("bytes_to_str"@.len() != name.len());
    reveal_strlit("vec_new");
    assert("vec_new"@.len() != name.len());
    reveal_strlit("vec_from_array");
    assert("vec_from_array"@.len() != name.len());
    reveal_strlit("vec_to_array");
    assert("vec_to_array"@.len() != name.len());
    reveal_strlit("vec_len");
    assert("vec_len"@.len() != name.len());
    reveal_strlit("vec_get");
    assert("vec_get"@.len() != name.len());
    reveal_strlit("vec_push");
    assert("vec_push"@[4] != name[4]);
    reveal_strlit("vec_dot");
    assert("vec_dot"@.len() != name.len());
    reveal_strlit("vec_add");
    assert("vec_add"@.len() != name.len());
    reveal_strlit("vec_scale");
    assert("vec_scale"@.len() != name.len());
    reveal_strlit("c backend: vec_norm expects one Vector");
    let head = "c backend: "@ + name + " expects "@;
    let usage = "c backend: vec_norm expects one Vector"@;
    assert(usage.take(head.len() as int) =~= head);
    assert(name[0] != 'p');
    assert("print_"@[0] == 'p');
    if begins(name, "print_"@) {
        assert(name.take(6)[0] == name[0]);
    }
}

proof fn lemma_vec_cosine()
    ensures
        form_of("vec_cosine"@) matches Some(f) ==> form_fits("vec_cosine"@, f),
{
    let name = "vec_cosine"@;
    lemma_sections();
    lookup_finds_each(56);
    assert(all_signatures()[56] == vector_signatures()[8]);
    reveal_strlit("vec_cosine");
    reveal_strlit("aria_");
    reveal_strlit("aria_vec_cosine");
    assert("aria_"@ + name =~= "aria_vec_cosine"@);
    reveal_strlit("c backend: ");
    reveal_strlit(" expects ");
    reveal_strlit("print_");
    reveal_strlit("concat");
    assert("concat"@.len() != name.len());
    reveal_strlit("int_to_str");
    assert("int_to_str"@[0] != name[0]);
    reveal_strlit("print_int");
    assert("print_int"@.len() != name.len());
    reveal_strlit("print_bool");
    assert("print_bool"@[0] != name[0]);
    reveal_strlit("print_float");
    assert("print_float"@.len() != name.len());
    reveal_strlit("print_str");
    assert("print_str"@.len() != name.len());
    reveal_strlit("bytes_new");
    assert("bytes_new"@.len() != name.len());
    reveal_strlit("bytes_len");
    assert("bytes_len"@.len() != name.len());
    reveal_strlit("bytes_get");
    assert("bytes_get"@.len() != name.len());
    reveal_strlit("bytes_set");
    assert("bytes_set"@.len() != name.len());
    reveal_strlit("bytes_push");
    assert("bytes_push"@[0] != name[0]);
    reveal_strlit("bytes_from_str");
    assert("bytes_from_str"@.len() != name.len());
    reveal_strlit("bytes_to_str");
    assert("bytes_to_str"@.len() != name.len());
    reveal_strlit("vec_new");
    assert("vec_new"@.len() != name.len());
    reveal_strlit("vec_from_array");
    assert("vec_from_array"@.len() != name.len());
    reveal_strlit("vec_to_array");
    assert("vec_to_array"@.len() != name.len());
    reveal_strlit("vec_len");
    assert("vec_len"@.len() != name.len());
    reveal_strlit("vec_get");
    assert("vec_get"@.len() != name.len());
    reveal_strlit("vec_push");
    assert("vec_push"@.len() != name.len());
    reveal_strlit("vec_dot");
    assert("vec_dot"@.len() != name.len());
    reveal_strlit("vec_norm");
    assert("vec_norm"@.len() != name.len());
    reveal_strlit("vec_add");
    assert("vec_add"@.len() != name.len());
    reveal_strlit("vec_scale");
    assert("vec_scale"@.len() != name.len());
    reveal_strlit("c backend: vec_cosine expects (Vector, Vector)");
    let head = "c backend: "@ + name + " expects "@;
    let usage = "c backend: vec_cosine expects (Vector, Vector)"@;
    assert(usage.take(head.len() as int) =~= head);
    assert(name[0] != 'p');
    assert("print_"@[0] == 'p');
    if begins(name, "print_"@) {
        assert(name.take(6)[0] == name[0]);
    }
}

proof fn lemma_vec_add()
    ensures
        form_of("vec_add"@) matches Some(f) ==> form_fits("vec_add"@, f),
{
    let name = "vec_add"@;
    lemma_sections();
    lookup_finds_each(57);
    assert(all_signatures()[57] == vector_signatures()[9]);
    reveal_strlit("vec_add");
    reveal_strlit("aria_");
    reveal_strlit("aria_vec_add");
    assert("aria_"@ + name =~= "aria_vec_add"@);
    reveal_strlit("c backend: ");
    reveal_strlit(" expects ");
    reveal_strlit("print_");
    reveal_strlit("concat");
    assert("concat"@.len() != name.len());
    reveal_strlit("int_to_str");
    assert("int_to_str"@.len() != name.len());
    reveal_strlit("print_int");
    assert("print_int"@.len() != name.len());
    reveal_strlit("print_bool");
    assert("print_bool"@.len() != name.len());
    reveal_strlit("print_float");
    assert("print_float"@.len() != name.len());
    reveal_strlit("print_str");
    assert("print_str"@.len() != name.len());
    reveal_strlit("bytes_new");
    assert("bytes_new"@.len() != name.len());
    reveal_strlit("bytes_len");
    assert("bytes_len"@.len() != name.len());
    reveal_strlit("bytes_get");
    assert("bytes_get"@.len() != name.len());
    reveal_strlit("bytes_set");
    assert("bytes_set"@.len() != name.len());
    reveal_strlit("bytes_push");
    assert("bytes_push"@.len() != name.len());
    reveal_strlit("bytes_from_str");
    assert("bytes_from_str"@.len() != name.len());
    reveal_strlit("bytes_to_str");
    assert("bytes_to_str"@.len() != name.len());
    reveal_strlit("vec_new");
    assert("vec_new"@[4] != name[4]);
    reveal_strlit("vec_from_array");
    assert("vec_from_array"@.len() != name.len());
    reveal_strlit("vec_to_array");
    assert("vec_to_array"@.len() != name.len());
    reveal_strlit("vec_len");
    assert("vec_len"@[4] != name[4]);
    reveal_strlit("vec_get");
    assert("vec_get"@[4] != name[4]);
    reveal_strlit("vec_push");
    assert("vec_push"@.len() != name.len());
    reveal_strlit("vec_dot");
    assert("vec_dot"@[4] != name[4]);
    reveal_strlit("vec_norm");
    assert("vec_norm"@.len() != name.len());
    reveal_strlit("vec_cosine");
    assert("vec_cosine"@.len() != name.len());
    reveal_strlit("c backend: vec_add expects (Vector, Vector)");
    let head = "c backend: "@ + name + " expects "@;
    let usage = "c backend: vec_add expects (Vector, Vector)"@;
    assert(usage.take(head.len() as int) =~= head);
    assert(name[0] != 'p');
    assert("print_"@[0] == 'p');
    if begins(name, "print_"@) {
        assert(name.take(6)[0] == name[0]);
    }
}

proof fn lemma_vec_scale()
    ensures
        form_of("vec_scale"@) matches Some(f) ==> form_fits("vec_scale"@, f),
{
    let name = "vec_scale"@;
    lemma_sections();
    lookup_finds_each(59);
    assert(all_signatures()[59] == vector_signatures()[11]);
    reveal_strlit("vec_scale");
    reveal_strlit("aria_");
    reveal_strlit("aria_vec_scale");
    assert("aria_"@ + name =~= "aria_vec_scale"@);
    reveal_strlit("c backend: ");
    reveal_strlit(" expects ");
    reveal_strlit("print_");
    reveal_strlit("concat");
    assert("concat"@.len() != name.len());
    reveal_strlit("int_to_str");
    assert("int_to_str"@.len() != name.len());
    reveal_strlit("print_int");
    assert("print_int"@[0] != name[0]);
    reveal_strlit("print_bool");
    assert("print_bool"@.len() != name.len());
    reveal_strlit("print_float");
    assert("print_float"@.len() != name.len());
    reveal_strlit("print_str");
    assert("print_str"@[0] != name[0]);
    reveal_strlit("bytes_new");
    assert("bytes_new"@[0] != name[0]);
    reveal_strlit("bytes_len");
    assert("bytes_len"@[0] != name[0]);
    reveal_strlit("bytes_get");
    assert("bytes_get"@[0] != name[0]);
    reveal_strlit("bytes_set");
    assert("bytes_set"@[0] != name[0]);
    reveal_strlit("bytes_push");
    assert("bytes_push"@.len() != name.len());
    reveal_strlit("bytes_from_str");
    assert("bytes_from_str"@.len() != name.len());
    reveal_strlit("bytes_to_str");
    assert("bytes_to_str"@.len() != name.len());
    reveal_strlit("vec_new");
    assert("vec_new"@.len() != name.len());
    reveal_strlit("vec_from_array");
    assert("vec_from_array"@.len() != name.len());
    reveal_strlit("vec_to_array");
    assert("vec_to_array"@.len() != name.len());
    reveal_strlit("vec_len");
    assert("vec_len"@.len() != name.len());
    reveal_strlit("vec_get");
    assert("vec_get"@.len() != name.len());
    reveal_strlit("vec_push");
    assert("vec_push"@.len() != name.len());
    reveal_strlit("vec_dot");
    assert("vec_dot"@.len() != name.len());
    reveal_strlit("vec_norm");
    assert("vec_norm"@.len() != name.len());
    reveal_strlit("vec_cosine");
    assert("vec_cosine"@.len() != name.len());
    reveal_strlit("vec_add");
    assert("vec_add"@.len() != name.len());
    reveal_strlit("c backend: vec_scale expects (Vector, Float)");
    let head = "c backend: "@ + name + " expects "@;
    let usage = "c backend: vec_scale expects (Vector, Float)"@;
    assert(usage.take(head.len() as int) =~= head);
    assert(name[0] != 'p');
    assert("print_"@[0] == 'p');
    if begins(name, "print_"@) {
        assert(name.take(6)[0] == name[0]);
    }
}

/// Every form is that of its builtin.
pub proof fn forms_fit_the_signatures(name: Seq<char>)
    ensures
        form_of(name) matches Some(f) ==> form_fits(name, f),
{
    if name == "concat"@ {
        lemma_concat();
    } else if name == "int_to_str"@ {
        lemma_int_to_str();
    } else if name == "print_int"@ {
        lemma_print_int();
    } else if name == "print_bool"@ {
        lemma_print_bool();
    } else if name == "print_float"@ {
        lemma_print_float();
    } else if name == "print_str"@ {
        lemma_print_str();
    } else if name == "bytes_new"@ {
        lemma_bytes_new();
    } else if name == "bytes_len"@ {
        lemma_bytes_len();
    } else if name == "bytes_get"@ {
        lemma_bytes_get();
    } else if name == "bytes_set"@ {
        lemma_bytes_set();
    } else if name == "bytes_push"@ {
        lemma_bytes_push();
    } else if name == "bytes_from_str"@ {
        lemma_bytes_from_str();
    } else if name == "bytes_to_str"@ {
        lemma_bytes_to_str();
    } else if name == "vec_new"@ {
        lemma_vec_new();
    } else if name == "vec_from_array"@ {
        lemma_vec_from_array();
    } else if name == "vec_to_array"@ {
        lemma_vec_to_array();
    } else if name == "vec_len"@ {
        lemma_vec_len();
    } else if name == "vec_get"@ {
        lemma_vec_get();
    } else if name == "vec_push"@ {
        lemma_vec_push();
    } else if name == "vec_dot"@ {
        lemma_vec_dot();
    } else if name == "vec_norm"@ {
        lemma_vec_norm();
    } else if name == "vec_cosine"@ {
        lemma_vec_cosine();
    } else if name == "vec_add"@ {
        lemma_vec_add();
    } else if name == "vec_scale"@ {
        lemma_vec_scale();
    }
}

/// Whether an operation on maps or sets is that of a builtin: it calls the function of
/// the runtime that is named after it, and takes as many arguments as its signature.
pub open spec fn map_set_fits(base: Seq<char>) -> bool {
    map_set_op(base) matches Some(op) ==> {
        &&& map_set_fn(op) == "aria_"@ + base
        &&& begins(map_set_usage(op).1, "c backend: "@ + base + " expects "@)
        &&& find_sig(all_signatures(), base) matches Some(s) && s.params.len() == map_set_usage(
            op,
        ).0
    }
}

proof fn lemma_map_new()
    ensures
        map_set_fits("map_new"@),
{
    let name = "map_new"@;
    lemma_sections();
    lookup_finds_each(32);
    assert(all_signatures()[32] == map_signatures()[0]);
    reveal_strlit("map_new");
    reveal_strlit("aria_");
    reveal_strlit("aria_map_new");
    assert("aria_"@ + name =~= "aria_map_new"@);
    reveal_strlit("c backend: ");
    reveal_strlit(" expects ");
    reveal_strlit("c backend: map_new expects no arguments");
    let head = "c backend: "@ + name + " expects "@;
    let usage = "c backend: map_new expects no arguments"@;
    assert(usage.take(head.len() as int) =~= head);
}

proof fn lemma_map_insert()
    ensures
        map_set_fits("map_insert"@),
{
    let name = "map_insert"@;
    lemma_sections();
    lookup_finds_each(33);
    assert(all_signatures()[33] == map_signatures()[1]);
    reveal_strlit("map_insert");
    reveal_strlit("aria_");
    reveal_strlit("aria_map_insert");
    assert("aria_"@ + name =~= "aria_map_insert"@);
    reveal_strlit("c backend: ");
    reveal_strlit(" expects ");
    reveal_strlit("map_new");
    assert("map_new"@.len() != name.len());
    reveal_strlit("c backend: map_insert expects (map, key, value)");
    let head = "c backend: "@ + name + " expects "@;
    let usage = "c backend: map_insert expects (map, key, value)"@;
    assert(usage.take(head.len() as int) =~= head);
}

proof fn lemma_map_get_or()
    ensures
        map_set_fits("map_get_or"@),
{
    let name = "map_get_or"@;
    lemma_sections();
    lookup_finds_each(34);
    assert(all_signatures()[34] == map_signatures()[2]);
    reveal_strlit("map_get_or");
    reveal_strlit("aria_");
    reveal_strlit("aria_map_get_or");
    assert("aria_"@ + name =~= "aria_map_get_or"@);
    reveal_strlit("c backend: ");
    reveal_strlit(" expects ");
    reveal_strlit("map_new");
    assert("map_new"@.len() != name.len());
    reveal_strlit("map_insert");
    assert("map_insert"@[4] != name[4]);
    reveal_strlit("c backend: map_get_or expects (map, key, default)");
    let head = "c backend: "@ + name + " expects "@;
    let usage = "c backend: map_get_or expects (map, key, default)"@;
    assert(usage.take(head.len() as int) =~= head);
}

proof fn lemma_map_has()
    ensures
        map_set_fits("map_has"@),
{
    let name = "map_has"@;
    lemma_sections();
    lookup_finds_each(35);
    assert(all_signatures()[35] == map_signatures()[3]);
    reveal_strlit("map_has");
    reveal_strlit("aria_");
    reveal_strlit("aria_map_has");
    assert("aria_"@ + name =~= "aria_map_has"@);
    reveal_strlit("c backend: ");
    reveal_strlit(" expects ");
    reveal_strlit("map_new");
    assert("map_new"@[4] != name[4]);
    reveal_strlit("map_insert");
    assert("map_insert"@.len() != name.len());
    reveal_strlit("map_get_or");
    assert("map_get_or"@.len() != name.len());
    reveal_strlit("c backend: map_has expects (map, key)");
    let head = "c backend: "@ + name + " expects "@;
    let usage = "c backend: map_has expects (map, key)"@;
    assert(usage.take(head.len() as int) =~= head);
}

proof fn lemma_map_len()
    ensures
        map_set_fits("map_len"@),
{
    let name = "map_len"@;
    lemma_sections();
    lookup_finds_each(36);
    assert(all_signatures()[36] == map_signatures()[4]);
    reveal_strlit("map_len");
    reveal_strlit("aria_");
    reveal_strlit("aria_map_len");
    assert("aria_"@ + name =~= "aria_map_len"@);
    reveal_strlit("c backend: ");
    reveal_strlit(" expects ");
    reveal_strlit("map_new");
    assert("map_new"@[4] != name[4]);
    reveal_strlit("map_insert");
    assert("map_insert"@.len() != name.len());
    reveal_strlit("map_get_or");
    assert("map_get_or"@.len() != name.len());
    reveal_strlit("map_has");
    assert("map_has"@[4] != name[4]);
    reveal_strlit("c backend: map_len expects (map)");
    let head = "c backend: "@ + name + " expects "@;
    let usage = "c backend: map_len expects (map)"@;
    assert(usage.take(head.len() as int) =~= head);
}

proof fn lemma_map_remove()
    ensures
        map_set_fits("map_remove"@),
{
    let name = "map_remove"@;
    lemma_sections();
    lookup_finds_each(37);
    assert(all_signatures()[37] == map_signatures()[5]);
    reveal_strlit("map_remove");
    reveal_strlit("aria_");
    reveal_strlit("aria_map_remove");
    assert("aria_"@ + name =~= "aria_map_remove"@);
    reveal_strlit("c backend: ");
    reveal_strlit(" expects ");
    reveal_strlit("map_new");
    assert("map_new"@.len() != name.len());
    reveal_strlit("map_insert");
    assert("map_insert"@[4] != name[4]);
    reveal_strlit("map_get_or");
    assert("map_get_or"@[4] != name[4]);
    reveal_strlit("map_has");
    assert("map_has"@.len() != name.len());
    reveal_strlit("map_len");
    assert("map_len"@.len() != name.len());
    reveal_strlit("c backend: map_remove expects (map, key)");
    let head = "c backend: "@ + name + " expects "@;
    let usage = "c backend: map_remove expects (map, key)"@;
    assert(usage.take(head.len() as int) =~= head);
}

proof fn lemma_map_show()
    ensures
        map_set_fits("map_show"@),
{
    let name = "map_show"@;
    lemma_sections();
    lookup_finds_each(38);
    assert(all_signatures()[38] == map_signatures()[6]);
    reveal_strlit("map_show");
    reveal_strlit("aria_");
    reveal_strlit("aria_map_show");
    assert("aria_"@ + name =~= "aria_map_show"@);
    reveal_strlit("c backend: ");
    reveal_strlit(" expects ");
    reveal_strlit("map_new");
    assert("map_new"@.len() != name.len());
    reveal_strlit("map_insert");
    assert("map_insert"@.len() != name.len());
    reveal_strlit("map_get_or");
    assert("map_get_or"@.len() != name.len());
    reveal_strlit("map_has");
    assert("map_has"@.len() != name.len());
    reveal_strlit("map_len");
    assert("map_len"@.len() != name.len());
    reveal_strlit("map_remove");
    assert("map_remove"@.len() != name.len());
    reveal_strlit("c backend: map_show expects (map)");
    let head = "c backend: "@ + name + " expects "@;
    let usage = "c backend: map_show expects (map)"@;
    assert(usage.take(head.len() as int) =~= head);
}

proof fn lemma_map_keys()
    ensures
        map_set_fits("map_keys"@),
{
    let name = "map_keys"@;
    lemma_sections();
    lookup_finds_each(39);
    assert(all_signatures()[39] == map_signatures()[7]);
    reveal_strlit("map_keys");
    reveal_strlit("aria_");
    reveal_strlit("aria_map_keys");
    assert("aria_"@ + name =~= "aria_map_keys"@);
    reveal_strlit("c backend: ");
    reveal_strlit(" expects ");
    reveal_strlit("map_new");
    assert("map_new"@.len() != name.len());
    reveal_strlit("map_insert");
    assert("map_insert"@.len() != name.len());
    reveal_strlit("map_get_or");
    assert("map_get_or"@.len() != name.len());
    reveal_strlit("map_has");
    assert("map_has"@.len() != name.len());
    reveal_strlit("map_len");
    assert("map_len"@.len() != name.len());
    reveal_strlit("map_remove");
    assert("map_remove"@.len() != name.len());
    reveal_strlit("map_show");
    assert("map_show"@[4] != name[4]);
    reveal_strlit("c backend: map_keys expects (map)");
    let head = "c backend: "@ + name + " expects "@;
    let usage = "c backend: map_keys expects (map)"@;
    assert(usage.take(head.len() as int) =~= head);
}

proof fn lemma_map_values()
    ensures
        map_set_fits("map_values"@),
{
    let name = "map_values"@;
    lemma_sections();
    lookup_finds_each(40);
    assert(all_signatures()[40] == map_signatures()[8]);
    reveal_strlit("map_values");
    reveal_strlit("aria_");
    reveal_strlit("aria_map_values");
    assert("aria_"@ + name =~= "aria_map_values"@);
    reveal_strlit("c backend: ");
    reveal_strlit(" expects ");
    reveal_strlit("map_new");
    assert("map_new"@.len() != name.len());
    reveal_strlit("map_insert");
    assert("map_insert"@[4] != name[4]);
    reveal_strlit("map_get_or");
    assert("map_get_or"@[4] != name[4]);
    reveal_strlit("map_has");
    assert("map_has"@.len() != name.len());
    reveal_strlit("map_len");
    assert("map_len"@.len() != name.len());
    reveal_strlit("map_remove");
    assert("map_remove"@[4] != name[4]);
    reveal_strlit("map_show");
    assert("map_show"@.len() != name.len());
    reveal_strlit("map_keys");
    assert("map_keys"@.len() != name.len());
    reveal_strlit("c backend: map_values expects (map)");
    let head = "c backend: "@ + name + " expects "@;
    let usage = "c backend: map_values expects (map)"@;
    assert(usage.take(head.len() as int) =~= head);
}

proof fn lemma_set_new()
    ensures
        map_set_fits("set_new"@),
{
    let name = "set_new"@;
    lemma_sections();
    lookup_finds_each(41);
    assert(all_signatures()[41] == set_signatures()[0]);
    reveal_strlit("set_new");
    reveal_strlit("aria_");
    reveal_strlit("aria_set_new");
    assert("aria_"@ + name =~= "aria_set_new"@);
    reveal_strlit("c backend: ");
    reveal_strlit(" expects ");
    reveal_strlit("map_new");
    assert("map_new"@[0] != name[0]);
    reveal_strlit("map_insert");
    assert("map_insert"@.len() != name.len());
    reveal_strlit("map_get_or");
    assert("map_get_or"@.len() != name.len());
    reveal_strlit("map_has");
    assert("map_has"@[0] != name[0]);
    reveal_strlit("map_len");
    assert("map_len"@[0] != name[0]);
    reveal_strlit("map_remove");
    assert("map_remove"@.len() != name.len());
    reveal_strlit("map_show");
    assert("map_show"@.len() != name.len());
    reveal_strlit("map_keys");
    assert("map_keys"@.len() != name.len());
    reveal_strlit("map_values");
    assert("map_values"@.len() != name.len());
    reveal_strlit("c backend: set_new expects no arguments");
    let head = "c backend: "@ + name + " expects "@;
    let usage = "c backend: set_new expects no arguments"@;
    assert(usage.take(head.len() as int) =~= head);
}

proof fn lemma_set_add()
    ensures
        map_set_fits("set_add"@),
{
    let name = "set_add"@;
    lemma_sections();
    lookup_finds_each(42);
    assert(all_signatures()[42] == set_signatures()[1]);
    reveal_strlit("set_add");
    reveal_strlit("aria_");
    reveal_strlit("aria_set_add");
    assert("aria_"@ + name =~= "aria_set_add"@);
    reveal_strlit("c backend: ");
    reveal_strlit(" expects ");
    reveal_strlit("map_new");
    assert("map_new"@[0] != name[0]);
    reveal_strlit("map_insert");
    assert("map_insert"@.len() != name.len());
    reveal_strlit("map_get_or");
    assert("map_get_or"@.len() != name.len());
    reveal_strlit("map_has");
    assert("map_has"@[0] != name[0]);
    reveal_strlit("map_len");
    assert("map_len"@[0] != name[0]);
    reveal_strlit("map_remove");
    assert("map_remove"@.len() != name.len());
    reveal_strlit("map_show");
    assert("map_show"@.len() != name.len());
    reveal_strlit("map_keys");
    assert("map_keys"@.len() != name.len());
    reveal_strlit("map_values");
    assert("map_values"@.len() != name.len());
    reveal_strlit("set_new");
    assert("set_new"@[4] != name[4]);
    reveal_strlit("c backend: set_add expects (set, elem)");
    let head = "c backend: "@ + name + " expects "@;
    let usage = "c backend: set_add expects (set, elem)"@;
    assert(usage.take(head.len() as int) =~= head);
}

proof fn lemma_set_has()
    ensures
        map_set_fits("set_has"@),
{
    let name = "set_has"@;
    lemma_sections();
    lookup_finds_each(43);
    assert(all_signatures()[43] == set_signatures()[2]);
    reveal_strlit("set_has");
    reveal_strlit("aria_");
    reveal_strlit("aria_set_has");
    assert("aria_"@ + name =~= "aria_set_has"@);
    reveal_strlit("c backend: ");
    reveal_strlit(" expects ");
    reveal_strlit("map_new");
    assert("map_new"@[0] != name[0]);
    reveal_strlit("map_insert");
    assert("map_insert"@.len() != name.len());
    reveal_strlit("map_get_or");
    assert("map_get_or"@.len() != name.len());
    reveal_strlit("map_has");
    assert("map_has"@[0] != name[0]);
    reveal_strlit("map_len");
    assert("map_len"@[0] != name[0]);
    reveal_strlit("map_remove");
    assert("map_remove"@.len() != name.len());
    reveal_strlit("map_show");
    assert("map_show"@.len() != name.len());
    reveal_strlit("map_keys");
    assert("map_keys"@.len() != name.len());
    reveal_strlit("map_values");
    assert("map_values"@.len() != name.len());
    reveal_strlit("set_new");
    assert("set_new"@[4] != name[4]);
    reveal_strlit("set_add");
    assert("set_add"@[4] != name[4]);
    reveal_strlit("c backend: set_has expects (set, elem)");
    let head = "c backend: "@ + name + " expects "@;
    let usage = "c backend: set_has expects (set, elem)"@;
    assert(usage.take(head.len() as int) =~= head);
}

proof fn lemma_set_len()
    ensures
        map_set_fits("set_len"@),
{
    let name = "set_len"@;
    lemma_sections();
    lookup_finds_each(44);
    assert(all_signatures()[44] == set_signatures()[3]);
    reveal_strlit("set_len");
    reveal_strlit("aria_");
    reveal_strlit("aria_set_len");
    assert("aria_"@ + name =~= "aria_set_len"@);
    reveal_strlit("c backend: ");
    reveal_strlit(" expects ");
    reveal_strlit("map_new");
    assert("map_new"@[0] != name[0]);
    reveal_strlit("map_insert");
    assert("map_insert"@.len() != name.len());
    reveal_strlit("map_get_or");
    assert("map_get_or"@.len() != name.len());
    reveal_strlit("map_has");
    assert("map_has"@[0] != name[0]);
    reveal_strlit("map_len");
    assert("map_len"@[0] != name[0]);
    reveal_strlit("map_remove");
    assert("map_remove"@.len() != name.len());
    reveal_strlit("map_show");
    assert("map_show"@.len() != name.len());
    reveal_strlit("map_keys");
    assert("map_keys"@.len() != name.len());
    reveal_strlit("map_values");
    assert("map_values"@.len() != name.len());
    reveal_strlit("set_new");
    assert("set_new"@[4] != name[4]);
    reveal_strlit("set_add");
    assert("set_add"@[4] != name[4]);
    reveal_strlit("set_has");
    assert("set_has"@[4] != name[4]);
    reveal_strlit("c backend: set_len expects (set)");
    let head = "c backend: "@ + name + " expects "@;
    let usage = "c backend: set_len expects (set)"@;
    assert(usage.take(head.len() as int) =~= head);
}

proof fn lemma_set_remove()
    ensures
        map_set_fits("set_remove"@),
{
    let name = "set_remove"@;
    lemma_sections();
    lookup_finds_each(45);
    assert(all_signatures()[45] == set_signatures()[4]);
    reveal_strlit("set_remove");
    reveal_strlit("aria_");
    reveal_strlit("aria_set_remove");
    assert("aria_"@ + name =~= "aria_set_remove"@);
    reveal_strlit("c backend: ");
    reveal_strlit(" expects ");
    reveal_strlit("map_new");
    assert("map_new"@.len() != name.len());
    reveal_strlit("map_insert");
    assert("map_insert"@[0] != name[0]);
    reveal_strlit("map_get_or");
    assert("map_get_or"@[0] != name[0]);
    reveal_strlit("map_has");
    assert("map_has"@.len() != name.len());
    reveal_strlit("map_len");
    assert("map_len"@.len() != name.len());
    reveal_strlit("map_remove");
    assert("map_remove"@[0] != name[0]);
    reveal_strlit("map_show");
    assert("map_show"@.len() != name.len());
    reveal_strlit("map_keys");
    assert("map_keys"@.len() != name.len());
    reveal_strlit("map_values");
    assert("map_values"@[0] != name[0]);
    reveal_strlit("set_new");
    assert("set_new"@.len() != name.len());
    reveal_strlit("set_add");
    assert("set_add"@.len() != name.len());
    reveal_strlit("set_has");
    assert("set_has"@.len() != name.len());
    reveal_strlit("set_len");
    assert("set_len"@.len() != name.len());
    reveal_strlit("c backend: set_remove expects (set, elem)");
    let head = "c backend: "@ + name + " expects "@;
    let usage = "c backend: set_remove expects (set, elem)"@;
    assert(usage.take(head.len() as int) =~= head);
}

proof fn lemma_set_show()
    ensures
        map_set_fits("set_show"@),
{
    let name = "set_show"@;
    lemma_sections();
    lookup_finds_each(46);
    assert(all_signatures()[46] == set_signatures()[5]);
    reveal_strlit("set_show");
    reveal_strlit("aria_");
    reveal_strlit("aria_set_show");
    assert("aria_"@ + name =~= "aria_set_show"@);
    reveal_strlit("c backend: ");
    reveal_strlit(" expects ");
    reveal_strlit("map_new");
    assert("map_new"@.len() != name.len());
    reveal_strlit("map_insert");
    assert("map_insert"@.len() != name.len());
    reveal_strlit("map_get_or");
    assert("map_get_or"@.len() != name.len());
    reveal_strlit("map_has");
    assert("map_has"@.len() != name.len());
    reveal_strlit("map_len");
    assert("map_len"@.len() != name.len());
    reveal_strlit("map_remove");
    assert("map_remove"@.len() != name.len());
    reveal_strlit("map_show");
    assert("map_show"@[0] != name[0]);
    reveal_strlit("map_keys");
    assert("map_keys"@[0] != name[0]);
    reveal_strlit("map_values");
    assert("map_values"@.len() != name.len());
    reveal_strlit("set_new");
    assert("set_new"@.len() != name.len());
    reveal_strlit("set_add");
    assert("set_add"@.len() != name.len());
    reveal_strlit("set_has");
    assert("set_has"@.len() != name.len());
    reveal_strlit("set_len");
    assert("set_len"@.len() != name.len());
    reveal_strlit("set_remove");
    assert("set_remove"@.len() != name.len());
    reveal_strlit("c backend: set_show expects (set)");
    let head = "c backend: "@ + name + " expects "@;
    let usage = "c backend: set_show expects (set)"@;
    assert(usage.take(head.len() as int) =~= head);
}

proof fn lemma_set_to_array()
    ensures
        map_set_fits("set_to_array"@),
{
    let name = "set_to_array"@;
    lemma_sections();
    lookup_finds_each(47);
    assert(all_signatures()[47] == set_signatures()[6]);
    reveal_strlit("set_to_array");
    reveal_strlit("aria_");
    reveal_strlit("aria_set_to_array");
    assert("aria_"@ + name =~= "aria_set_to_array"@);
    reveal_strlit("c backend: ");
    reveal_strlit(" expects ");
    reveal_strlit("map_new");
    assert("map_new"@.len() != name.len());
    reveal_strlit("map_insert");
    assert("map_insert"@.len() != name.len());
    reveal_strlit("map_get_or");
    assert("map_get_or"@.len() != name.len());
    reveal_strlit("map_has");
    assert("map_has"@.len() != name.len());
    reveal_strlit("map_len");
    assert("map_len"@.len() != name.len());
    reveal_strlit("map_remove");
    assert("map_remove"@.len() != name.len());
    reveal_strlit("map_show");
    assert("map_show"@.len() != name.len());
    reveal_strlit("map_keys");
    assert("map_keys"@.len() != name.len());
    reveal_strlit("map_values");
    assert("map_values"@.len() != name.len());
    reveal_strlit("set_new");
    assert("set_new"@.len() != name.len());
    reveal_strlit("set_add");
    assert("set_add"@.len() != name.len());
    reveal_strlit("set_has");
    assert("set_has"@.len() != name.len());
    reveal_strlit("set_len");
    assert("set_len"@.len() != name.len());
    reveal_strlit("set_remove");
    assert("set_remove"@.len() != name.len());
    reveal_strlit("set_show");
    assert("set_show"@.len() != name.len());
    reveal_strlit("c backend: set_to_array expects (set)");
    let head = "c backend: "@ + name + " expects "@;
    let usage = "c backend: set_to_array expects (set)"@;
    assert(usage.take(head.len() as int) =~= head);
}

/// Every operation on maps and sets is that of its builtin.
pub proof fn map_and_set_calls_fit_the_signatures(base: Seq<char>)
    ensures
        map_set_fits(base),
{
    if base == "map_new"@ {
        lemma_map_new();
    } else if base == "map_insert"@ {
        lemma_map_insert();
    } else if base == "map_get_or"@ {
        lemma_map_get_or();
    } else if base == "map_has"@ {
        lemma_map_has();
    } else if base == "map_len"@ {
        lemma_map_len();
    } else if base == "map_remove"@ {
        lemma_map_remove();
    } else if base == "map_show"@ {
        lemma_map_show();
    } else if base == "map_keys"@ {
        lemma_map_keys();
    } else if base == "map_values"@ {
        lemma_map_values();
    } else if base == "set_new"@ {
        lemma_set_new();
    } else if base == "set_add"@ {
        lemma_set_add();
    } else if base == "set_has"@ {
        lemma_set_has();
    } else if base == "set_len"@ {
        lemma_set_len();
    } else if base == "set_remove"@ {
        lemma_set_remove();
    } else if base == "set_show"@ {
        lemma_set_show();
    } else if base == "set_to_array"@ {
        lemma_set_to_array();
    }
}

} // verus!
