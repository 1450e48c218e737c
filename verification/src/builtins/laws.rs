//! What holds of the table of built-in functions.

use vstd::prelude::*;
use vstd::string::*;

use crate::builtins::{
    all_signatures, array_signatures, builtin_names, bytes_signatures, core_signatures, find_sig,
    map_signatures, set_signatures, tensor_signatures, vector_signatures, SigModel, BUILTIN_TYPES,
};
use crate::types::TyV;

verus! {

// ---------------------------------------------------------------------------
// Names
// ---------------------------------------------------------------------------

/// The part of the table that a name belongs to, by its first characters.
spec fn family(s: Seq<char>) -> int {
    if s[0] == 'a' {
        2
    } else if s[0] == 'b' {
        3
    } else if s[0] == 'm' && s[2] == 'p' {
        4
    } else if s[0] == 's' && s[1] == 'e' {
        5
    } else if s[0] == 'v' || s[0] == 'g' {
        6
    } else if s[0] == 'p' || s[0] == 'i' || (s[0] == 'c' && s[2] == 'n') {
        0
    } else {
        1
    }
}

/// What tells the names of a part apart: the length and two of the last characters.
spec fn mark(s: Seq<char>) -> (nat, char, char) {
    (s.len(), s[s.len() - 3], s[s.len() - 2])
}

/// Whether the names of a part are distinct, and of the part's family.
spec fn is_part(t: Seq<SigModel>, k: int) -> bool {
    &&& forall|i: int| 0 <= i < t.len() ==> family((#[trigger] t[i]).name) == k
    &&& forall|i: int, j: int|
        0 <= i < j < t.len() ==> (#[trigger] t[i]).name != (#[trigger] t[j]).name
}

proof fn lemma_core()
    ensures
        is_part(core_signatures(), 0),
        core_signatures().len() == 6,
{
    reveal_strlit("print_int");
    reveal_strlit("print_float");
    reveal_strlit("print_bool");
    reveal_strlit("print_str");
    reveal_strlit("concat");
    reveal_strlit("int_to_str");
    let t = core_signatures();
    assert(mark(t[0].name) == (9nat, 'i', 'n') && family(t[0].name) == 0);
    assert(mark(t[1].name) == (11nat, 'o', 'a') && family(t[1].name) == 0);
    assert(mark(t[2].name) == (10nat, 'o', 'o') && family(t[2].name) == 0);
    assert(mark(t[3].name) == (9nat, 's', 't') && family(t[3].name) == 0);
    assert(mark(t[4].name) == (6nat, 'c', 'a') && family(t[4].name) == 0);
    assert(mark(t[5].name) == (10nat, 's', 't') && family(t[5].name) == 0);
}

proof fn lemma_tensor()
    ensures
        is_part(tensor_signatures(), 1),
        tensor_signatures().len() == 14,
{
    reveal_strlit("tensor_zeros");
    reveal_strlit("tensor_set");
    reveal_strlit("tensor_get");
    reveal_strlit("tensor_rows");
    reveal_strlit("tensor_cols");
    reveal_strlit("tensor_row");
    reveal_strlit("tensor_from_rows");
    reveal_strlit("matmul");
    reveal_strlit("transpose");
    reveal_strlit("softmax");
    reveal_strlit("relu");
    reveal_strlit("embed_similarity");
    reveal_strlit("compressed_size");
    reveal_strlit("neural_bits_per_byte");
    let t = tensor_signatures();
    assert(mark(t[0].name) == (12nat, 'r', 'o') && family(t[0].name) == 1);
    assert(mark(t[1].name) == (10nat, 's', 'e') && family(t[1].name) == 1);
    assert(mark(t[2].name) == (10nat, 'g', 'e') && family(t[2].name) == 1);
    assert(mark(t[3].name) == (11nat, 'o', 'w') && family(t[3].name) == 1);
    assert(mark(t[4].name) == (11nat, 'o', 'l') && family(t[4].name) == 1);
    assert(mark(t[5].name) == (10nat, 'r', 'o') && family(t[5].name) == 1);
    assert(mark(t[6].name) == (16nat, 'o', 'w') && family(t[6].name) == 1);
    assert(mark(t[7].name) == (6nat, 'm', 'u') && family(t[7].name) == 1);
    assert(mark(t[8].name) == (9nat, 'o', 's') && family(t[8].name) == 1);
    assert(mark(t[9].name) == (7nat, 'm', 'a') && family(t[9].name) == 1);
    assert(mark(t[10].name) == (4nat, 'e', 'l') && family(t[10].name) == 1);
    assert(mark(t[11].name) == (16nat, 'i', 't') && family(t[11].name) == 1);
    assert(mark(t[12].name) == (15nat, 'i', 'z') && family(t[12].name) == 1);
    assert(mark(t[13].name) == (20nat, 'y', 't') && family(t[13].name) == 1);
}

proof fn lemma_array()
    ensures
        is_part(array_signatures(), 2),
        array_signatures().len() == 5,
{
    reveal_strlit("array_new");
    reveal_strlit("array_len");
    reveal_strlit("array_get");
    reveal_strlit("array_set");
    reveal_strlit("array_push");
    let t = array_signatures();
    assert(mark(t[0].name) == (9nat, 'n', 'e') && family(t[0].name) == 2);
    assert(mark(t[1].name) == (9nat, 'l', 'e') && family(t[1].name) == 2);
    assert(mark(t[2].name) == (9nat, 'g', 'e') && family(t[2].name) == 2);
    assert(mark(t[3].name) == (9nat, 's', 'e') && family(t[3].name) == 2);
    assert(mark(t[4].name) == (10nat, 'u', 's') && family(t[4].name) == 2);
}

proof fn lemma_bytes()
    ensures
        is_part(bytes_signatures(), 3),
        bytes_signatures().len() == 7,
{
    reveal_strlit("bytes_new");
    reveal_strlit("bytes_len");
    reveal_strlit("bytes_get");
    reveal_strlit("bytes_set");
    reveal_strlit("bytes_push");
    reveal_strlit("bytes_from_str");
    reveal_strlit("bytes_to_str");
    let t = bytes_signatures();
    assert(mark(t[0].name) == (9nat, 'n', 'e') && family(t[0].name) == 3);
    assert(mark(t[1].name) == (9nat, 'l', 'e') && family(t[1].name) == 3);
    assert(mark(t[2].name) == (9nat, 'g', 'e') && family(t[2].name) == 3);
    assert(mark(t[3].name) == (9nat, 's', 'e') && family(t[3].name) == 3);
    assert(mark(t[4].name) == (10nat, 'u', 's') && family(t[4].name) == 3);
    assert(mark(t[5].name) == (14nat, 's', 't') && family(t[5].name) == 3);
    assert(mark(t[6].name) == (12nat, 's', 't') && family(t[6].name) == 3);
}

proof fn lemma_map()
    ensures
        is_part(map_signatures(), 4),
        map_signatures().len() == 9,
{
    reveal_strlit("map_new");
    reveal_strlit("map_insert");
    reveal_strlit("map_get_or");
    reveal_strlit("map_has");
    reveal_strlit("map_len");
    reveal_strlit("map_remove");
    reveal_strlit("map_show");
    reveal_strlit("map_keys");
    reveal_strlit("map_values");
    let t = map_signatures();
    assert(mark(t[0].name) == (7nat, 'n', 'e') && family(t[0].name) == 4);
    assert(mark(t[1].name) == (10nat, 'e', 'r') && family(t[1].name) == 4);
    assert(mark(t[2].name) == (10nat, '_', 'o') && family(t[2].name) == 4);
    assert(mark(t[3].name) == (7nat, 'h', 'a') && family(t[3].name) == 4);
    assert(mark(t[4].name) == (7nat, 'l', 'e') && family(t[4].name) == 4);
    assert(mark(t[5].name) == (10nat, 'o', 'v') && family(t[5].name) == 4);
    assert(mark(t[6].name) == (8nat, 'h', 'o') && family(t[6].name) == 4);
    assert(mark(t[7].name) == (8nat, 'e', 'y') && family(t[7].name) == 4);
    assert(mark(t[8].name) == (10nat, 'u', 'e') && family(t[8].name) == 4);
}

proof fn lemma_set()
    ensures
        is_part(set_signatures(), 5),
        set_signatures().len() == 7,
{
    reveal_strlit("set_new");
    reveal_strlit("set_add");
    reveal_strlit("set_has");
    reveal_strlit("set_len");
    reveal_strlit("set_remove");
    reveal_strlit("set_show");
    reveal_strlit("set_to_array");
    let t = set_signatures();
    assert(mark(t[0].name) == (7nat, 'n', 'e') && family(t[0].name) == 5);
    assert(mark(t[1].name) == (7nat, 'a', 'd') && family(t[1].name) == 5);
    assert(mark(t[2].name) == (7nat, 'h', 'a') && family(t[2].name) == 5);
    assert(mark(t[3].name) == (7nat, 'l', 'e') && family(t[3].name) == 5);
    assert(mark(t[4].name) == (10nat, 'o', 'v') && family(t[4].name) == 5);
    assert(mark(t[5].name) == (8nat, 'h', 'o') && family(t[5].name) == 5);
    assert(mark(t[6].name) == (12nat, 'r', 'a') && family(t[6].name) == 5);
}

proof fn lemma_vector()
    ensures
        is_part(vector_signatures(), 6),
        vector_signatures().len() == 13,
{
    reveal_strlit("vec_new");
    reveal_strlit("vec_from_array");
    reveal_strlit("vec_to_array");
    reveal_strlit("vec_len");
    reveal_strlit("vec_get");
    reveal_strlit("vec_push");
    reveal_strlit("vec_dot");
    reveal_strlit("vec_norm");
    reveal_strlit("vec_cosine");
    reveal_strlit("vec_add");
    reveal_strlit("vec_sub");
    reveal_strlit("vec_scale");
    reveal_strlit("grad");
    let t = vector_signatures();
    assert(mark(t[0].name) == (7nat, 'n', 'e') && family(t[0].name) == 6);
    assert(mark(t[1].name) == (14nat, 'r', 'a') && family(t[1].name) == 6);
    assert(mark(t[2].name) == (12nat, 'r', 'a') && family(t[2].name) == 6);
    assert(mark(t[3].name) == (7nat, 'l', 'e') && family(t[3].name) == 6);
    assert(mark(t[4].name) == (7nat, 'g', 'e') && family(t[4].name) == 6);
    assert(mark(t[5].name) == (8nat, 'u', 's') && family(t[5].name) == 6);
    assert(mark(t[6].name) == (7nat, 'd', 'o') && family(t[6].name) == 6);
    assert(mark(t[7].name) == (8nat, 'o', 'r') && family(t[7].name) == 6);
    assert(mark(t[8].name) == (10nat, 'i', 'n') && family(t[8].name) == 6);
    assert(mark(t[9].name) == (7nat, 'a', 'd') && family(t[9].name) == 6);
    assert(mark(t[10].name) == (7nat, 's', 'u') && family(t[10].name) == 6);
    assert(mark(t[11].name) == (9nat, 'a', 'l') && family(t[11].name) == 6);
    assert(mark(t[12].name) == (4nat, 'r', 'a') && family(t[12].name) == 6);
}

/// The part of the table that position `i` lies in, and the position in it.
spec fn place(i: int) -> (int, int) {
    if i < 6 {
        (0, i)
    } else if i < 20 {
        (1, i - 6)
    } else if i < 25 {
        (2, i - 20)
    } else if i < 32 {
        (3, i - 25)
    } else if i < 41 {
        (4, i - 32)
    } else if i < 48 {
        (5, i - 41)
    } else {
        (6, i - 48)
    }
}

/// The parts of the table.
spec fn part(k: int) -> Seq<SigModel> {
    if k == 0 {
        core_signatures()
    } else if k == 1 {
        tensor_signatures()
    } else if k == 2 {
        array_signatures()
    } else if k == 3 {
        bytes_signatures()
    } else if k == 4 {
        map_signatures()
    } else if k == 5 {
        set_signatures()
    } else {
        vector_signatures()
    }
}

proof fn lemma_parts()
    ensures
        all_signatures().len() == 61,
        forall|k: int| 0 <= k < 7 ==> is_part(#[trigger] part(k), k),
        forall|i: int|
            0 <= i < 61 ==> {
                let (k, m) = place(i);
                &&& 0 <= k < 7
                &&& 0 <= m < part(k).len()
                &&& #[trigger] all_signatures()[i] == part(k)[m]
            },
{
    lemma_core();
    lemma_tensor();
    lemma_array();
    lemma_bytes();
    lemma_map();
    lemma_set();
    lemma_vector();
}

/// No two built-in functions have the same name.
pub proof fn names_are_distinct()
    ensures
        builtin_names().no_duplicates(),
{
    let all = all_signatures();
    lemma_parts();
    assert forall|i: int, j: int|
        0 <= i < builtin_names().len() && 0 <= j < builtin_names().len() && i
            != j implies builtin_names()[i] != builtin_names()[j] by {
        let (k, m) = place(i);
        let (l, n) = place(j);
        assert(all[i] == part(k)[m]);
        assert(all[j] == part(l)[n]);
        assert(is_part(part(k), k) && is_part(part(l), l));
        assert(family(part(k)[m].name) == k);
        assert(family(part(l)[n].name) == l);
        if k == l {
            if m < n {
                assert(part(k)[m].name != part(k)[n].name);
            } else {
                assert(part(k)[n].name != part(k)[m].name);
            }
        }
    }
}

proof fn lemma_found(t: Seq<SigModel>, i: int)
    requires
        0 <= i < t.len(),
        forall|a: int, b: int|
            0 <= a < b < t.len() ==> (#[trigger] t[a]).name != (#[trigger] t[b]).name,
    ensures
        find_sig(t, t[i].name) == Some(t[i]),
    decreases t.len(),
{
    if i > 0 {
        let d = t.drop_first();
        assert forall|a: int, b: int| 0 <= a < b < d.len() implies (#[trigger] d[a]).name
            != (#[trigger] d[b]).name by {
            assert(t[a + 1].name != t[b + 1].name);
        }
        assert(t[0].name != t[i].name);
        lemma_found(d, i - 1);
        assert(d[i - 1] == t[i]);
    }
}

proof fn lemma_found_is_named(t: Seq<SigModel>, name: Seq<char>)
    ensures
        match find_sig(t, name) {
            Some(s) => s.name == name && t.contains(s),
            None => forall|i: int| 0 <= i < t.len() ==> (#[trigger] t[i]).name != name,
        },
    decreases t.len(),
{
    if t.len() > 0 && t[0].name != name {
        let d = t.drop_first();
        lemma_found_is_named(d, name);
        match find_sig(d, name) {
            Some(s) => {
                let k = choose|k: int| 0 <= k < d.len() && d[k] == s;
                assert(t[k + 1] == s);
            },
            None => {
                assert forall|i: int| 0 <= i < t.len() implies (#[trigger] t[i]).name != name by {
                    if i > 0 {
                        assert(d[i - 1] == t[i]);
                    }
                }
            },
        }
    } else if t.len() > 0 {
        assert(t[0] == find_sig(t, name)->0);
    }
}

/// Looking up the name of any built-in function finds its own signature.
pub proof fn lookup_finds_each(i: int)
    requires
        0 <= i < all_signatures().len(),
    ensures
        find_sig(all_signatures(), all_signatures()[i].name) == Some(all_signatures()[i]),
{
    let all = all_signatures();
    names_are_distinct();
    assert forall|a: int, b: int| 0 <= a < b < all.len() implies (#[trigger] all[a]).name
        != (#[trigger] all[b]).name by {
        assert(builtin_names()[a] != builtin_names()[b]);
    }
    lemma_found(all, i);
}

/// A name is looked up with success if and only if it is that of a built-in
/// function.
pub proof fn lookup_finds_builtins_alone(name: Seq<char>)
    ensures
        find_sig(all_signatures(), name) is Some <==> builtin_names().contains(name),
{
    let all = all_signatures();
    lemma_found_is_named(all, name);
    match find_sig(all, name) {
        Some(s) => {
            let k = choose|k: int| 0 <= k < all.len() && all[k] == s;
            assert(builtin_names()[k] == name);
        },
        None => {
            if builtin_names().contains(name) {
                let k = choose|k: int| 0 <= k < builtin_names().len() && builtin_names()[k] == name;
                assert(all[k].name == name);
            }
        },
    }
}

// ---------------------------------------------------------------------------
// Types
// ---------------------------------------------------------------------------

/// Whether a type name is that of a built-in type.
pub open spec fn is_builtin_type(name: Seq<char>) -> bool {
    exists|k: int| 0 <= k < BUILTIN_TYPES@.len() && (#[trigger] BUILTIN_TYPES@[k])@ == name
}

/// Whether every named type in a type is built in.
pub open spec fn builtin_only(t: TyV) -> bool
    decreases t, 0nat,
{
    match t {
        TyV::Named(n, args) => is_builtin_type(n) && builtin_only_all(args, args.len()),
        TyV::Fn(params, ret) => builtin_only_all(params, params.len()) && builtin_only(*ret),
        _ => true,
    }
}

/// Whether every named type in the first `n` types is built in.
pub open spec fn builtin_only_all(ts: Seq<TyV>, n: nat) -> bool
    decreases ts, n,
{
    n == 0 || n > ts.len() || builtin_only_all(ts, (n - 1) as nat) && builtin_only(ts[n - 1])
}

/// Whether a signature speaks of built-in types alone.
pub open spec fn typed_by_builtins(s: SigModel) -> bool {
    builtin_only_all(s.params, s.params.len()) && builtin_only(s.ret)
}

proof fn lemma_builtin_types()
    ensures
        is_builtin_type("Tensor"@),
        is_builtin_type("Array"@),
        is_builtin_type("Bytes"@),
        is_builtin_type("Map"@),
        is_builtin_type("Set"@),
        is_builtin_type("Vector"@),
{
    let t = BUILTIN_TYPES@;
    assert(t[0]@ == "Tensor"@);
    assert(t[1]@ == "Array"@);
    assert(t[2]@ == "Bytes"@);
    assert(t[3]@ == "Map"@);
    assert(t[4]@ == "Set"@);
    assert(t[5]@ == "Vector"@);
}

proof fn lemma_core_types()
    ensures
        forall|i: int|
            0 <= i < core_signatures().len() ==> typed_by_builtins(#[trigger] core_signatures()[i]),
{
    lemma_builtin_types();
    reveal_with_fuel(builtin_only, 4);
    reveal_with_fuel(builtin_only_all, 6);
    let t = core_signatures();
    assert(typed_by_builtins(t[0]));
    assert(typed_by_builtins(t[1]));
    assert(typed_by_builtins(t[2]));
    assert(typed_by_builtins(t[3]));
    assert(typed_by_builtins(t[4]));
    assert(typed_by_builtins(t[5]));
}

proof fn lemma_tensor_types()
    ensures
        forall|i: int|
            0 <= i < tensor_signatures().len() ==> typed_by_builtins(#[trigger] tensor_signatures()[i]),
{
    lemma_builtin_types();
    reveal_with_fuel(builtin_only, 4);
    reveal_with_fuel(builtin_only_all, 6);
    let t = tensor_signatures();
    assert(typed_by_builtins(t[0]));
    assert(typed_by_builtins(t[1]));
    assert(typed_by_builtins(t[2]));
    assert(typed_by_builtins(t[3]));
    assert(typed_by_builtins(t[4]));
    assert(typed_by_builtins(t[5]));
    assert(typed_by_builtins(t[6]));
    assert(typed_by_builtins(t[7]));
    assert(typed_by_builtins(t[8]));
    assert(typed_by_builtins(t[9]));
    assert(typed_by_builtins(t[10]));
    assert(typed_by_builtins(t[11]));
    assert(typed_by_builtins(t[12]));
    assert(typed_by_builtins(t[13]));
}

proof fn lemma_array_types()
    ensures
        forall|i: int|
            0 <= i < array_signatures().len() ==> typed_by_builtins(#[trigger] array_signatures()[i]),
{
    lemma_builtin_types();
    reveal_with_fuel(builtin_only, 4);
    reveal_with_fuel(builtin_only_all, 6);
    let t = array_signatures();
    assert(typed_by_builtins(t[0]));
    assert(typed_by_builtins(t[1]));
    assert(typed_by_builtins(t[2]));
    assert(typed_by_builtins(t[3]));
    assert(typed_by_builtins(t[4]));
}

proof fn lemma_bytes_types()
    ensures
        forall|i: int|
            0 <= i < bytes_signatures().len() ==> typed_by_builtins(#[trigger] bytes_signatures()[i]),
{
    lemma_builtin_types();
    reveal_with_fuel(builtin_only, 4);
    reveal_with_fuel(builtin_only_all, 6);
    let t = bytes_signatures();
    assert(typed_by_builtins(t[0]));
    assert(typed_by_builtins(t[1]));
    assert(typed_by_builtins(t[2]));
    assert(typed_by_builtins(t[3]));
    assert(typed_by_builtins(t[4]));
    assert(typed_by_builtins(t[5]));
    assert(typed_by_builtins(t[6]));
}

proof fn lemma_map_types()
    ensures
        forall|i: int|
            0 <= i < map_signatures().len() ==> typed_by_builtins(#[trigger] map_signatures()[i]),
{
    lemma_builtin_types();
    reveal_with_fuel(builtin_only, 4);
    reveal_with_fuel(builtin_only_all, 6);
    let t = map_signatures();
    assert(typed_by_builtins(t[0]));
    assert(typed_by_builtins(t[1]));
    assert(typed_by_builtins(t[2]));
    assert(typed_by_builtins(t[3]));
    assert(typed_by_builtins(t[4]));
    assert(typed_by_builtins(t[5]));
    assert(typed_by_builtins(t[6]));
    assert(typed_by_builtins(t[7]));
    assert(typed_by_builtins(t[8]));
}

proof fn lemma_set_types()
    ensures
        forall|i: int|
            0 <= i < set_signatures().len() ==> typed_by_builtins(#[trigger] set_signatures()[i]),
{
    lemma_builtin_types();
    reveal_with_fuel(builtin_only, 4);
    reveal_with_fuel(builtin_only_all, 6);
    let t = set_signatures();
    assert(typed_by_builtins(t[0]));
    assert(typed_by_builtins(t[1]));
    assert(typed_by_builtins(t[2]));
    assert(typed_by_builtins(t[3]));
    assert(typed_by_builtins(t[4]));
    assert(typed_by_builtins(t[5]));
    assert(typed_by_builtins(t[6]));
}

proof fn lemma_vector_types()
    ensures
        forall|i: int|
            0 <= i < vector_signatures().len() ==> typed_by_builtins(#[trigger] vector_signatures()[i]),
{
    lemma_builtin_types();
    reveal_with_fuel(builtin_only, 4);
    reveal_with_fuel(builtin_only_all, 6);
    let t = vector_signatures();
    assert(typed_by_builtins(t[0]));
    assert(typed_by_builtins(t[1]));
    assert(typed_by_builtins(t[2]));
    assert(typed_by_builtins(t[3]));
    assert(typed_by_builtins(t[4]));
    assert(typed_by_builtins(t[5]));
    assert(typed_by_builtins(t[6]));
    assert(typed_by_builtins(t[7]));
    assert(typed_by_builtins(t[8]));
    assert(typed_by_builtins(t[9]));
    assert(typed_by_builtins(t[10]));
    assert(typed_by_builtins(t[11]));
    assert(typed_by_builtins(t[12]));
}

/// The signatures of the built-in functions speak of built-in types alone.
pub proof fn signatures_use_builtin_types(i: int)
    requires
        0 <= i < all_signatures().len(),
    ensures
        typed_by_builtins(all_signatures()[i]),
{
    lemma_parts();
    lemma_core_types();
    lemma_tensor_types();
    lemma_array_types();
    lemma_bytes_types();
    lemma_map_types();
    lemma_set_types();
    lemma_vector_types();
    let (k, m) = place(i);
    assert(all_signatures()[i] == part(k)[m]);
}

} // verus!
