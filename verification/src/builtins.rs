//! The single source of truth for Aria's built-in functions and types: one table
//! of signatures, which the checker and the analyses read.

use vstd::prelude::*;

use crate::ast::Ty;
use crate::text::str_eq;
use crate::types::{clone_ty, ty_view, tys_view, lemma_tys_view, TyV};

pub mod laws;

verus! {

/// Built-in (opaque) type names that need no user `type` declaration.
/// `Array` is generic (`Array[T]`); `Tensor` and `Bytes` are nullary opaque
/// handles.
pub const BUILTIN_TYPES: [&'static str; 6] = ["Tensor", "Array", "Bytes", "Map", "Set", "Vector"];

/// The signature of a builtin: name, parameter types, return type.
pub struct SigModel {
    pub name: Seq<char>,
    pub params: Seq<TyV>,
    pub ret: TyV,
}

/// The signature of a builtin, as a model.
pub open spec fn sig(name: Seq<char>, params: Seq<TyV>, ret: TyV) -> SigModel {
    SigModel { name, params, ret }
}

/// The model of a table entry.
pub open spec fn entry_view(e: (&'static str, Vec<Ty>, Ty)) -> SigModel {
    SigModel { name: e.0@, params: tys_view(e.1@, e.1@.len()), ret: ty_view(e.2) }
}

/// The model of a table.
pub open spec fn table_view(t: Seq<(&'static str, Vec<Ty>, Ty)>) -> Seq<SigModel> {
    t.map_values(|e: (&'static str, Vec<Ty>, Ty)| entry_view(e))
}

/// A nullary named type.
pub open spec fn opaque(name: Seq<char>) -> TyV {
    TyV::Named(name, Seq::empty())
}

/// `Array[t]`.
pub open spec fn array_of(t: TyV) -> TyV {
    TyV::Named("Array"@, seq![t])
}

/// `Map[K, V]`.
pub open spec fn map_type() -> TyV {
    TyV::Named("Map"@, seq![TyV::Var("K"@), TyV::Var("V"@)])
}

/// `Set[T]`.
pub open spec fn set_type() -> TyV {
    TyV::Named("Set"@, seq![TyV::Var("T"@)])
}

fn opaque_ty(name: &str) -> (r: Ty)
    ensures
        ty_view(r) == opaque(name@),
{
    let args: Vec<Ty> = Vec::new();
    assert(tys_view(args@, 0) == Seq::<TyV>::empty());
    Ty::Named(name.to_owned(), args)
}

fn var_ty(name: &str) -> (r: Ty)
    ensures
        ty_view(r) == TyV::Var(name@),
{
    Ty::Var(name.to_owned())
}

fn one(t: Ty) -> (r: Vec<Ty>)
    ensures
        tys_view(r@, r@.len()) == seq![ty_view(t)],
{
    let mut r: Vec<Ty> = Vec::new();
    r.push(t);
    proof {
        lemma_tys_view(r@, 1);
        assert(tys_view(r@, 1) =~= seq![ty_view(t)]);
    }
    r
}

fn two(a: Ty, b: Ty) -> (r: Vec<Ty>)
    ensures
        tys_view(r@, r@.len()) == seq![ty_view(a), ty_view(b)],
{
    let mut r: Vec<Ty> = Vec::new();
    r.push(a);
    r.push(b);
    proof {
        lemma_tys_view(r@, 2);
        assert(tys_view(r@, 2) =~= seq![ty_view(a), ty_view(b)]);
    }
    r
}

fn three(a: Ty, b: Ty, c: Ty) -> (r: Vec<Ty>)
    ensures
        tys_view(r@, r@.len()) == seq![ty_view(a), ty_view(b), ty_view(c)],
{
    let mut r: Vec<Ty> = Vec::new();
    r.push(a);
    r.push(b);
    r.push(c);
    proof {
        lemma_tys_view(r@, 3);
        assert(tys_view(r@, 3) =~= seq![ty_view(a), ty_view(b), ty_view(c)]);
    }
    r
}

fn four(a: Ty, b: Ty, c: Ty, d: Ty) -> (r: Vec<Ty>)
    ensures
        tys_view(r@, r@.len()) == seq![ty_view(a), ty_view(b), ty_view(c), ty_view(d)],
{
    let mut r: Vec<Ty> = Vec::new();
    r.push(a);
    r.push(b);
    r.push(c);
    r.push(d);
    proof {
        lemma_tys_view(r@, 4);
        assert(tys_view(r@, 4) =~= seq![ty_view(a), ty_view(b), ty_view(c), ty_view(d)]);
    }
    r
}

fn array_ty(t: Ty) -> (r: Ty)
    ensures
        ty_view(r) == array_of(ty_view(t)),
{
    Ty::Named("Array".to_owned(), one(t))
}

fn map_ty() -> (r: Ty)
    ensures
        ty_view(r) == map_type(),
{
    Ty::Named("Map".to_owned(), two(var_ty("K"), var_ty("V")))
}

fn set_ty() -> (r: Ty)
    ensures
        ty_view(r) == set_type(),
{
    Ty::Named("Set".to_owned(), one(var_ty("T")))
}

fn grad_arg_ty() -> (r: Ty)
    ensures
        ty_view(r) == TyV::Fn(seq![opaque("Vector"@)], Box::new(TyV::Float)),
{
    let params: Vec<Ty> = one(opaque_ty("Vector"));
    assert(ty_view(Ty::Float) == TyV::Float);
    Ty::Fn(params, Box::new(Ty::Float))
}

/// Appends a signature.
fn enter(
    out: &mut Vec<(&'static str, Vec<Ty>, Ty)>,
    name: &'static str,
    params: Vec<Ty>,
    ret: Ty,
)
    ensures
        table_view(final(out)@) == table_view(old(out)@).push(
            sig(name@, tys_view(params@, params@.len()), ty_view(ret)),
        ),
{
    let ghost before = out@;
    out.push((name, params, ret));
    assert(table_view(out@) =~= table_view(before).push(entry_view(out@.last())));
}

/// Printing and strings.
pub open spec fn core_signatures() -> Seq<SigModel> {
    Seq::empty().push(
        sig("print_int"@, seq![TyV::Int], TyV::Unit),
    ).push(
        sig("print_float"@, seq![TyV::Float], TyV::Unit),
    ).push(
        sig("print_bool"@, seq![TyV::Bool], TyV::Unit),
    ).push(
        sig("print_str"@, seq![TyV::Str], TyV::Unit),
    ).push(
        sig("concat"@, seq![TyV::Str, TyV::Str], TyV::Str),
    ).push(
        sig("int_to_str"@, seq![TyV::Int], TyV::Str),
    )
}

fn enter_core(out: &mut Vec<(&'static str, Vec<Ty>, Ty)>)
    ensures
        table_view(final(out)@) == table_view(old(out)@) + core_signatures(),
{
    let ghost start = table_view(out@);
    enter(out, "print_int", one(Ty::Int), Ty::Unit);
    enter(out, "print_float", one(Ty::Float), Ty::Unit);
    enter(out, "print_bool", one(Ty::Bool), Ty::Unit);
    enter(out, "print_str", one(Ty::Str), Ty::Unit);
    enter(out, "concat", two(Ty::Str, Ty::Str), Ty::Str);
    enter(out, "int_to_str", one(Ty::Int), Ty::Str);
    assert(table_view(out@) =~= start + core_signatures());
}

/// Tensors, and the models on strings.
pub open spec fn tensor_signatures() -> Seq<SigModel> {
    Seq::empty().push(
        sig("tensor_zeros"@, seq![TyV::Int, TyV::Int], opaque("Tensor"@)),
    ).push(
        sig("tensor_set"@, seq![opaque("Tensor"@), TyV::Int, TyV::Int, TyV::Float], opaque("Tensor"@)),
    ).push(
        sig("tensor_get"@, seq![opaque("Tensor"@), TyV::Int, TyV::Int], TyV::Float),
    ).push(
        sig("tensor_rows"@, seq![opaque("Tensor"@)], TyV::Int),
    ).push(
        sig("tensor_cols"@, seq![opaque("Tensor"@)], TyV::Int),
    ).push(
        sig("tensor_row"@, seq![opaque("Tensor"@), TyV::Int], opaque("Vector"@)),
    ).push(
        sig("tensor_from_rows"@, seq![array_of(opaque("Vector"@))], opaque("Tensor"@)),
    ).push(
        sig("matmul"@, seq![opaque("Tensor"@), opaque("Tensor"@)], opaque("Tensor"@)),
    ).push(
        sig("transpose"@, seq![opaque("Tensor"@)], opaque("Tensor"@)),
    ).push(
        sig("softmax"@, seq![opaque("Tensor"@)], opaque("Tensor"@)),
    ).push(
        sig("relu"@, seq![opaque("Tensor"@)], opaque("Tensor"@)),
    ).push(
        sig("embed_similarity"@, seq![TyV::Str, TyV::Str], TyV::Float),
    ).push(
        sig("compressed_size"@, seq![TyV::Str], TyV::Int),
    ).push(
        sig("neural_bits_per_byte"@, seq![TyV::Str], TyV::Float),
    )
}

fn enter_tensor(out: &mut Vec<(&'static str, Vec<Ty>, Ty)>)
    ensures
        table_view(final(out)@) == table_view(old(out)@) + tensor_signatures(),
{
    let ghost start = table_view(out@);
    enter(out, "tensor_zeros", two(Ty::Int, Ty::Int), opaque_ty("Tensor"));
    enter(out, "tensor_set", four(opaque_ty("Tensor"), Ty::Int, Ty::Int, Ty::Float), opaque_ty("Tensor"));
    enter(out, "tensor_get", three(opaque_ty("Tensor"), Ty::Int, Ty::Int), Ty::Float);
    enter(out, "tensor_rows", one(opaque_ty("Tensor")), Ty::Int);
    enter(out, "tensor_cols", one(opaque_ty("Tensor")), Ty::Int);
    enter(out, "tensor_row", two(opaque_ty("Tensor"), Ty::Int), opaque_ty("Vector"));
    enter(out, "tensor_from_rows", one(array_ty(opaque_ty("Vector"))), opaque_ty("Tensor"));
    enter(out, "matmul", two(opaque_ty("Tensor"), opaque_ty("Tensor")), opaque_ty("Tensor"));
    enter(out, "transpose", one(opaque_ty("Tensor")), opaque_ty("Tensor"));
    enter(out, "softmax", one(opaque_ty("Tensor")), opaque_ty("Tensor"));
    enter(out, "relu", one(opaque_ty("Tensor")), opaque_ty("Tensor"));
    enter(out, "embed_similarity", two(Ty::Str, Ty::Str), Ty::Float);
    enter(out, "compressed_size", one(Ty::Str), Ty::Int);
    enter(out, "neural_bits_per_byte", one(Ty::Str), Ty::Float);
    assert(table_view(out@) =~= start + tensor_signatures());
}

/// Arrays: generic in their element.
pub open spec fn array_signatures() -> Seq<SigModel> {
    Seq::empty().push(
        sig("array_new"@, seq![], array_of(TyV::Var("T"@))),
    ).push(
        sig("array_len"@, seq![array_of(TyV::Var("T"@))], TyV::Int),
    ).push(
        sig("array_get"@, seq![array_of(TyV::Var("T"@)), TyV::Int], TyV::Var("T"@)),
    ).push(
        sig("array_set"@, seq![array_of(TyV::Var("T"@)), TyV::Int, TyV::Var("T"@)], array_of(TyV::Var("T"@))),
    ).push(
        sig("array_push"@, seq![array_of(TyV::Var("T"@)), TyV::Var("T"@)], array_of(TyV::Var("T"@))),
    )
}

fn enter_array(out: &mut Vec<(&'static str, Vec<Ty>, Ty)>)
    ensures
        table_view(final(out)@) == table_view(old(out)@) + array_signatures(),
{
    let ghost start = table_view(out@);
    enter(out, "array_new", Vec::new(), array_ty(var_ty("T")));
    enter(out, "array_len", one(array_ty(var_ty("T"))), Ty::Int);
    enter(out, "array_get", two(array_ty(var_ty("T")), Ty::Int), var_ty("T"));
    enter(out, "array_set", three(array_ty(var_ty("T")), Ty::Int, var_ty("T")), array_ty(var_ty("T")));
    enter(out, "array_push", two(array_ty(var_ty("T")), var_ty("T")), array_ty(var_ty("T")));
    assert(table_view(out@) =~= start + array_signatures());
}

/// Byte buffers.
pub open spec fn bytes_signatures() -> Seq<SigModel> {
    Seq::empty().push(
        sig("bytes_new"@, seq![], opaque("Bytes"@)),
    ).push(
        sig("bytes_len"@, seq![opaque("Bytes"@)], TyV::Int),
    ).push(
        sig("bytes_get"@, seq![opaque("Bytes"@), TyV::Int], TyV::Int),
    ).push(
        sig("bytes_set"@, seq![opaque("Bytes"@), TyV::Int, TyV::Int], opaque("Bytes"@)),
    ).push(
        sig("bytes_push"@, seq![opaque("Bytes"@), TyV::Int], opaque("Bytes"@)),
    ).push(
        sig("bytes_from_str"@, seq![TyV::Str], opaque("Bytes"@)),
    ).push(
        sig("bytes_to_str"@, seq![opaque("Bytes"@)], TyV::Str),
    )
}

fn enter_bytes(out: &mut Vec<(&'static str, Vec<Ty>, Ty)>)
    ensures
        table_view(final(out)@) == table_view(old(out)@) + bytes_signatures(),
{
    let ghost start = table_view(out@);
    enter(out, "bytes_new", Vec::new(), opaque_ty("Bytes"));
    enter(out, "bytes_len", one(opaque_ty("Bytes")), Ty::Int);
    enter(out, "bytes_get", two(opaque_ty("Bytes"), Ty::Int), Ty::Int);
    enter(out, "bytes_set", three(opaque_ty("Bytes"), Ty::Int, Ty::Int), opaque_ty("Bytes"));
    enter(out, "bytes_push", two(opaque_ty("Bytes"), Ty::Int), opaque_ty("Bytes"));
    enter(out, "bytes_from_str", one(Ty::Str), opaque_ty("Bytes"));
    enter(out, "bytes_to_str", one(opaque_ty("Bytes")), Ty::Str);
    assert(table_view(out@) =~= start + bytes_signatures());
}

/// Maps, sorted by key.
pub open spec fn map_signatures() -> Seq<SigModel> {
    Seq::empty().push(
        sig("map_new"@, seq![], map_type()),
    ).push(
        sig("map_insert"@, seq![map_type(), TyV::Var("K"@), TyV::Var("V"@)], map_type()),
    ).push(
        sig("map_get_or"@, seq![map_type(), TyV::Var("K"@), TyV::Var("V"@)], TyV::Var("V"@)),
    ).push(
        sig("map_has"@, seq![map_type(), TyV::Var("K"@)], TyV::Bool),
    ).push(
        sig("map_len"@, seq![map_type()], TyV::Int),
    ).push(
        sig("map_remove"@, seq![map_type(), TyV::Var("K"@)], map_type()),
    ).push(
        sig("map_show"@, seq![map_type()], TyV::Str),
    ).push(
        sig("map_keys"@, seq![map_type()], array_of(TyV::Var("K"@))),
    ).push(
        sig("map_values"@, seq![map_type()], array_of(TyV::Var("V"@))),
    )
}

fn enter_map(out: &mut Vec<(&'static str, Vec<Ty>, Ty)>)
    ensures
        table_view(final(out)@) == table_view(old(out)@) + map_signatures(),
{
    let ghost start = table_view(out@);
    enter(out, "map_new", Vec::new(), map_ty());
    enter(out, "map_insert", three(map_ty(), var_ty("K"), var_ty("V")), map_ty());
    enter(out, "map_get_or", three(map_ty(), var_ty("K"), var_ty("V")), var_ty("V"));
    enter(out, "map_has", two(map_ty(), var_ty("K")), Ty::Bool);
    enter(out, "map_len", one(map_ty()), Ty::Int);
    enter(out, "map_remove", two(map_ty(), var_ty("K")), map_ty());
    enter(out, "map_show", one(map_ty()), Ty::Str);
    enter(out, "map_keys", one(map_ty()), array_ty(var_ty("K")));
    enter(out, "map_values", one(map_ty()), array_ty(var_ty("V")));
    assert(table_view(out@) =~= start + map_signatures());
}

/// Sets, sorted by element.
pub open spec fn set_signatures() -> Seq<SigModel> {
    Seq::empty().push(
        sig("set_new"@, seq![], set_type()),
    ).push(
        sig("set_add"@, seq![set_type(), TyV::Var("T"@)], set_type()),
    ).push(
        sig("set_has"@, seq![set_type(), TyV::Var("T"@)], TyV::Bool),
    ).push(
        sig("set_len"@, seq![set_type()], TyV::Int),
    ).push(
        sig("set_remove"@, seq![set_type(), TyV::Var("T"@)], set_type()),
    ).push(
        sig("set_show"@, seq![set_type()], TyV::Str),
    ).push(
        sig("set_to_array"@, seq![set_type()], array_of(TyV::Var("T"@))),
    )
}

fn enter_set(out: &mut Vec<(&'static str, Vec<Ty>, Ty)>)
    ensures
        table_view(final(out)@) == table_view(old(out)@) + set_signatures(),
{
    let ghost start = table_view(out@);
    enter(out, "set_new", Vec::new(), set_ty());
    enter(out, "set_add", two(set_ty(), var_ty("T")), set_ty());
    enter(out, "set_has", two(set_ty(), var_ty("T")), Ty::Bool);
    enter(out, "set_len", one(set_ty()), Ty::Int);
    enter(out, "set_remove", two(set_ty(), var_ty("T")), set_ty());
    enter(out, "set_show", one(set_ty()), Ty::Str);
    enter(out, "set_to_array", one(set_ty()), array_ty(var_ty("T")));
    assert(table_view(out@) =~= start + set_signatures());
}

/// Float vectors and automatic differentiation.
pub open spec fn vector_signatures() -> Seq<SigModel> {
    Seq::empty().push(
        sig("vec_new"@, seq![], opaque("Vector"@)),
    ).push(
        sig("vec_from_array"@, seq![array_of(TyV::Float)], opaque("Vector"@)),
    ).push(
        sig("vec_to_array"@, seq![opaque("Vector"@)], array_of(TyV::Float)),
    ).push(
        sig("vec_len"@, seq![opaque("Vector"@)], TyV::Int),
    ).push(
        sig("vec_get"@, seq![opaque("Vector"@), TyV::Int], TyV::Float),
    ).push(
        sig("vec_push"@, seq![opaque("Vector"@), TyV::Float], opaque("Vector"@)),
    ).push(
        sig("vec_dot"@, seq![opaque("Vector"@), opaque("Vector"@)], TyV::Float),
    ).push(
        sig("vec_norm"@, seq![opaque("Vector"@)], TyV::Float),
    ).push(
        sig("vec_cosine"@, seq![opaque("Vector"@), opaque("Vector"@)], TyV::Float),
    ).push(
        sig("vec_add"@, seq![opaque("Vector"@), opaque("Vector"@)], opaque("Vector"@)),
    ).push(
        sig("vec_sub"@, seq![opaque("Vector"@), opaque("Vector"@)], opaque("Vector"@)),
    ).push(
        sig("vec_scale"@, seq![opaque("Vector"@), TyV::Float], opaque("Vector"@)),
    ).push(
        sig("grad"@, seq![TyV::Fn(seq![opaque("Vector"@)], Box::new(TyV::Float)), opaque("Vector"@)], opaque("Vector"@)),
    )
}

fn enter_vector(out: &mut Vec<(&'static str, Vec<Ty>, Ty)>)
    ensures
        table_view(final(out)@) == table_view(old(out)@) + vector_signatures(),
{
    let ghost start = table_view(out@);
    enter(out, "vec_new", Vec::new(), opaque_ty("Vector"));
    enter(out, "vec_from_array", one(array_ty(Ty::Float)), opaque_ty("Vector"));
    enter(out, "vec_to_array", one(opaque_ty("Vector")), array_ty(Ty::Float));
    enter(out, "vec_len", one(opaque_ty("Vector")), Ty::Int);
    enter(out, "vec_get", two(opaque_ty("Vector"), Ty::Int), Ty::Float);
    enter(out, "vec_push", two(opaque_ty("Vector"), Ty::Float), opaque_ty("Vector"));
    enter(out, "vec_dot", two(opaque_ty("Vector"), opaque_ty("Vector")), Ty::Float);
    enter(out, "vec_norm", one(opaque_ty("Vector")), Ty::Float);
    enter(out, "vec_cosine", two(opaque_ty("Vector"), opaque_ty("Vector")), Ty::Float);
    enter(out, "vec_add", two(opaque_ty("Vector"), opaque_ty("Vector")), opaque_ty("Vector"));
    enter(out, "vec_sub", two(opaque_ty("Vector"), opaque_ty("Vector")), opaque_ty("Vector"));
    enter(out, "vec_scale", two(opaque_ty("Vector"), Ty::Float), opaque_ty("Vector"));
    enter(out, "grad", two(grad_arg_ty(), opaque_ty("Vector")), opaque_ty("Vector"));
    assert(table_view(out@) =~= start + vector_signatures());
}

/// Every built-in function, in the table's order.
pub open spec fn all_signatures() -> Seq<SigModel> {
    core_signatures() + tensor_signatures() + array_signatures() + bytes_signatures() + map_signatures() + set_signatures() + vector_signatures()
}

/// Every built-in function as `(name, parameter types, return type)`.
pub fn signatures() -> (r: Vec<(&'static str, Vec<Ty>, Ty)>)
    ensures
        table_view(r@) == all_signatures(),
{
    let mut out: Vec<(&'static str, Vec<Ty>, Ty)> = Vec::new();
    assert(table_view(out@) =~= Seq::empty());
    enter_core(&mut out);
    enter_tensor(&mut out);
    enter_array(&mut out);
    enter_bytes(&mut out);
    enter_map(&mut out);
    enter_set(&mut out);
    enter_vector(&mut out);
    assert(Seq::<SigModel>::empty() + core_signatures() =~= core_signatures());
    out
}

/// The first signature of a name in a table.
pub open spec fn find_sig(table: Seq<SigModel>, name: Seq<char>) -> Option<SigModel>
    decreases table.len(),
{
    if table.len() == 0 {
        None
    } else if table[0].name == name {
        Some(table[0])
    } else {
        find_sig(table.drop_first(), name)
    }
}

/// Look up a builtin's signature by name.
pub fn lookup(name: &str) -> (r: Option<(Vec<Ty>, Ty)>)
    ensures
        match find_sig(all_signatures(), name@) {
            Some(s) => r matches Some(p) && tys_view(p.0@, p.0@.len()) == s.params && ty_view(p.1)
                == s.ret,
            None => r is None,
        },
{
    let table: Vec<(&'static str, Vec<Ty>, Ty)> = signatures();
    let ghost model = all_signatures();
    let mut i: usize = 0;
    assert(model.skip(0) =~= model);
    while i < table.len()
        invariant
            i <= table@.len(),
            model == all_signatures(),
            table_view(table@) == model,
            find_sig(model, name@) == find_sig(model.skip(i as int), name@),
        decreases table@.len() - i,
    {
        proof {
            assert(model[i as int] == entry_view(table@[i as int]));
            assert(model.skip(i as int)[0] == model[i as int]);
            assert(model.skip(i as int).drop_first() =~= model.skip(i + 1));
        }
        if str_eq(table[i].0, name) {
            return Some((copy_tys(&table[i].1), clone_ty(&table[i].2)));
        }
        i = i + 1;
    }
    None
}

fn copy_tys(tys: &Vec<Ty>) -> (r: Vec<Ty>)
    ensures
        tys_view(r@, r@.len()) == tys_view(tys@, tys@.len()),
{
    let mut r: Vec<Ty> = Vec::new();
    let mut i: usize = 0;
    while i < tys.len()
        invariant
            i <= tys@.len(),
            r@.len() == i,
            forall|j: int| 0 <= j < i ==> ty_view(#[trigger] r@[j]) == ty_view(tys@[j]),
        decreases tys@.len() - i,
    {
        r.push(clone_ty(&tys[i]));
        i = i + 1;
    }
    proof {
        lemma_tys_view(r@, r@.len());
        lemma_tys_view(tys@, tys@.len());
        assert(tys_view(r@, r@.len()) =~= tys_view(tys@, tys@.len()));
    }
    r
}

/// The names of all built-in functions, in the table's order.
pub open spec fn builtin_names() -> Seq<Seq<char>> {
    all_signatures().map_values(|s: SigModel| s.name)
}

/// All built-in function names.
pub fn names() -> (r: Vec<&'static str>)
    ensures
        r@.map_values(|s: &'static str| s@) == builtin_names(),
{
    let table: Vec<(&'static str, Vec<Ty>, Ty)> = signatures();
    let mut r: Vec<&'static str> = Vec::new();
    let mut i: usize = 0;
    while i < table.len()
        invariant
            i <= table@.len(),
            r@.len() == i,
            forall|j: int| 0 <= j < i ==> (#[trigger] r@[j])@ == table@[j].0@,
        decreases table@.len() - i,
    {
        r.push(table[i].0);
        i = i + 1;
    }
    proof {
        let v = r@.map_values(|s: &'static str| s@);
        assert(v.len() == builtin_names().len());
        assert forall|j: int| 0 <= j < v.len() implies v[j] == builtin_names()[j] by {
            assert(all_signatures()[j] == entry_view(table@[j]));
        }
        assert(v =~= builtin_names());
    }
    r
}

} // verus!
