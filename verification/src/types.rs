//! Rendering of types: as the source spells them, and as the structure of the
//! syntax tree.

use vstd::prelude::*;
use vstd::string::*;

use crate::ast::Ty;
use crate::text::{fill1, fill2, fmt, join, join_strings, views};

verus! {

/// The `Debug` form of a string, `{:?}`: the text in double quotes, with quotes,
/// backslashes and characters that do not print escaped. Which characters print
/// is a matter of the Unicode tables of the standard library, so the text is
/// named here and not spelled out.
pub uninterp spec fn str_debug(s: Seq<char>) -> Seq<char>;

/// `<str as Debug>::fmt` through `format!("{:?}", s)`: the result depends on the
/// text alone and is what [`str_debug`] names.
#[verifier::external_body]
pub(crate) fn debug_str(s: &str) -> (r: String)
    ensures
        r@ == str_debug(s@),
{
    format!("{:?}", s)
}

/// The text of a type as the source spells it: `Int`, `List[T]`,
/// `(Int, Bool) -> Int`.
pub open spec fn shown(ty: Ty) -> Seq<char>
    decreases ty, 0nat,
{
    match ty {
        Ty::Int => "Int"@,
        Ty::Float => "Float"@,
        Ty::Bool => "Bool"@,
        Ty::Str => "String"@,
        Ty::Unit => "Unit"@,
        Ty::Named(n, args) => if args@.len() == 0 {
            n@
        } else {
            fmt("{}[{}]"@, seq![n@, join(shown_all(args@, args@.len()), ", "@)])
        },
        Ty::Var(n) => n@,
        Ty::Fn(ps, ret) => fmt(
            "({}) -> {}"@,
            seq![join(shown_all(ps@, ps@.len()), ", "@), shown(*ret)],
        ),
    }
}

/// The texts of the first `n` types.
pub open spec fn shown_all(tys: Seq<Ty>, n: nat) -> Seq<Seq<char>>
    decreases tys, n,
{
    if n == 0 || n > tys.len() {
        Seq::empty()
    } else {
        shown_all(tys, (n - 1) as nat).push(shown(tys[n - 1]))
    }
}

/// The text of a type as the source spells it.
pub fn show(ty: &Ty) -> (r: String)
    ensures
        r@ == shown(*ty),
    decreases ty, 0nat,
{
    match ty {
        Ty::Int => "Int".to_owned(),
        Ty::Float => "Float".to_owned(),
        Ty::Bool => "Bool".to_owned(),
        Ty::Str => "String".to_owned(),
        Ty::Unit => "Unit".to_owned(),
        Ty::Named(n, args) => {
            if args.len() == 0 {
                n.clone()
            } else {
                let parts: Vec<String> = show_all(args, args.len());
                let inner: String = join_strings(&parts, ", ");
                fill2("{}[{}]", n.as_str(), inner.as_str())
            }
        },
        Ty::Var(n) => n.clone(),
        Ty::Fn(ps, ret) => {
            let parts: Vec<String> = show_all(ps, ps.len());
            let inner: String = join_strings(&parts, ", ");
            let out: String = show(ret);
            fill2("({}) -> {}", inner.as_str(), out.as_str())
        },
    }
}

fn show_all(tys: &Vec<Ty>, n: usize) -> (r: Vec<String>)
    requires
        n <= tys@.len(),
    ensures
        views(r@) == shown_all(tys@, n as nat),
    decreases tys@, n,
{
    if n == 0 {
        let r: Vec<String> = Vec::new();
        assert(views(r@) =~= Seq::empty());
        r
    } else {
        let mut r: Vec<String> = show_all(tys, n - 1);
        let ghost before = r@;
        r.push(show(&tys[n - 1]));
        assert(views(r@) =~= views(before).push(r@.last()@));
        r
    }
}

/// The text of a type as a tree: `Named("List", [Int])`, `Var("T")`.
pub open spec fn ty_debug(ty: Ty) -> Seq<char>
    decreases ty, 0nat,
{
    match ty {
        Ty::Int => "Int"@,
        Ty::Float => "Float"@,
        Ty::Bool => "Bool"@,
        Ty::Str => "Str"@,
        Ty::Unit => "Unit"@,
        Ty::Named(n, args) => fmt(
            "Named({}, [{}])"@,
            seq![str_debug(n@), join(debugged_all(args@, args@.len()), ", "@)],
        ),
        Ty::Var(n) => fmt("Var({})"@, seq![str_debug(n@)]),
        Ty::Fn(ps, ret) => fmt(
            "Fn([{}], {})"@,
            seq![join(debugged_all(ps@, ps@.len()), ", "@), ty_debug(*ret)],
        ),
    }
}

/// The texts of the first `n` types as trees.
pub open spec fn debugged_all(tys: Seq<Ty>, n: nat) -> Seq<Seq<char>>
    decreases tys, n,
{
    if n == 0 || n > tys.len() {
        Seq::empty()
    } else {
        debugged_all(tys, (n - 1) as nat).push(ty_debug(tys[n - 1]))
    }
}

/// The text of a type as a tree.
pub fn debug_ty(ty: &Ty) -> (r: String)
    ensures
        r@ == ty_debug(*ty),
    decreases ty, 0nat,
{
    match ty {
        Ty::Int => "Int".to_owned(),
        Ty::Float => "Float".to_owned(),
        Ty::Bool => "Bool".to_owned(),
        Ty::Str => "Str".to_owned(),
        Ty::Unit => "Unit".to_owned(),
        Ty::Named(n, args) => {
            let parts: Vec<String> = debug_all(args, args.len());
            let inner: String = join_strings(&parts, ", ");
            let name: String = debug_str(n.as_str());
            fill2("Named({}, [{}])", name.as_str(), inner.as_str())
        },
        Ty::Var(n) => {
            let name: String = debug_str(n.as_str());
            fill1("Var({})", name.as_str())
        },
        Ty::Fn(ps, ret) => {
            let parts: Vec<String> = debug_all(ps, ps.len());
            let inner: String = join_strings(&parts, ", ");
            let out: String = debug_ty(ret);
            fill2("Fn([{}], {})", inner.as_str(), out.as_str())
        },
    }
}

fn debug_all(tys: &Vec<Ty>, n: usize) -> (r: Vec<String>)
    requires
        n <= tys@.len(),
    ensures
        views(r@) == debugged_all(tys@, n as nat),
    decreases tys@, n,
{
    if n == 0 {
        let r: Vec<String> = Vec::new();
        assert(views(r@) =~= Seq::empty());
        r
    } else {
        let mut r: Vec<String> = debug_all(tys, n - 1);
        let ghost before = r@;
        r.push(debug_ty(&tys[n - 1]));
        assert(views(r@) =~= views(before).push(r@.last()@));
        r
    }
}

// ---------------------------------------------------------------------------
// Types as values
// ---------------------------------------------------------------------------

/// A type as a mathematical value.
pub enum TyV {
    Int,
    Float,
    Bool,
    Str,
    Unit,
    Named(Seq<char>, Seq<TyV>),
    Var(Seq<char>),
    Fn(Seq<TyV>, Box<TyV>),
}

/// The value of a type.
pub open spec fn ty_view(ty: Ty) -> TyV
    decreases ty, 0nat,
{
    match ty {
        Ty::Int => TyV::Int,
        Ty::Float => TyV::Float,
        Ty::Bool => TyV::Bool,
        Ty::Str => TyV::Str,
        Ty::Unit => TyV::Unit,
        Ty::Named(n, args) => TyV::Named(n@, tys_view(args@, args@.len())),
        Ty::Var(n) => TyV::Var(n@),
        Ty::Fn(ps, ret) => TyV::Fn(tys_view(ps@, ps@.len()), Box::new(ty_view(*ret))),
    }
}

/// The values of the first `n` types.
pub open spec fn tys_view(tys: Seq<Ty>, n: nat) -> Seq<TyV>
    decreases tys, n,
{
    if n == 0 || n > tys.len() {
        Seq::empty()
    } else {
        tys_view(tys, (n - 1) as nat).push(ty_view(tys[n - 1]))
    }
}

/// The value of a list of types depends on the types' values alone.
pub proof fn lemma_tys_view(tys: Seq<Ty>, n: nat)
    requires
        n <= tys.len(),
    ensures
        tys_view(tys, n).len() == n,
        forall|i: int| 0 <= i < n ==> #[trigger] tys_view(tys, n)[i] == ty_view(tys[i]),
    decreases n,
{
    if n > 0 {
        lemma_tys_view(tys, (n - 1) as nat);
    }
}

/// A copy of a type.
pub fn clone_ty(ty: &Ty) -> (r: Ty)
    ensures
        ty_view(r) == ty_view(*ty),
        shown(r) == shown(*ty),
    decreases ty, 0nat,
{
    match ty {
        Ty::Int => Ty::Int,
        Ty::Float => Ty::Float,
        Ty::Bool => Ty::Bool,
        Ty::Str => Ty::Str,
        Ty::Unit => Ty::Unit,
        Ty::Named(n, args) => {
            let copy: Vec<Ty> = clone_tys(args, args.len());
            Ty::Named(n.clone(), copy)
        },
        Ty::Var(n) => Ty::Var(n.clone()),
        Ty::Fn(ps, ret) => {
            let copy: Vec<Ty> = clone_tys(ps, ps.len());
            let out: Ty = clone_ty(ret);
            Ty::Fn(copy, Box::new(out))
        },
    }
}

fn clone_tys(tys: &Vec<Ty>, n: usize) -> (r: Vec<Ty>)
    requires
        n <= tys@.len(),
    ensures
        r@.len() == n,
        tys_view(r@, n as nat) == tys_view(tys@, n as nat),
        shown_all(r@, n as nat) == shown_all(tys@, n as nat),
    decreases tys@, n,
{
    if n == 0 {
        Vec::new()
    } else {
        let mut r: Vec<Ty> = clone_tys(tys, n - 1);
        let ghost before = r@;
        r.push(clone_ty(&tys[n - 1]));
        proof {
            lemma_prefix_views(before, r@, (n - 1) as nat);
        }
        r
    }
}

/// The values of a prefix do not depend on what follows it.
proof fn lemma_prefix_views(a: Seq<Ty>, b: Seq<Ty>, n: nat)
    requires
        n <= a.len(),
        n <= b.len(),
        forall|i: int| 0 <= i < n ==> a[i] == b[i],
    ensures
        tys_view(a, n) == tys_view(b, n),
        shown_all(a, n) == shown_all(b, n),
    decreases n,
{
    if n > 0 {
        lemma_prefix_views(a, b, (n - 1) as nat);
    }
}

} // verus!
