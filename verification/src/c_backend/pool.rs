//! The pool of string literals: every literal of a function is in it, once.

use vstd::prelude::*;

use crate::c_backend::env::{atom_code, lemma_position, position, Types};
use crate::c_backend::program::{
    arms_lits, atom_lits, atoms_lits, bind_lits, fns_lits, iexpr_lits,
};
use crate::ir::{Atom, Bind, IArm, IExpr, IFn};

verus! {

/// Whether an atom is a literal.
pub open spec fn is_literal(a: Atom, s: Seq<char>) -> bool {
    match a {
        Atom::Str(x) => x@ == s,
        _ => false,
    }
}

/// Whether one of the first `n` atoms is a literal.
pub open spec fn among_atoms(atoms: Seq<Atom>, n: nat, s: Seq<char>) -> bool {
    exists|i: int| 0 <= i < n && i < atoms.len() && is_literal(#[trigger] atoms[i], s)
}

/// Whether a literal occurs in a binding.
pub open spec fn in_bind(b: Bind, s: Seq<char>) -> bool
    decreases b, 0nat,
{
    match b {
        Bind::Atom(a) => is_literal(a, s),
        Bind::Unary(_, a) => is_literal(a, s),
        Bind::Prim(_, l, r) => is_literal(l, s) || is_literal(r, s),
        Bind::Ctor(_, fs) => among_atoms(fs@, fs@.len(), s),
        Bind::Call(_, fs) => among_atoms(fs@, fs@.len(), s),
        Bind::CtorReuse(_, _, fs) => among_atoms(fs@, fs@.len(), s),
        Bind::MakeClosure(_, fs) => among_atoms(fs@, fs@.len(), s),
        Bind::ApplyClosure(c, fs, _) => is_literal(c, s) || among_atoms(fs@, fs@.len(), s),
        Bind::If(c, t, e) => is_literal(c, s) || in_iexpr(*t, s) || in_iexpr(*e, s),
        Bind::Match(x, arms) => is_literal(x, s) || in_arms(arms@, arms@.len(), s),
    }
}

/// Whether a literal occurs in the first `n` arms.
pub open spec fn in_arms(arms: Seq<IArm>, n: nat, s: Seq<char>) -> bool
    decreases arms, n,
{
    n > 0 && n <= arms.len() && (in_arms(arms, (n - 1) as nat, s) || in_iexpr(arms[n - 1].body, s))
}

/// Whether a literal occurs in an expression.
pub open spec fn in_iexpr(e: IExpr, s: Seq<char>) -> bool
    decreases e, 0nat,
{
    match e {
        IExpr::Ret(a) => is_literal(a, s),
        IExpr::Let(_, b, body) => in_bind(b, s) || in_iexpr(*body, s),
        IExpr::Dup(_, b) => in_iexpr(*b, s),
        IExpr::Drop(_, b) => in_iexpr(*b, s),
        IExpr::DropReuse(_, _, b) => in_iexpr(*b, s),
        IExpr::TailCall(args) => among_atoms(args@, args@.len(), s),
    }
}

/// Whether a pool keeps another's literals at their positions.
pub open spec fn keeps(before: Seq<Seq<char>>, after: Seq<Seq<char>>) -> bool {
    &&& before.len() <= after.len()
    &&& forall|i: int| 0 <= i < before.len() ==> #[trigger] after[i] == before[i]
}

/// What pooling does: the pool keeps what it has, the literal `s` is in it if it
/// was or if it occurs, and nothing is in it twice.
pub open spec fn pooled(
    before: Seq<Seq<char>>,
    after: Seq<Seq<char>>,
    occurs: bool,
    s: Seq<char>,
) -> bool {
    &&& keeps(before, after)
    &&& after.contains(s) <==> before.contains(s) || occurs
    &&& before.no_duplicates() ==> after.no_duplicates()
}

proof fn lemma_atom(a: Atom, pool: Seq<Seq<char>>, s: Seq<char>)
    ensures
        pooled(pool, atom_lits(a, pool), is_literal(a, s), s),
{
    if let Atom::Str(x) = a {
        lemma_position(pool, x@);
        let after = atom_lits(a, pool);
        if position(pool, x@) is None {
            if pool.contains(s) {
                assert(after[pool.index_of(s)] == s);
            }
            assert(after[pool.len() as int] == x@);
        }
    }
}

proof fn lemma_atoms(atoms: Seq<Atom>, n: nat, pool: Seq<Seq<char>>, s: Seq<char>)
    requires
        n <= atoms.len(),
    ensures
        pooled(pool, atoms_lits(atoms, n, pool), among_atoms(atoms, n, s), s),
    decreases n,
{
    if n > 0 {
        lemma_atoms(atoms, (n - 1) as nat, pool, s);
        lemma_atom(atoms[n - 1], atoms_lits(atoms, (n - 1) as nat, pool), s);
    }
}

proof fn lemma_bind(b: Bind, pool: Seq<Seq<char>>, s: Seq<char>)
    ensures
        pooled(pool, bind_lits(b, pool), in_bind(b, s), s),
    decreases b, 0nat,
{
    match b {
        Bind::Atom(a) => {
            lemma_atom(a, pool, s);
        },
        Bind::Unary(_, a) => {
            lemma_atom(a, pool, s);
        },
        Bind::Prim(_, l, r) => {
            lemma_atom(l, pool, s);
            lemma_atom(r, atom_lits(l, pool), s);
        },
        Bind::Ctor(_, fs) => {
            lemma_atoms(fs@, fs@.len(), pool, s);
        },
        Bind::Call(_, fs) => {
            lemma_atoms(fs@, fs@.len(), pool, s);
        },
        Bind::CtorReuse(_, _, fs) => {
            lemma_atoms(fs@, fs@.len(), pool, s);
        },
        Bind::MakeClosure(_, fs) => {
            lemma_atoms(fs@, fs@.len(), pool, s);
        },
        Bind::ApplyClosure(c, fs, _) => {
            lemma_atom(c, pool, s);
            lemma_atoms(fs@, fs@.len(), atom_lits(c, pool), s);
        },
        Bind::If(c, t, e) => {
            let p1 = atom_lits(c, pool);
            let p2 = iexpr_lits(*t, p1);
            lemma_atom(c, pool, s);
            literals_are_pooled(*t, p1, s);
            literals_are_pooled(*e, p2, s);
        },
        Bind::Match(x, arms) => {
            lemma_atom(x, pool, s);
            lemma_arms(arms@, arms@.len(), atom_lits(x, pool), s);
        },
    }
}

proof fn lemma_arms(arms: Seq<IArm>, n: nat, pool: Seq<Seq<char>>, s: Seq<char>)
    requires
        n <= arms.len(),
    ensures
        pooled(pool, arms_lits(arms, n, pool), in_arms(arms, n, s), s),
    decreases arms, n,
{
    if n > 0 {
        lemma_arms(arms, (n - 1) as nat, pool, s);
        literals_are_pooled(arms[n - 1].body, arms_lits(arms, (n - 1) as nat, pool), s);
    }
}

/// Every literal of an expression is in the pool, once, and only those and the
/// ones that were there before; the positions handed out before stay valid.
pub proof fn literals_are_pooled(e: IExpr, pool: Seq<Seq<char>>, s: Seq<char>)
    ensures
        pooled(pool, iexpr_lits(e, pool), in_iexpr(e, s), s),
    decreases e, 0nat,
{
    match e {
        IExpr::Ret(a) => {
            lemma_atom(a, pool, s);
        },
        IExpr::Let(_, b, body) => {
            lemma_bind(b, pool, s);
            literals_are_pooled(*body, bind_lits(b, pool), s);
        },
        IExpr::Dup(_, b) => {
            literals_are_pooled(*b, pool, s);
        },
        IExpr::Drop(_, b) => {
            literals_are_pooled(*b, pool, s);
        },
        IExpr::DropReuse(_, _, b) => {
            literals_are_pooled(*b, pool, s);
        },
        IExpr::TailCall(args) => {
            lemma_atoms(args@, args@.len(), pool, s);
        },
    }
}

/// No literal of a function is missing from the program's pool: its expression in C
/// always exists.
pub proof fn literals_are_found(
    names: Seq<Seq<char>>,
    n: nat,
    fns: Map<Seq<char>, IFn>,
    pool: Seq<Seq<char>>,
    k: int,
    a: Atom,
    types: Types,
)
    requires
        0 <= k < n <= names.len(),
        fns.contains_key(names[k]),
        a is Str,
        in_iexpr(fns[names[k]].body, a->Str_0@),
    ensures
        atom_code(a, types, fns_lits(names, n, fns, pool)) is Ok,
{
    lemma_fns(names, n, fns, pool, k, a->Str_0@);
    lemma_position(fns_lits(names, n, fns, pool), a->Str_0@);
}

proof fn lemma_fns(
    names: Seq<Seq<char>>,
    n: nat,
    fns: Map<Seq<char>, IFn>,
    pool: Seq<Seq<char>>,
    k: int,
    s: Seq<char>,
)
    requires
        0 <= k < n <= names.len(),
        fns.contains_key(names[k]),
        in_iexpr(fns[names[k]].body, s),
    ensures
        fns_lits(names, n, fns, pool).contains(s),
    decreases n,
{
    let before = fns_lits(names, (n - 1) as nat, fns, pool);
    if fns.contains_key(names[n - 1]) {
        literals_are_pooled(fns[names[n - 1]].body, before, s);
    }
    if k < n - 1 {
        lemma_fns(names, (n - 1) as nat, fns, pool, k, s);
    }
}

} // verus!
