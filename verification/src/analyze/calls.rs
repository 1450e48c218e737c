//! What a report says of the program, told by the program text alone: which calls
//! stand in which bodies, and what follows from them.

use vstd::prelude::*;
use vstd::string::*;

use crate::analyze::free::{free_at, references_are_free_occurrences};
use crate::analyze::graph::{connected, edge, is_path, leads};
use crate::analyze::laws::{
    called_at, edges_are_call_sites, first_entry, in_cycle, lemma_finite, lemma_function,
    lemma_named, names_user, recursion_is_in_one_cycle, types_are_the_tables,
};
use crate::analyze::refs::RefV;
use crate::analyze::{
    analysis, call_graph, callers_of, fn_refs, is_fn, is_target, is_user, last_decl,
    lemma_source_order, library_callees, param_scope, refs_of, source_order, type_at, typed_edge,
    unreachable_fns, unused_fns, user_callees, TypedV,
};
use crate::ast::{FnDecl, Item, Span};
use crate::builtins::builtin_names;
use crate::names::listing;
use crate::types::shown;

verus! {

/// Whether item `i` is a function of the name.
pub open spec fn fn_named(items: Seq<Item>, i: int, name: Seq<char>) -> bool {
    0 <= i < items.len() && items[i] is Fn && items[i]->Fn_0.name@ == name
}

/// Whether the program has a function of the name.
pub open spec fn has_fn(items: Seq<Item>, name: Seq<char>) -> bool {
    exists|i: int| #[trigger] fn_named(items, i, name)
}

/// Whether item `i` is the last function of the name.
pub open spec fn last_named(items: Seq<Item>, i: int, name: Seq<char>) -> bool {
    fn_named(items, i, name) && forall|j: int| i < j ==> !#[trigger] fn_named(items, j, name)
}

/// Whether a function is the user's: its last declaration stands on a line, and its
/// name is neither of the prelude nor holds a `$`.
pub open spec fn is_users(items: Seq<Item>, prelude: Seq<Seq<char>>, name: Seq<char>) -> bool {
    &&& !prelude.contains(name)
    &&& !name.contains('$')
    &&& exists|i: int| #[trigger] last_named(items, i, name) && items[i]->Fn_0.line != 0
}

/// Whether a function has a parameter of the name.
pub open spec fn has_param(f: FnDecl, name: Seq<char>) -> bool {
    exists|k: int| 0 <= k < f.params@.len() && (#[trigger] f.params@[k]).name@ == name
}

/// Whether an occurrence stands in the body of item `i`, outside the scope of every
/// local binder of its name.
pub open spec fn occurs_in(items: Seq<Item>, i: int, r: RefV) -> bool {
    !has_param(items[i]->Fn_0, r.name) && free_at(items[i]->Fn_0.body, r)
}

/// Whether a function refers to another: an occurrence of its name stands in a body.
pub open spec fn calls(items: Seq<Item>, f: Seq<char>, g: Seq<char>) -> bool {
    exists|i: int, r: RefV| #[trigger]
        fn_named(items, i, f) && r.name == g && #[trigger] occurs_in(items, i, r)
}

/// Whether each of the functions calls the next, which is the user's.
pub open spec fn chain(items: Seq<Item>, prelude: Seq<Seq<char>>, p: Seq<Seq<char>>) -> bool {
    &&& p.len() > 0
    &&& forall|k: int|
        0 <= k < p.len() - 1 ==> calls(items, #[trigger] p[k], p[k + 1]) && is_users(
            items,
            prelude,
            p[k + 1],
        )
}

// ---------------------------------------------------------------------------
// The program
// ---------------------------------------------------------------------------

proof fn lemma_has_fn(items: Seq<Item>, name: Seq<char>)
    ensures
        is_fn(items, name) <==> has_fn(items, name),
{
    if is_fn(items, name) {
        let i = choose|i: int|
            0 <= i < items.len() && i < items.len() && #[trigger] items[i] is Fn
                && items[i]->Fn_0.name@ == name;
        assert(fn_named(items, i, name));
    }
    if has_fn(items, name) {
        let i = choose|i: int| #[trigger] fn_named(items, i, name);
        assert(items[i] is Fn);
    }
}

proof fn lemma_last(items: Seq<Item>, n: nat, name: Seq<char>)
    requires
        n <= items.len(),
        forall|j: int| n <= j ==> !#[trigger] fn_named(items, j, name),
    ensures
        match last_decl(items, n, name) {
            Some(f) => exists|i: int| #[trigger]
                last_named(items, i, name) && items[i]->Fn_0 == f,
            None => !has_fn(items, name),
        },
    decreases n,
{
    if n > 0 {
        if fn_named(items, n - 1, name) {
            assert(last_named(items, n - 1, name));
        } else {
            assert forall|j: int| n - 1 <= j implies !#[trigger] fn_named(items, j, name) by {
                if j > n - 1 {
                    assert(n <= j);
                }
            }
            lemma_last(items, (n - 1) as nat, name);
        }
    }
}

proof fn lemma_users(items: Seq<Item>, prelude: Seq<Seq<char>>, name: Seq<char>)
    ensures
        is_users(items, prelude, name) <==> is_user(items, prelude, name),
        is_users(items, prelude, name) ==> is_fn(items, name),
{
    lemma_has_fn(items, name);
    lemma_last(items, items.len(), name);
    if is_users(items, prelude, name) {
        let i = choose|i: int| #[trigger]
            last_named(items, i, name) && items[i]->Fn_0.line != 0;
        assert(fn_named(items, i, name));
        let f = last_decl(items, items.len(), name)->0;
        let j = choose|j: int| #[trigger] last_named(items, j, name) && items[j]->Fn_0 == f;
        assert(fn_named(items, j, name));
        assert(i == j);
    }
}

proof fn lemma_param(f: FnDecl, name: Seq<char>)
    ensures
        has_param(f, name) <==> param_scope(f.params@).contains(name),
{
    let sc = param_scope(f.params@);
    if has_param(f, name) {
        let k = choose|k: int| 0 <= k < f.params@.len() && (#[trigger] f.params@[k]).name@ == name;
        assert(sc[k] == name);
    }
    if sc.contains(name) {
        let k = choose|k: int| 0 <= k < sc.len() && sc[k] == name;
        assert(f.params@[k].name@ == name);
    }
}

proof fn lemma_refs(items: Seq<Item>, n: nat, name: Seq<char>, r: RefV)
    requires
        n <= items.len(),
    ensures
        fn_refs(items, n, name).contains(r) <==> exists|i: int|
            i < n && #[trigger] fn_named(items, i, name) && occurs_in(items, i, r),
    decreases n,
{
    if n > 0 {
        let before = fn_refs(items, (n - 1) as nat, name);
        lemma_refs(items, (n - 1) as nat, name, r);
        if fn_named(items, n - 1, name) {
            let f = items[n - 1]->Fn_0;
            lemma_param(f, r.name);
            references_are_free_occurrences(f.body, param_scope(f.params@), before, r);
        }
        if exists|i: int| i < n - 1 && #[trigger] fn_named(items, i, name) && occurs_in(items, i, r) {
            let i = choose|i: int|
                i < n - 1 && #[trigger] fn_named(items, i, name) && occurs_in(items, i, r);
            assert(fn_named(items, i, name));
        }
    }
}

/// The references of a function are the free occurrences in its bodies.
pub proof fn references_stand_in_bodies(items: Seq<Item>, name: Seq<char>, r: RefV)
    ensures
        refs_of(items, name).contains(r) <==> exists|i: int| #[trigger]
            fn_named(items, i, name) && occurs_in(items, i, r),
{
    lemma_refs(items, items.len(), name, r);
}

proof fn lemma_mentions(items: Seq<Item>, f: Seq<char>, g: Seq<char>)
    ensures
        calls(items, f, g) <==> crate::analyze::mentions(refs_of(items, f), g),
{
    let refs = refs_of(items, f);
    if calls(items, f, g) {
        let (i, r) = choose|i: int, r: RefV| #[trigger]
            fn_named(items, i, f) && r.name == g && #[trigger] occurs_in(items, i, r);
        references_stand_in_bodies(items, f, r);
        let k = choose|k: int| 0 <= k < refs.len() && refs[k] == r;
        assert(refs[k].name == g);
    }
    if crate::analyze::mentions(refs, g) {
        let k = choose|k: int| 0 <= k < refs.len() && (#[trigger] refs[k]).name == g;
        assert(refs.contains(refs[k]));
        references_stand_in_bodies(items, f, refs[k]);
        let i = choose|i: int| #[trigger] fn_named(items, i, f) && occurs_in(items, i, refs[k]);
        assert(fn_named(items, i, f) && occurs_in(items, i, refs[k]));
    }
}

// ---------------------------------------------------------------------------
// The functions of the report
// ---------------------------------------------------------------------------

/// A report has the functions of the program, each once, and says of each whether it
/// is the user's.
pub proof fn report_has_the_functions(
    items: Seq<Item>,
    prelude: Seq<Seq<char>>,
    types: Option<Seq<(Span, String)>>,
    x: Seq<char>,
)
    ensures
        ({
            let r = analysis(items, prelude, types);
            &&& has_fn(items, x) <==> exists|k: int|
                0 <= k < r.functions.len() && (#[trigger] r.functions[k]).name == x
            &&& forall|k: int, m: int|
                0 <= k < m < r.functions.len() ==> (#[trigger] r.functions[k]).name
                    != (#[trigger] r.functions[m]).name
            &&& forall|k: int|
                0 <= k < r.functions.len() ==> ((#[trigger] r.functions[k]).user <==> is_users(
                    items,
                    prelude,
                    r.functions[k].name,
                ))
            &&& names_user(r, x) <==> is_users(items, prelude, x)
            &&& r.entry == (if has_fn(items, "main"@) {
                Some("main"@)
            } else {
                None
            })
        }),
{
    let r = analysis(items, prelude, types);
    let order = source_order(items, items.len());
    lemma_has_fn(items, x);
    lemma_has_fn(items, "main"@);
    lemma_source_order(items, items.len());
    if has_fn(items, x) {
        assert(order.contains(x));
        let k = choose|k: int| 0 <= k < order.len() && order[k] == x;
        assert(r.functions[k].name == x);
    }
    assert forall|k: int| 0 <= k < r.functions.len() implies is_fn(
        items,
        (#[trigger] r.functions[k]).name,
    ) && r.functions[k].name == order[k] by {
        lemma_function(items, prelude, types, k);
    }
    assert forall|k: int| 0 <= k < r.functions.len() implies ((#[trigger] r.functions[k]).user
        <==> is_users(items, prelude, r.functions[k].name)) by {
        lemma_function(items, prelude, types, k);
        lemma_users(items, prelude, r.functions[k].name);
    }
    assert forall|k: int, m: int| 0 <= k < m < r.functions.len() implies (
    #[trigger] r.functions[k]).name != (#[trigger] r.functions[m]).name by {
        assert(order[k] != order[m]);
    }
    lemma_users(items, prelude, x);
    if is_users(items, prelude, x) {
        lemma_named(items, prelude, types, x);
    }
}

/// A report has a call as an edge if and only if it stands in the program: the
/// callees of a function are the user functions that occur free in its bodies, in
/// whatever part of them, its library callees the other functions and the builtins
/// that do, and its callers the functions in whose bodies it occurs.
pub proof fn edges_are_the_calls(
    items: Seq<Item>,
    prelude: Seq<Seq<char>>,
    types: Option<Seq<(Span, String)>>,
    i: int,
    g: Seq<char>,
)
    requires
        0 <= i < analysis(items, prelude, types).functions.len(),
    ensures
        ({
            let f = analysis(items, prelude, types).functions[i];
            &&& f.callees.contains(g) <==> is_users(items, prelude, g) && calls(items, f.name, g)
            &&& f.lib_callees.contains(g) <==> calls(items, f.name, g) && (if has_fn(items, g) {
                !is_users(items, prelude, g)
            } else {
                builtin_names().contains(g)
            })
            &&& f.callers.contains(g) <==> is_users(items, prelude, f.name) && calls(
                items,
                g,
                f.name,
            )
        }),
{
    let f = analysis(items, prelude, types).functions[i];
    lemma_function(items, prelude, types, i);
    lemma_finite(items, prelude, f.name);
    listing(user_callees(items, prelude, f.name));
    listing(library_callees(items, prelude, f.name));
    listing(callers_of(items, prelude, f.name));
    lemma_users(items, prelude, g);
    lemma_users(items, prelude, f.name);
    lemma_has_fn(items, g);
    lemma_mentions(items, f.name, g);
    lemma_mentions(items, g, f.name);
    assert(callers_of(items, prelude, f.name).contains(g) <==> edge(
        call_graph(items, prelude),
        g,
        f.name,
    ));
    if calls(items, g, f.name) {
        let (k, r) = choose|k: int, r: RefV| #[trigger]
            fn_named(items, k, g) && r.name == f.name && #[trigger] occurs_in(items, k, r);
        assert(fn_named(items, k, g));
    }
}

proof fn lemma_edge(items: Seq<Item>, prelude: Seq<Seq<char>>, a: Seq<char>, b: Seq<char>)
    ensures
        edge(call_graph(items, prelude), a, b) <==> calls(items, a, b) && is_users(
            items,
            prelude,
            b,
        ),
{
    lemma_users(items, prelude, b);
    lemma_mentions(items, a, b);
    lemma_has_fn(items, a);
    if calls(items, a, b) {
        let (k, r) = choose|k: int, r: RefV| #[trigger]
            fn_named(items, k, a) && r.name == b && #[trigger] occurs_in(items, k, r);
        assert(fn_named(items, k, a));
    }
}

proof fn lemma_chain(items: Seq<Item>, prelude: Seq<Seq<char>>, p: Seq<Seq<char>>)
    ensures
        is_path(call_graph(items, prelude), p) <==> chain(items, prelude, p),
{
    let g = call_graph(items, prelude);
    assert forall|k: int| 0 <= k < p.len() - 1 implies (edge(g, #[trigger] p[k], p[k + 1])
        <==> calls(items, p[k], p[k + 1]) && is_users(items, prelude, p[k + 1])) by {
        lemma_edge(items, prelude, p[k], p[k + 1]);
    }
}

/// Whether a chain of calls leads from one function to another, in at least `n`
/// steps.
pub open spec fn reaches(
    items: Seq<Item>,
    prelude: Seq<Seq<char>>,
    a: Seq<char>,
    b: Seq<char>,
    n: nat,
) -> bool {
    exists|p: Seq<Seq<char>>| #[trigger]
        chain(items, prelude, p) && p.len() > n && p[0] == a && p.last() == b
}

proof fn lemma_reaches(items: Seq<Item>, prelude: Seq<Seq<char>>, a: Seq<char>, b: Seq<char>)
    ensures
        reaches(items, prelude, a, b, 0) <==> connected(call_graph(items, prelude), a, b),
        reaches(items, prelude, a, b, 1) <==> leads(call_graph(items, prelude), a, b),
{
    let g = call_graph(items, prelude);
    assert forall|p: Seq<Seq<char>>| #[trigger] is_path(g, p) <==> chain(items, prelude, p) by {
        lemma_chain(items, prelude, p);
    }
    if reaches(items, prelude, a, b, 0) {
        let p = choose|p: Seq<Seq<char>>| #[trigger]
            chain(items, prelude, p) && p.len() > 0 && p[0] == a && p.last() == b;
        assert(is_path(g, p));
    }
    if connected(g, a, b) {
        let p = choose|p: Seq<Seq<char>>| #[trigger] is_path(g, p) && p[0] == a && p.last() == b;
        assert(chain(items, prelude, p));
    }
    if reaches(items, prelude, a, b, 1) {
        let p = choose|p: Seq<Seq<char>>| #[trigger]
            chain(items, prelude, p) && p.len() > 1 && p[0] == a && p.last() == b;
        assert(is_path(g, p));
        let q = p.drop_first();
        assert forall|k: int| 0 <= k < q.len() - 1 implies edge(g, #[trigger] q[k], q[k + 1]) by {
            assert(edge(g, p[k + 1], p[k + 2]));
        }
        assert(is_path(g, q) && q[0] == p[1] && q.last() == b);
        assert(edge(g, p[0int], p[0int + 1]));
    }
    if leads(g, a, b) {
        let c = choose|c: Seq<char>| #[trigger] edge(g, a, c) && connected(g, c, b);
        let q = choose|q: Seq<Seq<char>>| #[trigger] is_path(g, q) && q[0] == c && q.last() == b;
        let p = seq![a] + q;
        assert forall|k: int| 0 <= k < p.len() - 1 implies edge(g, #[trigger] p[k], p[k + 1]) by {
            if k > 0 {
                assert(edge(g, q[k - 1], q[k]));
            }
        }
        assert(is_path(g, p) && p[0] == a && p.last() == b);
    }
}

/// Dead code and recursion, told by the calls: unused is what the user wrote, no body
/// calls and is not `main`; unreachable is what the user wrote and no chain of calls
/// leads to from `main`; and a function stands in a cycle if and only if it is the
/// user's and a chain of calls leads from it back to it.
pub proof fn dead_code_and_cycles_follow_the_calls(
    items: Seq<Item>,
    prelude: Seq<Seq<char>>,
    types: Option<Seq<(Span, String)>>,
    x: Seq<char>,
)
    ensures
        ({
            let r = analysis(items, prelude, types);
            &&& r.unused.contains(x) <==> is_users(items, prelude, x) && x != "main"@ && forall|
                f: Seq<char>,
            |
                !#[trigger] calls(items, f, x)
            &&& r.unreachable.contains(x) <==> has_fn(items, "main"@) && is_users(
                items,
                prelude,
                x,
            ) && !reaches(items, prelude, "main"@, x, 0)
            &&& in_cycle(r, x) <==> is_users(items, prelude, x) && reaches(
                items,
                prelude,
                x,
                x,
                1,
            )
        }),
{
    let r = analysis(items, prelude, types);
    lemma_finite(items, prelude, x);
    listing(unused_fns(items, prelude));
    listing(unreachable_fns(items, prelude));
    lemma_users(items, prelude, x);
    lemma_has_fn(items, "main"@);
    lemma_reaches(items, prelude, "main"@, x);
    lemma_reaches(items, prelude, x, x);
    report_has_the_functions(items, prelude, types, x);
    recursion_is_in_one_cycle(items, prelude, types, x);
    if is_users(items, prelude, x) {
        assert forall|f: Seq<char>| #[trigger] calls(items, f, x) <==> callers_of(
            items,
            prelude,
            x,
        ).contains(f) by {
            lemma_edge(items, prelude, f, x);
        }
        assert(unused_fns(items, prelude).contains(x) <==> x != "main"@ && forall|f: Seq<char>|
            !#[trigger] callers_of(items, prelude, x).contains(f));
        if forall|f: Seq<char>| !#[trigger] callers_of(items, prelude, x).contains(f) {
            assert forall|f: Seq<char>| !#[trigger] calls(items, f, x) by {
                assert(!callers_of(items, prelude, x).contains(f));
            }
        }
        if forall|f: Seq<char>| !#[trigger] calls(items, f, x) {
            assert forall|f: Seq<char>| !#[trigger] callers_of(items, prelude, x).contains(f) by {
                assert(!calls(items, f, x));
            }
        }
    }
}

// ---------------------------------------------------------------------------
// Sites, types and signatures
// ---------------------------------------------------------------------------

/// Whether an entry of a table is the type of a span, or there is none.
pub open spec fn typed_by(types: Seq<(Span, String)>, span: Span, t: Option<Seq<char>>) -> bool {
    match t {
        Some(x) => span.start_line != 0 && exists|i: int| #[trigger]
            first_entry(types, span, i) && types[i].1@ == x,
        None => span.start_line == 0 || forall|i: int|
            0 <= i < types.len() ==> (#[trigger] types[i]).0 != span,
    }
}

/// Whether a typed site is that of an occurrence: its name, its position, and the
/// table's types of its arguments and of itself.
pub open spec fn site_of(types: Seq<(Span, String)>, r: RefV, y: TypedV) -> bool {
    &&& y.callee == r.name
    &&& y.line == r.span.start_line
    &&& y.col == r.span.start_col
    &&& y.arg_types.len() == r.args.len()
    &&& forall|k: int|
        0 <= k < r.args.len() ==> typed_by(types, #[trigger] r.args[k], y.arg_types[k])
    &&& typed_by(types, r.span, y.result_type)
}

/// Whether an occurrence with a position stands in a body of the function and names a
/// function or a builtin.
pub open spec fn call_of(items: Seq<Item>, f: Seq<char>, r: RefV) -> bool {
    &&& r.span.start_line != 0
    &&& has_fn(items, r.name) || builtin_names().contains(r.name)
    &&& exists|i: int| #[trigger] fn_named(items, i, f) && occurs_in(items, i, r)
}

/// The call sites of a function are the positions of the calls in its bodies, and its
/// typed sites are those calls with the types of the table.
pub proof fn sites_are_the_calls(
    items: Seq<Item>,
    prelude: Seq<Seq<char>>,
    types: Seq<(Span, String)>,
    i: int,
    g: Seq<char>,
    pos: (u32, u32),
    r: RefV,
)
    requires
        0 <= i < analysis(items, prelude, Some(types)).functions.len(),
    ensures
        ({
            let f = analysis(items, prelude, Some(types)).functions[i];
            &&& called_at(f.call_sites, g, pos) <==> exists|o: RefV| #[trigger]
                call_of(items, f.name, o) && o.name == g && (o.span.start_line, o.span.start_col)
                    == pos
            &&& call_of(items, f.name, r) ==> exists|k: int|
                0 <= k < f.typed_sites.len() && site_of(types, r, #[trigger] f.typed_sites[k])
            &&& forall|k: int|
                0 <= k < f.typed_sites.len() ==> exists|o: RefV| #[trigger]
                    call_of(items, f.name, o) && site_of(types, o, #[trigger] f.typed_sites[k])
        }),
{
    let f = analysis(items, prelude, Some(types)).functions[i];
    let refs = refs_of(items, f.name);
    lemma_function(items, prelude, Some(types), i);
    edges_are_call_sites(items, refs, types, g, pos);
    let edges = f.typed_sites;
    assert forall|o: RefV| #[trigger] call_of(items, f.name, o) implies edges.contains(
        typed_edge(o, types),
    ) && site_of(types, o, typed_edge(o, types)) by {
        references_stand_in_bodies(items, f.name, o);
        lemma_has_fn(items, o.name);
        let m = choose|m: int| 0 <= m < refs.len() && refs[m] == o;
        assert(refs[m].span.located());
        lemma_site(types, o);
    }
    assert forall|k: int| 0 <= k < edges.len() implies exists|o: RefV| #[trigger]
        call_of(items, f.name, o) && site_of(types, o, #[trigger] edges[k]) && edges[k]
            == typed_edge(o, types) by {
        assert(edges.contains(edges[k]));
        let m = choose|m: int|
            0 <= m < refs.len() && (#[trigger] refs[m]).span.located() && is_target(
                items,
                refs[m].name,
            ) && edges[k] == typed_edge(refs[m], types);
        let o = refs[m];
        assert(refs.contains(o));
        references_stand_in_bodies(items, f.name, o);
        lemma_has_fn(items, o.name);
        lemma_site(types, o);
        assert(call_of(items, f.name, o));
    }
    if call_of(items, f.name, r) {
        let k = choose|k: int| 0 <= k < edges.len() && edges[k] == typed_edge(r, types);
        assert(site_of(types, r, edges[k]));
    }
    if called_at(f.call_sites, g, pos) {
        let k = choose|k: int|
            0 <= k < edges.len() && (#[trigger] edges[k]).callee == g && (
            edges[k].line,
            edges[k].col,
        ) == pos;
        let o = choose|o: RefV| #[trigger]
            call_of(items, f.name, o) && site_of(types, o, edges[k]);
        assert(call_of(items, f.name, o) && o.name == g);
    }
    if exists|o: RefV| #[trigger]
        call_of(items, f.name, o) && o.name == g && (o.span.start_line, o.span.start_col) == pos {
        let o = choose|o: RefV| #[trigger]
            call_of(items, f.name, o) && o.name == g && (o.span.start_line, o.span.start_col)
                == pos;
        let k = choose|k: int| 0 <= k < edges.len() && edges[k] == typed_edge(o, types);
        assert(edges[k].callee == g);
    }
}

proof fn lemma_site(types: Seq<(Span, String)>, r: RefV)
    ensures
        site_of(types, r, typed_edge(r, types)),
{
    let y = typed_edge(r, types);
    types_are_the_tables(types, r.span);
    assert forall|k: int| 0 <= k < r.args.len() implies typed_by(
        types,
        #[trigger] r.args[k],
        y.arg_types[k],
    ) by {
        types_are_the_tables(types, r.args[k]);
        assert(y.arg_types[k] == type_at(types, r.args[k]));
    }
}

/// The signature and the line of a function are those of its last declaration.
pub proof fn signatures_are_declared(
    items: Seq<Item>,
    prelude: Seq<Seq<char>>,
    types: Option<Seq<(Span, String)>>,
    i: int,
)
    requires
        0 <= i < analysis(items, prelude, types).functions.len(),
    ensures
        ({
            let f = analysis(items, prelude, types).functions[i];
            exists|k: int| #[trigger]
                last_named(items, k, f.name) && {
                    let d = items[k]->Fn_0;
                    &&& f.line == d.line
                    &&& f.signature.ret == shown(d.ret)
                    &&& f.signature.params.len() == d.params@.len()
                    &&& forall|j: int|
                        0 <= j < d.params@.len() ==> #[trigger] f.signature.params[j] == (
                            d.params@[j].name@,
                            shown(d.params@[j].ty),
                        )
                    &&& f.signature.type_params.len() == d.type_params@.len()
                    &&& forall|j: int|
                        0 <= j < d.type_params@.len() ==> #[trigger] f.signature.type_params[j]
                            == d.type_params@[j]@
                }
        }),
{
    let f = analysis(items, prelude, types).functions[i];
    lemma_function(items, prelude, types, i);
    lemma_has_fn(items, f.name);
    lemma_last(items, items.len(), f.name);
    let d = last_decl(items, items.len(), f.name)->0;
    let k = choose|k: int| #[trigger] last_named(items, k, f.name) && items[k]->Fn_0 == d;
    assert(last_named(items, k, f.name));
}

} // verus!
