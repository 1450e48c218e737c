//! What holds of every call-graph report.

use vstd::prelude::*;
use vstd::string::*;

use crate::analyze::graph::{
    component, components_disjoint, connected, cycles, edge, first_of_group, is_path, leads,
    lemma_connected_refl, lemma_group_first, recursive_iff, Graph,
};
use crate::analyze::refs::RefV;
use crate::analyze::{
    analysis, call_graph, call_sites, callers_of, edge_added, edge_lt, fn_facts, is_fn, is_target,
    lemma_source_order, library_callees, located_targets, pos_lt, positions, positions_sorted,
    refs_of, source_order, type_at, typed_edge, typed_edges, unreachable_fns, unused_fns,
    unused_is_unreachable, user_callees, user_fns, GraphV, TypedV,
};
use crate::ast::{Item, Span};
use crate::builtins::builtin_names;
use crate::names::{increasing, listed, listing};
use crate::text::{lemma_lex_asym, lemma_lex_total, lemma_lex_trans, lex_lt};

verus! {

/// Whether a function of the report is the user's and has the name.
pub open spec fn names_user(r: GraphV, x: Seq<char>) -> bool {
    exists|k: int|
        0 <= k < r.functions.len() && (#[trigger] r.functions[k]).name == x && r.functions[k].user
}

/// Whether one of the typed edges is a call of the callee at the position.
pub open spec fn typed_at(edges: Seq<TypedV>, callee: Seq<char>, pos: (u32, u32)) -> bool {
    exists|k: int|
        0 <= k < edges.len() && (#[trigger] edges[k]).callee == callee && (
        edges[k].line,
        edges[k].col,
    ) == pos
}

/// Whether the call sites hold a call of the callee at the position.
pub open spec fn called_at(
    sites: Seq<(Seq<char>, Seq<(u32, u32)>)>,
    callee: Seq<char>,
    pos: (u32, u32),
) -> bool {
    exists|k: int|
        0 <= k < sites.len() && (#[trigger] sites[k]).0 == callee && sites[k].1.contains(pos)
}

/// Positions in strictly increasing order.
pub open spec fn positions_increase(s: Seq<(u32, u32)>) -> bool {
    forall|i: int, j: int| 0 <= i < j < s.len() ==> pos_lt(#[trigger] s[i], #[trigger] s[j])
}

// ---------------------------------------------------------------------------
// The lists of the report
// ---------------------------------------------------------------------------

/// The sets that the report lists are finite.
pub(crate) proof fn lemma_finite(items: Seq<Item>, prelude: Seq<Seq<char>>, name: Seq<char>)
    ensures
        user_callees(items, prelude, name).finite(),
        library_callees(items, prelude, name).finite(),
        callers_of(items, prelude, name).finite(),
        user_fns(items, prelude).finite(),
        unused_fns(items, prelude).finite(),
        unreachable_fns(items, prelude).finite(),
        located_targets(items, refs_of(items, name)).finite(),
{
    let order = source_order(items, items.len());
    let fns = order.to_set();
    let both = fns.union(builtin_names().to_set());
    lemma_source_order(items, items.len());
    vstd::seq_lib::seq_to_set_is_finite(order);
    vstd::seq_lib::seq_to_set_is_finite(builtin_names());
    assert forall|x: Seq<char>| is_fn(items, x) implies #[trigger] fns.contains(x) by {
        assert(order.contains(x));
    }
    assert forall|x: Seq<char>| is_target(items, x) implies #[trigger] both.contains(x) by {
        if is_fn(items, x) {
            assert(fns.contains(x));
        }
    }
    vstd::set_lib::lemma_len_subset(user_callees(items, prelude, name), fns);
    assert(library_callees(items, prelude, name).subset_of(both)) by {
        assert forall|x: Seq<char>| library_callees(items, prelude, name).contains(
            x,
        ) implies both.contains(x) by {
            assert(is_target(items, x));
        }
    }
    vstd::set_lib::lemma_len_subset(library_callees(items, prelude, name), both);
    vstd::set_lib::lemma_len_subset(callers_of(items, prelude, name), fns);
    vstd::set_lib::lemma_len_subset(user_fns(items, prelude), fns);
    vstd::set_lib::lemma_len_subset(unused_fns(items, prelude), fns);
    vstd::set_lib::lemma_len_subset(unreachable_fns(items, prelude), fns);
    vstd::set_lib::lemma_len_subset(located_targets(items, refs_of(items, name)), both);
}

/// The functions of the report are those of the program.
pub(crate) proof fn lemma_function(
    items: Seq<Item>,
    prelude: Seq<Seq<char>>,
    types: Option<Seq<(Span, String)>>,
    i: int,
)
    requires
        0 <= i < analysis(items, prelude, types).functions.len(),
    ensures
        ({
            let f = analysis(items, prelude, types).functions[i];
            f == fn_facts(items, prelude, types, f.name) && is_fn(items, f.name)
        }),
{
    let order = source_order(items, items.len());
    lemma_source_order(items, items.len());
    assert(order.contains(order[i]));
}

pub(crate) proof fn lemma_named(
    items: Seq<Item>,
    prelude: Seq<Seq<char>>,
    types: Option<Seq<(Span, String)>>,
    x: Seq<char>,
)
    requires
        user_fns(items, prelude).contains(x),
    ensures
        names_user(analysis(items, prelude, types), x),
{
    let r = analysis(items, prelude, types);
    let order = source_order(items, items.len());
    lemma_source_order(items, items.len());
    assert(order.contains(x));
    let k = choose|k: int| 0 <= k < order.len() && order[k] == x;
    assert(r.functions[k].name == x && r.functions[k].user);
}

/// The facts of any two functions of a report fit together: one calls the other as
/// its callee if and only if it is among the other's callers, the counts are those
/// of the lists, and a function is recursive if and only if it is its own callee.
/// Every list is in increasing order, so that nothing occurs twice in it; callees
/// are user functions, and none is a library callee as well.
pub proof fn facts_agree(
    items: Seq<Item>,
    prelude: Seq<Seq<char>>,
    types: Option<Seq<(Span, String)>>,
    i: int,
    j: int,
)
    requires
        0 <= i < analysis(items, prelude, types).functions.len(),
        0 <= j < analysis(items, prelude, types).functions.len(),
    ensures
        ({
            let r = analysis(items, prelude, types);
            let f = r.functions[i];
            let h = r.functions[j];
            &&& f.callees.contains(h.name) <==> h.callers.contains(f.name)
            &&& f.fan_in == f.callers.len()
            &&& f.fan_out == f.callees.len()
            &&& f.recursive <==> f.callees.contains(f.name)
            &&& increasing(f.callees)
            &&& increasing(f.lib_callees)
            &&& increasing(f.callers)
            &&& forall|x: Seq<char>| #[trigger] f.callees.contains(x) ==> names_user(r, x)
            &&& forall|x: Seq<char>| #[trigger]
                f.callees.contains(x) ==> !f.lib_callees.contains(x)
        }),
{
    let r = analysis(items, prelude, types);
    let f = r.functions[i];
    let h = r.functions[j];
    lemma_function(items, prelude, types, i);
    lemma_function(items, prelude, types, j);
    lemma_finite(items, prelude, f.name);
    lemma_finite(items, prelude, h.name);
    listing(user_callees(items, prelude, f.name));
    listing(library_callees(items, prelude, f.name));
    listing(callers_of(items, prelude, f.name));
    listing(callers_of(items, prelude, h.name));
    assert forall|x: Seq<char>| #[trigger] f.callees.contains(x) implies names_user(r, x)
        && !f.lib_callees.contains(x) by {
        assert(user_callees(items, prelude, f.name).contains(x));
        lemma_named(items, prelude, types, x);
    }
}

/// The dead code of a report: a function is unused if and only if it is the user's,
/// is not `main` and has no callers. What is unreachable is the user's, and what is
/// unused is unreachable where there is a `main`. Both lists are in increasing
/// order.
pub proof fn dead_code_is_user_code(
    items: Seq<Item>,
    prelude: Seq<Seq<char>>,
    types: Option<Seq<(Span, String)>>,
    x: Seq<char>,
)
    ensures
        ({
            let r = analysis(items, prelude, types);
            &&& r.unused.contains(x) ==> names_user(r, x)
            &&& r.unreachable.contains(x) ==> names_user(r, x)
            &&& r.entry is Some && r.unused.contains(x) ==> r.unreachable.contains(x)
            &&& r.entry is None ==> r.unreachable.len() == 0
            &&& increasing(r.unused)
            &&& increasing(r.unreachable)
            &&& forall|i: int|
                0 <= i < r.functions.len() ==> (r.unused.contains(
                    (#[trigger] r.functions[i]).name,
                ) <==> r.functions[i].user && r.functions[i].name != "main"@
                    && r.functions[i].callers.len() == 0)
        }),
{
    let r = analysis(items, prelude, types);
    lemma_finite(items, prelude, x);
    listing(unused_fns(items, prelude));
    listing(unreachable_fns(items, prelude));
    if r.unused.contains(x) {
        assert(unused_fns(items, prelude).contains(x));
        lemma_named(items, prelude, types, x);
        if r.entry is Some {
            unused_is_unreachable(items, prelude, x);
            assert(unreachable_fns(items, prelude).contains(x));
        }
    }
    if r.unreachable.contains(x) {
        assert(unreachable_fns(items, prelude).contains(x));
        lemma_named(items, prelude, types, x);
    }
    if r.entry is None && r.unreachable.len() > 0 {
        assert(r.unreachable.contains(r.unreachable[0]));
        assert(unreachable_fns(items, prelude).contains(r.unreachable[0]));
    }
    assert forall|i: int| 0 <= i < r.functions.len() implies (r.unused.contains(
        (#[trigger] r.functions[i]).name,
    ) <==> r.functions[i].user && r.functions[i].name != "main"@ && r.functions[i].callers.len()
        == 0) by {
        let f = r.functions[i];
        let callers = callers_of(items, prelude, f.name);
        lemma_function(items, prelude, types, i);
        lemma_finite(items, prelude, f.name);
        listing(callers);
        assert(r.unused.contains(f.name) <==> unused_fns(items, prelude).contains(f.name));
        if f.callers.len() == 0 {
            assert forall|c: Seq<char>| !#[trigger] callers.contains(c) by {
                assert(!f.callers.contains(c));
            }
        } else {
            assert(f.callers.contains(f.callers[0]));
            assert(callers.contains(f.callers[0]));
        }
    }
}

// ---------------------------------------------------------------------------
// Positions
// ---------------------------------------------------------------------------

proof fn lemma_positions(refs: Seq<RefV>, n: nat, name: Seq<char>)
    requires
        n <= refs.len(),
    ensures
        positions_increase(positions(refs, n, name)),
        forall|p: (u32, u32)| #[trigger]
            positions(refs, n, name).contains(p) <==> exists|m: int|
                0 <= m < n && (#[trigger] refs[m]).name == name && refs[m].span.located() && p == (
                refs[m].span.start_line,
                refs[m].span.start_col,
            ),
    decreases n,
{
    if n > 0 {
        lemma_positions(refs, (n - 1) as nat, name);
        let before = positions(refs, (n - 1) as nat, name);
        let r = refs[n - 1];
        if r.name == name && r.span.located() {
            positions_sorted(before, (r.span.start_line, r.span.start_col));
        }
        assert forall|p: (u32, u32)| #[trigger] positions(refs, n, name).contains(p)
            <==> exists|m: int|
            0 <= m < n && (#[trigger] refs[m]).name == name && refs[m].span.located() && p == (
                refs[m].span.start_line,
                refs[m].span.start_col,
            ) by {
            if before.contains(p) {
                let m = choose|m: int|
                    0 <= m < n - 1 && (#[trigger] refs[m]).name == name && refs[m].span.located()
                        && p == (refs[m].span.start_line, refs[m].span.start_col);
                assert(refs[m].name == name);
            }
            if r.name == name && r.span.located() && p == (r.span.start_line, r.span.start_col) {
                assert(refs[n - 1].name == name);
            }
        }
    }
}

/// Whether the list is sorted by position and then by callee.
pub open spec fn edges_sorted(s: Seq<TypedV>) -> bool {
    forall|i: int, j: int| 0 <= i < j < s.len() ==> !edge_lt(#[trigger] s[j], #[trigger] s[i])
}

proof fn lemma_edge_trans(a: TypedV, b: TypedV, c: TypedV)
    requires
        !edge_lt(b, a),
        !edge_lt(c, b),
    ensures
        !edge_lt(c, a),
{
    lemma_lex_total(a.callee, b.callee);
    lemma_lex_total(b.callee, c.callee);
    if edge_lt(c, a) && c.line == a.line && c.col == a.col {
        if lex_lt(a.callee, b.callee) {
            lemma_lex_trans(c.callee, a.callee, b.callee);
        } else if a.callee == b.callee {
            assert(lex_lt(c.callee, b.callee));
        }
    }
}

proof fn lemma_edge_added(s: Seq<TypedV>, x: TypedV)
    requires
        edges_sorted(s),
    ensures
        edges_sorted(edge_added(s, x)),
        forall|y: TypedV| #[trigger] edge_added(s, x).contains(y) <==> s.contains(y) || y == x,
    decreases s.len(),
{
    let t = edge_added(s, x);
    if s.len() == 0 || !edge_lt(x, s.last()) {
        assert forall|i: int, j: int| 0 <= i < j < t.len() implies !edge_lt(
            #[trigger] t[j],
            #[trigger] t[i],
        ) by {
            if j == s.len() && i < s.len() - 1 {
                lemma_edge_trans(s[i], s[s.len() - 1], x);
            }
        }
        assert forall|y: TypedV| #[trigger] t.contains(y) <==> s.contains(y) || y == x by {
            if s.contains(y) {
                let k = choose|k: int| 0 <= k < s.len() && s[k] == y;
                assert(t[k] == y);
            }
            assert(t[s.len() as int] == x);
        }
    } else {
        let d = s.drop_last();
        let u = edge_added(d, x);
        lemma_edge_added(d, x);
        assert forall|i: int, j: int| 0 <= i < j < t.len() implies !edge_lt(
            #[trigger] t[j],
            #[trigger] t[i],
        ) by {
            if j < u.len() {
                assert(!edge_lt(u[j], u[i]));
            } else {
                assert(u.contains(u[i]));
                if u[i] == x {
                    lemma_edge_asym(x, s.last());
                } else {
                    let k = choose|k: int| 0 <= k < d.len() && d[k] == u[i];
                    assert(!edge_lt(s[s.len() - 1], s[k]));
                }
            }
        }
        assert forall|y: TypedV| #[trigger] t.contains(y) <==> s.contains(y) || y == x by {
            if t.contains(y) {
                let k = choose|k: int| 0 <= k < t.len() && t[k] == y;
                if k < u.len() {
                    assert(u.contains(u[k]));
                    if d.contains(y) {
                        let m = choose|m: int| 0 <= m < d.len() && d[m] == y;
                        assert(s[m] == y);
                    }
                } else {
                    assert(s[s.len() - 1] == y);
                }
            }
            if s.contains(y) {
                let m = choose|m: int| 0 <= m < s.len() && s[m] == y;
                if m < d.len() {
                    assert(d[m] == y);
                    assert(u.contains(y));
                } else {
                    assert(t[u.len() as int] == y);
                }
            }
            if y == x {
                assert(u.contains(x));
            }
            if u.contains(y) {
                let m = choose|m: int| 0 <= m < u.len() && u[m] == y;
                assert(t[m] == y);
            }
        }
    }
}

proof fn lemma_edge_asym(a: TypedV, b: TypedV)
    requires
        edge_lt(a, b),
    ensures
        !edge_lt(b, a),
{
    if lex_lt(a.callee, b.callee) {
        lemma_lex_asym(a.callee, b.callee);
    }
}

proof fn lemma_typed_edges(
    items: Seq<Item>,
    refs: Seq<RefV>,
    n: nat,
    types: Seq<(Span, String)>,
)
    requires
        n <= refs.len(),
    ensures
        edges_sorted(typed_edges(items, refs, n, types)),
        forall|y: TypedV| #[trigger]
            typed_edges(items, refs, n, types).contains(y) <==> exists|m: int|
                0 <= m < n && (#[trigger] refs[m]).span.located() && is_target(items, refs[m].name)
                    && y == typed_edge(refs[m], types),
    decreases n,
{
    if n > 0 {
        lemma_typed_edges(items, refs, (n - 1) as nat, types);
        let before = typed_edges(items, refs, (n - 1) as nat, types);
        let r = refs[n - 1];
        if r.span.located() && is_target(items, r.name) {
            lemma_edge_added(before, typed_edge(r, types));
        }
        assert forall|y: TypedV| #[trigger] typed_edges(items, refs, n, types).contains(y)
            <==> exists|m: int|
            0 <= m < n && (#[trigger] refs[m]).span.located() && is_target(items, refs[m].name) && y
                == typed_edge(refs[m], types) by {
            if before.contains(y) {
                let m = choose|m: int|
                    0 <= m < n - 1 && (#[trigger] refs[m]).span.located() && is_target(
                        items,
                        refs[m].name,
                    ) && y == typed_edge(refs[m], types);
                assert(refs[m].span.located());
            }
            if r.span.located() && is_target(items, r.name) && y == typed_edge(r, types) {
                assert(refs[n - 1].span.located());
            }
        }
    }
}

proof fn lemma_targets_finite(items: Seq<Item>, refs: Seq<RefV>)
    ensures
        located_targets(items, refs).finite(),
{
    let names = refs.map_values(|r: RefV| r.name);
    vstd::seq_lib::seq_to_set_is_finite(names);
    assert forall|x: Seq<char>| located_targets(items, refs).contains(x) implies #[trigger]
        names.to_set().contains(x) by {
        let m = choose|m: int|
            0 <= m < refs.len() && (#[trigger] refs[m]).name == x && refs[m].span.located();
        assert(names[m] == x);
    }
    vstd::set_lib::lemma_len_subset(located_targets(items, refs), names.to_set());
}

/// The typed edges of references stand at the positions of their call sites, no more
/// and no fewer, and each has the types that the table holds for its reference.
pub proof fn edges_are_call_sites(
    items: Seq<Item>,
    refs: Seq<RefV>,
    types: Seq<(Span, String)>,
    callee: Seq<char>,
    pos: (u32, u32),
)
    ensures
        ({
            let edges = typed_edges(items, refs, refs.len(), types);
            let sites = call_sites(items, refs);
            &&& typed_at(edges, callee, pos) <==> called_at(sites, callee, pos)
            &&& edges_sorted(edges)
            &&& forall|y: TypedV| #[trigger]
                edges.contains(y) <==> exists|m: int|
                    0 <= m < refs.len() && (#[trigger] refs[m]).span.located() && is_target(
                        items,
                        refs[m].name,
                    ) && y == typed_edge(refs[m], types)
            &&& increasing(sites.map_values(|s: (Seq<char>, Seq<(u32, u32)>)| s.0))
            &&& forall|k: int|
                0 <= k < sites.len() ==> positions_increase((#[trigger] sites[k]).1)
        }),
{
    let edges = typed_edges(items, refs, refs.len(), types);
    let sites = call_sites(items, refs);
    let targets = located_targets(items, refs);
    let names = listed(targets);
    lemma_targets_finite(items, refs);
    listing(targets);
    lemma_typed_edges(items, refs, refs.len(), types);
    assert forall|k: int| 0 <= k < sites.len() implies positions_increase(
        (#[trigger] sites[k]).1,
    ) by {
        lemma_positions(refs, refs.len(), names[k]);
    }
    assert(sites.map_values(|s: (Seq<char>, Seq<(u32, u32)>)| s.0) =~= names);
    lemma_positions(refs, refs.len(), callee);
    if typed_at(edges, callee, pos) {
        let k = choose|k: int|
            0 <= k < edges.len() && (#[trigger] edges[k]).callee == callee && (
            edges[k].line,
            edges[k].col,
        ) == pos;
        assert(edges.contains(edges[k]));
        let m = choose|m: int|
            0 <= m < refs.len() && (#[trigger] refs[m]).span.located() && is_target(
                items,
                refs[m].name,
            ) && edges[k] == typed_edge(refs[m], types);
        assert(refs[m].name == callee);
        assert(targets.contains(callee));
        assert(names.contains(callee));
        let q = choose|q: int| 0 <= q < names.len() && names[q] == callee;
        assert(sites[q].0 == callee);
        assert(positions(refs, refs.len(), callee).contains(pos));
    }
    if called_at(sites, callee, pos) {
        let k = choose|k: int|
            0 <= k < sites.len() && (#[trigger] sites[k]).0 == callee && sites[k].1.contains(pos);
        assert(names[k] == callee);
        assert(names.contains(names[k]));
        assert(targets.contains(callee));
        assert(positions(refs, refs.len(), callee).contains(pos));
        let m = choose|m: int|
            0 <= m < refs.len() && (#[trigger] refs[m]).name == callee && refs[m].span.located()
                && pos == (refs[m].span.start_line, refs[m].span.start_col);
        let y = typed_edge(refs[m], types);
        assert(refs[m].span.located());
        assert(edges.contains(y));
        let q = choose|q: int| 0 <= q < edges.len() && edges[q] == y;
        assert(edges[q].callee == callee);
    }
}

/// Whether an entry is the table's first for the span.
pub open spec fn first_entry(types: Seq<(Span, String)>, span: Span, i: int) -> bool {
    &&& 0 <= i < types.len()
    &&& types[i].0 == span
    &&& forall|j: int| 0 <= j < i ==> (#[trigger] types[j]).0 != span
}

/// The type of a located span is that of the table's first entry for it; a span that
/// the table lacks, or that has no position, has none.
pub proof fn types_are_the_tables(types: Seq<(Span, String)>, span: Span)
    ensures
        match type_at(types, span) {
            Some(t) => span.located() && exists|i: int| #[trigger]
                first_entry(types, span, i) && types[i].1@ == t,
            None => !span.located() || forall|i: int|
                0 <= i < types.len() ==> (#[trigger] types[i]).0 != span,
        },
    decreases types.len(),
{
    if span.located() && types.len() > 0 {
        let rest = types.drop_first();
        types_are_the_tables(rest, span);
        if types[0].0 == span {
            assert(first_entry(types, span, 0));
        } else if type_at(rest, span) is Some {
            let i = choose|i: int| #[trigger]
                first_entry(rest, span, i) && rest[i].1@ == type_at(rest, span)->0;
            assert forall|j: int| 0 <= j < i + 1 implies (#[trigger] types[j]).0 != span by {
                if j > 0 {
                    assert(rest[j - 1].0 != span);
                }
            }
            assert(first_entry(types, span, i + 1));
        } else {
            assert forall|i: int| 0 <= i < types.len() implies (#[trigger] types[i]).0 != span by {
                if i > 0 {
                    assert(rest[i - 1].0 != span);
                }
            }
        }
    }
}

/// The typed call sites of a function stand at the positions of its call sites, no
/// more and no fewer. They are sorted by position and then by callee; the call
/// sites are sorted by callee, and the positions of each increase.
pub proof fn typed_sites_are_call_sites(
    items: Seq<Item>,
    prelude: Seq<Seq<char>>,
    types: Seq<(Span, String)>,
    i: int,
    callee: Seq<char>,
    pos: (u32, u32),
)
    requires
        0 <= i < analysis(items, prelude, Some(types)).functions.len(),
    ensures
        ({
            let f = analysis(items, prelude, Some(types)).functions[i];
            &&& typed_at(f.typed_sites, callee, pos) <==> called_at(f.call_sites, callee, pos)
            &&& edges_sorted(f.typed_sites)
            &&& increasing(f.call_sites.map_values(|s: (Seq<char>, Seq<(u32, u32)>)| s.0))
            &&& forall|k: int|
                0 <= k < f.call_sites.len() ==> positions_increase((#[trigger] f.call_sites[k]).1)
        }),
{
    let f = analysis(items, prelude, Some(types)).functions[i];
    lemma_function(items, prelude, Some(types), i);
    edges_are_call_sites(items, refs_of(items, f.name), types, callee, pos);
}

// ---------------------------------------------------------------------------
// Cycles
// ---------------------------------------------------------------------------

proof fn lemma_component(items: Seq<Item>, prelude: Seq<Seq<char>>, v: Seq<char>)
    requires
        user_fns(items, prelude).contains(v),
    ensures
        component(call_graph(items, prelude), v).subset_of(user_fns(items, prelude)),
{
    let g = call_graph(items, prelude);
    assert forall|w: Seq<char>| component(g, v).contains(w) implies user_fns(
        items,
        prelude,
    ).contains(w) by {
        let p = choose|p: Seq<Seq<char>>| #[trigger] is_path(g, p) && p[0] == v && p.last() == w;
        if p.len() > 1 {
            let k = p.len() - 2;
            assert(edge(g, p[k], p[k + 1]));
            assert(user_callees(items, prelude, p[k]).contains(w));
        }
    }
}

/// The cycles of a report are groups of user functions, each in increasing order,
/// and the groups are in the order of their first members.
pub proof fn cycles_are_sorted(
    items: Seq<Item>,
    prelude: Seq<Seq<char>>,
    types: Option<Seq<(Span, String)>>,
)
    ensures
        ({
            let r = analysis(items, prelude, types);
            &&& forall|k: int|
                0 <= k < r.cycles.len() ==> (#[trigger] r.cycles[k]).len() > 0 && increasing(
                    r.cycles[k],
                )
            &&& forall|k: int, x: Seq<char>|
                0 <= k < r.cycles.len() && #[trigger] r.cycles[k].contains(x) ==> names_user(r, x)
            &&& forall|k: int, m: int|
                0 <= k < m < r.cycles.len() ==> lex_lt(
                    (#[trigger] r.cycles[k])[0],
                    (#[trigger] r.cycles[m])[0],
                )
        }),
{
    let r = analysis(items, prelude, types);
    let users = listed(user_fns(items, prelude));
    reveal(is_group);
    lemma_finite(items, prelude, Seq::empty());
    listing(user_fns(items, prelude));
    lemma_cycles(items, prelude, users, users.len());
    assert forall|k: int, x: Seq<char>|
        0 <= k < r.cycles.len() && #[trigger] r.cycles[k].contains(x) implies names_user(r, x) by {
        let v = r.cycles[k][0];
        assert(user_fns(items, prelude).contains(x));
        lemma_named(items, prelude, types, x);
    }
}

/// A user function stands in a cycle of a report if and only if user calls lead from
/// it back to it, in at least one step. It then stands in one cycle alone, with the
/// functions that it leads to and that lead back to it, and no others.
pub proof fn recursion_is_in_one_cycle(
    items: Seq<Item>,
    prelude: Seq<Seq<char>>,
    types: Option<Seq<(Span, String)>>,
    x: Seq<char>,
)
    ensures
        ({
            let r = analysis(items, prelude, types);
            let g = call_graph(items, prelude);
            &&& names_user(r, x) && leads(g, x, x) <==> in_cycle(r, x)
            &&& forall|k: int, m: int|
                0 <= k < r.cycles.len() && 0 <= m < r.cycles.len()
                    && #[trigger] r.cycles[k].contains(x) && #[trigger] r.cycles[m].contains(x)
                    ==> k == m
            &&& forall|k: int, y: Seq<char>|
                0 <= k < r.cycles.len() && r.cycles[k].contains(x) ==> (
                #[trigger] r.cycles[k].contains(y) <==> connected(g, x, y) && connected(g, y, x))
        }),
{
    let r = analysis(items, prelude, types);
    let g = call_graph(items, prelude);
    let users = listed(user_fns(items, prelude));
    reveal(is_group);
    lemma_finite(items, prelude, x);
    listing(user_fns(items, prelude));
    lemma_cycles(items, prelude, users, users.len());
    if names_user(r, x) && leads(g, x, x) {
        let k = choose|k: int|
            0 <= k < r.functions.len() && (#[trigger] r.functions[k]).name == x
                && r.functions[k].user;
        lemma_function(items, prelude, types, k);
        assert(user_fns(items, prelude).contains(x));
        let group = component(g, x);
        lemma_component(items, prelude, x);
        vstd::set_lib::lemma_len_subset(group, user_fns(items, prelude));
        listing(group);
        lemma_connected_refl(g, x);
        assert(group.contains(x));
        let l = listed(group);
        assert(l.contains(x));
        let v = l[0];
        assert(l.contains(v));
        assert(group.contains(v));
        components_disjoint(g, x, v);
        lemma_connected_refl(g, v);
        lemma_group_first(g, v, l);
        recursive_iff(g, v);
        if v != x {
            assert(component(g, v).contains(x));
        }
        assert(users.contains(v));
        let m = choose|m: int| 0 <= m < users.len() && users[m] == v;
        let q = lemma_listed_group(g, users, users.len(), m);
        assert(r.cycles[q].contains(x));
    }
    assert forall|k: int| 0 <= k < r.cycles.len() && #[trigger] r.cycles[k].contains(x) implies
        component(g, r.cycles[k][0]) == component(g, x) && user_fns(items, prelude).contains(x)
        && leads(g, x, x) by {
        let v = r.cycles[k][0];
        assert(is_group(items, prelude, r.cycles[k]));
        assert(component(g, v).contains(x));
        components_disjoint(g, v, x);
        recursive_iff(g, x);
        if v != x {
            lemma_connected_refl(g, v);
            assert(component(g, v).contains(v));
            assert(component(g, x).contains(v));
        }
    }
    if in_cycle(r, x) {
        let k = choose|k: int| 0 <= k < r.cycles.len() && #[trigger] r.cycles[k].contains(x);
        lemma_named(items, prelude, types, x);
    }
    assert forall|k: int, m: int|
        0 <= k < r.cycles.len() && 0 <= m < r.cycles.len() && #[trigger] r.cycles[k].contains(x)
            && #[trigger] r.cycles[m].contains(x) implies k == m by {
        let a = r.cycles[k][0];
        let b = r.cycles[m][0];
        assert(is_group(items, prelude, r.cycles[k]) && is_group(items, prelude, r.cycles[m]));
        assert(r.cycles[k].contains(a) && r.cycles[m].contains(b));
        assert(component(g, a).contains(b) && component(g, b).contains(a));
        lemma_least(r.cycles[k], b);
        lemma_least(r.cycles[m], a);
    }
    assert forall|k: int, y: Seq<char>|
        0 <= k < r.cycles.len() && r.cycles[k].contains(x) implies (
        #[trigger] r.cycles[k].contains(y) <==> connected(g, x, y) && connected(g, y, x)) by {
        assert(is_group(items, prelude, r.cycles[k]));
        assert(component(g, r.cycles[k][0]).contains(y) <==> component(g, x).contains(y));
    }
}

/// The first of an increasing list is its least member.
proof fn lemma_least(l: Seq<Seq<char>>, x: Seq<char>)
    requires
        increasing(l),
        l.contains(x),
    ensures
        !lex_lt(x, l[0]),
{
    let k = choose|k: int| 0 <= k < l.len() && l[k] == x;
    if k > 0 {
        assert(lex_lt(l[0], l[k]));
        lemma_lex_asym(l[0], x);
    } else {
        lemma_lex_asym(x, x);
    }
}

/// Whether a function stands in a cycle of the report.
pub open spec fn in_cycle(r: GraphV, x: Seq<char>) -> bool {
    exists|k: int| 0 <= k < r.cycles.len() && #[trigger] r.cycles[k].contains(x)
}

/// Whether a cycle lists the group of its first member.
#[verifier::opaque]
spec fn is_group(items: Seq<Item>, prelude: Seq<Seq<char>>, c: Seq<Seq<char>>) -> bool {
    let g = call_graph(items, prelude);
    &&& c.len() > 0
    &&& increasing(c)
    &&& leads(g, c[0], c[0])
    &&& forall|x: Seq<char>| #[trigger] c.contains(x) <==> component(g, c[0]).contains(x)
    &&& forall|x: Seq<char>| #[trigger] c.contains(x) ==> user_fns(items, prelude).contains(x)
}

proof fn lemma_group(items: Seq<Item>, prelude: Seq<Seq<char>>, v: Seq<char>)
    requires
        user_fns(items, prelude).contains(v),
        leads(call_graph(items, prelude), v, v),
        first_of_group(call_graph(items, prelude), v),
    ensures
        is_group(items, prelude, listed(component(call_graph(items, prelude), v))),
        listed(component(call_graph(items, prelude), v))[0] == v,
{
    let g = call_graph(items, prelude);
    let group = component(g, v);
    let c = listed(group);
    lemma_component(items, prelude, v);
    lemma_finite(items, prelude, v);
    vstd::set_lib::lemma_len_subset(group, user_fns(items, prelude));
    listing(group);
    lemma_connected_refl(g, v);
    assert(group.contains(v));
    assert(c.contains(v));
    let at = choose|at: int| 0 <= at < c.len() && c[at] == v;
    if at > 0 {
        assert(lex_lt(c[0], c[at]));
        assert(c.contains(c[0]));
        assert(group.contains(c[0]));
    }
    assert(c[0] == v);
    reveal(is_group);
}

/// The group of every recursive function that comes first in it is listed.
proof fn lemma_listed_group(g: Graph, users: Seq<Seq<char>>, n: nat, m: int) -> (k: int)
    requires
        0 <= m < n <= users.len(),
        leads(g, users[m], users[m]),
        first_of_group(g, users[m]),
    ensures
        0 <= k < cycles(g, users, n).len(),
        cycles(g, users, n)[k] == listed(component(g, users[m])),
    decreases n,
{
    if m < n - 1 {
        lemma_listed_group(g, users, (n - 1) as nat, m)
    } else {
        cycles(g, users, (n - 1) as nat).len() as int
    }
}

proof fn lemma_cycles(
    items: Seq<Item>,
    prelude: Seq<Seq<char>>,
    users: Seq<Seq<char>>,
    n: nat,
)
    requires
        users == listed(user_fns(items, prelude)),
        increasing(users),
        forall|x: Seq<char>| #[trigger]
            users.contains(x) <==> user_fns(items, prelude).contains(x),
        n <= users.len(),
    ensures
        ({
            let cs = cycles(call_graph(items, prelude), users, n);
            &&& forall|k: int| 0 <= k < cs.len() ==> is_group(items, prelude, #[trigger] cs[k])
            &&& forall|k: int|
                0 <= k < cs.len() ==> exists|m: int|
                    0 <= m < n && #[trigger] users[m] == (#[trigger] cs[k])[0]
            &&& forall|k: int, m: int|
                0 <= k < m < cs.len() ==> lex_lt((#[trigger] cs[k])[0], (#[trigger] cs[m])[0])
        }),
    decreases n,
{
    let g = call_graph(items, prelude);
    if n > 0 {
        lemma_cycles(items, prelude, users, (n - 1) as nat);
        let before = cycles(g, users, (n - 1) as nat);
        let v = users[n - 1];
        assert(users.contains(v));
        if leads(g, v, v) && first_of_group(g, v) {
            let c = listed(component(g, v));
            lemma_group(items, prelude, v);
            let cs = before.push(c);
            assert forall|k: int| 0 <= k < cs.len() implies exists|m: int|
                0 <= m < n && #[trigger] users[m] == (#[trigger] cs[k])[0] by {
                if k < before.len() {
                    let m = choose|m: int|
                        0 <= m < n - 1 && #[trigger] users[m] == before[k][0];
                    assert(users[m] == cs[k][0]);
                } else {
                    assert(users[n - 1] == cs[k][0]);
                }
            }
            assert forall|k: int, m: int| 0 <= k < m < cs.len() implies lex_lt(
                (#[trigger] cs[k])[0],
                (#[trigger] cs[m])[0],
            ) by {
                if m == before.len() {
                    let q = choose|q: int| 0 <= q < n - 1 && #[trigger] users[q] == before[k][0];
                    assert(lex_lt(users[q], users[n - 1]));
                }
            }
        } else {
            assert forall|k: int| 0 <= k < before.len() implies exists|m: int|
                0 <= m < n && #[trigger] users[m] == (#[trigger] before[k])[0] by {
                let m = choose|m: int| 0 <= m < n - 1 && #[trigger] users[m] == before[k][0];
                assert(users[m] == before[k][0]);
            }
        }
    }
}

} // verus!
