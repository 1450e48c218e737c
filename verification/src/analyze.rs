//! A first-class static call graph for Aria programs: the callers and callees of
//! every function, dead code, recursion, and mutually recursive cycles.
//!
//!   - "what does this function depend on?"      -> callees
//!   - "what breaks if I change this function?"  -> callers / fan_in
//!   - "is this function dead?"                  -> unused / unreachable
//!   - "is there a recursion I must terminate?"  -> recursive / cycles
//!
//! The graph is built from call names and bare function names walked over each
//! function body ([`refs`]). A call of a function value cannot be resolved to a
//! target and is no edge. Prelude functions and compiler-generated ones are
//! flagged as library code and never counted as unused.

use vstd::prelude::*;
use vstd::string::*;

use crate::analyze::graph::{
    closed, connected, cycles, edge, is_path, reachable, recursive_cycles, views2, EdgeList, Graph,
};
use crate::analyze::refs::{collect_refs, refs_in, refs_view, CallRef, Locals, RefV, Scope};
use crate::ast::{FnDecl, Item, Param, Program, Span};
use crate::builtins::{builtin_names, names};
use crate::c_backend::env::{lemma_position, position_of};
use crate::diagnostics::opt_view;
use crate::names::{
    contains_name, has_name, lemma_has_name, lemma_listed, listed, lists, NameSet,
};
use crate::text::{contains_char, lex_lt, str_eq, str_lt, views};
use crate::types::{show, shown};

pub mod calls;
pub mod free;
pub mod graph;
pub mod laws;
pub mod refs;
pub mod report;

verus! {

// ---------------------------------------------------------------------------
// The report
// ---------------------------------------------------------------------------

/// The declared type signature of a function, rendered as type strings.
#[derive(Debug, Clone, PartialEq)]
pub struct Signature {
    /// Declared generic type parameters, e.g. `["T", "U"]`.
    pub type_params: Vec<String>,
    /// Trait bounds on the type parameters, e.g. `[("T", "Show")]`.
    pub bounds: Vec<(String, String)>,
    /// Each parameter's name and its declared type, in source order.
    pub params: Vec<(String, String)>,
    /// The declared return type, e.g. `"Int"`.
    pub ret: String,
}

/// One typed call edge at a precise site: the callee, the position of the call,
/// and the inferred types of the arguments and the result at this site. A type is
/// `None` where none was recorded for the span.
#[derive(Debug, Clone, PartialEq)]
pub struct TypedSite {
    pub callee: String,
    /// 1-based source line of the call expression.
    pub line: u32,
    /// 1-based source column of the call expression.
    pub col: u32,
    pub arg_types: Vec<Option<String>>,
    pub result_type: Option<String>,
}

/// Per-function call-graph facts.
#[derive(Debug, Clone, PartialEq)]
pub struct FnInfo {
    pub name: String,
    pub signature: Signature,
    /// 1-based source line of the definition; 0 for compiler-generated functions.
    pub line: usize,
    /// Whether the user wrote the function.
    pub user: bool,
    /// User functions this function calls, sorted.
    pub callees: Vec<String>,
    /// Builtin and library functions this function calls, sorted.
    pub lib_callees: Vec<String>,
    /// Functions that call this function (the inverse of `callees`), sorted.
    pub callers: Vec<String>,
    /// Whether this function calls itself directly.
    pub recursive: bool,
    /// The number of `callers`.
    pub fan_in: usize,
    /// The number of `callees`.
    pub fan_out: usize,
    /// For each callee, sorted, the sorted positions at which it is called.
    pub call_sites: Vec<(String, Vec<(u32, u32)>)>,
    /// The typed call edges, sorted by position and then callee. Empty when no
    /// type map was supplied.
    pub typed_sites: Vec<TypedSite>,
}

/// Whole-program call-graph analysis.
#[derive(Debug, Clone)]
pub struct CallGraph {
    /// Per-function facts, in source order.
    pub functions: Vec<FnInfo>,
    /// The entry point (`main`) if present.
    pub entry: Option<String>,
    /// User functions with no callers and which are not `main`: dead code.
    pub unused: Vec<String>,
    /// User functions not statically reachable from `main`. Empty if there is no
    /// `main`.
    pub unreachable: Vec<String>,
    /// Mutually recursive groups and self-recursive functions, each sorted, the
    /// outer list sorted.
    pub cycles: Vec<Vec<String>>,
}

/// A signature, as a model.
pub struct SignatureV {
    pub type_params: Seq<Seq<char>>,
    pub bounds: Seq<(Seq<char>, Seq<char>)>,
    pub params: Seq<(Seq<char>, Seq<char>)>,
    pub ret: Seq<char>,
}

/// A typed call edge, as a model.
pub struct TypedV {
    pub callee: Seq<char>,
    pub line: u32,
    pub col: u32,
    pub arg_types: Seq<Option<Seq<char>>>,
    pub result_type: Option<Seq<char>>,
}

/// A function's facts, as a model.
pub struct FnV {
    pub name: Seq<char>,
    pub signature: SignatureV,
    pub line: usize,
    pub user: bool,
    pub callees: Seq<Seq<char>>,
    pub lib_callees: Seq<Seq<char>>,
    pub callers: Seq<Seq<char>>,
    pub recursive: bool,
    pub fan_in: nat,
    pub fan_out: nat,
    pub call_sites: Seq<(Seq<char>, Seq<(u32, u32)>)>,
    pub typed_sites: Seq<TypedV>,
}

/// The whole report, as a model.
pub struct GraphV {
    pub functions: Seq<FnV>,
    pub entry: Option<Seq<char>>,
    pub unused: Seq<Seq<char>>,
    pub unreachable: Seq<Seq<char>>,
    pub cycles: Seq<Seq<Seq<char>>>,
}

/// The contents of a list of pairs of strings.
pub open spec fn pair_views(v: Seq<(String, String)>) -> Seq<(Seq<char>, Seq<char>)> {
    v.map_values(|p: (String, String)| (p.0@, p.1@))
}

/// The contents of a list of optional strings.
pub open spec fn opt_views(v: Seq<Option<String>>) -> Seq<Option<Seq<char>>> {
    v.map_values(|s: Option<String>| opt_view(s))
}

/// The contents of a list of call sites.
pub open spec fn site_views(v: Seq<(String, Vec<(u32, u32)>)>) -> Seq<
    (Seq<char>, Seq<(u32, u32)>),
> {
    v.map_values(|s: (String, Vec<(u32, u32)>)| (s.0@, s.1@))
}

impl Signature {
    /// The signature's model.
    pub open spec fn view(&self) -> SignatureV {
        SignatureV {
            type_params: views(self.type_params@),
            bounds: pair_views(self.bounds@),
            params: pair_views(self.params@),
            ret: self.ret@,
        }
    }
}

impl TypedSite {
    /// The edge's model.
    pub open spec fn view(&self) -> TypedV {
        TypedV {
            callee: self.callee@,
            line: self.line,
            col: self.col,
            arg_types: opt_views(self.arg_types@),
            result_type: opt_view(self.result_type),
        }
    }
}

/// The models of a list of typed edges.
pub open spec fn typed_views(v: Seq<TypedSite>) -> Seq<TypedV> {
    v.map_values(|s: TypedSite| s@)
}

impl FnInfo {
    /// The facts' model.
    pub open spec fn view(&self) -> FnV {
        FnV {
            name: self.name@,
            signature: self.signature@,
            line: self.line,
            user: self.user,
            callees: views(self.callees@),
            lib_callees: views(self.lib_callees@),
            callers: views(self.callers@),
            recursive: self.recursive,
            fan_in: self.fan_in as nat,
            fan_out: self.fan_out as nat,
            call_sites: site_views(self.call_sites@),
            typed_sites: typed_views(self.typed_sites@),
        }
    }
}

/// The models of a list of functions.
pub open spec fn fn_views(v: Seq<FnInfo>) -> Seq<FnV> {
    v.map_values(|f: FnInfo| f@)
}

impl CallGraph {
    /// The report's model.
    pub open spec fn view(&self) -> GraphV {
        GraphV {
            functions: fn_views(self.functions@),
            entry: opt_view(self.entry),
            unused: views(self.unused@),
            unreachable: views(self.unreachable@),
            cycles: views2(self.cycles@),
        }
    }
}

// ---------------------------------------------------------------------------
// What the report says of a program
// ---------------------------------------------------------------------------

/// Whether one of the first `n` items is a function of the name.
pub open spec fn declared(items: Seq<Item>, n: nat, name: Seq<char>) -> bool {
    exists|i: int|
        0 <= i < n && i < items.len() && #[trigger] items[i] is Fn && items[i]->Fn_0.name@ == name
}

/// Whether the program has a function of the name.
pub open spec fn is_fn(items: Seq<Item>, name: Seq<char>) -> bool {
    declared(items, items.len(), name)
}

/// The functions of the first `n` items, in source order, each name once.
pub open spec fn source_order(items: Seq<Item>, n: nat) -> Seq<Seq<char>>
    decreases n,
{
    if n == 0 || n > items.len() {
        Seq::empty()
    } else {
        let before = source_order(items, (n - 1) as nat);
        match items[n - 1] {
            Item::Fn(f) => if before.contains(f.name@) {
                before
            } else {
                before.push(f.name@)
            },
            Item::Type(_) => before,
        }
    }
}

/// The last declaration of a function among the first `n` items.
pub open spec fn last_decl(items: Seq<Item>, n: nat, name: Seq<char>) -> Option<FnDecl>
    decreases n,
{
    if n == 0 || n > items.len() {
        None
    } else {
        match items[n - 1] {
            Item::Fn(f) => if f.name@ == name {
                Some(f)
            } else {
                last_decl(items, (n - 1) as nat, name)
            },
            Item::Type(_) => last_decl(items, (n - 1) as nat, name),
        }
    }
}

/// Whether a name is the user's: neither of the prelude nor mangled, which a `$`
/// shows.
pub open spec fn is_source_name(prelude: Seq<Seq<char>>, name: Seq<char>) -> bool {
    !prelude.contains(name) && !name.contains('$')
}

/// Whether a function is the user's: the name is the user's, and the declaration
/// is not generated, which a line 0 shows.
pub open spec fn is_user(items: Seq<Item>, prelude: Seq<Seq<char>>, name: Seq<char>) -> bool {
    is_source_name(prelude, name) && match last_decl(items, items.len(), name) {
        Some(f) => f.line != 0,
        None => false,
    }
}

/// The scope of a function's body: its parameters.
pub open spec fn param_scope(params: Seq<Param>) -> Locals {
    params.map_values(|p: Param| p.name@)
}

/// The references in the bodies of all declarations of a function among the first
/// `n` items.
pub open spec fn fn_refs(items: Seq<Item>, n: nat, name: Seq<char>) -> Seq<RefV>
    decreases n,
{
    if n == 0 || n > items.len() {
        Seq::empty()
    } else {
        let before = fn_refs(items, (n - 1) as nat, name);
        match items[n - 1] {
            Item::Fn(f) => if f.name@ == name {
                refs_in(f.body, param_scope(f.params@), before)
            } else {
                before
            },
            Item::Type(_) => before,
        }
    }
}

/// The references of a function.
pub open spec fn refs_of(items: Seq<Item>, name: Seq<char>) -> Seq<RefV> {
    fn_refs(items, items.len(), name)
}

/// Whether a name is referenced.
pub open spec fn mentions(refs: Seq<RefV>, name: Seq<char>) -> bool {
    exists|i: int| 0 <= i < refs.len() && (#[trigger] refs[i]).name == name
}

/// The user functions that a function calls.
pub open spec fn user_callees(items: Seq<Item>, prelude: Seq<Seq<char>>, name: Seq<char>) -> Set<
    Seq<char>,
> {
    Set::new(
        |x: Seq<char>| mentions(refs_of(items, name), x) && is_fn(items, x) && is_user(items, prelude, x),
    )
}

/// The library functions and builtins that a function calls.
pub open spec fn library_callees(
    items: Seq<Item>,
    prelude: Seq<Seq<char>>,
    name: Seq<char>,
) -> Set<Seq<char>> {
    Set::new(
        |x: Seq<char>|
            mentions(refs_of(items, name), x) && (if is_fn(items, x) {
                !is_user(items, prelude, x)
            } else {
                builtin_names().contains(x)
            }),
    )
}

/// The call graph: the user functions that each function calls.
pub open spec fn call_graph(items: Seq<Item>, prelude: Seq<Seq<char>>) -> Graph {
    Map::new(|x: Seq<char>| is_fn(items, x), |x: Seq<char>| user_callees(items, prelude, x))
}

/// The functions that call a function.
pub open spec fn callers_of(items: Seq<Item>, prelude: Seq<Seq<char>>, name: Seq<char>) -> Set<
    Seq<char>,
> {
    Set::new(|x: Seq<char>| edge(call_graph(items, prelude), x, name))
}

/// Whether a name is a target in the graph: a function of the program or a
/// builtin.
pub open spec fn is_target(items: Seq<Item>, name: Seq<char>) -> bool {
    is_fn(items, name) || builtin_names().contains(name)
}

/// Whether one position comes before another: by line, then by column.
pub open spec fn pos_lt(a: (u32, u32), b: (u32, u32)) -> bool {
    a.0 < b.0 || (a.0 == b.0 && a.1 < b.1)
}

/// A sorted list of positions with one more, which is not repeated.
pub open spec fn pos_added(s: Seq<(u32, u32)>, p: (u32, u32)) -> Seq<(u32, u32)>
    decreases s.len(),
{
    if s.len() == 0 {
        seq![p]
    } else if s.last() == p {
        s
    } else if pos_lt(s.last(), p) {
        s.push(p)
    } else {
        pos_added(s.drop_last(), p).push(s.last())
    }
}

/// The sorted positions at which the first `n` references mention a name.
pub open spec fn positions(refs: Seq<RefV>, n: nat, name: Seq<char>) -> Seq<(u32, u32)>
    decreases n,
{
    if n == 0 || n > refs.len() {
        Seq::empty()
    } else {
        let before = positions(refs, (n - 1) as nat, name);
        let r = refs[n - 1];
        if r.name == name && r.span.located() {
            pos_added(before, (r.span.start_line, r.span.start_col))
        } else {
            before
        }
    }
}

/// The targets that are mentioned at a known position.
pub open spec fn located_targets(items: Seq<Item>, refs: Seq<RefV>) -> Set<Seq<char>> {
    Set::new(
        |x: Seq<char>|
            is_target(items, x) && exists|i: int|
                0 <= i < refs.len() && (#[trigger] refs[i]).name == x && refs[i].span.located(),
    )
}

/// The sorted call sites of a function.
pub open spec fn call_sites(items: Seq<Item>, refs: Seq<RefV>) -> Seq<
    (Seq<char>, Seq<(u32, u32)>),
> {
    listed(located_targets(items, refs)).map_values(
        |x: Seq<char>| (x, positions(refs, refs.len(), x)),
    )
}

/// The type that was recorded for a span: the first entry counts.
pub open spec fn type_at(types: Seq<(Span, String)>, span: Span) -> Option<Seq<char>>
    decreases types.len(),
{
    if !span.located() || types.len() == 0 {
        None
    } else if types[0].0 == span {
        Some(types[0].1@)
    } else {
        type_at(types.drop_first(), span)
    }
}

/// The typed edge of a reference.
pub open spec fn typed_edge(r: RefV, types: Seq<(Span, String)>) -> TypedV {
    TypedV {
        callee: r.name,
        line: r.span.start_line,
        col: r.span.start_col,
        arg_types: r.args.map_values(|s: Span| type_at(types, s)),
        result_type: type_at(types, r.span),
    }
}

/// Whether one edge comes before another: by position, then by callee.
pub open spec fn edge_lt(a: TypedV, b: TypedV) -> bool {
    pos_lt((a.line, a.col), (b.line, b.col)) || (a.line == b.line && a.col == b.col && lex_lt(
        a.callee,
        b.callee,
    ))
}

/// A sorted list of edges with one more, after those that do not come after it.
pub open spec fn edge_added(s: Seq<TypedV>, x: TypedV) -> Seq<TypedV>
    decreases s.len(),
{
    if s.len() == 0 || !edge_lt(x, s.last()) {
        s.push(x)
    } else {
        edge_added(s.drop_last(), x).push(s.last())
    }
}

/// The sorted typed edges of the first `n` references.
pub open spec fn typed_edges(
    items: Seq<Item>,
    refs: Seq<RefV>,
    n: nat,
    types: Seq<(Span, String)>,
) -> Seq<TypedV>
    decreases n,
{
    if n == 0 || n > refs.len() {
        Seq::empty()
    } else {
        let before = typed_edges(items, refs, (n - 1) as nat, types);
        let r = refs[n - 1];
        if r.span.located() && is_target(items, r.name) {
            edge_added(before, typed_edge(r, types))
        } else {
            before
        }
    }
}

/// The rendered types of parameters.
pub open spec fn rendered_params(params: Seq<Param>) -> Seq<(Seq<char>, Seq<char>)> {
    params.map_values(|p: Param| (p.name@, shown(p.ty)))
}

/// The signature of a declaration.
pub open spec fn signature_of(f: FnDecl) -> SignatureV {
    SignatureV {
        type_params: views(f.type_params@),
        bounds: pair_views(f.bounds@),
        params: rendered_params(f.params@),
        ret: shown(f.ret),
    }
}

/// The facts of a function.
pub open spec fn fn_facts(
    items: Seq<Item>,
    prelude: Seq<Seq<char>>,
    types: Option<Seq<(Span, String)>>,
    name: Seq<char>,
) -> FnV {
    let decl = last_decl(items, items.len(), name)->Some_0;
    let refs = refs_of(items, name);
    let callees = listed(user_callees(items, prelude, name));
    let callers = listed(callers_of(items, prelude, name));
    FnV {
        name,
        signature: signature_of(decl),
        line: decl.line,
        user: is_user(items, prelude, name),
        callees,
        lib_callees: listed(library_callees(items, prelude, name)),
        callers,
        recursive: user_callees(items, prelude, name).contains(name),
        fan_in: callers.len(),
        fan_out: callees.len(),
        call_sites: call_sites(items, refs),
        typed_sites: match types {
            Some(t) => typed_edges(items, refs, refs.len(), t),
            None => Seq::empty(),
        },
    }
}

/// The user functions.
pub open spec fn user_fns(items: Seq<Item>, prelude: Seq<Seq<char>>) -> Set<Seq<char>> {
    Set::new(|x: Seq<char>| is_fn(items, x) && is_user(items, prelude, x))
}

/// The user functions without callers, other than `main`.
pub open spec fn unused_fns(items: Seq<Item>, prelude: Seq<Seq<char>>) -> Set<Seq<char>> {
    Set::new(
        |x: Seq<char>|
            user_fns(items, prelude).contains(x) && x != "main"@ && forall|c: Seq<char>|
                !#[trigger] callers_of(items, prelude, x).contains(c),
    )
}

/// The user functions that `main` does not lead to.
pub open spec fn unreachable_fns(items: Seq<Item>, prelude: Seq<Seq<char>>) -> Set<Seq<char>> {
    Set::new(
        |x: Seq<char>|
            is_fn(items, "main"@) && user_fns(items, prelude).contains(x) && !connected(
                call_graph(items, prelude),
                "main"@,
                x,
            ),
    )
}

/// The analysis of a program.
pub open spec fn analysis(
    items: Seq<Item>,
    prelude: Seq<Seq<char>>,
    types: Option<Seq<(Span, String)>>,
) -> GraphV {
    let users = listed(user_fns(items, prelude));
    GraphV {
        functions: source_order(items, items.len()).map_values(
            |x: Seq<char>| fn_facts(items, prelude, types, x),
        ),
        entry: if is_fn(items, "main"@) {
            Some("main"@)
        } else {
            None
        },
        unused: listed(unused_fns(items, prelude)),
        unreachable: listed(unreachable_fns(items, prelude)),
        cycles: cycles(call_graph(items, prelude), users, users.len()),
    }
}

// ---------------------------------------------------------------------------
// Laws
// ---------------------------------------------------------------------------

/// Callers and callees are inverse to each other.
pub proof fn callers_invert_callees(
    items: Seq<Item>,
    prelude: Seq<Seq<char>>,
    a: Seq<char>,
    b: Seq<char>,
)
    ensures
        callers_of(items, prelude, b).contains(a) <==> is_fn(items, a) && user_callees(
            items,
            prelude,
            a,
        ).contains(b),
{
}

/// An unused function is unreachable.
pub proof fn unused_is_unreachable(items: Seq<Item>, prelude: Seq<Seq<char>>, x: Seq<char>)
    requires
        is_fn(items, "main"@),
        unused_fns(items, prelude).contains(x),
    ensures
        unreachable_fns(items, prelude).contains(x),
{
    let g = call_graph(items, prelude);
    if connected(g, "main"@, x) {
        let p = choose|p: Seq<Seq<char>>| #[trigger] is_path(g, p) && p[0] == "main"@ && p.last() == x;
        assert(p.len() > 1);
        let k = p.len() - 2;
        assert(edge(g, p[k], p[k + 1]));
        assert(callers_of(items, prelude, x).contains(p[k]));
    }
}

/// The type map is metadata: it changes nothing but the typed sites.
pub proof fn types_are_metadata(
    items: Seq<Item>,
    prelude: Seq<Seq<char>>,
    types: Seq<(Span, String)>,
    i: int,
)
    requires
        0 <= i < analysis(items, prelude, Some(types)).functions.len(),
    ensures
        ({
            let with = analysis(items, prelude, Some(types));
            let without = analysis(items, prelude, None);
            &&& with.functions.len() == without.functions.len()
            &&& FnV { typed_sites: Seq::empty(), ..with.functions[i] } == without.functions[i]
            &&& with.entry == without.entry
            &&& with.unused == without.unused
            &&& with.unreachable == without.unreachable
            &&& with.cycles == without.cycles
        }),
{
}

/// The call sites name the callees and library callees alone.
pub proof fn sites_are_edges(
    items: Seq<Item>,
    prelude: Seq<Seq<char>>,
    name: Seq<char>,
    x: Seq<char>,
)
    requires
        located_targets(items, refs_of(items, name)).contains(x),
    ensures
        user_callees(items, prelude, name).contains(x) || library_callees(
            items,
            prelude,
            name,
        ).contains(x),
{
    let refs = refs_of(items, name);
    let i = choose|i: int|
        0 <= i < refs.len() && (#[trigger] refs[i]).name == x && refs[i].span.located();
    assert(refs[i].name == x);
}

/// A position list stays sorted without repetitions, and gains the position.
pub proof fn positions_sorted(s: Seq<(u32, u32)>, p: (u32, u32))
    requires
        forall|i: int, j: int| 0 <= i < j < s.len() ==> pos_lt(#[trigger] s[i], #[trigger] s[j]),
    ensures
        ({
            let t = pos_added(s, p);
            &&& forall|i: int, j: int|
                0 <= i < j < t.len() ==> pos_lt(#[trigger] t[i], #[trigger] t[j])
            &&& forall|q: (u32, u32)| #[trigger] t.contains(q) <==> s.contains(q) || q == p
        }),
    decreases s.len(),
{
    let t = pos_added(s, p);
    if s.len() == 0 {
        assert(t[0] == p);
    } else if s.last() == p {
        assert(s[s.len() - 1] == p);
    } else if pos_lt(s.last(), p) {
        assert forall|i: int, j: int| 0 <= i < j < t.len() implies pos_lt(
            #[trigger] t[i],
            #[trigger] t[j],
        ) by {
            if j == s.len() && i < s.len() - 1 {
                assert(pos_lt(s[i], s[s.len() - 1]));
            }
        }
        assert forall|q: (u32, u32)| #[trigger] t.contains(q) <==> s.contains(q) || q == p by {
            if s.contains(q) {
                let k = choose|k: int| 0 <= k < s.len() && s[k] == q;
                assert(t[k] == q);
            }
            assert(t[s.len() as int] == p);
        }
    } else {
        let d = s.drop_last();
        let u = pos_added(d, p);
        positions_sorted(d, p);
        assert forall|i: int, j: int| 0 <= i < j < t.len() implies pos_lt(
            #[trigger] t[i],
            #[trigger] t[j],
        ) by {
            if j < u.len() {
                assert(pos_lt(u[i], u[j]));
            } else {
                assert(u.contains(u[i]));
                if u[i] != p {
                    assert(d.contains(u[i]));
                    let k = choose|k: int| 0 <= k < d.len() && d[k] == u[i];
                    assert(pos_lt(s[k], s[s.len() - 1]));
                }
            }
        }
        assert forall|q: (u32, u32)| #[trigger] t.contains(q) <==> s.contains(q) || q == p by {
            if t.contains(q) {
                let k = choose|k: int| 0 <= k < t.len() && t[k] == q;
                if k < u.len() {
                    assert(u.contains(q));
                    if d.contains(q) {
                        let m = choose|m: int| 0 <= m < d.len() && d[m] == q;
                        assert(s[m] == q);
                    }
                } else {
                    assert(s[s.len() - 1] == q);
                }
            }
            if s.contains(q) {
                let m = choose|m: int| 0 <= m < s.len() && s[m] == q;
                if m < d.len() {
                    assert(d[m] == q);
                    assert(u.contains(q));
                } else {
                    assert(t[u.len() as int] == q);
                }
            }
            if q == p {
                assert(u.contains(p));
            }
            if u.contains(q) {
                let m = choose|m: int| 0 <= m < u.len() && u[m] == q;
                assert(t[m] == q);
            }
        }
    }
}

// ---------------------------------------------------------------------------
// Building the report
// ---------------------------------------------------------------------------

/// The source order holds each function once.
proof fn lemma_source_order(items: Seq<Item>, n: nat)
    requires
        n <= items.len(),
    ensures
        source_order(items, n).no_duplicates(),
        forall|x: Seq<char>| #[trigger] source_order(items, n).contains(x) <==> declared(items, n, x),
    decreases n,
{
    if n > 0 {
        lemma_source_order(items, (n - 1) as nat);
        let before = source_order(items, (n - 1) as nat);
        let now = source_order(items, n);
        assert forall|x: Seq<char>| #[trigger] now.contains(x) <==> declared(items, n, x) by {
            if before.contains(x) {
                let k = choose|k: int| 0 <= k < before.len() && before[k] == x;
                assert(now[k] == x);
                let i = choose|i: int|
                    0 <= i < n - 1 && i < items.len() && #[trigger] items[i] is Fn
                        && items[i]->Fn_0.name@ == x;
                assert(items[i] is Fn);
            }
            if declared(items, n, x) {
                let i = choose|i: int|
                    0 <= i < n && i < items.len() && #[trigger] items[i] is Fn
                        && items[i]->Fn_0.name@ == x;
                if i < n - 1 {
                    assert(declared(items, (n - 1) as nat, x));
                    assert(before.contains(x));
                } else if !before.contains(x) {
                    assert(now[before.len() as int] == x);
                }
            }
            if now.contains(x) && !before.contains(x) {
                assert(items[n - 1] is Fn);
            }
        }
    }
}

proof fn lemma_last_decl(items: Seq<Item>, n: nat, name: Seq<char>)
    requires
        n <= items.len(),
        declared(items, n, name),
    ensures
        last_decl(items, n, name) is Some,
    decreases n,
{
    let i = choose|i: int|
        0 <= i < n && i < items.len() && #[trigger] items[i] is Fn && items[i]->Fn_0.name@ == name;
    if i < n - 1 {
        assert(declared(items, (n - 1) as nat, name));
        lemma_last_decl(items, (n - 1) as nat, name);
    }
}

fn source_names(items: &Vec<Item>) -> (r: Vec<String>)
    ensures
        views(r@) == source_order(items@, items@.len()),
{
    let mut r: Vec<String> = Vec::new();
    let mut i: usize = 0;
    assert(views(r@) =~= Seq::empty());
    while i < items.len()
        invariant
            i <= items@.len(),
            views(r@) == source_order(items@, i as nat),
        decreases items@.len() - i,
    {
        if let Item::Fn(f) = &items[i] {
            proof {
                lemma_has_name(r@, f.name@);
            }
            if !contains_name(&r, f.name.as_str()) {
                let ghost before = r@;
                r.push(f.name.clone());
                assert(views(r@) =~= views(before).push(f.name@));
            }
        }
        i = i + 1;
    }
    r
}

fn find_decl<'a>(items: &'a Vec<Item>, name: &str) -> (r: Option<&'a FnDecl>)
    ensures
        match r {
            Some(f) => last_decl(items@, items@.len(), name@) == Some(*f),
            None => last_decl(items@, items@.len(), name@) is None,
        },
{
    let mut i: usize = items.len();
    while i > 0
        invariant
            i <= items@.len(),
            last_decl(items@, items@.len(), name@) == last_decl(items@, i as nat, name@),
        decreases i,
    {
        i = i - 1;
        if let Item::Fn(f) = &items[i] {
            if str_eq(f.name.as_str(), name) {
                return Some(f);
            }
        }
    }
    None
}

fn scope_of(params: &Vec<Param>) -> (r: Scope)
    ensures
        r@ == param_scope(params@),
{
    let mut r: Scope = Scope::new();
    let mut i: usize = 0;
    assert(params@.take(0).map_values(|p: Param| p.name@) =~= Seq::empty());
    while i < params.len()
        invariant
            i <= params@.len(),
            r@ == params@.take(i as int).map_values(|p: Param| p.name@),
        decreases params@.len() - i,
    {
        r.push(params[i].name.as_str());
        assert(params@.take(i + 1).map_values(|p: Param| p.name@) =~= params@.take(
            i as int,
        ).map_values(|p: Param| p.name@).push(params@[i as int].name@));
        i = i + 1;
    }
    assert(params@.take(i as int) =~= params@);
    r
}

fn find_refs(items: &Vec<Item>, name: &str) -> (r: Vec<CallRef>)
    ensures
        refs_view(r@) == refs_of(items@, name@),
{
    let mut r: Vec<CallRef> = Vec::new();
    let mut i: usize = 0;
    assert(refs_view(r@) =~= Seq::empty());
    while i < items.len()
        invariant
            i <= items@.len(),
            refs_view(r@) == fn_refs(items@, i as nat, name@),
        decreases items@.len() - i,
    {
        if let Item::Fn(f) = &items[i] {
            if str_eq(f.name.as_str(), name) {
                let mut scope: Scope = scope_of(&f.params);
                collect_refs(&f.body, &mut scope, &mut r);
            }
        }
        i = i + 1;
    }
    r
}

/// Whether a name is the user's.
pub fn source_name(prelude: &Vec<String>, name: &str) -> (r: bool)
    ensures
        r == is_source_name(views(prelude@), name@),
{
    proof {
        lemma_has_name(prelude@, name@);
    }
    !contains_name(prelude, name) && !contains_char(name, '$')
}

/// Whether a function is the user's.
fn user_fn(items: &Vec<Item>, prelude: &Vec<String>, name: &str) -> (r: bool)
    ensures
        r == is_user(items@, views(prelude@), name@),
{
    source_name(prelude, name) && match find_decl(items, name) {
        Some(f) => f.line != 0,
        None => false,
    }
}

/// The names that are looked up: the functions and the builtins.
struct Names<'a> {
    items: &'a Vec<Item>,
    order: &'a Vec<String>,
    prelude: &'a Vec<String>,
    builtins: &'a Vec<&'static str>,
}

impl<'a> Names<'a> {
    spec fn wf(&self, items: Seq<Item>) -> bool {
        &&& self.items@ == items
        &&& views(self.order@) == source_order(items, items.len())
        &&& self.builtins@.map_values(|s: &'static str| s@) == builtin_names()
    }

    fn is_fn(&self, name: &str, Ghost(items): Ghost<Seq<Item>>) -> (r: bool)
        requires
            self.wf(items),
        ensures
            r == is_fn(items, name@),
    {
        proof {
            lemma_has_name(self.order@, name@);
            lemma_source_order(items, items.len());
        }
        contains_name(self.order, name)
    }

    fn is_builtin(&self, name: &str, Ghost(items): Ghost<Seq<Item>>) -> (r: bool)
        requires
            self.wf(items),
        ensures
            r == builtin_names().contains(name@),
    {
        let ghost all = self.builtins@.map_values(|s: &'static str| s@);
        let mut i: usize = 0;
        while i < self.builtins.len()
            invariant
                i <= self.builtins@.len(),
                self.wf(items),
                all == self.builtins@.map_values(|s: &'static str| s@),
                forall|j: int| 0 <= j < i ==> #[trigger] all[j] != name@,
            decreases self.builtins@.len() - i,
        {
            assert(all[i as int] == self.builtins@[i as int]@);
            if str_eq(self.builtins[i], name) {
                return true;
            }
            i = i + 1;
        }
        false
    }
}

/// The references up to `i` and the one at `i` mention these names.
proof fn lemma_mentions_step(refs: Seq<RefV>, i: int, x: Seq<char>)
    requires
        0 <= i < refs.len(),
    ensures
        mentions(refs.take(i + 1), x) <==> mentions(refs.take(i), x) || refs[i].name == x,
{
    let a = refs.take(i);
    let b = refs.take(i + 1);
    if mentions(a, x) {
        let k = choose|k: int| 0 <= k < a.len() && (#[trigger] a[k]).name == x;
        assert(b[k].name == x);
    }
    if refs[i].name == x {
        assert(b[i].name == x);
    }
    if mentions(b, x) {
        let k = choose|k: int| 0 <= k < b.len() && (#[trigger] b[k]).name == x;
        if k < i {
            assert(a[k].name == x);
        }
    }
}

fn callee_names(
    refs: &Vec<CallRef>,
    names: &Names,
    Ghost(items): Ghost<Seq<Item>>,
    Ghost(name): Ghost<Seq<char>>,
) -> (r: (Vec<String>, Vec<String>))
    requires
        names.wf(items),
        refs_view(refs@) == refs_of(items, name),
    ensures
        lists(views(r.0@), user_callees(items, views(names.prelude@), name)),
        views(r.0@) == listed(user_callees(items, views(names.prelude@), name)),
        views(r.1@) == listed(library_callees(items, views(names.prelude@), name)),
{
    let ghost all = refs_view(refs@);
    let ghost prelude = views(names.prelude@);
    let mut user: NameSet = NameSet::new();
    let mut lib: NameSet = NameSet::new();
    let mut i: usize = 0;
    assert(all.take(0) =~= Seq::empty());
    while i < refs.len()
        invariant
            i <= refs@.len(),
            names.wf(items),
            all == refs_view(refs@),
            prelude == views(names.prelude@),
            user.wf(),
            lib.wf(),
            forall|x: Seq<char>| #[trigger]
                user@.contains(x) <==> mentions(all.take(i as int), x) && is_fn(items, x)
                    && is_user(items, prelude, x),
            forall|x: Seq<char>| #[trigger]
                lib@.contains(x) <==> mentions(all.take(i as int), x) && (if is_fn(items, x) {
                    !is_user(items, prelude, x)
                } else {
                    builtin_names().contains(x)
                }),
        decreases refs@.len() - i,
    {
        let name: &str = refs[i].name.as_str();
        proof {
            assert(all[i as int].name == name@);
        }
        let ghost user0 = user@;
        let ghost lib0 = lib@;
        if names.is_fn(name, Ghost(items)) {
            if user_fn(names.items, names.prelude, name) {
                user.insert(name);
            } else {
                lib.insert(name);
            }
        } else if names.is_builtin(name, Ghost(items)) {
            lib.insert(name);
        }
        i = i + 1;
        proof {
            assert forall|x: Seq<char>| #[trigger] user@.contains(x) <==> mentions(
                all.take(i as int),
                x,
            ) && is_fn(items, x) && is_user(items, prelude, x) by {
                lemma_mentions_step(all, i - 1, x);
                assert(user0.contains(x) <==> mentions(all.take(i - 1), x) && is_fn(items, x)
                    && is_user(items, prelude, x));
            }
            assert forall|x: Seq<char>| #[trigger] lib@.contains(x) <==> mentions(
                all.take(i as int),
                x,
            ) && (if is_fn(items, x) {
                !is_user(items, prelude, x)
            } else {
                builtin_names().contains(x)
            }) by {
                lemma_mentions_step(all, i - 1, x);
                assert(lib0.contains(x) <==> mentions(all.take(i - 1), x) && (if is_fn(items, x) {
                    !is_user(items, prelude, x)
                } else {
                    builtin_names().contains(x)
                }));
            }
        }
    }
    proof {
        assert(all.take(i as int) =~= all);
        assert(user@ =~= user_callees(items, prelude, name));
        assert(lib@ =~= library_callees(items, prelude, name));
    }
    (user.into_vec(), lib.into_vec())
}

pub fn add_pos(v: &mut Vec<(u32, u32)>, p: (u32, u32))
    ensures
        final(v)@ == pos_added(old(v)@, p),
    decreases old(v)@.len(),
{
    let ghost start = v@;
    let n: usize = v.len();
    if n == 0 {
        v.push(p);
        assert(v@ =~= seq![p]);
        return;
    }
    let last: (u32, u32) = v[n - 1];
    if last.0 == p.0 && last.1 == p.1 {
        return;
    }
    if last.0 < p.0 || (last.0 == p.0 && last.1 < p.1) {
        v.push(p);
        return;
    }
    let _dropped: Option<(u32, u32)> = v.pop();
    assert(v@ =~= start.drop_last());
    add_pos(v, p);
    v.push(last);
}

fn site_list(refs: &Vec<CallRef>, name: &str) -> (r: Vec<(u32, u32)>)
    ensures
        r@ == positions(refs_view(refs@), refs@.len(), name@),
{
    let mut r: Vec<(u32, u32)> = Vec::new();
    let mut i: usize = 0;
    while i < refs.len()
        invariant
            i <= refs@.len(),
            r@ == positions(refs_view(refs@), i as nat, name@),
        decreases refs@.len() - i,
    {
        assert(refs_view(refs@)[i as int] == refs@[i as int]@);
        if str_eq(refs[i].name.as_str(), name) && !refs[i].span.is_none() {
            add_pos(&mut r, (refs[i].span.start_line, refs[i].span.start_col));
        }
        i = i + 1;
    }
    r
}

proof fn lemma_located_step(items: Seq<Item>, refs: Seq<RefV>, i: int, x: Seq<char>)
    requires
        0 <= i < refs.len(),
    ensures
        located_targets(items, refs.take(i + 1)).contains(x) <==> located_targets(
            items,
            refs.take(i),
        ).contains(x) || (refs[i].name == x && refs[i].span.located() && is_target(items, x)),
{
    let a = refs.take(i);
    let b = refs.take(i + 1);
    if located_targets(items, a).contains(x) {
        let k = choose|k: int|
            0 <= k < a.len() && (#[trigger] a[k]).name == x && a[k].span.located();
        assert(b[k].name == x);
    }
    if refs[i].name == x && refs[i].span.located() && is_target(items, x) {
        assert(b[i].name == x);
    }
    if located_targets(items, b).contains(x) {
        let k = choose|k: int|
            0 <= k < b.len() && (#[trigger] b[k]).name == x && b[k].span.located();
        if k < i {
            assert(a[k].name == x);
        }
    }
}

/// The call sites of a function: for each located target, in order, the sorted
/// positions.
fn collect_call_sites(refs: &Vec<CallRef>, names: &Names, Ghost(items): Ghost<Seq<Item>>) -> (r:
    Vec<(String, Vec<(u32, u32)>)>)
    requires
        names.wf(items),
    ensures
        site_views(r@) == call_sites(items, refs_view(refs@)),
{
    let ghost all = refs_view(refs@);
    let mut set: NameSet = NameSet::new();
    let mut i: usize = 0;
    assert(all.take(0) =~= Seq::empty());
    while i < refs.len()
        invariant
            i <= refs@.len(),
            names.wf(items),
            all == refs_view(refs@),
            set.wf(),
            forall|x: Seq<char>| #[trigger]
                set@.contains(x) <==> located_targets(items, all.take(i as int)).contains(x),
        decreases refs@.len() - i,
    {
        let name: &str = refs[i].name.as_str();
        proof {
            assert(all[i as int] == refs@[i as int]@);
        }
        let ghost set0 = set@;
        if !refs[i].span.is_none() && (names.is_fn(name, Ghost(items)) || names.is_builtin(
            name,
            Ghost(items),
        )) {
            set.insert(name);
        }
        i = i + 1;
        proof {
            assert forall|x: Seq<char>| #[trigger] set@.contains(x) <==> located_targets(
                items,
                all.take(i as int),
            ).contains(x) by {
                lemma_located_step(items, all, i - 1, x);
                assert(set0.contains(x) <==> located_targets(items, all.take(i - 1)).contains(x));
            }
        }
    }
    proof {
        assert(all.take(i as int) =~= all);
        assert(set@ =~= located_targets(items, all));
    }
    let targets: Vec<String> = set.into_vec();
    let mut r: Vec<(String, Vec<(u32, u32)>)> = Vec::new();
    let mut k: usize = 0;
    while k < targets.len()
        invariant
            k <= targets@.len(),
            all == refs_view(refs@),
            all.len() == refs@.len(),
            r@.len() == k,
            forall|j: int|
                0 <= j < k ==> (#[trigger] r@[j]).0@ == targets@[j]@ && r@[j].1@ == positions(
                    all,
                    all.len(),
                    targets@[j]@,
                ),
        decreases targets@.len() - k,
    {
        let sites: Vec<(u32, u32)> = site_list(refs, targets[k].as_str());
        r.push((targets[k].clone(), sites));
        k = k + 1;
    }
    assert(site_views(r@) =~= call_sites(items, all));
    r
}

pub fn lookup_type(types: &Vec<(Span, String)>, span: Span) -> (r: Option<String>)
    ensures
        opt_view(r) == type_at(types@, span),
{
    if span.is_none() {
        return None;
    }
    let mut i: usize = 0;
    assert(types@.skip(0) =~= types@);
    while i < types.len()
        invariant
            i <= types@.len(),
            span.located(),
            type_at(types@, span) == type_at(types@.skip(i as int), span),
        decreases types@.len() - i,
    {
        if types[i].0 == span {
            return Some(types[i].1.clone());
        }
        assert(types@.skip(i as int).drop_first() =~= types@.skip(i + 1));
        i = i + 1;
    }
    None
}

fn make_edge(r: &CallRef, types: &Vec<(Span, String)>) -> (t: TypedSite)
    ensures
        t@ == typed_edge(r@, types@),
{
    let mut arg_types: Vec<Option<String>> = Vec::new();
    let mut i: usize = 0;
    while i < r.args.len()
        invariant
            i <= r.args@.len(),
            arg_types@.len() == i,
            forall|j: int|
                0 <= j < i ==> opt_view(#[trigger] arg_types@[j]) == type_at(types@, r.args@[j]),
        decreases r.args@.len() - i,
    {
        arg_types.push(lookup_type(types, r.args[i]));
        i = i + 1;
    }
    assert(opt_views(arg_types@) =~= r@.args.map_values(|s: Span| type_at(types@, s)));
    TypedSite {
        callee: r.name.clone(),
        line: r.span.start_line,
        col: r.span.start_col,
        arg_types,
        result_type: lookup_type(types, r.span),
    }
}

fn before(a: &TypedSite, b: &TypedSite) -> (r: bool)
    ensures
        r == edge_lt(a@, b@),
{
    a.line < b.line || (a.line == b.line && a.col < b.col) || (a.line == b.line && a.col == b.col
        && str_lt(a.callee.as_str(), b.callee.as_str()))
}

fn add_edge(v: &mut Vec<TypedSite>, x: TypedSite)
    ensures
        typed_views(final(v)@) == edge_added(typed_views(old(v)@), x@),
    decreases old(v)@.len(),
{
    let ghost start = v@;
    let n: usize = v.len();
    proof {
        if n > 0 {
            assert(typed_views(start).last() == start.last()@);
        }
    }
    if n == 0 || !before(&x, &v[n - 1]) {
        v.push(x);
        assert(typed_views(v@) =~= typed_views(start).push(x@));
        return;
    }
    match v.pop() {
        Some(last) => {
            assert(typed_views(v@) =~= typed_views(start).drop_last());
            add_edge(v, x);
            let ghost mid = v@;
            v.push(last);
            assert(typed_views(v@) =~= typed_views(mid).push(last@));
        },
        None => {},
    }
}

/// The typed edges of a function, sorted.
fn collect_typed_sites(
    refs: &Vec<CallRef>,
    names: &Names,
    types: &Vec<(Span, String)>,
    Ghost(items): Ghost<Seq<Item>>,
) -> (r: Vec<TypedSite>)
    requires
        names.wf(items),
    ensures
        typed_views(r@) == typed_edges(items, refs_view(refs@), refs@.len(), types@),
{
    let mut r: Vec<TypedSite> = Vec::new();
    let mut i: usize = 0;
    assert(typed_views(r@) =~= Seq::empty());
    while i < refs.len()
        invariant
            i <= refs@.len(),
            names.wf(items),
            typed_views(r@) == typed_edges(items, refs_view(refs@), i as nat, types@),
        decreases refs@.len() - i,
    {
        assert(refs_view(refs@)[i as int] == refs@[i as int]@);
        let name: &str = refs[i].name.as_str();
        if !refs[i].span.is_none() && (names.is_fn(name, Ghost(items)) || names.is_builtin(
            name,
            Ghost(items),
        )) {
            add_edge(&mut r, make_edge(&refs[i], types));
        }
        i = i + 1;
    }
    r
}

fn copy_names(v: &Vec<String>) -> (r: Vec<String>)
    ensures
        views(r@) == views(v@),
{
    let mut r: Vec<String> = Vec::new();
    let mut i: usize = 0;
    while i < v.len()
        invariant
            i <= v@.len(),
            r@.len() == i,
            forall|j: int| 0 <= j < i ==> (#[trigger] r@[j])@ == v@[j]@,
        decreases v@.len() - i,
    {
        r.push(v[i].clone());
        i = i + 1;
    }
    assert(views(r@) =~= views(v@));
    r
}

impl Signature {
    /// Render a function's declared signature (no inference).
    pub fn of(f: &FnDecl) -> (r: Signature)
        ensures
            r@ == signature_of(*f),
    {
        let mut bounds: Vec<(String, String)> = Vec::new();
        let mut i: usize = 0;
        while i < f.bounds.len()
            invariant
                i <= f.bounds@.len(),
                bounds@.len() == i,
                forall|j: int|
                    0 <= j < i ==> (#[trigger] bounds@[j]).0@ == f.bounds@[j].0@ && bounds@[j].1@
                        == f.bounds@[j].1@,
            decreases f.bounds@.len() - i,
        {
            bounds.push((f.bounds[i].0.clone(), f.bounds[i].1.clone()));
            i = i + 1;
        }
        assert(pair_views(bounds@) =~= pair_views(f.bounds@));
        let mut params: Vec<(String, String)> = Vec::new();
        let mut k: usize = 0;
        while k < f.params.len()
            invariant
                k <= f.params@.len(),
                params@.len() == k,
                forall|j: int|
                    0 <= j < k ==> (#[trigger] params@[j]).0@ == f.params@[j].name@ && params@[j].1@
                        == shown(f.params@[j].ty),
            decreases f.params@.len() - k,
        {
            let ty: String = show(&f.params[k].ty);
            params.push((f.params[k].name.clone(), ty));
            k = k + 1;
        }
        assert(pair_views(params@) =~= rendered_params(f.params@));
        Signature { type_params: copy_names(&f.type_params), bounds, params, ret: show(&f.ret) }
    }
}

/// The callees and library callees of every function, in source order.
spec fn callees_of_all(
    order: Seq<String>,
    callees: Seq<Vec<String>>,
    items: Seq<Item>,
    prelude: Seq<Seq<char>>,
) -> bool {
    callees.len() == order.len() && forall|i: int|
        0 <= i < order.len() ==> lists(
            views((#[trigger] callees[i])@),
            user_callees(items, prelude, order[i]@),
        )
}

proof fn lemma_calls(
    order: Seq<String>,
    callees: Seq<Vec<String>>,
    items: Seq<Item>,
    prelude: Seq<Seq<char>>,
    i: int,
    x: Seq<char>,
)
    requires
        views(order) == source_order(items, items.len()),
        callees_of_all(order, callees, items, prelude),
        0 <= i < order.len(),
    ensures
        is_fn(items, order[i]@),
        edge(call_graph(items, prelude), order[i]@, x) <==> has_name(callees[i]@, x),
        edge(call_graph(items, prelude), order[i]@, x) <==> views(callees[i]@).contains(x),
{
    lemma_source_order(items, items.len());
    assert(views(order)[i] == order[i]@);
    assert(source_order(items, items.len()).contains(order[i]@));
    lemma_has_name(callees[i]@, x);
    assert(lists(views(callees[i]@), user_callees(items, prelude, order[i]@)));
    assert(user_callees(items, prelude, order[i]@).contains(x) <==> views(callees[i]@).contains(x));
}

/// The positions of a function's callees.
fn callee_positions(
    order: &Vec<String>,
    callees: &Vec<Vec<String>>,
    i: usize,
    Ghost(items): Ghost<Seq<Item>>,
    Ghost(prelude): Ghost<Seq<Seq<char>>>,
) -> (r: Vec<usize>)
    requires
        views(order@) == source_order(items, items.len()),
        callees_of_all(order@, callees@, items, prelude),
        i < order@.len(),
    ensures
        forall|k: int| 0 <= k < r@.len() ==> #[trigger] r@[k] < order@.len(),
        forall|j: int|
            0 <= j < order@.len() ==> (edge(
                call_graph(items, prelude),
                order@[i as int]@,
                #[trigger] order@[j]@,
            ) <==> r@.contains(j as usize)),
{
    let ghost g = call_graph(items, prelude);
    let n: usize = order.len();
    let mut r: Vec<usize> = Vec::new();
    let mut k: usize = 0;
    while k < callees[i].len()
        invariant
            n == order@.len(),
            views(order@) == source_order(items, items.len()),
            callees_of_all(order@, callees@, items, prelude),
            i < order@.len(),
            k <= callees@[i as int]@.len(),
            forall|m: int| 0 <= m < r@.len() ==> #[trigger] r@[m] < order@.len(),
            forall|j: int|
                0 <= j < order@.len() ==> (r@.contains(j as usize) <==> exists|m: int|
                    0 <= m < k && (#[trigger] callees@[i as int]@[m])@ == #[trigger] order@[j]@),
        decreases callees@[i as int]@.len() - k,
    {
        let ghost r0 = r@;
        let name: &str = callees[i][k].as_str();
        proof {
            lemma_position(views(order@), name@);
            lemma_source_order(items, items.len());
        }
        match position_of(order, name) {
            Some(j) => {
                r.push(j);
                assert(views(order@)[j as int] == order@[j as int]@);
                proof {
                    assert forall|q: int| 0 <= q < order@.len() implies (r@.contains(q as usize)
                        <==> exists|m: int|
                        0 <= m < k + 1 && (#[trigger] callees@[i as int]@[m])@
                            == #[trigger] order@[q]@) by {
                        if r0.contains(q as usize) {
                            let m = choose|m: int| 0 <= m < r0.len() && r0[m] == q as usize;
                            assert(r@[m] == q as usize);
                            let w = choose|w: int|
                                0 <= w < k && (#[trigger] callees@[i as int]@[w])@ == order@[q]@;
                            assert(callees@[i as int]@[w]@ == order@[q]@);
                        }
                        if q == j {
                            assert(r@[r0.len() as int] == q as usize);
                            assert(callees@[i as int]@[k as int]@ == order@[q]@);
                        }
                        if exists|m: int|
                            0 <= m < k + 1 && (#[trigger] callees@[i as int]@[m])@ == order@[q]@ {
                            let m = choose|m: int|
                                0 <= m < k + 1 && (#[trigger] callees@[i as int]@[m])@ == order@[q]@;
                            if m < k {
                                assert(r0.contains(q as usize));
                            } else if q != j {
                                assert(views(order@)[q] == views(order@)[j as int]);
                            }
                        }
                        if r@.contains(q as usize) && !r0.contains(q as usize) {
                            let m = choose|m: int| 0 <= m < r@.len() && r@[m] == q as usize;
                            if m < r0.len() {
                                assert(r0[m] == q as usize);
                            }
                            assert(q == j);
                        }
                    }
                }
            },
            None => {
                proof {
                    assert forall|q: int| 0 <= q < order@.len() implies (r@.contains(q as usize)
                        <==> exists|m: int|
                        0 <= m < k + 1 && (#[trigger] callees@[i as int]@[m])@
                            == #[trigger] order@[q]@) by {
                        assert(views(order@)[q] != name@);
                        if r0.contains(q as usize) {
                            let w = choose|w: int|
                                0 <= w < k && (#[trigger] callees@[i as int]@[w])@ == order@[q]@;
                            assert(callees@[i as int]@[w]@ == order@[q]@);
                        }
                        if exists|m: int|
                            0 <= m < k + 1 && (#[trigger] callees@[i as int]@[m])@ == order@[q]@ {
                            let m = choose|m: int|
                                0 <= m < k + 1 && (#[trigger] callees@[i as int]@[m])@ == order@[q]@;
                            assert(m < k);
                        }
                    }
                }
            },
        }
        k = k + 1;
    }
    proof {
        assert forall|j: int| 0 <= j < order@.len() implies (edge(
            g,
            order@[i as int]@,
            #[trigger] order@[j]@,
        ) <==> r@.contains(j as usize)) by {
            lemma_calls(order@, callees@, items, prelude, i as int, order@[j]@);
        }
    }
    r
}

/// The call graph as lists.
fn edge_list(
    order: Vec<String>,
    callees: &Vec<Vec<String>>,
    Ghost(items): Ghost<Seq<Item>>,
    Ghost(prelude): Ghost<Seq<Seq<char>>>,
) -> (r: EdgeList)
    requires
        views(order@) == source_order(items, items.len()),
        callees_of_all(order@, callees@, items, prelude),
    ensures
        r.names == order,
        r.stands_for(call_graph(items, prelude)),
{
    let ghost g = call_graph(items, prelude);
    let mut adj: Vec<Vec<usize>> = Vec::new();
    let mut i: usize = 0;
    while i < order.len()
        invariant
            i <= order@.len(),
            g == call_graph(items, prelude),
            views(order@) == source_order(items, items.len()),
            callees_of_all(order@, callees@, items, prelude),
            adj@.len() == i,
            forall|a: int, k: int|
                0 <= a < i && 0 <= k < adj@[a]@.len() ==> #[trigger] adj@[a]@[k] < order@.len(),
            forall|a: int, j: int|
                0 <= a < i && 0 <= j < order@.len() ==> (edge(
                    g,
                    #[trigger] order@[a]@,
                    #[trigger] order@[j]@,
                ) <==> adj@[a]@.contains(j as usize)),
        decreases order@.len() - i,
    {
        let row: Vec<usize> = callee_positions(&order, callees, i, Ghost(items), Ghost(prelude));
        let ghost adj0 = adj@;
        adj.push(row);
        proof {
            assert forall|a: int, k: int|
                0 <= a < i + 1 && 0 <= k < adj@[a]@.len() implies #[trigger] adj@[a]@[k]
                < order@.len() by {
                if a < i {
                    assert(adj0[a]@[k] < order@.len());
                } else {
                    assert(row@[k] < order@.len());
                }
            }
            assert forall|a: int, j: int|
                0 <= a < i + 1 && 0 <= j < order@.len() implies (edge(
                g,
                #[trigger] order@[a]@,
                #[trigger] order@[j]@,
            ) <==> adj@[a]@.contains(j as usize)) by {
                if a < i {
                    assert(adj0[a] == adj@[a]);
                }
            }
        }
        i = i + 1;
    }
    let r = EdgeList { names: order, adj };
    proof {
        lemma_source_order(items, items.len());
        let ns = r.names@;
        assert forall|x: Seq<char>| #[trigger] g.contains_key(x) <==> views(ns).contains(x) by {}
        assert forall|a: int, b: int| 0 <= a < b < ns.len() implies #[trigger] ns[a]@
            != #[trigger] ns[b]@ by {
            assert(views(ns)[a] != views(ns)[b]);
        }
        assert forall|a: int, j: int| 0 <= a < ns.len() && 0 <= j < ns.len() implies (edge(
            g,
            #[trigger] r.at(a),
            #[trigger] r.at(j),
        ) <==> r.adj@[a]@.contains(j as usize)) by {
            assert(edge(g, ns[a]@, ns[j]@) <==> adj@[a]@.contains(j as usize));
        }
        assert(closed(g));
    }
    r
}

/// The functions that call a function.
fn find_callers(
    order: &Vec<String>,
    callees: &Vec<Vec<String>>,
    name: &str,
    Ghost(items): Ghost<Seq<Item>>,
    Ghost(prelude): Ghost<Seq<Seq<char>>>,
) -> (r: Vec<String>)
    requires
        views(order@) == source_order(items, items.len()),
        callees_of_all(order@, callees@, items, prelude),
    ensures
        lists(views(r@), callers_of(items, prelude, name@)),
        views(r@) == listed(callers_of(items, prelude, name@)),
{
    let ghost g = call_graph(items, prelude);
    let mut set: NameSet = NameSet::new();
    let mut j: usize = 0;
    while j < order.len()
        invariant
            j <= order@.len(),
            g == call_graph(items, prelude),
            views(order@) == source_order(items, items.len()),
            callees_of_all(order@, callees@, items, prelude),
            set.wf(),
            forall|x: Seq<char>| #[trigger]
                set@.contains(x) <==> edge(g, x, name@) && exists|k: int|
                    0 <= k < j && (#[trigger] order@[k])@ == x,
        decreases order@.len() - j,
    {
        let ghost set0 = set@;
        proof {
            lemma_calls(order@, callees@, items, prelude, j as int, name@);
        }
        if contains_name(&callees[j], name) {
            set.insert(order[j].as_str());
        }
        j = j + 1;
        proof {
            assert forall|x: Seq<char>| #[trigger] set@.contains(x) <==> edge(g, x, name@)
                && exists|k: int| 0 <= k < j && (#[trigger] order@[k])@ == x by {
                if set0.contains(x) {
                    let k = choose|k: int| 0 <= k < j - 1 && (#[trigger] order@[k])@ == x;
                    assert(order@[k]@ == x);
                }
                if x == order@[j - 1]@ {
                    assert(order@[j - 1]@ == x);
                }
                if edge(g, x, name@) && exists|k: int| 0 <= k < j && (#[trigger] order@[k])@ == x {
                    let k = choose|k: int| 0 <= k < j && (#[trigger] order@[k])@ == x;
                    if k < j - 1 {
                        assert(set0.contains(x));
                    }
                }
            }
        }
    }
    proof {
        lemma_source_order(items, items.len());
        assert forall|x: Seq<char>| set@.contains(x) <==> callers_of(
            items,
            prelude,
            name@,
        ).contains(x) by {
            if edge(g, x, name@) {
                assert(source_order(items, items.len()).contains(x));
                let k = choose|k: int| 0 <= k < views(order@).len() && views(order@)[k] == x;
                assert(order@[k]@ == x);
            }
        }
        assert(set@ =~= callers_of(items, prelude, name@));
    }
    set.into_vec()
}

/// The set of user functions reachable from `main`, by position in the source
/// order; nothing without a `main`.
fn reachable_from_main(el: &EdgeList, Ghost(g): Ghost<Graph>) -> (r: Option<Vec<bool>>)
    requires
        el.stands_for(g),
    ensures
        r is Some <==> g.contains_key("main"@),
        r matches Some(v) ==> v@.len() == el.names@.len() && forall|j: int|
            0 <= j < el.names@.len() ==> #[trigger] v@[j] == connected(g, "main"@, el.at(j)),
{
    proof {
        lemma_position(views(el.names@), "main"@);
    }
    match position_of(&el.names, "main") {
        Some(i) => {
            assert(el.at(i as int) == "main"@);
            Some(reachable(el, i, Ghost(g)))
        },
        None => None,
    }
}

/// Build the static call graph for a program. `prelude_names` holds the prelude
/// function names. Equivalent to [`analyze_typed`] with no type map.
pub fn analyze(program: &Program, prelude_names: &Vec<String>) -> (r: CallGraph)
    ensures
        r@ == analysis(program.items@, views(prelude_names@), None),
{
    analyze_typed(program, prelude_names, None)
}

/// The type map, as a model.
pub open spec fn type_map(types: Option<&Vec<(Span, String)>>) -> Option<Seq<(Span, String)>> {
    match types {
        Some(t) => Some(t@),
        None => None,
    }
}

/// The facts of function `i`.
fn make_info(
    items: &Vec<Item>,
    names: &Names,
    callees: &Vec<Vec<String>>,
    i: usize,
    refs: &Vec<CallRef>,
    lib: &Vec<String>,
    types: Option<&Vec<(Span, String)>>,
) -> (r: FnInfo)
    requires
        names.wf(items@),
        callees_of_all(names.order@, callees@, items@, views(names.prelude@)),
        i < names.order@.len(),
        refs_view(refs@) == refs_of(items@, names.order@[i as int]@),
        views(lib@) == listed(
            library_callees(items@, views(names.prelude@), names.order@[i as int]@),
        ),
    ensures
        r@ == fn_facts(items@, views(names.prelude@), type_map(types), names.order@[i as int]@),
{
    let ghost prelude = views(names.prelude@);
    let name: &str = names.order[i].as_str();
    proof {
        lemma_calls(names.order@, callees@, items@, prelude, i as int, name@);
        lemma_last_decl(items@, items@.len(), name@);
        assert(lists(views(callees@[i as int]@), user_callees(items@, prelude, name@)));
        lemma_listed(views(callees@[i as int]@), user_callees(items@, prelude, name@));
    }
    let callers: Vec<String> = find_callers(
        names.order,
        callees,
        name,
        Ghost(items@),
        Ghost(prelude),
    );
    let recursive: bool = contains_name(&callees[i], name);
    let user: bool = user_fn(items, names.prelude, name);
    let call_sites: Vec<(String, Vec<(u32, u32)>)> = collect_call_sites(
        refs,
        names,
        Ghost(items@),
    );
    let typed_sites: Vec<TypedSite> = match types {
        Some(t) => collect_typed_sites(refs, names, t, Ghost(items@)),
        None => Vec::new(),
    };
    proof {
        if types is None {
            assert(typed_views(typed_sites@) =~= Seq::empty());
        }
    }
    let (signature, line) = match find_decl(items, name) {
        Some(f) => (Signature::of(f), f.line),
        None => {
            assert(false);
            (
                Signature {
                    type_params: Vec::new(),
                    bounds: Vec::new(),
                    params: Vec::new(),
                    ret: String::new(),
                },
                0,
            )
        },
    };
    FnInfo {
        name: names.order[i].clone(),
        signature,
        line,
        user,
        callees: copy_names(&callees[i]),
        lib_callees: copy_names(lib),
        fan_in: callers.len(),
        fan_out: callees[i].len(),
        callers,
        recursive,
        call_sites,
        typed_sites,
    }
}

/// Build the static call graph, optionally enriched with per-call-site argument
/// and result types from `types` (span and rendered type). The type map never
/// changes the structural fields.
pub fn analyze_typed(
    program: &Program,
    prelude_names: &Vec<String>,
    types: Option<&Vec<(Span, String)>>,
) -> (r: CallGraph)
    ensures
        r@ == analysis(program.items@, views(prelude_names@), type_map(types)),
{
    let ghost items = program.items@;
    let ghost prelude = views(prelude_names@);
    let ghost g = call_graph(items, prelude);
    let order: Vec<String> = source_names(&program.items);
    let builtins: Vec<&'static str> = names();
    let names = Names {
        items: &program.items,
        order: &order,
        prelude: prelude_names,
        builtins: &builtins,
    };
    let mut refs: Vec<Vec<CallRef>> = Vec::new();
    let mut callees: Vec<Vec<String>> = Vec::new();
    let mut libs: Vec<Vec<String>> = Vec::new();
    let mut i: usize = 0;
    while i < order.len()
        invariant
            i <= order@.len(),
            items == program.items@,
            prelude == views(prelude_names@),
            names.order == &order,
            names.prelude == prelude_names,
            names.wf(items),
            refs@.len() == i,
            callees@.len() == i,
            libs@.len() == i,
            forall|j: int|
                0 <= j < i ==> refs_view((#[trigger] refs@[j])@) == refs_of(items, order@[j]@),
            forall|j: int|
                0 <= j < i ==> lists(
                    views((#[trigger] callees@[j])@),
                    user_callees(items, prelude, order@[j]@),
                ),
            forall|j: int|
                0 <= j < i ==> views((#[trigger] libs@[j])@) == listed(
                    library_callees(items, prelude, order@[j]@),
                ),
        decreases order@.len() - i,
    {
        let found: Vec<CallRef> = find_refs(&program.items, order[i].as_str());
        let (user, lib) = callee_names(&found, &names, Ghost(items), Ghost(order@[i as int]@));
        refs.push(found);
        callees.push(user);
        libs.push(lib);
        i = i + 1;
    }
    let mut functions: Vec<FnInfo> = Vec::new();
    let mut unused_set: NameSet = NameSet::new();
    let mut user_set: NameSet = NameSet::new();
    let mut k: usize = 0;
    while k < order.len()
        invariant
            k <= order@.len(),
            items == program.items@,
            prelude == views(prelude_names@),
            g == call_graph(items, prelude),
            names.order == &order,
            names.prelude == prelude_names,
            names.wf(items),
            callees_of_all(order@, callees@, items, prelude),
            refs@.len() == order@.len(),
            libs@.len() == order@.len(),
            forall|j: int|
                0 <= j < order@.len() ==> refs_view((#[trigger] refs@[j])@) == refs_of(
                    items,
                    order@[j]@,
                ),
            forall|j: int|
                0 <= j < order@.len() ==> views((#[trigger] libs@[j])@) == listed(
                    library_callees(items, prelude, order@[j]@),
                ),
            functions@.len() == k,
            forall|j: int|
                0 <= j < k ==> (#[trigger] functions@[j])@ == fn_facts(
                    items,
                    prelude,
                    type_map(types),
                    order@[j]@,
                ),
            unused_set.wf(),
            user_set.wf(),
            forall|x: Seq<char>| #[trigger]
                unused_set@.contains(x) <==> unused_fns(items, prelude).contains(x) && exists|j: int|
                    0 <= j < k && (#[trigger] order@[j])@ == x,
            forall|x: Seq<char>| #[trigger]
                user_set@.contains(x) <==> user_fns(items, prelude).contains(x) && exists|j: int|
                    0 <= j < k && (#[trigger] order@[j])@ == x,
        decreases order@.len() - k,
    {
        let info: FnInfo = make_info(
            &program.items,
            &names,
            &callees,
            k,
            &refs[k],
            &libs[k],
            types,
        );
        let name: &str = order[k].as_str();
        let ghost unused0 = unused_set@;
        let ghost user0 = user_set@;
        proof {
            lemma_calls(order@, callees@, items, prelude, k as int, name@);
            let facts = fn_facts(items, prelude, type_map(types), name@);
            assert(info@ == facts);
            assert(views(info.callers@) == facts.callers);
        }
        let callers: Vec<String> = find_callers(
            &order,
            &callees,
            name,
            Ghost(items),
            Ghost(prelude),
        );
        proof {
            let set = callers_of(items, prelude, name@);
            if callers@.len() == 0 {
                assert forall|c: Seq<char>| !#[trigger] set.contains(c) by {}
            } else {
                assert(views(callers@)[0] == callers@[0]@);
                assert(views(callers@).contains(callers@[0]@));
                assert(set.contains(callers@[0]@));
            }
        }
        if info.user {
            user_set.insert(name);
            if !str_eq(name, "main") && callers.len() == 0 {
                unused_set.insert(name);
            }
        }
        functions.push(info);
        k = k + 1;
        proof {
            assert forall|x: Seq<char>| #[trigger] unused_set@.contains(x) <==> unused_fns(
                items,
                prelude,
            ).contains(x) && exists|j: int| 0 <= j < k && (#[trigger] order@[j])@ == x by {
                lemma_member_step(order@, k - 1, x);
                assert(unused0.contains(x) <==> unused_fns(items, prelude).contains(x) && exists|
                    j: int,
                |
                    0 <= j < k - 1 && (#[trigger] order@[j])@ == x);
            }
            assert forall|x: Seq<char>| #[trigger] user_set@.contains(x) <==> user_fns(
                items,
                prelude,
            ).contains(x) && exists|j: int| 0 <= j < k && (#[trigger] order@[j])@ == x by {
                lemma_member_step(order@, k - 1, x);
                assert(user0.contains(x) <==> user_fns(items, prelude).contains(x) && exists|j: int|
                    0 <= j < k - 1 && (#[trigger] order@[j])@ == x);
            }
        }
    }
    proof {
        lemma_all_members(order@, items);
        assert(unused_set@ =~= unused_fns(items, prelude));
        assert(user_set@ =~= user_fns(items, prelude));
    }
    let unused: Vec<String> = unused_set.into_vec();
    let users: Vec<String> = user_set.into_vec();
    let el: EdgeList = edge_list(order, &callees, Ghost(items), Ghost(prelude));
    let reached: Option<Vec<bool>> = reachable_from_main(&el, Ghost(g));
    let mut unreachable_set: NameSet = NameSet::new();
    if let Some(seen) = &reached {
        let mut m: usize = 0;
        while m < el.names.len()
            invariant
                m <= el.names@.len(),
                items == program.items@,
                prelude == views(prelude_names@),
                g == call_graph(items, prelude),
                is_fn(items, "main"@),
                views(el.names@) == source_order(items, items.len()),
                seen@.len() == el.names@.len(),
                forall|j: int|
                    0 <= j < el.names@.len() ==> #[trigger] seen@[j] == connected(
                        g,
                        "main"@,
                        el.at(j),
                    ),
                unreachable_set.wf(),
                forall|x: Seq<char>| #[trigger]
                    unreachable_set@.contains(x) <==> unreachable_fns(items, prelude).contains(x)
                        && exists|j: int| 0 <= j < m && (#[trigger] el.names@[j])@ == x,
            decreases el.names@.len() - m,
        {
            let ghost set0 = unreachable_set@;
            let name: &str = el.names[m].as_str();
            proof {
                assert(el.at(m as int) == name@);
                lemma_source_order(items, items.len());
                assert(views(el.names@)[m as int] == name@);
                assert(source_order(items, items.len()).contains(name@));
            }
            if user_fn(&program.items, prelude_names, name) && !seen[m] {
                unreachable_set.insert(name);
            }
            m = m + 1;
            proof {
                assert forall|x: Seq<char>| #[trigger] unreachable_set@.contains(x)
                    <==> unreachable_fns(items, prelude).contains(x) && exists|j: int|
                    0 <= j < m && (#[trigger] el.names@[j])@ == x by {
                    lemma_member_step(el.names@, m - 1, x);
                    assert(set0.contains(x) <==> unreachable_fns(items, prelude).contains(x)
                        && exists|j: int| 0 <= j < m - 1 && (#[trigger] el.names@[j])@ == x);
                }
            }
        }
    }
    proof {
        lemma_all_members(el.names@, items);
        assert(unreachable_set@ =~= unreachable_fns(items, prelude));
        assert forall|j: int| 0 <= j < users@.len() implies g.contains_key(
            #[trigger] users@[j]@,
        ) by {
            assert(views(users@)[j] == users@[j]@);
            assert(views(users@).contains(users@[j]@));
            assert(user_fns(items, prelude).contains(users@[j]@));
        }
    }
    let unreachable: Vec<String> = unreachable_set.into_vec();
    let found_cycles: Vec<Vec<String>> = recursive_cycles(&el, &users, Ghost(g));
    let entry: Option<String> = match &reached {
        Some(_) => Some("main".to_owned()),
        None => None,
    };
    proof {
        let expect = source_order(items, items.len()).map_values(
            |x: Seq<char>| fn_facts(items, prelude, type_map(types), x),
        );
        assert(fn_views(functions@) =~= expect) by {
            assert forall|j: int| 0 <= j < functions@.len() implies #[trigger] fn_views(
                functions@,
            )[j] == expect[j] by {
                assert(views(el.names@)[j] == el.names@[j]@);
                assert(functions@[j]@ == fn_facts(items, prelude, type_map(types), el.names@[j]@));
            }
        }
    }
    CallGraph { functions, entry, unused, unreachable, cycles: found_cycles }
}

proof fn lemma_member_step(order: Seq<String>, i: int, x: Seq<char>)
    requires
        0 <= i < order.len(),
    ensures
        (exists|j: int| 0 <= j < i + 1 && (#[trigger] order[j])@ == x) <==> (exists|j: int|
            0 <= j < i && (#[trigger] order[j])@ == x) || order[i]@ == x,
{
    if exists|j: int| 0 <= j < i && (#[trigger] order[j])@ == x {
        let j = choose|j: int| 0 <= j < i && (#[trigger] order[j])@ == x;
        assert(order[j]@ == x);
    }
}

/// Every function of the program is in the source order.
proof fn lemma_all_members(order: Seq<String>, items: Seq<Item>)
    requires
        views(order) == source_order(items, items.len()),
    ensures
        forall|x: Seq<char>| #[trigger]
            is_fn(items, x) ==> exists|j: int| 0 <= j < order.len() && (#[trigger] order[j])@ == x,
{
    lemma_source_order(items, items.len());
    assert forall|x: Seq<char>| #[trigger] is_fn(items, x) implies exists|j: int|
        0 <= j < order.len() && (#[trigger] order[j])@ == x by {
        assert(source_order(items, items.len()).contains(x));
        let k = choose|k: int| 0 <= k < views(order).len() && views(order)[k] == x;
        assert(order[k]@ == x);
    }
}

/// The names of the prelude's functions, sorted, by which the functions of a
/// program that was wrapped in the prelude are told apart as library code. The
/// prelude comes as a parsed program; a prelude that does not parse has none.
pub fn prelude_fn_names(prelude: Option<&Program>) -> (r: Vec<String>)
    ensures
        match prelude {
            Some(p) => lists(
                views(r@),
                Set::new(|x: Seq<char>| is_fn(p.items@, x)),
            ),
            None => r@.len() == 0,
        },
{
    match prelude {
        Some(p) => {
            let mut names = NameSet::new();
            let mut i: usize = 0;
            while i < p.items.len()
                invariant
                    i <= p.items@.len(),
                    names.wf(),
                    forall|x: Seq<char>| #[trigger]
                        names@.contains(x) <==> declared(p.items@, i as nat, x),
                decreases p.items@.len() - i,
            {
                let ghost before = names@;
                if let Item::Fn(f) = &p.items[i] {
                    names.insert(f.name.as_str());
                }
                assert forall|x: Seq<char>| #[trigger] names@.contains(x) <==> declared(
                    p.items@,
                    (i + 1) as nat,
                    x,
                ) by {
                    assert(before.contains(x) <==> declared(p.items@, i as nat, x));
                }
                i = i + 1;
            }
            proof {
                assert(names@ =~= Set::new(|x: Seq<char>| is_fn(p.items@, x)));
            }
            names.into_vec()
        },
        None => Vec::new(),
    }
}

} // verus!
