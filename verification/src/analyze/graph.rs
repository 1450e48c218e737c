//! Reachability and recursion over a call graph.

use vstd::prelude::*;

use crate::c_backend::env::position_of;
use crate::names::{lists, listed, NameSet};
use crate::text::{lemma_lex_asym, lex_lt, views};

verus! {

/// A call graph: the callees of each function.
pub type Graph = Map<Seq<char>, Set<Seq<char>>>;

/// Whether `a` calls `b`.
pub open spec fn edge(g: Graph, a: Seq<char>, b: Seq<char>) -> bool {
    g.contains_key(a) && g[a].contains(b)
}

/// Whether each of `p` calls the next.
pub open spec fn is_path(g: Graph, p: Seq<Seq<char>>) -> bool {
    p.len() > 0 && forall|i: int| 0 <= i < p.len() - 1 ==> edge(g, #[trigger] p[i], p[i + 1])
}

/// Whether calls lead from `a` to `b`, in any number of steps.
pub open spec fn connected(g: Graph, a: Seq<char>, b: Seq<char>) -> bool {
    exists|p: Seq<Seq<char>>| #[trigger] is_path(g, p) && p[0] == a && p.last() == b
}

/// Whether calls lead from `a` to `b` in at least one step.
pub open spec fn leads(g: Graph, a: Seq<char>, b: Seq<char>) -> bool {
    exists|c: Seq<char>| #[trigger] edge(g, a, c) && connected(g, c, b)
}

/// The functions that `v` leads to and that lead back to it.
pub open spec fn component(g: Graph, v: Seq<char>) -> Set<Seq<char>> {
    Set::new(|w: Seq<char>| connected(g, v, w) && connected(g, w, v))
}

/// Every callee is a function of the graph.
pub open spec fn closed(g: Graph) -> bool {
    forall|a: Seq<char>, b: Seq<char>| #[trigger] edge(g, a, b) ==> g.contains_key(b)
}

// ---------------------------------------------------------------------------
// Facts about paths
// ---------------------------------------------------------------------------

pub proof fn lemma_connected_refl(g: Graph, a: Seq<char>)
    ensures
        connected(g, a, a),
{
    let p = seq![a];
    assert(is_path(g, p));
    assert(p[0] == a && p.last() == a);
}

pub proof fn lemma_connected_step(g: Graph, a: Seq<char>, b: Seq<char>, c: Seq<char>)
    requires
        connected(g, a, b),
        edge(g, b, c),
    ensures
        connected(g, a, c),
{
    let p = choose|p: Seq<Seq<char>>| #[trigger] is_path(g, p) && p[0] == a && p.last() == b;
    let q = p.push(c);
    assert forall|i: int| 0 <= i < q.len() - 1 implies edge(g, #[trigger] q[i], q[i + 1]) by {
        if i < p.len() - 1 {
            assert(edge(g, p[i], p[i + 1]));
        }
    }
    assert(is_path(g, q));
    assert(q[0] == a && q.last() == c);
}

pub proof fn lemma_connected_trans(g: Graph, a: Seq<char>, b: Seq<char>, c: Seq<char>)
    requires
        connected(g, a, b),
        connected(g, b, c),
    ensures
        connected(g, a, c),
{
    let p = choose|p: Seq<Seq<char>>| #[trigger] is_path(g, p) && p[0] == a && p.last() == b;
    let q = choose|q: Seq<Seq<char>>| #[trigger] is_path(g, q) && q[0] == b && q.last() == c;
    let r = p + q.drop_first();
    assert forall|i: int| 0 <= i < r.len() - 1 implies edge(g, #[trigger] r[i], r[i + 1]) by {
        if i < p.len() - 1 {
            assert(edge(g, p[i], p[i + 1]));
        } else {
            let j = i - (p.len() - 1);
            assert(r[i] == q[j]);
            assert(r[i + 1] == q[j + 1]);
        }
    }
    assert(is_path(g, r));
    assert(r[0] == a);
    if q.len() == 1 {
        assert(r =~= p);
    } else {
        assert(r.last() == q.last());
    }
}

/// A connection of distinct functions starts with an edge.
proof fn lemma_connected_first(g: Graph, a: Seq<char>, b: Seq<char>)
    requires
        connected(g, a, b),
        a != b,
    ensures
        leads(g, a, b),
{
    let p = choose|p: Seq<Seq<char>>| #[trigger] is_path(g, p) && p[0] == a && p.last() == b;
    assert(p.len() > 1);
    let q = p.drop_first();
    assert forall|i: int| 0 <= i < q.len() - 1 implies edge(g, #[trigger] q[i], q[i + 1]) by {
        assert(edge(g, p[i + 1], p[i + 2]));
    }
    assert(is_path(g, q));
    assert(q[0] == p[1] && q.last() == b);
    assert(edge(g, p[0], p[0int + 1]));
    assert(edge(g, a, p[1]));
}

/// A set of functions that holds `a` and the callees of its members holds all
/// that `a` leads to.
proof fn lemma_closure(g: Graph, s: Set<Seq<char>>, p: Seq<Seq<char>>, k: int)
    requires
        is_path(g, p),
        s.contains(p[0]),
        forall|x: Seq<char>, y: Seq<char>| s.contains(x) && #[trigger] edge(g, x, y) ==> s.contains(y),
        0 <= k < p.len(),
    ensures
        s.contains(p[k]),
    decreases k,
{
    if k > 0 {
        lemma_closure(g, s, p, k - 1);
        assert(edge(g, p[k - 1], p[(k - 1) + 1]));
    }
}

/// A function is recursive exactly if it calls itself or belongs to a group of
/// mutually recursive functions.
pub proof fn recursive_iff(g: Graph, v: Seq<char>)
    ensures
        leads(g, v, v) <==> edge(g, v, v) || exists|w: Seq<char>|
            w != v && #[trigger] component(g, v).contains(w),
{
    if leads(g, v, v) {
        let c = choose|c: Seq<char>| #[trigger] edge(g, v, c) && connected(g, c, v);
        if c != v {
            lemma_connected_refl(g, v);
            lemma_connected_step(g, v, v, c);
            assert(component(g, v).contains(c));
        }
    }
    if edge(g, v, v) {
        lemma_connected_refl(g, v);
        assert(edge(g, v, v) && connected(g, v, v));
    }
    if exists|w: Seq<char>| w != v && #[trigger] component(g, v).contains(w) {
        let w = choose|w: Seq<char>| w != v && #[trigger] component(g, v).contains(w);
        lemma_connected_first(g, v, w);
        let c = choose|c: Seq<char>| #[trigger] edge(g, v, c) && connected(g, c, w);
        lemma_connected_trans(g, c, w, v);
    }
}

/// Groups of mutually recursive functions do not overlap: a member's group is
/// the same group.
pub proof fn components_disjoint(g: Graph, v: Seq<char>, w: Seq<char>)
    requires
        component(g, v).contains(w),
    ensures
        component(g, w) == component(g, v),
{
    assert forall|x: Seq<char>| component(g, w).contains(x) <==> component(g, v).contains(x) by {
        if component(g, w).contains(x) {
            lemma_connected_trans(g, v, w, x);
            lemma_connected_trans(g, x, w, v);
        }
        if component(g, v).contains(x) {
            lemma_connected_trans(g, w, v, x);
            lemma_connected_trans(g, x, v, w);
        }
    }
    assert(component(g, w) =~= component(g, v));
}

// ---------------------------------------------------------------------------
// The graph as lists
// ---------------------------------------------------------------------------

/// A call graph as lists: the functions, and the positions of each one's callees.
pub struct EdgeList {
    pub names: Vec<String>,
    pub adj: Vec<Vec<usize>>,
}

impl EdgeList {
    /// The name of function `i`.
    pub open spec fn at(&self, i: int) -> Seq<char> {
        self.names@[i]@
    }

    /// The lists stand for `g`.
    pub open spec fn stands_for(&self, g: Graph) -> bool {
        &&& self.adj@.len() == self.names@.len()
        &&& forall|x: Seq<char>| #[trigger] g.contains_key(x) <==> views(self.names@).contains(x)
        &&& forall|i: int, j: int|
            0 <= i < j < self.names@.len() ==> #[trigger] self.names@[i]@
                != #[trigger] self.names@[j]@
        &&& forall|i: int, k: int|
            0 <= i < self.adj@.len() && 0 <= k < self.adj@[i]@.len() ==> #[trigger] self.adj@[i]@[k]
                < self.names@.len()
        &&& forall|i: int, j: int|
            0 <= i < self.names@.len() && 0 <= j < self.names@.len() ==> (edge(
                g,
                #[trigger] self.at(i),
                #[trigger] self.at(j),
            ) <==> self.adj@[i]@.contains(j as usize))
        &&& closed(g)
    }
}

/// The number of functions not yet seen.
spec fn unseen(seen: Seq<bool>) -> nat
    decreases seen.len(),
{
    if seen.len() == 0 {
        0
    } else {
        unseen(seen.drop_last()) + (if seen.last() {
            0nat
        } else {
            1nat
        })
    }
}

proof fn lemma_unseen_update(seen: Seq<bool>, i: int)
    requires
        0 <= i < seen.len(),
        !seen[i],
    ensures
        unseen(seen.update(i, true)) + 1 == unseen(seen),
    decreases seen.len(),
{
    let now = seen.update(i, true);
    if i == seen.len() - 1 {
        assert(now.drop_last() =~= seen.drop_last());
    } else {
        assert(now.drop_last() =~= seen.drop_last().update(i, true));
        lemma_unseen_update(seen.drop_last(), i);
    }
}

/// The functions that `start` leads to, by position.
pub(crate) fn reachable(el: &EdgeList, start: usize, Ghost(g): Ghost<Graph>) -> (r: Vec<bool>)
    requires
        el.stands_for(g),
        start < el.names@.len(),
    ensures
        r@.len() == el.names@.len(),
        forall|j: int|
            0 <= j < el.names@.len() ==> #[trigger] r@[j] == connected(
                g,
                el.at(start as int),
                el.at(j),
            ),
{
    let n: usize = el.names.len();
    let ghost s = el.at(start as int);
    let mut seen: Vec<bool> = Vec::new();
    let mut i: usize = 0;
    while i < n
        invariant
            i <= n,
            seen@.len() == i,
            forall|j: int| 0 <= j < i ==> !#[trigger] seen@[j],
        decreases n - i,
    {
        seen.push(false);
        i = i + 1;
    }
    let mut stack: Vec<usize> = Vec::new();
    stack.push(start);
    proof {
        lemma_connected_refl(g, s);
        assert(stack@[0] == start);
    }
    while stack.len() > 0
        invariant
            el.stands_for(g),
            n == el.names@.len(),
            start < n,
            s == el.at(start as int),
            seen@.len() == n,
            forall|k: int|
                0 <= k < stack@.len() ==> #[trigger] stack@[k] < n && connected(
                    g,
                    s,
                    el.at(stack@[k] as int),
                ),
            forall|j: int| 0 <= j < n && #[trigger] seen@[j] ==> connected(g, s, el.at(j)),
            forall|j: int, k: int|
                0 <= j < n && 0 <= k < n && seen@[j] && #[trigger] edge(g, el.at(j), el.at(k))
                    ==> seen@[k] || stack@.contains(k as usize),
            seen@[start as int] || stack@.contains(start),
        decreases unseen(seen@), stack@.len(),
    {
        let ghost stack0 = stack@;
        let v: usize = match stack.pop() {
            Some(v) => v,
            None => {
                assert(false);
                0
            },
        };
        proof {
            assert(stack0[stack0.len() - 1] == v);
            assert forall|x: usize| stack0.contains(x) implies x == v || stack@.contains(x) by {
                let k = choose|k: int| 0 <= k < stack0.len() && stack0[k] == x;
                if k < stack0.len() - 1 {
                    assert(stack@[k] == x);
                }
            }
        }
        if !seen[v] {
            let ghost seen0 = seen@;
            proof {
                lemma_unseen_update(seen0, v as int);
            }
            seen.set(v, true);
            let ghost marked = unseen(seen@);
            let mut k: usize = 0;
            while k < el.adj[v as usize].len()
                invariant
                    el.stands_for(g),
                    n == el.names@.len(),
                    v < n,
                    k <= el.adj@[v as int]@.len(),
                    seen@.len() == n,
                    seen@[v as int],
                    unseen(seen@) == marked,
                    connected(g, s, el.at(v as int)),
                    seen@ == seen0.update(v as int, true),
                    start < n,
                    forall|k: int|
                        0 <= k < stack@.len() ==> #[trigger] stack@[k] < n && connected(
                            g,
                            s,
                            el.at(stack@[k] as int),
                        ),
                    forall|j: int, k: int|
                        0 <= j < n && 0 <= k < n && j != v && seen@[j] && #[trigger] edge(
                            g,
                            el.at(j),
                            el.at(k),
                        ) ==> seen@[k] || stack@.contains(k as usize),
                    forall|m: int|
                        0 <= m < k ==> seen@[#[trigger] el.adj@[v as int]@[m] as int]
                            || stack@.contains(el.adj@[v as int]@[m]),
                    seen@[start as int] || stack@.contains(start),
                decreases el.adj@[v as int]@.len() - k,
            {
                let w: usize = el.adj[v][k];
                let ghost before = stack@;
                proof {
                    assert(el.adj@[v as int]@[k as int] == w);
                    assert(el.adj@[v as int]@.contains(w));
                    assert(edge(g, el.at(v as int), el.at(w as int)));
                    lemma_connected_step(g, s, el.at(v as int), el.at(w as int));
                }
                if !seen[w] {
                    stack.push(w);
                    proof {
                        assert forall|x: usize| before.contains(x) implies stack@.contains(x) by {
                            let m = choose|m: int| 0 <= m < before.len() && before[m] == x;
                            assert(stack@[m] == x);
                        }
                        assert(stack@[before.len() as int] == w);
                    }
                }
                k = k + 1;
            }
            proof {
                assert forall|j: int, k: int|
                    0 <= j < n && 0 <= k < n && seen@[j] && #[trigger] edge(
                        g,
                        el.at(j),
                        el.at(k),
                    ) implies seen@[k] || stack@.contains(k as usize) by {
                    if j == v {
                        assert(el.adj@[v as int]@.contains(k as usize));
                        let m = choose|m: int|
                            0 <= m < el.adj@[v as int]@.len() && el.adj@[v as int]@[m] == k as usize;
                        assert(el.adj@[v as int]@[m] == k as usize);
                    }
                }
            }
        } else {
            proof {
                assert forall|j: int, k: int|
                    0 <= j < n && 0 <= k < n && seen@[j] && #[trigger] edge(
                        g,
                        el.at(j),
                        el.at(k),
                    ) implies seen@[k] || stack@.contains(k as usize) by {
                    assert(seen@[k] || stack0.contains(k as usize));
                }
            }
        }
    }
    proof {
        assert forall|j: int| 0 <= j < n implies #[trigger] seen@[j] == connected(
            g,
            s,
            el.at(j),
        ) by {
            if connected(g, s, el.at(j)) {
                lemma_seen_all(*el, g, seen@, s, j);
            }
        }
    }
    seen
}

/// What is marked, when nothing is left to visit, is all that `s` leads to.
proof fn lemma_seen_all(el: EdgeList, g: Graph, seen: Seq<bool>, s: Seq<char>, j: int)
    requires
        el.stands_for(g),
        seen.len() == el.names@.len(),
        0 <= j < seen.len(),
        connected(g, s, el.at(j)),
        exists|i: int| 0 <= i < seen.len() && seen[i] && #[trigger] el.at(i) == s,
        forall|a: int, b: int|
            0 <= a < seen.len() && 0 <= b < seen.len() && seen[a] && #[trigger] edge(
                g,
                el.at(a),
                el.at(b),
            ) ==> seen[b],
    ensures
        seen[j],
{
    let marked = Set::new(
        |x: Seq<char>| exists|i: int| 0 <= i < seen.len() && seen[i] && #[trigger] el.at(i) == x,
    );
    assert forall|x: Seq<char>, y: Seq<char>|
        marked.contains(x) && #[trigger] edge(g, x, y) implies marked.contains(y) by {
        let a = choose|i: int| 0 <= i < seen.len() && seen[i] && #[trigger] el.at(i) == x;
        assert(g.contains_key(y));
        assert(views(el.names@).contains(y));
        let b = choose|b: int| 0 <= b < views(el.names@).len() && views(el.names@)[b] == y;
        assert(el.at(b) == y);
        assert(edge(g, el.at(a), el.at(b)));
    }
    let t = el.at(j);
    let p = choose|p: Seq<Seq<char>>| #[trigger] is_path(g, p) && p[0] == s && p.last() == t;
    lemma_closure(g, marked, p, p.len() - 1);
    let i = choose|i: int| 0 <= i < seen.len() && seen[i] && #[trigger] el.at(i) == t;
    if i < j {
        assert(el.names@[i]@ != el.names@[j]@);
    } else if j < i {
        assert(el.names@[j]@ != el.names@[i]@);
    }
}

// ---------------------------------------------------------------------------
// Recursion
// ---------------------------------------------------------------------------

/// Whether `v` comes first in its group.
pub open spec fn first_of_group(g: Graph, v: Seq<char>) -> bool {
    forall|w: Seq<char>| #[trigger] component(g, v).contains(w) ==> !lex_lt(w, v)
}

/// The recursive groups whose first members are among the first `n` of `users`:
/// the strongly connected components with more than one member, and the
/// functions that call themselves. Each group is in increasing order.
pub open spec fn cycles(g: Graph, users: Seq<Seq<char>>, n: nat) -> Seq<Seq<Seq<char>>>
    decreases n,
{
    if n == 0 || n > users.len() {
        Seq::empty()
    } else {
        let before = cycles(g, users, (n - 1) as nat);
        let v = users[n - 1];
        if leads(g, v, v) && first_of_group(g, v) {
            before.push(listed(component(g, v)))
        } else {
            before
        }
    }
}

/// The contents of a list of lists of strings.
pub open spec fn views2(v: Seq<Vec<String>>) -> Seq<Seq<Seq<char>>> {
    v.map_values(|x: Vec<String>| views(x@))
}

/// The connections between all functions, by position.
spec fn is_matrix(el: EdgeList, g: Graph, m: Seq<Vec<bool>>) -> bool {
    &&& m.len() == el.names@.len()
    &&& forall|i: int| 0 <= i < m.len() ==> (#[trigger] m[i])@.len() == m.len()
    &&& forall|i: int, j: int|
        0 <= i < m.len() && 0 <= j < m.len() ==> #[trigger] m[i]@[j] == connected(
            g,
            el.at(i),
            el.at(j),
        )
}

fn matrix(el: &EdgeList, Ghost(g): Ghost<Graph>) -> (m: Vec<Vec<bool>>)
    requires
        el.stands_for(g),
    ensures
        is_matrix(*el, g, m@),
{
    let mut m: Vec<Vec<bool>> = Vec::new();
    let mut i: usize = 0;
    while i < el.names.len()
        invariant
            i <= el.names@.len(),
            el.stands_for(g),
            m@.len() == i,
            forall|k: int| 0 <= k < i ==> (#[trigger] m@[k])@.len() == el.names@.len(),
            forall|k: int, j: int|
                0 <= k < i && 0 <= j < el.names@.len() ==> #[trigger] m@[k]@[j] == connected(
                    g,
                    el.at(k),
                    el.at(j),
                ),
        decreases el.names@.len() - i,
    {
        let row: Vec<bool> = reachable(el, i, Ghost(g));
        let ghost before = m@;
        m.push(row);
        proof {
            assert forall|k: int, j: int|
                0 <= k < i + 1 && 0 <= j < el.names@.len() implies #[trigger] m@[k]@[j] == connected(
                g,
                el.at(k),
                el.at(j),
            ) by {
                if k < i {
                    assert(before[k]@[j] == connected(g, el.at(k), el.at(j)));
                } else {
                    assert(row@[j] == connected(g, el.at(i as int), el.at(j)));
                }
            }
        }
        i = i + 1;
    }
    m
}

/// Whether function `i` leads back to itself.
fn on_cycle(el: &EdgeList, m: &Vec<Vec<bool>>, i: usize, Ghost(g): Ghost<Graph>) -> (r: bool)
    requires
        el.stands_for(g),
        is_matrix(*el, g, m@),
        i < el.names@.len(),
    ensures
        r == leads(g, el.at(i as int), el.at(i as int)),
{
    let ghost v = el.at(i as int);
    let n: usize = el.names.len();
    let mut k: usize = 0;
    while k < el.adj[i].len()
        invariant
            n == el.names@.len(),
            el.stands_for(g),
            is_matrix(*el, g, m@),
            i < el.names@.len(),
            v == el.at(i as int),
            k <= el.adj@[i as int]@.len(),
            forall|x: int|
                0 <= x < k ==> !connected(g, el.at(#[trigger] el.adj@[i as int]@[x] as int), v),
        decreases el.adj@[i as int]@.len() - k,
    {
        let w: usize = el.adj[i][k];
        assert(el.adj@[i as int]@[k as int] == w);
        assert(m@[w as int]@[i as int] == connected(g, el.at(w as int), v));
        if m[w][i] {
            proof {
                assert(el.adj@[i as int]@.contains(w));
                assert(edge(g, v, el.at(w as int)));
            }
            return true;
        }
        k = k + 1;
    }
    proof {
        if leads(g, v, v) {
            let c = choose|c: Seq<char>| #[trigger] edge(g, v, c) && connected(g, c, v);
            assert(g.contains_key(c));
            let j = choose|j: int| 0 <= j < views(el.names@).len() && views(el.names@)[j] == c;
            assert(el.at(j) == c);
            assert(edge(g, el.at(i as int), el.at(j)));
            let x = choose|x: int|
                0 <= x < el.adj@[i as int]@.len() && el.adj@[i as int]@[x] == j as usize;
            assert(el.adj@[i as int]@[x] == j as usize);
        }
    }
    false
}

/// The group of function `i`, in increasing order.
fn group_of(el: &EdgeList, m: &Vec<Vec<bool>>, i: usize, Ghost(g): Ghost<Graph>) -> (r: Vec<String>)
    requires
        el.stands_for(g),
        is_matrix(*el, g, m@),
        i < el.names@.len(),
    ensures
        lists(views(r@), component(g, el.at(i as int))),
        views(r@) == listed(component(g, el.at(i as int))),
{
    let ghost v = el.at(i as int);
    let mut set: NameSet = NameSet::new();
    let mut j: usize = 0;
    while j < el.names.len()
        invariant
            el.stands_for(g),
            is_matrix(*el, g, m@),
            i < el.names@.len(),
            v == el.at(i as int),
            j <= el.names@.len(),
            set.wf(),
            forall|x: Seq<char>| #[trigger]
                set@.contains(x) <==> component(g, v).contains(x) && exists|k: int|
                    0 <= k < j && #[trigger] el.at(k) == x,
        decreases el.names@.len() - j,
    {
        let ghost before = set@;
        assert(m@[i as int]@[j as int] == connected(g, v, el.at(j as int)));
        assert(m@[j as int]@[i as int] == connected(g, el.at(j as int), v));
        if m[i][j] && m[j][i] {
            set.insert(el.names[j].as_str());
        }
        j = j + 1;
        proof {
            assert(el.at(j - 1) == el.names@[j - 1]@);
            assert forall|x: Seq<char>| #[trigger] set@.contains(x) <==> component(
                g,
                v,
            ).contains(x) && exists|k: int| 0 <= k < j && #[trigger] el.at(k) == x by {
                if before.contains(x) {
                    let k = choose|k: int| 0 <= k < j - 1 && #[trigger] el.at(k) == x;
                    assert(el.at(k) == x);
                }
                if exists|k: int| 0 <= k < j && #[trigger] el.at(k) == x {
                    let k = choose|k: int| 0 <= k < j && #[trigger] el.at(k) == x;
                    if k < j - 1 && component(g, v).contains(x) {
                        assert(before.contains(x));
                    }
                }
            }
        }
    }
    proof {
        assert forall|x: Seq<char>| set@.contains(x) <==> component(g, v).contains(x) by {
            if component(g, v).contains(x) {
                lemma_connected_in_graph(g, v, x);
                if x == v {
                    assert(el.at(i as int) == x);
                } else {
                    assert(views(el.names@).contains(x));
                    let k = choose|k: int| 0 <= k < views(el.names@).len() && views(el.names@)[k] == x;
                    assert(el.at(k) == x);
                }
            }
        }
        assert(set@ =~= component(g, v));
    }
    set.into_vec()
}

/// What a function leads to is the function itself or in the graph.
proof fn lemma_connected_in_graph(g: Graph, a: Seq<char>, b: Seq<char>)
    requires
        closed(g),
        connected(g, a, b),
    ensures
        b == a || g.contains_key(b),
{
    let p = choose|p: Seq<Seq<char>>| #[trigger] is_path(g, p) && p[0] == a && p.last() == b;
    if p.len() > 1 {
        let k = p.len() - 2;
        assert(edge(g, p[k], p[k + 1]));
    }
}

/// The mutually recursive groups and the self-recursive functions, each in
/// increasing order, the groups in the order of their first members.
pub(crate) fn recursive_cycles(el: &EdgeList, users: &Vec<String>, Ghost(g): Ghost<Graph>) -> (r: Vec<
    Vec<String>,
>)
    requires
        el.stands_for(g),
        forall|i: int| 0 <= i < users@.len() ==> g.contains_key(#[trigger] users@[i]@),
    ensures
        views2(r@) == cycles(g, views(users@), users@.len()),
{
    let m: Vec<Vec<bool>> = matrix(el, Ghost(g));
    let mut r: Vec<Vec<String>> = Vec::new();
    let mut n: usize = 0;
    assert(views2(r@) =~= Seq::empty());
    while n < users.len()
        invariant
            n <= users@.len(),
            el.stands_for(g),
            is_matrix(*el, g, m@),
            forall|i: int| 0 <= i < users@.len() ==> g.contains_key(#[trigger] users@[i]@),
            views2(r@) == cycles(g, views(users@), n as nat),
        decreases users@.len() - n,
    {
        let ghost v = users@[n as int]@;
        assert(views(users@)[n as int] == v);
        assert(g.contains_key(v));
        match position_of(&el.names, users[n].as_str()) {
            Some(i) => {
                proof {
                    crate::c_backend::env::lemma_position(views(el.names@), v);
                    assert(el.at(i as int) == v);
                }
                if on_cycle(el, &m, i, Ghost(g)) {
                    let group: Vec<String> = group_of(el, &m, i, Ghost(g));
                    proof {
                        lemma_connected_refl(g, v);
                        assert(component(g, v).contains(v));
                        lemma_group_first(g, v, views(group@));
                        assert(views(group@)[0] == group@[0]@);
                    }
                    if crate::text::str_eq(group[0].as_str(), users[n].as_str()) {
                        let ghost before = r@;
                        r.push(group);
                        assert(views2(r@) =~= views2(before).push(views(group@)));
                    }
                }
            },
            None => {
                proof {
                    crate::c_backend::env::lemma_position(views(el.names@), v);
                    let k = choose|k: int|
                        0 <= k < views(el.names@).len() && views(el.names@)[k] == v;
                    assert(views(el.names@)[k] == v);
                }
            },
        }
        n = n + 1;
    }
    r
}

/// The first of a group's listing is its least member.
pub(crate) proof fn lemma_group_first(g: Graph, v: Seq<char>, l: Seq<Seq<char>>)
    requires
        lists(l, component(g, v)),
        component(g, v).contains(v),
    ensures
        l.len() > 0,
        first_of_group(g, v) <==> l[0] == v,
{
    assert(l.contains(v));
    let k = choose|k: int| 0 <= k < l.len() && l[k] == v;
    assert(l.contains(l[0]));
    assert(component(g, v).contains(l[0]));
    if l[0] == v {
        assert forall|w: Seq<char>| #[trigger] component(g, v).contains(w) implies !lex_lt(w, v) by {
            assert(l.contains(w));
            let j = choose|j: int| 0 <= j < l.len() && l[j] == w;
            if j > 0 {
                assert(lex_lt(l[0], l[j]));
                lemma_lex_asym(v, w);
            } else {
                lemma_lex_asym(v, v);
            }
        }
    } else {
        assert(lex_lt(l[0], l[k]));
    }
}

} // verus!
