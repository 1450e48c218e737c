//! Collections keyed by name: a sorted set of names and a map from names, each
//! with its mathematical view.

use vstd::prelude::*;

use crate::text::{
    lemma_lex_asym, lemma_lex_total, lemma_lex_trans, lex_lt, str_eq, str_lt, views,
};

verus! {

/// Whether `name` is among the texts of `v`.
pub open spec fn has_name(v: Seq<String>, name: Seq<char>) -> bool {
    exists|i: int| 0 <= i < v.len() && #[trigger] v[i]@ == name
}

/// Whether `name` is among the texts of `v`.
pub fn contains_name(v: &Vec<String>, name: &str) -> (r: bool)
    ensures
        r == has_name(v@, name@),
{
    let mut i: usize = 0;
    while i < v.len()
        invariant
            i <= v@.len(),
            forall|j: int| 0 <= j < i ==> #[trigger] v@[j]@ != name@,
        decreases v@.len() - i,
    {
        if str_eq(v[i].as_str(), name) {
            return true;
        }
        i = i + 1;
    }
    false
}

/// Being among the texts of `v`, over their contents.
pub proof fn lemma_has_name(v: Seq<String>, name: Seq<char>)
    ensures
        has_name(v, name) == views(v).contains(name),
{
    if has_name(v, name) {
        let i = choose|i: int| 0 <= i < v.len() && #[trigger] v[i]@ == name;
        assert(views(v)[i] == name);
    }
    if views(v).contains(name) {
        let i = choose|i: int| 0 <= i < views(v).len() && #[trigger] views(v)[i] == name;
        assert(v[i]@ == name);
    }
}

/// Texts in strictly increasing order.
pub open spec fn increasing(v: Seq<Seq<char>>) -> bool {
    forall|i: int, j: int| 0 <= i < j < v.len() ==> lex_lt(#[trigger] v[i], #[trigger] v[j])
}

/// `v` lists the texts of `s`, each once, in increasing order.
pub open spec fn lists(v: Seq<Seq<char>>, s: Set<Seq<char>>) -> bool {
    increasing(v) && forall|x: Seq<char>| #[trigger] s.contains(x) <==> v.contains(x)
}

/// The texts of a finite set in increasing order.
pub open spec fn listed(s: Set<Seq<char>>) -> Seq<Seq<char>> {
    choose|v: Seq<Seq<char>>| lists(v, s)
}

proof fn lemma_lists_tail(v: Seq<Seq<char>>, s: Set<Seq<char>>)
    requires
        lists(v, s),
        v.len() > 0,
    ensures
        lists(v.drop_first(), s.remove(v[0])),
{
    let t = v.drop_first();
    assert forall|i: int, j: int| 0 <= i < j < t.len() implies lex_lt(
        #[trigger] t[i],
        #[trigger] t[j],
    ) by {
        assert(lex_lt(v[i + 1], v[j + 1]));
    }
    assert forall|x: Seq<char>| #[trigger] s.remove(v[0]).contains(x) <==> t.contains(x) by {
        if s.remove(v[0]).contains(x) {
            assert(s.contains(x));
            let k = choose|k: int| 0 <= k < v.len() && v[k] == x;
            assert(t[k - 1] == x);
        }
        if t.contains(x) {
            let k = choose|k: int| 0 <= k < t.len() && t[k] == x;
            assert(v[k + 1] == x);
            assert(s.contains(x));
            lemma_lex_asym(v[0], v[k + 1]);
        }
    }
}

/// There is one way to list a set.
pub proof fn lemma_lists_unique(v: Seq<Seq<char>>, w: Seq<Seq<char>>, s: Set<Seq<char>>)
    requires
        lists(v, s),
        lists(w, s),
    ensures
        v == w,
    decreases v.len(),
{
    if v.len() == 0 {
        if w.len() > 0 {
            assert(w.contains(w[0]));
            assert(s.contains(w[0]));
        }
        assert(v =~= w);
    } else {
        assert(v.contains(v[0]));
        assert(s.contains(v[0]));
        let k = choose|k: int| 0 <= k < w.len() && w[k] == v[0];
        assert(w.contains(w[0]));
        assert(s.contains(w[0]));
        let m = choose|m: int| 0 <= m < v.len() && v[m] == w[0];
        if k > 0 {
            assert(lex_lt(w[0], w[k]));
            lemma_lex_asym(w[0], v[0]);
            if m > 0 {
                assert(lex_lt(v[0], v[m]));
            }
        }
        assert(v[0] == w[0]);
        lemma_lists_tail(v, s);
        lemma_lists_tail(w, s);
        lemma_lists_unique(v.drop_first(), w.drop_first(), s.remove(v[0]));
        assert(v =~= seq![v[0]] + v.drop_first());
        assert(w =~= seq![w[0]] + w.drop_first());
    }
}

/// A listing of a set is the listing.
pub proof fn lemma_listed(v: Seq<Seq<char>>, s: Set<Seq<char>>)
    requires
        lists(v, s),
    ensures
        listed(s) == v,
{
    lemma_lists_unique(v, listed(s), s);
}

/// Every finite set has a listing: its texts, each once, in increasing order.
pub proof fn listing(s: Set<Seq<char>>)
    requires
        s.finite(),
    ensures
        lists(listed(s), s),
        increasing(listed(s)),
        listed(s).no_duplicates(),
        listed(s).len() == s.len(),
        forall|x: Seq<char>| #[trigger] listed(s).contains(x) <==> s.contains(x),
    decreases s.len(),
{
    if s.len() == 0 {
        let v: Seq<Seq<char>> = Seq::empty();
        assert(s =~= Set::empty());
        assert(lists(v, s));
        lemma_listed(v, s);
    } else {
        let a = s.choose();
        let rest = s.remove(a);
        listing(rest);
        let v = listed(rest);
        let i = place(v, a);
        lemma_place(v, a);
        if i < v.len() {
            assert(v.contains(v[i]));
            lemma_lex_total(v[i], a);
        }
        lemma_inserted(v, i, a);
        let w = v.insert(i, a);
        assert forall|x: Seq<char>| #[trigger] s.contains(x) <==> w.contains(x) by {
            assert(rest.contains(x) <==> v.contains(x));
        }
        assert(lists(w, s));
        lemma_listed(w, s);
    }
    let v = listed(s);
    assert forall|i: int, j: int| 0 <= i < v.len() && 0 <= j < v.len() && i != j implies v[i]
        != v[j] by {
        if i < j {
            lemma_lex_asym(v[i], v[j]);
        } else {
            lemma_lex_asym(v[j], v[i]);
        }
    }
}

/// The place of a text in an increasing list: behind the smaller texts.
spec fn place(v: Seq<Seq<char>>, name: Seq<char>) -> int
    decreases v.len(),
{
    if v.len() == 0 || !lex_lt(v[0], name) {
        0
    } else {
        1 + place(v.drop_first(), name)
    }
}

proof fn lemma_place(v: Seq<Seq<char>>, name: Seq<char>)
    ensures
        0 <= place(v, name) <= v.len(),
        forall|j: int| 0 <= j < place(v, name) ==> lex_lt(#[trigger] v[j], name),
        place(v, name) < v.len() ==> !lex_lt(v[place(v, name)], name),
    decreases v.len(),
{
    if v.len() > 0 && lex_lt(v[0], name) {
        let t = v.drop_first();
        lemma_place(t, name);
        assert forall|j: int| 0 <= j < place(v, name) implies lex_lt(#[trigger] v[j], name) by {
            if j > 0 {
                assert(t[j - 1] == v[j]);
            }
        }
    }
}

/// A set of names, kept in increasing order.
pub struct NameSet {
    items: Vec<String>,
}

impl NameSet {
    /// The names in the set.
    pub closed spec fn view(&self) -> Set<Seq<char>> {
        Set::new(|x: Seq<char>| views(self.items@).contains(x))
    }

    /// The names are held once each, in increasing order.
    pub closed spec fn wf(&self) -> bool {
        increasing(views(self.items@))
    }

    /// The empty set.
    pub fn new() -> (r: NameSet)
        ensures
            r.wf(),
            r@ == Set::<Seq<char>>::empty(),
    {
        let r = NameSet { items: Vec::new() };
        assert(r@ =~= Set::<Seq<char>>::empty());
        r
    }

    /// Adds `name`.
    pub fn insert(&mut self, name: &str)
        requires
            old(self).wf(),
        ensures
            final(self).wf(),
            final(self)@ == old(self)@.insert(name@),
    {
        let ghost start = views(self.items@);
        let mut i: usize = 0;
        while i < self.items.len() && str_lt(self.items[i].as_str(), name)
            invariant
                views(self.items@) == start,
                self.items@ == old(self).items@,
                i <= start.len(),
                forall|j: int| 0 <= j < i ==> lex_lt(#[trigger] start[j], name@),
            decreases start.len() - i,
        {
            assert(start[i as int] == self.items@[i as int]@);
            i = i + 1;
        }
        if i < self.items.len() && str_eq(self.items[i].as_str(), name) {
            proof {
                assert(start[i as int] == name@);
                assert(self@ =~= old(self)@.insert(name@));
            }
            return;
        }
        let owned: String = name.to_owned();
        let ghost items = self.items@;
        self.items.insert(i, owned);
        proof {
            let now = views(self.items@);
            assert(self.items@ == items.insert(i as int, owned));
            assert(now =~= start.insert(i as int, name@));
            if i < start.len() {
                assert(start[i as int] == items[i as int]@);
                lemma_lex_total(start[i as int], name@);
            }
            lemma_inserted(start, i as int, name@);
            assert(self@ =~= old(self)@.insert(name@));
        }
    }

    /// Whether `name` is in the set.
    pub fn contains(&self, name: &str) -> (r: bool)
        ensures
            r == self@.contains(name@),
    {
        proof {
            lemma_has_name(self.items@, name@);
        }
        contains_name(&self.items, name)
    }

    /// The names in increasing order.
    pub fn into_vec(self) -> (r: Vec<String>)
        requires
            self.wf(),
        ensures
            lists(views(r@), self@),
            views(r@) == listed(self@),
    {
        proof {
            lemma_listed(views(self.items@), self@);
        }
        self.items
    }
}

/// Inserting a name between the smaller and the greater ones keeps the order.
proof fn lemma_inserted(start: Seq<Seq<char>>, i: int, name: Seq<char>)
    requires
        0 <= i <= start.len(),
        increasing(start),
        forall|j: int| 0 <= j < i ==> lex_lt(#[trigger] start[j], name),
        i < start.len() ==> lex_lt(name, start[i]),
    ensures
        increasing(start.insert(i, name)),
        forall|x: Seq<char>| #[trigger]
            start.insert(i, name).contains(x) <==> start.contains(x) || x == name,
{
    let now = start.insert(i, name);
    assert forall|a: int, b: int| 0 <= a < b < now.len() implies lex_lt(
        #[trigger] now[a],
        #[trigger] now[b],
    ) by {
        if a < i && b < i {
            assert(lex_lt(start[a], start[b]));
        } else if a < i && b > i {
            assert(lex_lt(start[a], start[b - 1]));
        } else if a == i && b > i {
            if b - 1 > i {
                assert(lex_lt(start[i], start[b - 1]));
                lemma_lex_trans(name, start[i], start[b - 1]);
            }
        } else if a > i {
            assert(lex_lt(start[a - 1], start[b - 1]));
        }
    }
    assert forall|x: Seq<char>| #[trigger] now.contains(x) <==> start.contains(x) || x == name by {
        if now.contains(x) {
            let k = choose|k: int| 0 <= k < now.len() && now[k] == x;
            if k < i {
                assert(start[k] == x);
            } else if k > i {
                assert(start[k - 1] == x);
            }
        }
        if start.contains(x) {
            let k = choose|k: int| 0 <= k < start.len() && start[k] == x;
            if k < i {
                assert(now[k] == x);
            } else {
                assert(now[k + 1] == x);
            }
        }
        assert(now[i] == name);
    }
}

/// The map that a list of bindings stands for: a later binding of a name
/// replaces an earlier one.
pub open spec fn bindings<V>(s: Seq<(String, V)>) -> Map<Seq<char>, V>
    decreases s.len(),
{
    if s.len() == 0 {
        Map::empty()
    } else {
        bindings(s.drop_last()).insert(s.last().0@, s.last().1)
    }
}

/// A map from names.
#[verifier::reject_recursive_types(V)]
pub struct NameMap<V> {
    pub entries: Vec<(String, V)>,
}

impl<V> NameMap<V> {
    /// The map's contents.
    pub open spec fn view(&self) -> Map<Seq<char>, V> {
        bindings(self.entries@)
    }

    /// The empty map.
    pub fn new() -> (r: NameMap<V>)
        ensures
            r@ == Map::<Seq<char>, V>::empty(),
    {
        NameMap { entries: Vec::new() }
    }

    /// Binds `name` to `value`.
    pub fn insert(&mut self, name: &str, value: V)
        ensures
            final(self)@ == old(self)@.insert(name@, value),
    {
        let ghost before = self.entries@;
        self.entries.push((name.to_owned(), value));
        assert(self.entries@.drop_last() =~= before);
    }

    /// What `name` is bound to.
    pub fn get(&self, name: &str) -> (r: Option<&V>)
        ensures
            match r {
                Some(v) => self@.contains_key(name@) && *v == self@[name@],
                None => !self@.contains_key(name@),
            },
    {
        let mut i: usize = self.entries.len();
        assert(self.entries@.take(i as int) =~= self.entries@);
        while i > 0
            invariant
                i <= self.entries@.len(),
                bindings(self.entries@.take(i as int)).contains_key(name@) == self@.contains_key(
                    name@,
                ),
                bindings(self.entries@.take(i as int))[name@] == self@[name@],
            decreases i,
        {
            proof {
                let s = self.entries@.take(i as int);
                assert(s.drop_last() =~= self.entries@.take(i - 1));
            }
            i = i - 1;
            if str_eq(self.entries[i].0.as_str(), name) {
                return Some(&self.entries[i].1);
            }
        }
        None
    }

    /// Whether `name` is bound.
    pub fn contains(&self, name: &str) -> (r: bool)
        ensures
            r == self@.contains_key(name@),
    {
        self.get(name).is_some()
    }
}

impl<V: Copy> NameMap<V> {
    /// A copy of the map.
    pub fn copy(&self) -> (r: NameMap<V>)
        ensures
            r@ == self@,
    {
        let mut entries: Vec<(String, V)> = Vec::new();
        let mut i: usize = 0;
        assert(self.entries@.take(0) =~= Seq::empty());
        while i < self.entries.len()
            invariant
                i <= self.entries@.len(),
                bindings(entries@) == bindings(self.entries@.take(i as int)),
            decreases self.entries@.len() - i,
        {
            let ghost before = entries@;
            entries.push((self.entries[i].0.clone(), self.entries[i].1));
            proof {
                assert(entries@.drop_last() =~= before);
                assert(self.entries@.take(i + 1).drop_last() =~= self.entries@.take(i as int));
            }
            i = i + 1;
        }
        assert(self.entries@.take(i as int) =~= self.entries@);
        NameMap { entries }
    }
}

} // verus!
