//! The counting half of a distributional word-embedding model: the words of a
//! corpus, its vocabulary, and which words stand near each other how often.
//!
//! The other half re-weights the counts and factors the matrix in floating point.

use vstd::prelude::*;
use vstd::string::*;

use crate::text::{
    chars_of, find_char, first_index, lemma_lex_asym, lemma_lex_total, lemma_lex_trans, lex_lt, str_eq, str_lt,
    views,
};

pub mod runs;

verus! {

/// The number of dimensions of an embedding.
pub const DIM: usize = 64;

/// How far apart two words of a line may stand to count as neighbours.
pub const WINDOW: usize = 4;

/// How often a word must occur to enter the vocabulary.
pub const MIN_COUNT: usize = 2;

// ---------------------------------------------------------------------------
// Words
// ---------------------------------------------------------------------------

/// Whether a character is an ASCII letter.
pub open spec fn is_letter(c: char) -> bool {
    'a' <= c <= 'z' || 'A' <= c <= 'Z'
}

/// A letter in lower case.
pub open spec fn lower(c: char) -> char {
    if 'A' <= c <= 'Z' {
        ((c as u8 + 32) as u8) as char
    } else {
        c
    }
}

/// The words that end in the first `n` characters, and the word that is still open
/// there.
pub open spec fn words_upto(s: Seq<char>, n: nat) -> (Seq<Seq<char>>, Seq<char>)
    decreases n,
{
    if n == 0 || n > s.len() {
        (Seq::empty(), Seq::empty())
    } else {
        let (done, open) = words_upto(s, (n - 1) as nat);
        if is_letter(s[n - 1]) {
            (done, open.push(lower(s[n - 1])))
        } else if open.len() > 0 {
            (done.push(open), Seq::empty())
        } else {
            (done, open)
        }
    }
}

/// The words of a text: its runs of ASCII letters, in lower case.
pub open spec fn words(s: Seq<char>) -> Seq<Seq<char>> {
    let (done, open) = words_upto(s, s.len());
    if open.len() > 0 {
        done.push(open)
    } else {
        done
    }
}

fn lowered(c: char) -> (r: char)
    ensures
        r == lower(c),
{
    if 'A' <= c && c <= 'Z' {
        ((c as u8 + 32) as u8) as char
    } else {
        c
    }
}

fn words_of(cs: &Vec<char>, from: usize, to: usize) -> (r: Vec<String>)
    requires
        from <= to <= cs@.len(),
    ensures
        views(r@) == words(cs@.subrange(from as int, to as int)),
{
    let ghost s = cs@.subrange(from as int, to as int);
    let mut out: Vec<String> = Vec::new();
    let mut open: String = String::new();
    let mut len: usize = 0;
    let mut i: usize = from;
    assert(views(out@) =~= Seq::<Seq<char>>::empty());
    assert(open@ =~= Seq::<char>::empty());
    while i < to
        invariant
            from <= i <= to <= cs@.len(),
            s == cs@.subrange(from as int, to as int),
            (views(out@), open@) == words_upto(s, (i - from) as nat),
            len == open@.len(),
            len <= i - from,
        decreases to - i,
    {
        let c: char = cs[i];
        assert(s[i - from] == c);
        if ('a' <= c && c <= 'z') || ('A' <= c && c <= 'Z') {
            open.push(lowered(c));
            len = len + 1;
        } else if len > 0 {
            let ghost before = out@;
            let ghost word = open@;
            out.push(open);
            open = String::new();
            len = 0;
            assert(views(out@) =~= views(before).push(word));
            assert(open@ =~= Seq::<char>::empty());
        }
        i = i + 1;
    }
    if len > 0 {
        let ghost before = out@;
        let ghost word = open@;
        out.push(open);
        assert(views(out@) =~= views(before).push(word));
    }
    out
}

/// Split a text into words: any character that is no ASCII letter separates them,
/// and they are lowercased.
pub fn tokenize(text: &str) -> (r: Vec<String>)
    ensures
        views(r@) == words(text@),
{
    let cs: Vec<char> = chars_of(text);
    assert(cs@.subrange(0, cs@.len() as int) =~= text@);
    words_of(&cs, 0, cs.len())
}

/// The lines of a text as word lists, without those that hold no word.
pub open spec fn sentences(s: Seq<char>) -> Seq<Seq<Seq<char>>>
    decreases s.len() via sentences_end
{
    if s.len() == 0 {
        Seq::empty()
    } else {
        let e = first_index(s, '\n');
        let line = words(s.take(e));
        let rest = if e < s.len() {
            sentences(s.skip(e + 1))
        } else {
            Seq::empty()
        };
        if line.len() == 0 {
            rest
        } else {
            seq![line] + rest
        }
    }
}

#[via_fn]
proof fn sentences_end(s: Seq<char>) {
    lemma_index(s, '\n');
}

proof fn lemma_index(s: Seq<char>, c: char)
    ensures
        0 <= first_index(s, c) <= s.len(),
    decreases s.len(),
{
    if s.len() > 0 && s[0] != c {
        lemma_index(s.drop_first(), c);
    }
}

/// The contents of a list of word lists.
pub open spec fn line_views(v: Seq<Vec<String>>) -> Seq<Seq<Seq<char>>> {
    v.map_values(|l: Vec<String>| views(l@))
}

/// The lines of a corpus as word lists, so that neighbours are not counted across
/// unrelated sentences.
pub fn tokenize_lines(corpus: &str) -> (r: Vec<Vec<String>>)
    ensures
        line_views(r@) == sentences(corpus@),
{
    let cs: Vec<char> = chars_of(corpus);
    let n: usize = cs.len();
    let mut out: Vec<Vec<String>> = Vec::new();
    let mut from: usize = 0;
    proof {
        assert(corpus@.skip(0) =~= corpus@);
        assert(line_views(out@) + sentences(corpus@) =~= sentences(corpus@));
    }
    while from < n
        invariant
            from <= n == cs@.len(),
            cs@ == corpus@,
            line_views(out@) + sentences(corpus@.skip(from as int)) == sentences(corpus@),
        decreases n - from,
    {
        let ghost s = corpus@.skip(from as int);
        let end: usize = find_char(&cs, from, '\n');
        let line: Vec<String> = words_of(&cs, from, end);
        proof {
            assert(cs@.subrange(from as int, end as int) =~= s.take(end - from));
            if end < n {
                assert(s.skip(end - from + 1) =~= corpus@.skip(end + 1));
            }
        }
        let ghost rest = if end < n {
            sentences(corpus@.skip(end + 1))
        } else {
            Seq::empty()
        };
        if line.len() > 0 {
            let ghost before = out@;
            let ghost words = views(line@);
            out.push(line);
            proof {
                assert(line_views(out@) =~= line_views(before).push(words));
                assert(line_views(out@) + rest =~= line_views(before) + (seq![words] + rest));
            }
        }
        assert(line_views(out@) + rest == sentences(corpus@));
        if end == n {
            assert(line_views(out@) + rest =~= line_views(out@));
            return out;
        }
        from = end + 1;
    }
    assert(corpus@.skip(n as int) =~= Seq::<char>::empty());
    assert(line_views(out@) + Seq::<Seq<Seq<char>>>::empty() =~= line_views(out@));
    out
}

// ---------------------------------------------------------------------------
// The vocabulary
// ---------------------------------------------------------------------------

/// How often a word occurs among the first `n` words of a line.
pub open spec fn count_in(line: Seq<Seq<char>>, w: Seq<char>, n: nat) -> nat
    decreases n,
{
    if n == 0 || n > line.len() {
        0
    } else {
        count_in(line, w, (n - 1) as nat) + if line[n - 1] == w {
            1nat
        } else {
            0nat
        }
    }
}

/// How often a word occurs in the first `n` lines.
pub open spec fn count(lines: Seq<Seq<Seq<char>>>, w: Seq<char>, n: nat) -> nat
    decreases n,
{
    if n == 0 || n > lines.len() {
        0
    } else {
        count(lines, w, (n - 1) as nat) + count_in(lines[n - 1], w, lines[n - 1].len())
    }
}

/// A number, or the greatest `u64` if it is greater.
pub open spec fn clamped(n: nat) -> u64 {
    if n > u64::MAX {
        u64::MAX
    } else {
        n as u64
    }
}

/// The order of the vocabulary: the more frequent word first, and words of one
/// frequency by the alphabet.
pub open spec fn ranks_before(a: (Seq<char>, u64), b: (Seq<char>, u64)) -> bool {
    a.1 > b.1 || a.1 == b.1 && lex_lt(a.0, b.0)
}

/// The contents of counted words.
pub open spec fn entry_views(v: Seq<(String, u64)>) -> Seq<(Seq<char>, u64)> {
    v.map_values(|e: (String, u64)| (e.0@, e.1))
}

/// Whether a list is the vocabulary of the lines: it holds each word that occurs
/// often enough, with its count, in the vocabulary's order.
pub open spec fn is_vocabulary(v: Seq<(Seq<char>, u64)>, lines: Seq<Seq<Seq<char>>>) -> bool {
    &&& forall|i: int|
        0 <= i < v.len() ==> (#[trigger] v[i]).1 == clamped(count(lines, v[i].0, lines.len()))
    &&& forall|w: Seq<char>|
        count(lines, w, lines.len()) >= MIN_COUNT <==> #[trigger] in_list(v, w)
    &&& forall|i: int, j: int| 0 <= i < j < v.len() ==> ranks_before(#[trigger] v[i], #[trigger] v[j])
}

/// Whether a word is in a list of counted words.
pub open spec fn in_list(v: Seq<(Seq<char>, u64)>, w: Seq<char>) -> bool {
    exists|i: int| 0 <= i < v.len() && (#[trigger] v[i]).0 == w
}

/// Whether a list counts each word of the first `n` words behind the lines once.
spec fn tallies(v: Seq<(String, u64)>, seen: spec_fn(Seq<char>) -> nat) -> bool {
    &&& forall|i: int, j: int| 0 <= i < j < v.len() ==> (#[trigger] v[i]).0@ != (#[trigger] v[j]).0@
    &&& forall|i: int| 0 <= i < v.len() ==> (#[trigger] v[i]).1 == clamped(seen(v[i].0@))
    &&& forall|w: Seq<char>| #[trigger] seen(w) > 0 <==> in_list(entry_views(v), w)
}

/// The counts with one more occurrence of a word.
spec fn once_more(seen: spec_fn(Seq<char>) -> nat, w: Seq<char>) -> spec_fn(Seq<char>) -> nat {
    |x: Seq<char>|
        seen(x) + if x == w {
            1nat
        } else {
            0nat
        }
}

/// Counts a word once more.
fn tally(v: &mut Vec<(String, u64)>, w: &str, Ghost(seen): Ghost<spec_fn(Seq<char>) -> nat>)
    requires
        tallies(old(v)@, seen),
    ensures
        tallies(final(v)@, once_more(seen, w@)),
{
    let ghost now = once_more(seen, w@);
    let ghost v0 = v@;
    let mut i: usize = 0;
    while i < v.len()
        invariant
            i <= v@.len(),
            v@ == v0,
            tallies(v0, seen),
            now == once_more(seen, w@),
            forall|j: int| 0 <= j < i ==> (#[trigger] v0[j]).0@ != w@,
        decreases v@.len() - i,
    {
        if str_eq(v[i].0.as_str(), w) {
            let (word, n) = v.remove(i);
            let m: u64 = if n == u64::MAX {
                u64::MAX
            } else {
                n + 1
            };
            v.insert(i, (word, m));
            proof {
                assert(v@ =~= v0.update(i as int, (word, m)));
                assert forall|x: Seq<char>| #[trigger] now(x) > 0 <==> in_list(entry_views(v@), x) by {
                    lemma_in_list_same(v0, v@, x);
                    assert(seen(x) > 0 <==> in_list(entry_views(v0), x));
                    if x == w@ {
                        assert(entry_views(v@)[i as int].0 == x);
                    }
                }
                assert forall|k: int| 0 <= k < v@.len() implies (#[trigger] v@[k]).1 == clamped(
                    now(v@[k].0@),
                ) by {
                    if k == i {
                        assert(v0[i as int].1 == clamped(seen(w@)));
                    } else {
                        assert(v0[k].0@ != v0[i as int].0@) by {
                            if k < i {
                            } else {
                                assert(v0[i as int].0@ != v0[k].0@);
                            }
                        }
                        assert(v0[k].1 == clamped(seen(v0[k].0@)));
                    }
                }
                assert forall|a: int, b: int| 0 <= a < b < v@.len() implies (#[trigger] v@[a]).0@
                    != (#[trigger] v@[b]).0@ by {
                    assert(v0[a].0@ != v0[b].0@);
                }
            }
            return;
        }
        i = i + 1;
    }
    v.push((w.to_owned(), 1));
    proof {
        let e = v@.last();
        assert(seen(w@) == 0) by {
            if seen(w@) > 0 {
                assert(in_list(entry_views(v0), w@));
                let k = choose|k: int|
                    0 <= k < entry_views(v0).len() && (#[trigger] entry_views(v0)[k]).0 == w@;
                assert(v0[k].0@ == w@);
            }
        }
        assert forall|x: Seq<char>| #[trigger] now(x) > 0 <==> in_list(entry_views(v@), x) by {
            assert(seen(x) > 0 <==> in_list(entry_views(v0), x));
            if in_list(entry_views(v0), x) {
                let k = choose|k: int|
                    0 <= k < entry_views(v0).len() && (#[trigger] entry_views(v0)[k]).0 == x;
                assert(entry_views(v@)[k].0 == x);
            }
            if x == w@ {
                assert(entry_views(v@)[v0.len() as int].0 == x);
            }
            if in_list(entry_views(v@), x) {
                let k = choose|k: int|
                    0 <= k < entry_views(v@).len() && (#[trigger] entry_views(v@)[k]).0 == x;
                if k < v0.len() {
                    assert(entry_views(v0)[k].0 == x);
                }
            }
        }
        assert forall|k: int| 0 <= k < v@.len() implies (#[trigger] v@[k]).1 == clamped(
            now(v@[k].0@),
        ) by {
            if k < v0.len() {
                assert(v0[k].0@ != w@);
                assert(v0[k].1 == clamped(seen(v0[k].0@)));
            }
        }
    }
}

proof fn lemma_in_list_same(a: Seq<(String, u64)>, b: Seq<(String, u64)>, x: Seq<char>)
    requires
        a.len() == b.len(),
        forall|k: int| 0 <= k < a.len() ==> (#[trigger] a[k]).0@ == b[k].0@,
    ensures
        in_list(entry_views(a), x) == in_list(entry_views(b), x),
{
    if in_list(entry_views(a), x) {
        let k = choose|k: int|
            0 <= k < entry_views(a).len() && (#[trigger] entry_views(a)[k]).0 == x;
        assert(a[k].0@ == b[k].0@);
        assert(entry_views(b)[k].0 == x);
    }
    if in_list(entry_views(b), x) {
        let k = choose|k: int|
            0 <= k < entry_views(b).len() && (#[trigger] entry_views(b)[k]).0 == x;
        assert(a[k].0@ == b[k].0@);
        assert(entry_views(a)[k].0 == x);
    }
}

fn tally_all(lines: &Vec<Vec<String>>) -> (r: Vec<(String, u64)>)
    ensures
        tallies(
            r@,
            |w: Seq<char>| count(line_views(lines@), w, line_views(lines@).len()),
        ),
{
    let ghost ls = line_views(lines@);
    let mut out: Vec<(String, u64)> = Vec::new();
    let ghost mut seen: spec_fn(Seq<char>) -> nat = |w: Seq<char>| count(ls, w, 0);
    let mut i: usize = 0;
    while i < lines.len()
        invariant
            i <= lines@.len(),
            ls == line_views(lines@),
            forall|w: Seq<char>| #[trigger] seen(w) == count(ls, w, i as nat),
            tallies(out@, seen),
        decreases lines@.len() - i,
    {
        let line: &Vec<String> = &lines[i];
        assert(ls[i as int] == views(line@));
        let mut k: usize = 0;
        while k < line.len()
            invariant
                i < lines@.len(),
                ls == line_views(lines@),
                line == lines@[i as int],
                ls[i as int] == views(line@),
                k <= line@.len(),
                forall|w: Seq<char>| #[trigger]
                    seen(w) == count(ls, w, i as nat) + count_in(ls[i as int], w, k as nat),
                tallies(out@, seen),
            decreases line@.len() - k,
        {
            tally(&mut out, line[k].as_str(), Ghost(seen));
            proof {
                let word = line@[k as int]@;
                assert(ls[i as int][k as int] == word);
                let before = seen;
                seen = once_more(before, word);
                assert forall|w: Seq<char>| #[trigger] seen(w) == count(ls, w, i as nat)
                    + count_in(ls[i as int], w, (k + 1) as nat) by {
                    assert(before(w) == count(ls, w, i as nat) + count_in(
                        ls[i as int],
                        w,
                        k as nat,
                    ));
                }
            }
            k = k + 1;
        }
        proof {
            assert forall|w: Seq<char>| #[trigger] seen(w) == count(ls, w, (i + 1) as nat) by {}
        }
        i = i + 1;
    }
    proof {
        let all = |w: Seq<char>| count(ls, w, ls.len());
        assert(forall|w: Seq<char>| #[trigger] seen(w) == all(w));
        assert(seen =~= all);
    }
    out
}

fn comes_before(a: &(String, u64), b: &(String, u64)) -> (r: bool)
    ensures
        r == ranks_before((a.0@, a.1), (b.0@, b.1)),
{
    a.1 > b.1 || (a.1 == b.1 && str_lt(a.0.as_str(), b.0.as_str()))
}

/// Whether the words of a list are apart and in the vocabulary's order.
spec fn in_order(v: Seq<(String, u64)>) -> bool {
    forall|i: int, j: int|
        0 <= i < j < v.len() ==> ranks_before(
            #[trigger] entry_views(v)[i],
            #[trigger] entry_views(v)[j],
        )
}

proof fn lemma_ranks_trans(a: (Seq<char>, u64), b: (Seq<char>, u64), c: (Seq<char>, u64))
    requires
        ranks_before(a, b),
        ranks_before(b, c),
    ensures
        ranks_before(a, c),
{
    if a.1 == b.1 && b.1 == c.1 {
        lemma_lex_trans(a.0, b.0, c.0);
    }
}

/// Inserts a counted word at its place.
fn enlist(v: &mut Vec<(String, u64)>, e: (String, u64))
    requires
        in_order(old(v)@),
        forall|k: int| 0 <= k < old(v)@.len() ==> (#[trigger] old(v)@[k]).0@ != e.0@,
    ensures
        in_order(final(v)@),
        final(v)@.len() == old(v)@.len() + 1,
        forall|x: (Seq<char>, u64)| #[trigger]
            entry_views(final(v)@).contains(x) <==> entry_views(old(v)@).contains(x) || x == (
                e.0@,
                e.1,
            ),
{
    let ghost v0 = v@;
    let ghost a = entry_views(v0);
    let ghost x = (e.0@, e.1);
    let mut i: usize = 0;
    while i < v.len() && comes_before(&v[i], &e)
        invariant
            i <= v@.len(),
            v@ == v0,
            a == entry_views(v0),
            x == (e.0@, e.1),
            forall|k: int| 0 <= k < i ==> ranks_before(#[trigger] a[k], x),
        decreases v@.len() - i,
    {
        assert(a[i as int] == (v0[i as int].0@, v0[i as int].1));
        i = i + 1;
    }
    v.insert(i, e);
    proof {
        let b = entry_views(v@);
        assert(b =~= a.insert(i as int, x));
        if i < v0.len() {
            assert(a[i as int] == (v0[i as int].0@, v0[i as int].1));
            assert(v0[i as int].0@ != e.0@);
            lemma_lex_total(a[i as int].0, x.0);
            assert(ranks_before(x, a[i as int]));
        }
        assert forall|p: int, q: int| 0 <= p < q < b.len() implies ranks_before(
            #[trigger] b[p],
            #[trigger] b[q],
        ) by {
            if p < i && q < i {
                assert(ranks_before(a[p], a[q]));
            } else if p < i && q == i {
                assert(ranks_before(a[p], x));
            } else if p < i {
                assert(ranks_before(a[p], a[q - 1]));
            } else if p == i {
                if q - 1 > i {
                    assert(ranks_before(a[i as int], a[q - 1]));
                    lemma_ranks_trans(x, a[i as int], a[q - 1]);
                }
            } else {
                assert(ranks_before(a[p - 1], a[q - 1]));
            }
        }
        assert forall|y: (Seq<char>, u64)| #[trigger] b.contains(y) <==> a.contains(y) || y == x by {
            if a.contains(y) {
                let k = a.index_of(y);
                if k < i {
                    assert(b[k] == y);
                } else {
                    assert(b[k + 1] == y);
                }
            }
            assert(b[i as int] == x);
            if b.contains(y) {
                let k = b.index_of(y);
                if k < i {
                    assert(a[k] == y);
                } else if k > i {
                    assert(a[k - 1] == y);
                }
            }
        }
    }
}

/// The vocabulary of tokenized lines: the words that occur at least [`MIN_COUNT`]
/// times, the most frequent first.
pub fn vocabulary(lines: &Vec<Vec<String>>) -> (r: Vec<(String, u64)>)
    ensures
        is_vocabulary(entry_views(r@), line_views(lines@)),
{
    let ghost ls = line_views(lines@);
    let ghost seen = |w: Seq<char>| count(ls, w, ls.len());
    let counts: Vec<(String, u64)> = tally_all(lines);
    let ghost all = entry_views(counts@);
    let mut out: Vec<(String, u64)> = Vec::new();
    let mut i: usize = 0;
    while i < counts.len()
        invariant
            i <= counts@.len(),
            tallies(counts@, seen),
            all == entry_views(counts@),
            in_order(out@),
            forall|x: (Seq<char>, u64)| #[trigger]
                entry_views(out@).contains(x) <==> exists|k: int|
                    0 <= k < i && #[trigger] all[k] == x && x.1 >= MIN_COUNT,
        decreases counts@.len() - i,
    {
        let ghost before = out@;
        let ghost x = (counts@[i as int].0@, counts@[i as int].1);
        assert(all[i as int] == x);
        if counts[i].1 >= MIN_COUNT as u64 {
            proof {
                assert forall|k: int| 0 <= k < out@.len() implies (#[trigger] out@[k]).0@ != x.0 by {
                    let y = entry_views(out@)[k];
                    assert(entry_views(out@).contains(y));
                    let m = choose|m: int| 0 <= m < i && #[trigger] all[m] == y && y.1 >= MIN_COUNT;
                    assert(counts@[m].0@ != counts@[i as int].0@);
                }
            }
            enlist(&mut out, (counts[i].0.clone(), counts[i].1));
        }
        proof {
            assert forall|y: (Seq<char>, u64)| #[trigger] entry_views(out@).contains(y) <==> exists|
                k: int,
            | 0 <= k < i + 1 && #[trigger] all[k] == y && y.1 >= MIN_COUNT by {
                if entry_views(before).contains(y) {
                    let k = choose|k: int| 0 <= k < i && #[trigger] all[k] == y && y.1 >= MIN_COUNT;
                    assert(all[k] == y);
                }
                if y == x && y.1 >= MIN_COUNT {
                    assert(all[i as int] == y);
                }
            }
        }
        i = i + 1;
    }
    proof {
        let v = entry_views(out@);
        assert forall|i: int| 0 <= i < v.len() implies (#[trigger] v[i]).1 == clamped(
            count(ls, v[i].0, ls.len()),
        ) by {
            assert(v.contains(v[i]));
            let k = choose|k: int|
                0 <= k < counts@.len() && #[trigger] all[k] == v[i] && v[i].1 >= MIN_COUNT;
            assert(counts@[k].1 == clamped(seen(counts@[k].0@)));
        }
        assert forall|w: Seq<char>| count(ls, w, ls.len()) >= MIN_COUNT <==> #[trigger] in_list(
            v,
            w,
        ) by {
            assert(seen(w) == count(ls, w, ls.len()));
            if seen(w) >= MIN_COUNT {
                assert(in_list(all, w));
                let k = choose|k: int| 0 <= k < all.len() && (#[trigger] all[k]).0 == w;
                assert(counts@[k].1 == clamped(seen(counts@[k].0@)));
                assert(v.contains(all[k]));
                let m = v.index_of(all[k]);
                assert(v[m].0 == w);
            }
            if in_list(v, w) {
                let m = choose|m: int| 0 <= m < v.len() && (#[trigger] v[m]).0 == w;
                assert(v.contains(v[m]));
                let k = choose|k: int|
                    0 <= k < counts@.len() && #[trigger] all[k] == v[m] && v[m].1 >= MIN_COUNT;
                assert(counts@[k].1 == clamped(seen(counts@[k].0@)));
            }
        }
    }
    out
}

/// The position of a word in the vocabulary.
pub open spec fn word_at(v: Seq<(Seq<char>, u64)>, w: Seq<char>) -> Option<int>
    decreases v.len(),
{
    if v.len() == 0 {
        None
    } else if v.last().0 == w {
        Some(v.len() - 1)
    } else {
        word_at(v.drop_last(), w)
    }
}

/// The position of a word in the vocabulary, by which its vector is found.
pub fn word_id(vocab: &Vec<(String, u64)>, w: &str) -> (r: Option<usize>)
    ensures
        match r {
            Some(i) => word_at(entry_views(vocab@), w@) == Some(i as int) && i < vocab@.len(),
            None => word_at(entry_views(vocab@), w@) is None,
        },
{
    let ghost v = entry_views(vocab@);
    let mut i: usize = vocab.len();
    assert(v.take(i as int) =~= v);
    while i > 0
        invariant
            i <= vocab@.len(),
            v == entry_views(vocab@),
            word_at(v, w@) == word_at(v.take(i as int), w@),
        decreases i,
    {
        proof {
            let t = v.take(i as int);
            assert(t.drop_last() =~= v.take(i - 1));
            assert(t.last() == (vocab@[i - 1].0@, vocab@[i - 1].1));
        }
        i = i - 1;
        if str_eq(vocab[i].0.as_str(), w) {
            return Some(i);
        }
    }
    None
}

/// The positions in the vocabulary of the known ones among the first `n` words.
pub open spec fn known_upto(v: Seq<(Seq<char>, u64)>, ws: Seq<Seq<char>>, n: nat) -> Seq<int>
    decreases n,
{
    if n == 0 || n > ws.len() {
        Seq::empty()
    } else {
        let before = known_upto(v, ws, (n - 1) as nat);
        match word_at(v, ws[n - 1]) {
            Some(i) => before.push(i),
            None => before,
        }
    }
}

/// The positions in the vocabulary of a text's words, in the order of the text;
/// unknown words contribute nothing.
pub fn known_words(vocab: &Vec<(String, u64)>, text: &str) -> (r: Vec<usize>)
    ensures
        r@.map_values(|i: usize| i as int) == known_upto(
            entry_views(vocab@),
            words(text@),
            words(text@).len(),
        ),
        forall|k: int| 0 <= k < r@.len() ==> (#[trigger] r@[k]) < vocab@.len(),
{
    let ws: Vec<String> = tokenize(text);
    let ghost v = entry_views(vocab@);
    let ghost all = words(text@);
    let mut out: Vec<usize> = Vec::new();
    let mut i: usize = 0;
    assert(out@.map_values(|i: usize| i as int) =~= Seq::<int>::empty());
    while i < ws.len()
        invariant
            i <= ws@.len(),
            views(ws@) == all,
            v == entry_views(vocab@),
            out@.map_values(|i: usize| i as int) == known_upto(v, all, i as nat),
            forall|k: int| 0 <= k < out@.len() ==> (#[trigger] out@[k]) < vocab@.len(),
        decreases ws@.len() - i,
    {
        assert(all[i as int] == ws@[i as int]@);
        if let Some(id) = word_id(vocab, ws[i].as_str()) {
            let ghost before = out@;
            out.push(id);
            assert(out@.map_values(|i: usize| i as int) =~= before.map_values(
                |i: usize| i as int,
            ).push(id as int));
        }
        i = i + 1;
    }
    assert(views(ws@).len() == ws@.len());
    out
}

// ---------------------------------------------------------------------------
// Neighbours
// ---------------------------------------------------------------------------

/// The positions of a line's words in the vocabulary.
pub open spec fn ids_of(v: Seq<(Seq<char>, u64)>, line: Seq<Seq<char>>) -> Seq<Option<int>> {
    line.map_values(|w: Seq<char>| word_at(v, w))
}

/// Whether word `i` at `p` has word `j` at `q` for a neighbour.
pub open spec fn neighbours(ids: Seq<Option<int>>, i: int, j: int, p: int, q: int) -> bool {
    &&& ids[p] == Some(i)
    &&& ids[q] == Some(j)
    &&& p != q
    &&& p - q <= WINDOW
    &&& q - p <= WINDOW
}

/// How many of the first `m` places hold a neighbour `j` of word `i` at `p`.
pub open spec fn near_count(ids: Seq<Option<int>>, i: int, j: int, p: int, m: nat) -> nat
    decreases m,
{
    if m == 0 {
        0
    } else {
        near_count(ids, i, j, p, (m - 1) as nat) + if neighbours(ids, i, j, p, m - 1) {
            1nat
        } else {
            0nat
        }
    }
}

/// How often word `i` in the first `n` places has word `j` in the first `m` places
/// for a neighbour.
pub open spec fn pair_count(ids: Seq<Option<int>>, i: int, j: int, n: nat, m: nat) -> nat
    decreases n,
{
    if n == 0 {
        0
    } else {
        pair_count(ids, i, j, (n - 1) as nat, m) + near_count(ids, i, j, n - 1, m)
    }
}

/// How often word `i` has word `j` for a neighbour in the first `n` lines.
pub open spec fn joint_count(
    v: Seq<(Seq<char>, u64)>,
    lines: Seq<Seq<Seq<char>>>,
    i: int,
    j: int,
    n: nat,
) -> nat
    decreases n,
{
    if n == 0 || n > lines.len() {
        0
    } else {
        let ids = ids_of(v, lines[n - 1]);
        joint_count(v, lines, i, j, (n - 1) as nat) + pair_count(ids, i, j, ids.len(), ids.len())
    }
}

/// Whether a matrix holds the counts of all pairs of the first `size` words.
pub open spec fn holds(m: Seq<Vec<u64>>, size: nat, counts: spec_fn(int, int) -> nat) -> bool {
    &&& m.len() == size
    &&& forall|i: int| 0 <= i < size ==> (#[trigger] m[i])@.len() == size
    &&& forall|i: int, j: int|
        0 <= i < size && 0 <= j < size ==> #[trigger] m[i]@[j] == clamped(counts(i, j))
}

/// The counts with one more pair.
spec fn one_more(counts: spec_fn(int, int) -> nat, a: int, b: int) -> spec_fn(int, int) -> nat {
    |i: int, j: int|
        counts(i, j) + if i == a && j == b {
            1nat
        } else {
            0nat
        }
}

fn add_pair(
    m: &mut Vec<Vec<u64>>,
    a: usize,
    b: usize,
    Ghost(counts): Ghost<spec_fn(int, int) -> nat>,
)
    requires
        holds(old(m)@, old(m)@.len(), counts),
        a < old(m)@.len(),
        b < old(m)@.len(),
    ensures
        holds(final(m)@, old(m)@.len(), one_more(counts, a as int, b as int)),
{
    let ghost m0 = m@;
    let mut row: Vec<u64> = m.remove(a);
    let ghost row0 = row@;
    let n: u64 = row[b];
    row.set(
        b,
        if n == u64::MAX {
            u64::MAX
        } else {
            n + 1
        },
    );
    m.insert(a, row);
    proof {
        let now = one_more(counts, a as int, b as int);
        assert(m@ =~= m0.update(a as int, row));
        assert(m0[a as int]@[b as int] == clamped(counts(a as int, b as int)));
        assert forall|i: int, j: int| 0 <= i < m0.len() && 0 <= j < m0.len() implies #[trigger] m@[i]@[j]
            == clamped(now(i, j)) by {
            assert(m0[i]@[j] == clamped(counts(i, j)));
        }
    }
}

fn zeros(size: usize) -> (r: Vec<Vec<u64>>)
    ensures
        holds(r@, size as nat, |i: int, j: int| 0nat),
{
    let mut m: Vec<Vec<u64>> = Vec::new();
    let mut i: usize = 0;
    while i < size
        invariant
            i <= size,
            m@.len() == i,
            forall|a: int| 0 <= a < i ==> (#[trigger] m@[a])@.len() == size,
            forall|a: int, b: int| 0 <= a < i && 0 <= b < size ==> #[trigger] m@[a]@[b] == 0,
        decreases size - i,
    {
        let mut row: Vec<u64> = Vec::new();
        let mut j: usize = 0;
        while j < size
            invariant
                j <= size,
                row@.len() == j,
                forall|b: int| 0 <= b < j ==> #[trigger] row@[b] == 0,
            decreases size - j,
        {
            row.push(0);
            j = j + 1;
        }
        m.push(row);
        i = i + 1;
    }
    m
}

/// The symmetric co-occurrence counts: how often each word of the vocabulary stands
/// within [`WINDOW`] words of each other one in a line.
pub fn cooccurrences(lines: &Vec<Vec<String>>, vocab: &Vec<(String, u64)>) -> (r: Vec<Vec<u64>>)
    ensures
        holds(
            r@,
            vocab@.len(),
            |i: int, j: int|
                joint_count(
                    entry_views(vocab@),
                    line_views(lines@),
                    i,
                    j,
                    line_views(lines@).len(),
                ),
        ),
{
    let ghost v = entry_views(vocab@);
    let ghost ls = line_views(lines@);
    let size: usize = vocab.len();
    let mut m: Vec<Vec<u64>> = zeros(size);
    let ghost mut counts: spec_fn(int, int) -> nat = |i: int, j: int| 0nat;
    let mut l: usize = 0;
    while l < lines.len()
        invariant
            l <= lines@.len(),
            size == vocab@.len(),
            v == entry_views(vocab@),
            ls == line_views(lines@),
            holds(m@, size as nat, counts),
            forall|i: int, j: int| #[trigger] counts(i, j) == joint_count(v, ls, i, j, l as nat),
        decreases lines@.len() - l,
    {
        let line: &Vec<String> = &lines[l];
        assert(ls[l as int] == views(line@));
        let ghost ids = ids_of(v, ls[l as int]);
        let found: Vec<Option<usize>> = find_ids(line, vocab);
        let n: usize = found.len();
        let mut p: usize = 0;
        while p < n
            invariant
                l < lines@.len(),
                n == found@.len() == ids.len(),
                p <= n,
                size == vocab@.len(),
                holds(m@, size as nat, counts),
                forall|k: int|
                    0 <= k < n ==> ids[k] == match #[trigger] found@[k] {
                        Some(x) => Some(x as int),
                        None => None::<int>,
                    },
                forall|k: int| 0 <= k < n && (#[trigger] found@[k]) is Some ==> found@[k]->0 < size,
                forall|i: int, j: int| #[trigger]
                    counts(i, j) == joint_count(v, ls, i, j, l as nat) + pair_count(
                        ids,
                        i,
                        j,
                        p as nat,
                        n as nat,
                    ),
            decreases n - p,
        {
            if let Some(a) = found[p] {
                let lo: usize = if p < WINDOW {
                    0
                } else {
                    p - WINDOW
                };
                let hi: usize = if n - p <= WINDOW {
                    n
                } else {
                    p + WINDOW + 1
                };
                let mut q: usize = lo;
                proof {
                    assert forall|i: int, j: int| #[trigger] counts(i, j) == joint_count(
                        v,
                        ls,
                        i,
                        j,
                        l as nat,
                    ) + pair_count(ids, i, j, p as nat, n as nat) + near_count(
                        ids,
                        i,
                        j,
                        p as int,
                        lo as nat,
                    ) by {
                        lemma_none_before(ids, i, j, p as int, lo as nat);
                    }
                }
                while q < hi
                    invariant
                        n == found@.len() == ids.len(),
                        p < n,
                        lo <= q <= hi <= n,
                        p - lo <= WINDOW,
                        hi - p <= WINDOW + 1,
                        size == vocab@.len(),
                        found@[p as int] == Some(a),
                        holds(m@, size as nat, counts),
                        forall|k: int|
                            0 <= k < n ==> ids[k] == match #[trigger] found@[k] {
                                Some(x) => Some(x as int),
                                None => None::<int>,
                            },
                        forall|k: int|
                            0 <= k < n && (#[trigger] found@[k]) is Some ==> found@[k]->0 < size,
                        forall|i: int, j: int| #[trigger]
                            counts(i, j) == joint_count(v, ls, i, j, l as nat) + pair_count(
                                ids,
                                i,
                                j,
                                p as nat,
                                n as nat,
                            ) + near_count(ids, i, j, p as int, q as nat),
                    decreases hi - q,
                {
                    let ghost before = counts;
                    if q != p {
                        if let Some(b) = found[q] {
                            add_pair(&mut m, a, b, Ghost(counts));
                            proof {
                                counts = one_more(before, a as int, b as int);
                            }
                        }
                    }
                    proof {
                        assert forall|i: int, j: int| #[trigger] counts(i, j) == joint_count(
                            v,
                            ls,
                            i,
                            j,
                            l as nat,
                        ) + pair_count(ids, i, j, p as nat, n as nat) + near_count(
                            ids,
                            i,
                            j,
                            p as int,
                            (q + 1) as nat,
                        ) by {
                            assert(before(i, j) == joint_count(v, ls, i, j, l as nat) + pair_count(
                                ids,
                                i,
                                j,
                                p as nat,
                                n as nat,
                            ) + near_count(ids, i, j, p as int, q as nat));
                            assert(found@[q as int] is Some || ids[q as int] is None);
                            assert(ids[p as int] == Some(a as int));
                        }
                    }
                    q = q + 1;
                }
                proof {
                    assert forall|i: int, j: int| #[trigger] counts(i, j) == joint_count(
                        v,
                        ls,
                        i,
                        j,
                        l as nat,
                    ) + pair_count(ids, i, j, (p + 1) as nat, n as nat) by {
                        lemma_none_after(ids, i, j, p as int, hi as nat, n as nat);
                    }
                }
            } else {
                proof {
                    assert(ids[p as int] is None);
                    assert forall|i: int, j: int| #[trigger] counts(i, j) == joint_count(
                        v,
                        ls,
                        i,
                        j,
                        l as nat,
                    ) + pair_count(ids, i, j, (p + 1) as nat, n as nat) by {
                        lemma_unknown(ids, i, j, p as int, n as nat);
                    }
                }
            }
            p = p + 1;
        }
        proof {
            assert forall|i: int, j: int| #[trigger] counts(i, j) == joint_count(
                v,
                ls,
                i,
                j,
                (l + 1) as nat,
            ) by {}
        }
        l = l + 1;
    }
    proof {
        let all = |i: int, j: int| joint_count(v, ls, i, j, ls.len());
        assert forall|i: int, j: int| 0 <= i < size && 0 <= j < size implies #[trigger] m@[i]@[j]
            == clamped(all(i, j)) by {
            assert(counts(i, j) == joint_count(v, ls, i, j, ls.len()));
        }
    }
    m
}

fn find_ids(line: &Vec<String>, vocab: &Vec<(String, u64)>) -> (r: Vec<Option<usize>>)
    ensures
        r@.len() == line@.len(),
        forall|k: int|
            0 <= k < r@.len() ==> ids_of(entry_views(vocab@), views(line@))[k]
                == match #[trigger] r@[k] {
                Some(x) => Some(x as int),
                None => None::<int>,
            },
        forall|k: int| 0 <= k < r@.len() && (#[trigger] r@[k]) is Some ==> r@[k]->0 < vocab@.len(),
{
    let mut out: Vec<Option<usize>> = Vec::new();
    let ghost ids = ids_of(entry_views(vocab@), views(line@));
    let mut i: usize = 0;
    while i < line.len()
        invariant
            i <= line@.len(),
            ids == ids_of(entry_views(vocab@), views(line@)),
            out@.len() == i,
            forall|k: int|
                0 <= k < i ==> ids[k] == match #[trigger] out@[k] {
                    Some(x) => Some(x as int),
                    None => None::<int>,
                },
            forall|k: int| 0 <= k < i && (#[trigger] out@[k]) is Some ==> out@[k]->0 < vocab@.len(),
        decreases line@.len() - i,
    {
        out.push(word_id(vocab, line[i].as_str()));
        i = i + 1;
    }
    out
}

proof fn lemma_none_before(ids: Seq<Option<int>>, i: int, j: int, p: int, m: nat)
    requires
        m <= p - WINDOW || m == 0,
    ensures
        near_count(ids, i, j, p, m) == 0,
    decreases m,
{
    if m > 0 {
        lemma_none_before(ids, i, j, p, (m - 1) as nat);
    }
}

proof fn lemma_none_after(ids: Seq<Option<int>>, i: int, j: int, p: int, hi: nat, m: nat)
    requires
        hi <= m,
        hi == m || hi > p + WINDOW,
    ensures
        near_count(ids, i, j, p, m) == near_count(ids, i, j, p, hi),
    decreases m,
{
    if hi < m {
        lemma_none_after(ids, i, j, p, hi, (m - 1) as nat);
    }
}

proof fn lemma_unknown(ids: Seq<Option<int>>, i: int, j: int, p: int, m: nat)
    requires
        ids[p] is None,
    ensures
        near_count(ids, i, j, p, m) == 0,
    decreases m,
{
    if m > 0 {
        lemma_unknown(ids, i, j, p, (m - 1) as nat);
    }
}

// ---------------------------------------------------------------------------
// The seed
// ---------------------------------------------------------------------------

/// A deterministic 64-bit linear congruential generator, which seeds the starting
/// block of the factorization. No entropy of the system is consulted.
#[derive(Debug)]
pub struct Lcg {
    pub state: u64,
}

impl Lcg {
    /// A generator with a seed.
    pub fn new(seed: u64) -> (r: Lcg)
        ensures
            r.state == seed,
    {
        Lcg { state: seed }
    }

    /// The next number.
    pub fn next_u64(&mut self) -> (r: u64)
        ensures
            r == final(self).state,
            r == (old(self).state * 6364136223846793005 + 1442695040888963407)
                % 0x1_0000_0000_0000_0000,
    {
        let a: u64 = self.state.wrapping_mul(6364136223846793005);
        self.state = a.wrapping_add(1442695040888963407);
        proof {
            let x = old(self).state * 6364136223846793005;
            let m: int = 0x1_0000_0000_0000_0000;
            assert(a == x % m);
            assert((x % m + 1442695040888963407) % m == (x + 1442695040888963407) % m)
                by (nonlinear_arith)
                requires
                    m == 0x1_0000_0000_0000_0000,
            ;
        }
        self.state
    }

    /// The top 53 bits of the next number, of which a double in [0, 1) is made.
    pub fn next_bits(&mut self) -> (r: u64)
        ensures
            r == final(self).state / 2048,
            final(self).state == (old(self).state * 6364136223846793005 + 1442695040888963407)
                % 0x1_0000_0000_0000_0000,
            r < 0x20_0000_0000_0000,
    {
        self.next_u64() / 2048
    }
}

// ---------------------------------------------------------------------------
// Laws
// ---------------------------------------------------------------------------

/// The counts are symmetric: a word has another for a neighbour as often as the
/// other has it.
pub proof fn counts_are_symmetric(
    v: Seq<(Seq<char>, u64)>,
    lines: Seq<Seq<Seq<char>>>,
    i: int,
    j: int,
    n: nat,
)
    ensures
        joint_count(v, lines, i, j, n) == joint_count(v, lines, j, i, n),
    decreases n,
{
    if n > 0 && n <= lines.len() {
        counts_are_symmetric(v, lines, i, j, (n - 1) as nat);
        let ids = ids_of(v, lines[n - 1]);
        lemma_pairs_swap(ids, i, j, ids.len(), ids.len());
    }
}

proof fn lemma_pairs_swap(ids: Seq<Option<int>>, i: int, j: int, n: nat, m: nat)
    ensures
        pair_count(ids, i, j, n, m) == pair_count(ids, j, i, m, n),
    decreases n,
{
    if n > 0 {
        lemma_pairs_swap(ids, i, j, (n - 1) as nat, m);
        lemma_last_column(ids, i, j, (n - 1) as nat, m);
    } else {
        lemma_no_column(ids, j, i, m);
    }
}

proof fn lemma_no_column(ids: Seq<Option<int>>, i: int, j: int, m: nat)
    ensures
        pair_count(ids, i, j, m, 0) == 0,
    decreases m,
{
    if m > 0 {
        lemma_no_column(ids, i, j, (m - 1) as nat);
    }
}

/// The pairs with one more place to the right are those before and the new column,
/// which is the row of that place read the other way.
proof fn lemma_last_column(ids: Seq<Option<int>>, i: int, j: int, k: nat, m: nat)
    ensures
        pair_count(ids, j, i, m, k + 1) == pair_count(ids, j, i, m, k) + near_count(
            ids,
            i,
            j,
            k as int,
            m,
        ),
    decreases m,
{
    if m > 0 {
        lemma_last_column(ids, i, j, k, (m - 1) as nat);
        assert(neighbours(ids, j, i, m - 1, k as int) == neighbours(ids, i, j, k as int, m - 1));
    }
}

/// Two lists that are both the vocabulary of the lines are the same list, so the
/// rows of the model do not depend on the order in which words were counted.
pub proof fn vocabulary_is_unique(
    v: Seq<(Seq<char>, u64)>,
    w: Seq<(Seq<char>, u64)>,
    lines: Seq<Seq<Seq<char>>>,
)
    requires
        is_vocabulary(v, lines),
        is_vocabulary(w, lines),
    ensures
        v == w,
{
    lemma_vocabulary_prefix(v, w, lines, v.len());
    lemma_vocabulary_prefix(w, v, lines, w.len());
    assert(v =~= w);
}

proof fn lemma_rank_asym(a: (Seq<char>, u64), b: (Seq<char>, u64))
    requires
        ranks_before(a, b),
    ensures
        !ranks_before(b, a),
        a != b,
{
    if a.1 == b.1 {
        lemma_lex_asym(a.0, b.0);
    }
}

/// Where the word of `v` at a position stands in `w`.
proof fn lemma_found(
    v: Seq<(Seq<char>, u64)>,
    w: Seq<(Seq<char>, u64)>,
    lines: Seq<Seq<Seq<char>>>,
    k: int,
) -> (m: int)
    requires
        is_vocabulary(v, lines),
        is_vocabulary(w, lines),
        0 <= k < v.len(),
    ensures
        0 <= m < w.len(),
        w[m] == v[k],
{
    assert(in_list(v, v[k].0));
    assert(in_list(w, v[k].0));
    let m = choose|m: int| 0 <= m < w.len() && (#[trigger] w[m]).0 == v[k].0;
    assert(w[m].1 == clamped(count(lines, w[m].0, lines.len())));
    m
}

proof fn lemma_vocabulary_prefix(
    v: Seq<(Seq<char>, u64)>,
    w: Seq<(Seq<char>, u64)>,
    lines: Seq<Seq<Seq<char>>>,
    n: nat,
)
    requires
        is_vocabulary(v, lines),
        is_vocabulary(w, lines),
        n <= v.len(),
    ensures
        n <= w.len(),
        forall|k: int| 0 <= k < n ==> #[trigger] w[k] == v[k],
    decreases n,
{
    if n > 0 {
        let k = n - 1;
        lemma_vocabulary_prefix(v, w, lines, k as nat);
        let m = lemma_found(v, w, lines, k);
        if m < k {
            assert(w[m] == v[m]);
            lemma_rank_asym(v[m], v[k]);
        } else if m > k {
            let q = lemma_found(w, v, lines, k);
            if q < k {
                assert(w[q] == v[q]);
                lemma_rank_asym(w[q], w[k]);
            } else if q > k {
                assert(ranks_before(w[k], w[m]));
                assert(ranks_before(v[k], v[q]));
                lemma_rank_asym(w[k], w[m]);
            }
        }
    }
}

} // verus!
