//! What filling a template gives: the pieces of the template with the arguments
//! between them.

use vstd::prelude::*;
use vstd::string::*;

use crate::text::{fmt, fmt_at};

verus! {

/// Whether a piece of a template holds no place for an argument, also not together
/// with what follows it.
pub open spec fn plain(p: Seq<char>) -> bool {
    forall|i: int|
        0 <= i < p.len() && #[trigger] p[i] == '{' ==> i + 1 < p.len() && p[i + 1] != '}'
}

/// Whether all pieces are plain.
pub open spec fn all_plain(ps: Seq<Seq<char>>) -> bool {
    forall|k: int| 0 <= k < ps.len() ==> plain(#[trigger] ps[k])
}

/// The template of pieces: with a `{}` between two.
pub open spec fn template(ps: Seq<Seq<char>>) -> Seq<char>
    decreases ps.len(),
{
    if ps.len() == 0 {
        Seq::empty()
    } else if ps.len() == 1 {
        ps[0]
    } else {
        ps[0] + (seq!['{', '}'] + template(ps.drop_first()))
    }
}

/// The pieces with the arguments between them.
pub open spec fn filled(ps: Seq<Seq<char>>, args: Seq<Seq<char>>) -> Seq<char>
    decreases ps.len(),
{
    if ps.len() == 0 {
        Seq::empty()
    } else if ps.len() == 1 {
        ps[0]
    } else {
        ps[0] + (args[0] + filled(ps.drop_first(), args.drop_first()))
    }
}

proof fn lemma_shift(
    head: Seq<char>,
    t: Seq<char>,
    i: nat,
    first: Seq<char>,
    args: Seq<Seq<char>>,
    k: nat,
)
    ensures
        fmt_at(head + t, head.len() + i, seq![first] + args, k + 1) == fmt_at(t, i, args, k),
    decreases t.len() - i,
{
    let s = head + t;
    let all = seq![first] + args;
    if i < t.len() {
        assert(s[(head.len() + i) as int] == t[i as int]);
        if i + 1 < t.len() {
            assert(s[(head.len() + i + 1) as int] == t[(i + 1) as int]);
        }
        if i + 1 < t.len() && t[i as int] == '{' && t[(i + 1) as int] == '}' {
            lemma_shift(head, t, i + 2, first, args, k + 1);
            if k < args.len() {
                assert(all[(k + 1) as int] == args[k as int]);
            }
        } else {
            lemma_shift(head, t, i + 1, first, args, k);
        }
    }
}

proof fn lemma_piece(p: Seq<char>, rest: Seq<char>, i: nat, args: Seq<Seq<char>>, k: nat)
    requires
        plain(p),
        i <= p.len(),
    ensures
        fmt_at(p + rest, i, args, k) == p.skip(i as int) + fmt_at(p + rest, p.len(), args, k),
    decreases p.len() - i,
{
    let t = p + rest;
    if i < p.len() {
        assert(t[i as int] == p[i as int]);
        if p[i as int] == '{' {
            assert(t[(i + 1) as int] == p[(i + 1) as int]);
        }
        lemma_piece(p, rest, i + 1, args, k);
        assert(p.skip(i as int) =~= seq![p[i as int]] + p.skip(i as int + 1));
        let tail = fmt_at(t, p.len(), args, k);
        assert(seq![p[i as int]] + (p.skip(i as int + 1) + tail) =~= p.skip(i as int) + tail);
    } else {
        assert(p.skip(i as int) =~= Seq::empty());
        assert(Seq::<char>::empty() + fmt_at(t, p.len(), args, k) =~= fmt_at(
            t,
            p.len(),
            args,
            k,
        ));
    }
}

/// A filled template is its pieces with the arguments between them, in order.
pub proof fn filling_puts_arguments_between(ps: Seq<Seq<char>>, args: Seq<Seq<char>>)
    requires
        all_plain(ps),
        ps.len() == args.len() + 1,
    ensures
        fmt(template(ps), args) == filled(ps, args),
    decreases ps.len(),
{
    reveal(fmt);
    let p = ps[0];
    if ps.len() == 1 {
        assert(p + Seq::<char>::empty() =~= p);
        lemma_piece(p, Seq::empty(), 0, args, 0);
        assert(fmt_at(p, p.len(), args, 0) =~= Seq::empty());
        assert(p.skip(0) =~= p);
    } else {
        let rest = template(ps.drop_first());
        let hole = seq!['{', '}'];
        let t = template(ps);
        let more = args.drop_first();
        assert forall|k: int| 0 <= k < ps.drop_first().len() implies plain(
            #[trigger] ps.drop_first()[k],
        ) by {
            assert(plain(ps[k + 1]));
        }
        filling_puts_arguments_between(ps.drop_first(), more);
        lemma_piece(p, hole + rest, 0, args, 0);
        assert(p.skip(0) =~= p);
        assert(t[p.len() as int] == '{' && t[p.len() as int + 1] == '}');
        let head = p + hole;
        assert(t =~= head + rest);
        assert(seq![args[0]] + more =~= args);
        lemma_shift(head, rest, 0, args[0], more, 0);
        assert(fmt_at(t, p.len(), args, 0) == args[0] + fmt_at(t, head.len(), args, 1));
    }
}

/// The concatenation of texts.
pub open spec fn cat(ts: Seq<Seq<char>>) -> Seq<char>
    decreases ts.len(),
{
    if ts.len() == 0 {
        Seq::empty()
    } else {
        ts[0] + cat(ts.drop_first())
    }
}

/// The place for an argument in a template.
pub open spec fn hole() -> Seq<char> {
    seq!['{', '}']
}

/// A template without a place for an argument is its own text.
pub proof fn lemma_fill0(p: Seq<char>, args: Seq<Seq<char>>)
    requires
        plain(p),
    ensures
        fmt(p, args) == p,
{
    reveal(fmt);
    assert(p + Seq::<char>::empty() =~= p);
    lemma_piece(p, Seq::empty(), 0, args, 0);
    assert(fmt_at(p, p.len(), args, 0) =~= Seq::empty());
    assert(p.skip(0) =~= p);
}

/// The first argument stands behind the first piece; the rest of the template
/// takes the rest of the arguments.
pub proof fn lemma_fill_first(p: Seq<char>, rest: Seq<char>, a: Seq<char>, args: Seq<Seq<char>>)
    requires
        plain(p),
    ensures
        fmt(p + (hole() + rest), seq![a] + args) == p + (a + fmt(rest, args)),
{
    reveal(fmt);
    let all = seq![a] + args;
    let t = p + (hole() + rest);
    let head = p + hole();
    lemma_piece(p, hole() + rest, 0, all, 0);
    assert(p.skip(0) =~= p);
    assert(t[p.len() as int] == '{' && t[p.len() as int + 1] == '}');
    assert(t =~= head + rest);
    lemma_shift(head, rest, 0, a, args, 0);
    assert(all[0] == a);
    assert(fmt_at(t, p.len(), all, 0) == a + fmt_at(t, head.len(), all, 1));
}

pub proof fn lemma_fill1(
    p0: Seq<char>,
    p1: Seq<char>,
    a0: Seq<char>,
)
    requires
        plain(p0),
        plain(p1),
    ensures
        fmt(p0 + (hole() + p1), seq![a0]) == p0 + (a0 + p1),
{
    let more = Seq::<Seq<char>>::empty();
    assert(seq![a0] + more =~= seq![a0]);
    lemma_fill_first(p0, p1, a0, more);
    lemma_fill0(p1, Seq::<Seq<char>>::empty());
}

pub proof fn lemma_fill2(
    p0: Seq<char>,
    p1: Seq<char>,
    p2: Seq<char>,
    a0: Seq<char>,
    a1: Seq<char>,
)
    requires
        plain(p0),
        plain(p1),
        plain(p2),
    ensures
        fmt(p0 + (hole() + (p1 + (hole() + p2))), seq![a0, a1]) == p0 + (a0 + (p1 + (a1 + p2))),
{
    let more = seq![a1];
    assert(seq![a0] + more =~= seq![a0, a1]);
    lemma_fill_first(p0, p1 + (hole() + p2), a0, more);
    lemma_fill1(p1, p2, a1);
}

pub proof fn lemma_fill3(
    p0: Seq<char>,
    p1: Seq<char>,
    p2: Seq<char>,
    p3: Seq<char>,
    a0: Seq<char>,
    a1: Seq<char>,
    a2: Seq<char>,
)
    requires
        plain(p0),
        plain(p1),
        plain(p2),
        plain(p3),
    ensures
        fmt(p0 + (hole() + (p1 + (hole() + (p2 + (hole() + p3))))), seq![a0, a1, a2]) == p0 + (a0 + (p1 + (a1 + (p2 + (a2 + p3))))),
{
    let more = seq![a1, a2];
    assert(seq![a0] + more =~= seq![a0, a1, a2]);
    lemma_fill_first(p0, p1 + (hole() + (p2 + (hole() + p3))), a0, more);
    lemma_fill2(p1, p2, p3, a1, a2);
}

pub proof fn lemma_fill4(
    p0: Seq<char>,
    p1: Seq<char>,
    p2: Seq<char>,
    p3: Seq<char>,
    p4: Seq<char>,
    a0: Seq<char>,
    a1: Seq<char>,
    a2: Seq<char>,
    a3: Seq<char>,
)
    requires
        plain(p0),
        plain(p1),
        plain(p2),
        plain(p3),
        plain(p4),
    ensures
        fmt(p0 + (hole() + (p1 + (hole() + (p2 + (hole() + (p3 + (hole() + p4))))))), seq![a0, a1, a2, a3]) == p0 + (a0 + (p1 + (a1 + (p2 + (a2 + (p3 + (a3 + p4))))))),
{
    let more = seq![a1, a2, a3];
    assert(seq![a0] + more =~= seq![a0, a1, a2, a3]);
    lemma_fill_first(p0, p1 + (hole() + (p2 + (hole() + (p3 + (hole() + p4))))), a0, more);
    lemma_fill3(p1, p2, p3, p4, a1, a2, a3);
}

pub proof fn lemma_fill5(
    p0: Seq<char>,
    p1: Seq<char>,
    p2: Seq<char>,
    p3: Seq<char>,
    p4: Seq<char>,
    p5: Seq<char>,
    a0: Seq<char>,
    a1: Seq<char>,
    a2: Seq<char>,
    a3: Seq<char>,
    a4: Seq<char>,
)
    requires
        plain(p0),
        plain(p1),
        plain(p2),
        plain(p3),
        plain(p4),
        plain(p5),
    ensures
        fmt(p0 + (hole() + (p1 + (hole() + (p2 + (hole() + (p3 + (hole() + (p4 + (hole() + p5))))))))), seq![a0, a1, a2, a3, a4]) == p0 + (a0 + (p1 + (a1 + (p2 + (a2 + (p3 + (a3 + (p4 + (a4 + p5))))))))),
{
    let more = seq![a1, a2, a3, a4];
    assert(seq![a0] + more =~= seq![a0, a1, a2, a3, a4]);
    lemma_fill_first(p0, p1 + (hole() + (p2 + (hole() + (p3 + (hole() + (p4 + (hole() + p5))))))), a0, more);
    lemma_fill4(p1, p2, p3, p4, p5, a1, a2, a3, a4);
}

pub proof fn lemma_fill6(
    p0: Seq<char>,
    p1: Seq<char>,
    p2: Seq<char>,
    p3: Seq<char>,
    p4: Seq<char>,
    p5: Seq<char>,
    p6: Seq<char>,
    a0: Seq<char>,
    a1: Seq<char>,
    a2: Seq<char>,
    a3: Seq<char>,
    a4: Seq<char>,
    a5: Seq<char>,
)
    requires
        plain(p0),
        plain(p1),
        plain(p2),
        plain(p3),
        plain(p4),
        plain(p5),
        plain(p6),
    ensures
        fmt(p0 + (hole() + (p1 + (hole() + (p2 + (hole() + (p3 + (hole() + (p4 + (hole() + (p5 + (hole() + p6))))))))))), seq![a0, a1, a2, a3, a4, a5]) == p0 + (a0 + (p1 + (a1 + (p2 + (a2 + (p3 + (a3 + (p4 + (a4 + (p5 + (a5 + p6))))))))))),
{
    let more = seq![a1, a2, a3, a4, a5];
    assert(seq![a0] + more =~= seq![a0, a1, a2, a3, a4, a5]);
    lemma_fill_first(p0, p1 + (hole() + (p2 + (hole() + (p3 + (hole() + (p4 + (hole() + (p5 + (hole() + p6))))))))), a0, more);
    lemma_fill5(p1, p2, p3, p4, p5, p6, a1, a2, a3, a4, a5);
}

pub proof fn lemma_fill7(
    p0: Seq<char>,
    p1: Seq<char>,
    p2: Seq<char>,
    p3: Seq<char>,
    p4: Seq<char>,
    p5: Seq<char>,
    p6: Seq<char>,
    p7: Seq<char>,
    a0: Seq<char>,
    a1: Seq<char>,
    a2: Seq<char>,
    a3: Seq<char>,
    a4: Seq<char>,
    a5: Seq<char>,
    a6: Seq<char>,
)
    requires
        plain(p0),
        plain(p1),
        plain(p2),
        plain(p3),
        plain(p4),
        plain(p5),
        plain(p6),
        plain(p7),
    ensures
        fmt(p0 + (hole() + (p1 + (hole() + (p2 + (hole() + (p3 + (hole() + (p4 + (hole() + (p5 + (hole() + (p6 + (hole() + p7))))))))))))), seq![a0, a1, a2, a3, a4, a5, a6]) == p0 + (a0 + (p1 + (a1 + (p2 + (a2 + (p3 + (a3 + (p4 + (a4 + (p5 + (a5 + (p6 + (a6 + p7))))))))))))),
{
    let more = seq![a1, a2, a3, a4, a5, a6];
    assert(seq![a0] + more =~= seq![a0, a1, a2, a3, a4, a5, a6]);
    lemma_fill_first(p0, p1 + (hole() + (p2 + (hole() + (p3 + (hole() + (p4 + (hole() + (p5 + (hole() + (p6 + (hole() + p7))))))))))), a0, more);
    lemma_fill6(p1, p2, p3, p4, p5, p6, p7, a1, a2, a3, a4, a5, a6);
}

} // verus!
