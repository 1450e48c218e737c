//! Text: the operations on strings that the rest of the library is built on,
//! each stated over the sequence of characters that a string holds.

use vstd::prelude::*;
use vstd::string::*;

pub mod pieces;

verus! {

/// `String::push`: the character is appended to the end.
pub assume_specification[ String::push ](s: &mut String, c: char)
    ensures
        final(s)@ == old(s)@.push(c),
;

/// Whether two texts are equal.
pub fn str_eq(a: &str, b: &str) -> (r: bool)
    ensures
        r == (a@ == b@),
{
    let x: &[u8] = a.as_bytes();
    let y: &[u8] = b.as_bytes();
    proof {
        vstd::utf8::encode_utf8_decode_utf8(a@);
        vstd::utf8::encode_utf8_decode_utf8(b@);
    }
    if x.len() != y.len() {
        return false;
    }
    let mut i: usize = 0;
    while i < x.len()
        invariant
            i <= x@.len(),
            x@.len() == y@.len(),
            forall|j: int| 0 <= j < i ==> x@[j] == y@[j],
            a@ == b@ ==> x@ == y@,
        decreases x@.len() - i,
    {
        if x[i] != y[i] {
            return false;
        }
        i = i + 1;
    }
    assert(x@ =~= y@);
    true
}

/// The characters of a text.
pub fn chars_of(s: &str) -> (r: Vec<char>)
    ensures
        r@ == s@,
{
    let mut r: Vec<char> = Vec::new();
    for c in it: s.chars()
        invariant
            r@ == s@.take(it.index()),
            it.seq() == s@,
    {
        proof {
            assert(s@.take(it.index() + 1) =~= s@.take(it.index()).push(c));
        }
        r.push(c);
    }
    assert(s@.take(s@.len() as int) =~= s@);
    r
}

/// The text made of the characters `cs[from..to]`.
pub fn string_of(cs: &Vec<char>, from: usize, to: usize) -> (r: String)
    requires
        from <= to <= cs@.len(),
    ensures
        r@ == cs@.subrange(from as int, to as int),
{
    let mut r = String::new();
    let mut i: usize = from;
    assert(cs@.subrange(from as int, from as int) =~= Seq::empty());
    while i < to
        invariant
            from <= i <= to <= cs@.len(),
            r@ == cs@.subrange(from as int, i as int),
        decreases to - i,
    {
        r.push(cs[i]);
        i = i + 1;
        assert(cs@.subrange(from as int, i as int) =~= cs@.subrange(from as int, i - 1).push(
            cs@[i - 1],
        ));
    }
    r
}

// ---------------------------------------------------------------------------
// Numbers in decimal
// ---------------------------------------------------------------------------

/// The decimal digit `d`.
pub open spec fn digit(d: nat) -> char {
    (0x30 + d) as u8 as char
}

/// A natural number in decimal.
pub open spec fn dec_nat(n: nat) -> Seq<char>
    decreases n,
{
    if n < 10 {
        seq![digit(n)]
    } else {
        dec_nat(n / 10).push(digit(n % 10))
    }
}

/// An integer in decimal.
pub open spec fn dec(n: int) -> Seq<char> {
    if n < 0 {
        seq!['-'] + dec_nat((-n) as nat)
    } else {
        dec_nat(n as nat)
    }
}

fn push_digits(out: &mut String, n: u128)
    ensures
        final(out)@ == old(out)@ + dec_nat(n as nat),
    decreases n,
{
    let ghost start = out@;
    if n >= 10 {
        push_digits(out, n / 10);
    }
    out.push((0x30 + (n % 10) as u8) as char);
    proof {
        if n >= 10 {
            assert(out@ =~= start + dec_nat((n / 10) as nat).push(digit((n % 10) as nat)));
        } else {
            assert(out@ =~= start + seq![digit(n as nat)]);
        }
    }
}

/// Appends `n` in decimal.
pub fn push_u128(out: &mut String, n: u128)
    ensures
        final(out)@ == old(out)@ + dec(n as int),
{
    push_digits(out, n);
}

/// Appends `n` in decimal.
pub fn push_usize(out: &mut String, n: usize)
    ensures
        final(out)@ == old(out)@ + dec(n as int),
{
    push_digits(out, n as u128);
}

/// Appends `n` in decimal.
pub fn push_i64(out: &mut String, n: i64)
    ensures
        final(out)@ == old(out)@ + dec(n as int),
{
    if n < 0 {
        let ghost start = out@;
        out.push('-');
        let magnitude: u64 = (-(n + 1)) as u64 + 1;
        push_digits(out, magnitude as u128);
        assert(out@ =~= start + (seq!['-'] + dec_nat((-n) as nat)));
    } else {
        push_digits(out, n as u128);
    }
}

// ---------------------------------------------------------------------------
// The order of texts
// ---------------------------------------------------------------------------

/// The lexicographic order by code points, which is also the order of the UTF-8
/// encodings.
pub open spec fn lex_lt(a: Seq<char>, b: Seq<char>) -> bool
    decreases a.len(),
{
    if b.len() == 0 {
        false
    } else if a.len() == 0 {
        true
    } else if a[0] == b[0] {
        lex_lt(a.drop_first(), b.drop_first())
    } else {
        a[0] < b[0]
    }
}

/// The order is irreflexive and asymmetric.
pub proof fn lemma_lex_asym(a: Seq<char>, b: Seq<char>)
    ensures
        lex_lt(a, b) ==> !lex_lt(b, a) && a != b,
    decreases a.len(),
{
    if a.len() > 0 && b.len() > 0 && a[0] == b[0] {
        lemma_lex_asym(a.drop_first(), b.drop_first());
    }
}

/// The order is transitive.
pub proof fn lemma_lex_trans(a: Seq<char>, b: Seq<char>, c: Seq<char>)
    requires
        lex_lt(a, b),
        lex_lt(b, c),
    ensures
        lex_lt(a, c),
    decreases a.len(),
{
    if a.len() > 0 && a[0] == b[0] && b[0] == c[0] {
        lemma_lex_trans(a.drop_first(), b.drop_first(), c.drop_first());
    }
}

/// The order is total.
pub proof fn lemma_lex_total(a: Seq<char>, b: Seq<char>)
    ensures
        a == b || lex_lt(a, b) || lex_lt(b, a),
    decreases a.len(),
{
    if a.len() > 0 && b.len() > 0 && a[0] == b[0] {
        lemma_lex_total(a.drop_first(), b.drop_first());
        if a.drop_first() == b.drop_first() {
            assert(a =~= seq![a[0]] + a.drop_first());
            assert(b =~= seq![b[0]] + b.drop_first());
        }
    } else if a.len() == 0 && b.len() == 0 {
        assert(a =~= b);
    }
}

/// Whether `a` comes before `b`.
pub fn str_lt(a: &str, b: &str) -> (r: bool)
    ensures
        r == lex_lt(a@, b@),
{
    let x: Vec<char> = chars_of(a);
    let y: Vec<char> = chars_of(b);
    let mut i: usize = 0;
    assert(a@.skip(0) =~= a@);
    assert(b@.skip(0) =~= b@);
    while i < x.len() && i < y.len()
        invariant
            x@ == a@,
            y@ == b@,
            i <= x@.len(),
            i <= y@.len(),
            lex_lt(a@, b@) == lex_lt(a@.skip(i as int), b@.skip(i as int)),
        decreases x@.len() - i,
    {
        if x[i] != y[i] {
            return x[i] < y[i];
        }
        proof {
            assert(a@.skip(i as int).drop_first() =~= a@.skip(i + 1));
            assert(b@.skip(i as int).drop_first() =~= b@.skip(i + 1));
        }
        i = i + 1;
    }
    i < y.len()
}

// ---------------------------------------------------------------------------
// Sequences of texts
// ---------------------------------------------------------------------------

/// The contents of a sequence of strings.
pub open spec fn views(v: Seq<String>) -> Seq<Seq<char>> {
    v.map_values(|s: String| s@)
}

/// The first `n` texts, with `sep` between them.
pub open spec fn join_upto(v: Seq<Seq<char>>, sep: Seq<char>, n: nat) -> Seq<char>
    decreases n,
{
    if n == 0 {
        Seq::empty()
    } else if n == 1 {
        v[0]
    } else {
        join_upto(v, sep, (n - 1) as nat) + sep + v[n - 1]
    }
}

/// All texts of `v`, with `sep` between them.
pub open spec fn join(v: Seq<Seq<char>>, sep: Seq<char>) -> Seq<char> {
    join_upto(v, sep, v.len())
}

/// All texts of `v`, with `sep` between them.
pub fn join_strings(v: &Vec<String>, sep: &str) -> (r: String)
    ensures
        r@ == join(views(v@), sep@),
{
    let mut r = String::new();
    let mut i: usize = 0;
    while i < v.len()
        invariant
            i <= v@.len(),
            r@ == join_upto(views(v@), sep@, i as nat),
        decreases v@.len() - i,
    {
        if i > 0 {
            r.append(sep);
        }
        let ghost before = r@;
        r.append(v[i].as_str());
        i = i + 1;
        assert(i == 1 ==> r@ =~= v@[0]@);
    }
    r
}

// ---------------------------------------------------------------------------
// Templates
// ---------------------------------------------------------------------------

/// The template `t` from its character `i` on, with each `{}` replaced by the
/// next of `args`, starting with `args[k]`. A `{}` beyond the last argument is
/// replaced by nothing.
pub open spec fn fmt_at(t: Seq<char>, i: nat, args: Seq<Seq<char>>, k: nat) -> Seq<char>
    decreases t.len() - i,
{
    if i >= t.len() {
        Seq::empty()
    } else if i + 1 < t.len() && t[i as int] == '{' && t[(i + 1) as int] == '}' {
        let arg = if k < args.len() {
            args[k as int]
        } else {
            Seq::empty()
        };
        arg + fmt_at(t, i + 2, args, k + 1)
    } else {
        seq![t[i as int]] + fmt_at(t, i + 1, args, k)
    }
}

/// The template `t` with each `{}` replaced by the next of `args`.
#[verifier::opaque]
pub open spec fn fmt(t: Seq<char>, args: Seq<Seq<char>>) -> Seq<char> {
    fmt_at(t, 0, args, 0)
}

/// The contents of a sequence of borrowed strings.
pub open spec fn str_views(v: Seq<&str>) -> Seq<Seq<char>> {
    v.map_values(|s: &str| s@)
}

/// Appends the template `t`, filled with `args`.
pub fn put(out: &mut String, t: &str, args: &Vec<&str>)
    ensures
        final(out)@ == old(out)@ + fmt(t@, str_views(args@)),
{
    let cs: Vec<char> = chars_of(t);
    let ghost views = str_views(args@);
    let ghost start = out@;
    let mut i: usize = 0;
    let mut k: usize = 0;
    while i < cs.len()
        invariant
            i <= cs@.len(),
            k <= i,
            cs@ == t@,
            views == str_views(args@),
            out@ + fmt_at(t@, i as nat, views, k as nat) == start + fmt_at(t@, 0, views, 0),
        decreases cs@.len() - i,
    {
        let ghost before = out@;
        if i + 1 < cs.len() && cs[i] == '{' && cs[i + 1] == '}' {
            if k < args.len() {
                out.append(args[k]);
                assert(args@[k as int]@ == views[k as int]);
            }
            proof {
                let arg = if k < views.len() {
                    views[k as int]
                } else {
                    Seq::empty()
                };
                let rest = fmt_at(t@, (i + 2) as nat, views, (k + 1) as nat);
                assert(out@ =~= before + arg);
                assert(before + (arg + rest) =~= (before + arg) + rest);
            }
            i = i + 2;
            k = k + 1;
        } else {
            out.push(cs[i]);
            proof {
                let c = seq![t@[i as int]];
                let rest = fmt_at(t@, (i + 1) as nat, views, k as nat);
                assert(out@ =~= before + c);
                assert(before + (c + rest) =~= (before + c) + rest);
            }
            i = i + 1;
        }
    }
    proof {
        assert(fmt_at(t@, i as nat, views, k as nat) =~= Seq::empty());
        assert(out@ + Seq::<char>::empty() =~= out@);
        reveal(fmt);
    }
}

/// Appends the template `t`, filled with one argument.
pub fn put1(out: &mut String, t: &str, a: &str)
    ensures
        final(out)@ == old(out)@ + fmt(t@, seq![a@]),
{
    let args: Vec<&str> = vec![a];
    assert(str_views(args@) =~= seq![a@]);
    put(out, t, &args);
}

/// Appends the template `t`, filled with 2 arguments.
pub fn put2(out: &mut String, t: &str, a: &str, b: &str)
    ensures
        final(out)@ == old(out)@ + fmt(t@, seq![a@, b@]),
{
    let args: Vec<&str> = vec![a, b];
    assert(str_views(args@) =~= seq![a@, b@]);
    put(out, t, &args);
}

/// Appends the template `t`, filled with 3 arguments.
pub fn put3(out: &mut String, t: &str, a: &str, b: &str, c: &str)
    ensures
        final(out)@ == old(out)@ + fmt(t@, seq![a@, b@, c@]),
{
    let args: Vec<&str> = vec![a, b, c];
    assert(str_views(args@) =~= seq![a@, b@, c@]);
    put(out, t, &args);
}

/// Appends the template `t`, filled with 4 arguments.
pub fn put4(out: &mut String, t: &str, a: &str, b: &str, c: &str, d: &str)
    ensures
        final(out)@ == old(out)@ + fmt(t@, seq![a@, b@, c@, d@]),
{
    let args: Vec<&str> = vec![a, b, c, d];
    assert(str_views(args@) =~= seq![a@, b@, c@, d@]);
    put(out, t, &args);
}

/// Appends the template `t`, filled with 5 arguments.
pub fn put5(out: &mut String, t: &str, a: &str, b: &str, c: &str, d: &str, e: &str)
    ensures
        final(out)@ == old(out)@ + fmt(t@, seq![a@, b@, c@, d@, e@]),
{
    let args: Vec<&str> = vec![a, b, c, d, e];
    assert(str_views(args@) =~= seq![a@, b@, c@, d@, e@]);
    put(out, t, &args);
}

/// Appends the template `t`, filled with 6 arguments.
pub fn put6(out: &mut String, t: &str, a: &str, b: &str, c: &str, d: &str, e: &str, f: &str)
    ensures
        final(out)@ == old(out)@ + fmt(t@, seq![a@, b@, c@, d@, e@, f@]),
{
    let args: Vec<&str> = vec![a, b, c, d, e, f];
    assert(str_views(args@) =~= seq![a@, b@, c@, d@, e@, f@]);
    put(out, t, &args);
}

/// Appends the template `t`, filled with 7 arguments.
pub fn put7(out: &mut String, t: &str, a: &str, b: &str, c: &str, d: &str, e: &str, f: &str, g: &str)
    ensures
        final(out)@ == old(out)@ + fmt(t@, seq![a@, b@, c@, d@, e@, f@, g@]),
{
    let args: Vec<&str> = vec![a, b, c, d, e, f, g];
    assert(str_views(args@) =~= seq![a@, b@, c@, d@, e@, f@, g@]);
    put(out, t, &args);
}

/// The template `t`, filled with one argument.
pub fn fill1(t: &str, a: &str) -> (r: String)
    ensures
        r@ == fmt(t@, seq![a@]),
{
    let mut r = String::new();
    put1(&mut r, t, a);
    assert(Seq::<char>::empty() + fmt(t@, seq![a@]) =~= r@);
    r
}

/// The template `t`, filled with 2 arguments.
pub fn fill2(t: &str, a: &str, b: &str) -> (r: String)
    ensures
        r@ == fmt(t@, seq![a@, b@]),
{
    let mut r = String::new();
    put2(&mut r, t, a, b);
    assert(Seq::<char>::empty() + fmt(t@, seq![a@, b@]) =~= r@);
    r
}

/// The template `t`, filled with 3 arguments.
pub fn fill3(t: &str, a: &str, b: &str, c: &str) -> (r: String)
    ensures
        r@ == fmt(t@, seq![a@, b@, c@]),
{
    let mut r = String::new();
    put3(&mut r, t, a, b, c);
    assert(Seq::<char>::empty() + fmt(t@, seq![a@, b@, c@]) =~= r@);
    r
}

/// The template `t`, filled with 4 arguments.
pub fn fill4(t: &str, a: &str, b: &str, c: &str, d: &str) -> (r: String)
    ensures
        r@ == fmt(t@, seq![a@, b@, c@, d@]),
{
    let mut r = String::new();
    put4(&mut r, t, a, b, c, d);
    assert(Seq::<char>::empty() + fmt(t@, seq![a@, b@, c@, d@]) =~= r@);
    r
}

/// The template `t`, filled with 5 arguments.
pub fn fill5(t: &str, a: &str, b: &str, c: &str, d: &str, e: &str) -> (r: String)
    ensures
        r@ == fmt(t@, seq![a@, b@, c@, d@, e@]),
{
    let mut r = String::new();
    put5(&mut r, t, a, b, c, d, e);
    assert(Seq::<char>::empty() + fmt(t@, seq![a@, b@, c@, d@, e@]) =~= r@);
    r
}

/// `n` in decimal.
pub fn usize_text(n: usize) -> (r: String)
    ensures
        r@ == dec(n as int),
{
    let mut r = String::new();
    push_usize(&mut r, n);
    assert(r@ =~= dec(n as int));
    r
}

/// `n` in decimal.
pub fn u128_text(n: u128) -> (r: String)
    ensures
        r@ == dec(n as int),
{
    let mut r = String::new();
    push_u128(&mut r, n);
    assert(r@ =~= dec(n as int));
    r
}

/// `n` in decimal.
pub fn i64_text(n: i64) -> (r: String)
    ensures
        r@ == dec(n as int),
{
    let mut r = String::new();
    push_i64(&mut r, n);
    assert(r@ =~= dec(n as int));
    r
}

// ---------------------------------------------------------------------------
// Positions
// ---------------------------------------------------------------------------

/// The last position of `c` in `s`, or -1.
pub open spec fn last_index(s: Seq<char>, c: char) -> int
    decreases s.len(),
{
    if s.len() == 0 {
        -1
    } else if s.last() == c {
        s.len() - 1
    } else {
        last_index(s.drop_last(), c)
    }
}

/// The last position of `c`, if there is one.
pub fn rfind_char(s: &Vec<char>, c: char) -> (r: Option<usize>)
    ensures
        match r {
            Some(i) => i == last_index(s@, c) && i < s@.len(),
            None => last_index(s@, c) == -1,
        },
{
    let mut i: usize = s.len();
    assert(s@.take(i as int) =~= s@);
    while i > 0
        invariant
            i <= s@.len(),
            last_index(s@, c) == last_index(s@.take(i as int), c),
        decreases i,
    {
        assert(s@.take(i as int).drop_last() =~= s@.take(i - 1));
        i = i - 1;
        if s[i] == c {
            return Some(i);
        }
    }
    None
}

/// The first position of `c` in `s`, or the length of `s`.
pub open spec fn first_index(s: Seq<char>, c: char) -> int
    decreases s.len(),
{
    if s.len() == 0 || s[0] == c {
        0
    } else {
        1 + first_index(s.drop_first(), c)
    }
}

/// The first position of `c` at or after `from`, or the length of `s`.
pub fn find_char(s: &Vec<char>, from: usize, c: char) -> (r: usize)
    requires
        from <= s@.len(),
    ensures
        r == from + first_index(s@.skip(from as int), c),
        from <= r <= s@.len(),
{
    let mut i: usize = from;
    while i < s.len()
        invariant
            from <= i <= s@.len(),
            from + first_index(s@.skip(from as int), c) == i + first_index(s@.skip(i as int), c),
        decreases s@.len() - i,
    {
        if s[i] == c {
            return i;
        }
        assert(s@.skip(i as int).drop_first() =~= s@.skip(i + 1));
        i = i + 1;
    }
    i
}

// ---------------------------------------------------------------------------
// Searching
// ---------------------------------------------------------------------------

/// Whether `t` stands in `s` at position `i`.
pub open spec fn occurs_at(s: Seq<char>, t: Seq<char>, i: int) -> bool {
    0 <= i && i + t.len() <= s.len() && s.subrange(i, i + t.len()) == t
}

/// Whether `t` stands anywhere in `s`.
pub open spec fn occurs(s: Seq<char>, t: Seq<char>) -> bool {
    exists|i: int| #[trigger] occurs_at(s, t, i)
}

/// Whether `s` starts with `t`.
pub open spec fn begins(s: Seq<char>, t: Seq<char>) -> bool {
    occurs_at(s, t, 0)
}

/// Whether `t` stands in `s` at position `i`.
pub fn matches_at(s: &Vec<char>, t: &Vec<char>, i: usize) -> (r: bool)
    requires
        i <= s@.len(),
    ensures
        r == occurs_at(s@, t@, i as int),
{
    if s.len() - i < t.len() {
        return false;
    }
    let n: usize = s.len();
    let mut k: usize = 0;
    while k < t.len()
        invariant
            k <= t@.len(),
            n == s@.len(),
            i + t@.len() <= n,
            forall|j: int| 0 <= j < k ==> s@[i + j] == t@[j],
        decreases t@.len() - k,
    {
        if s[i + k] != t[k] {
            proof {
                let sub = s@.subrange(i as int, i + t@.len());
                assert(sub[k as int] == s@[i + k]);
            }
            return false;
        }
        k = k + 1;
    }
    assert(s@.subrange(i as int, i + t@.len()) =~= t@);
    true
}

/// The first position from `from` on at which `t` stands in `s`.
pub fn find_from(s: &Vec<char>, t: &Vec<char>, from: usize) -> (r: Option<usize>)
    requires
        from <= s@.len(),
    ensures
        match r {
            Some(i) => from <= i && occurs_at(s@, t@, i as int) && forall|j: int|
                from <= j < i ==> !#[trigger] occurs_at(s@, t@, j),
            None => forall|j: int| from <= j ==> !#[trigger] occurs_at(s@, t@, j),
        },
{
    let mut i: usize = from;
    loop
        invariant
            from <= i <= s@.len(),
            forall|j: int| from <= j < i ==> !#[trigger] occurs_at(s@, t@, j),
        decreases s@.len() - i,
    {
        if matches_at(s, t, i) {
            return Some(i);
        }
        if i == s.len() {
            return None;
        }
        i = i + 1;
    }
}

/// Whether `t` stands anywhere in `s`.
pub fn contains_text(s: &str, t: &str) -> (r: bool)
    ensures
        r == occurs(s@, t@),
{
    let x: Vec<char> = chars_of(s);
    let y: Vec<char> = chars_of(t);
    match find_from(&x, &y, 0) {
        Some(_) => true,
        None => {
            assert forall|i: int| !#[trigger] occurs_at(s@, t@, i) by {
                if i < 0 {
                }
            }
            false
        },
    }
}

/// Whether `s` starts with `t`.
pub fn starts_with(s: &str, t: &str) -> (r: bool)
    ensures
        r == begins(s@, t@),
{
    let x: Vec<char> = chars_of(s);
    let y: Vec<char> = chars_of(t);
    matches_at(&x, &y, 0)
}

/// Whether `c` is in `s`.
pub fn contains_char(s: &str, c: char) -> (r: bool)
    ensures
        r == s@.contains(c),
{
    let x: Vec<char> = chars_of(s);
    let mut i: usize = 0;
    while i < x.len()
        invariant
            i <= x@.len(),
            x@ == s@,
            forall|j: int| 0 <= j < i ==> s@[j] != c,
        decreases x@.len() - i,
    {
        if x[i] == c {
            assert(s@[i as int] == c);
            return true;
        }
        i = i + 1;
    }
    false
}

} // verus!
