//! What a message names is recovered from it.

use vstd::prelude::*;
use vstd::string::*;

use crate::diagnostics::{
    backticked, digit_run, digits_value, embedded_function, embedded_line, first_occurrence,
    is_digit,
};
use crate::text::{begins, dec, dec_nat, digit, first_index, occurs, occurs_at};

verus! {

/// A name in backticks, and what follows it.
pub open spec fn quoted(name: Seq<char>, rest: Seq<char>) -> Seq<char> {
    seq!['`'] + (name + (seq!['`'] + rest))
}

proof fn lemma_first(name: Seq<char>, rest: Seq<char>)
    requires
        !name.contains('`'),
    ensures
        first_index(name + (seq!['`'] + rest), '`') == name.len(),
    decreases name.len(),
{
    let s = name + (seq!['`'] + rest);
    if name.len() == 0 {
        assert(s[0] == '`');
    } else {
        assert(s[0] == name[0]);
        assert(name.contains(name[0]));
        let tail = name.drop_first();
        assert(s.drop_first() =~= tail + (seq!['`'] + rest));
        assert forall|c: char| #[trigger] tail.contains(c) implies name.contains(c) by {
            let k = choose|k: int| 0 <= k < tail.len() && tail[k] == c;
            assert(name[k + 1] == c);
        }
        lemma_first(tail, rest);
    }
}

proof fn lemma_backticked(head: Seq<char>, name: Seq<char>, rest: Seq<char>)
    requires
        !name.contains('`'),
    ensures
        backticked(head + quoted(name, rest), head.len() as int) == Some(name),
{
    let m = head + quoted(name, rest);
    let i = head.len() as int;
    let after = name + (seq!['`'] + rest);
    assert(m[i] == '`');
    assert(m.skip(i + 1) =~= after);
    lemma_first(name, rest);
    assert(after.take(name.len() as int) =~= name);
}

proof fn lemma_begins(head: Seq<char>, rest: Seq<char>)
    ensures
        begins(head + rest, head),
{
    assert((head + rest).subrange(0, head.len() as int) =~= head);
}

proof fn lemma_begins_not(m: Seq<char>, t: Seq<char>)
    requires
        m.len() > 0,
        t.len() > 0,
        m[0] != t[0],
    ensures
        !begins(m, t),
{
    if begins(m, t) {
        assert(m.subrange(0, t.len() as int)[0] == m[0]);
    }
}

/// The function that a message names comes out of it: the name behind `cannot prove`,
/// behind `function`, or behind a type parameter and `of`. A message that starts
/// otherwise names none.
pub proof fn functions_are_recovered(
    name: Seq<char>,
    param: Seq<char>,
    rest: Seq<char>,
    m: Seq<char>,
)
    requires
        !name.contains('`'),
        !param.contains('`'),
        !param.contains(' '),
    ensures
        embedded_function("cannot prove "@ + quoted(name, rest)) == Some(name),
        embedded_function("function "@ + quoted(name, rest)) == Some(name),
        embedded_function("type parameter "@ + quoted(param, " of "@ + quoted(name, rest))) == Some(
            name,
        ),
        !begins(m, "cannot prove `"@) && !begins(m, "function `"@) && !begins(
            m,
            "type parameter `"@,
        ) ==> embedded_function(m) is None,
{
    reveal_strlit("cannot prove ");
    reveal_strlit("cannot prove `");
    reveal_strlit("function ");
    reveal_strlit("function `");
    reveal_strlit("type parameter ");
    reveal_strlit("type parameter `");
    let tick = seq!['`'];
    let after = name + (tick + rest);
    let a = "cannot prove "@ + quoted(name, rest);
    assert(a =~= "cannot prove `"@ + after);
    lemma_begins("cannot prove `"@, after);
    lemma_backticked("cannot prove "@, name, rest);
    let b = "function "@ + quoted(name, rest);
    assert(b =~= "function `"@ + after);
    lemma_begins("function `"@, after);
    lemma_backticked("function "@, name, rest);
    assert(b[0] == 'f');
    lemma_begins_not(b, "cannot prove `"@);
    lemma_begins_not(b, "type parameter `"@);
    let c = "type parameter "@ + quoted(param, " of "@ + quoted(name, rest));
    let more = param + (tick + (" of "@ + quoted(name, rest)));
    assert(c =~= "type parameter `"@ + more);
    lemma_begins("type parameter `"@, more);
    assert(c[0] == 't');
    lemma_begins_not(c, "cannot prove `"@);
    lemma_parameter(name, param, rest);
}

proof fn lemma_parameter(name: Seq<char>, param: Seq<char>, rest: Seq<char>)
    requires
        !name.contains('`'),
        !param.contains('`'),
        !param.contains(' '),
    ensures
        ({
            let c = "type parameter "@ + quoted(param, " of "@ + quoted(name, rest));
            &&& occurs(c, "` of `"@)
            &&& backticked(c, first_occurrence(c, "` of `"@) + "` of "@.len()) == Some(name)
        }),
{
    reveal_strlit("type parameter ");
    reveal_strlit("` of `");
    reveal_strlit("` of ");
    reveal_strlit(" of ");
    let c = "type parameter "@ + quoted(param, " of "@ + quoted(name, rest));
    let t = "` of `"@;
    let head = "type parameter "@ + (seq!['`'] + param);
    let at = head.len() as int;
    assert(head.len() == 16 + param.len());
    assert(c =~= head + (t + (name + (seq!['`'] + rest))));
    assert(c.subrange(at, at + 6) =~= t);
    assert(occurs_at(c, t, at));
    assert forall|j: int| 0 <= j < at implies !#[trigger] occurs_at(c, t, j) by {
        if occurs_at(c, t, j) {
            let s = c.subrange(j, j + 6);
            assert(s[0] == '`' && s[1] == ' ');
            assert(c[j] == '`' && c[j + 1] == ' ');
            if j < 15 {
                assert(c[j] == "type parameter "@[j]);
            } else if j > 15 {
                assert(c[j] == param[j - 16]);
                assert(param.contains(param[j - 16]));
            } else if param.len() > 0 {
                assert(c[16] == param[0]);
                assert(param.contains(param[0]));
            } else {
                assert(c[16] == '`');
            }
        }
    }
    let f = first_occurrence(c, t);
    if f < at {
        assert(!occurs_at(c, t, f));
    } else if at < f {
        assert(!occurs_at(c, t, at));
    }
    let whole = head + "` of "@;
    assert(c =~= whole + quoted(name, rest));
    lemma_backticked(whole, name, rest);
}

proof fn lemma_digits(n: nat)
    ensures
        dec_nat(n).len() > 0,
        digits_value(dec_nat(n)) == n,
        forall|i: int| 0 <= i < dec_nat(n).len() ==> is_digit(#[trigger] dec_nat(n)[i]),
    decreases n,
{
    let s = dec_nat(n);
    let d = (n % 10) as nat;
    assert(is_digit(digit(d)) && digit(d) as nat == 0x30 + d);
    if n < 10 {
        assert(s =~= seq![digit(n)]);
        assert(s.drop_last() =~= Seq::empty());
        assert(digits_value(s.drop_last()) == 0);
    } else {
        lemma_digits(n / 10);
        assert(s.drop_last() =~= dec_nat(n / 10));
        assert(s.last() == digit(d));
    }
}

proof fn lemma_run(s: Seq<char>, rest: Seq<char>)
    requires
        forall|i: int| 0 <= i < s.len() ==> is_digit(#[trigger] s[i]),
    ensures
        digit_run(s + (seq![':'] + rest)) == s.len(),
    decreases s.len(),
{
    let m = s + (seq![':'] + rest);
    if s.len() == 0 {
        assert(m[0] == ':');
    } else {
        assert(m[0] == s[0]);
        assert(m.drop_first() =~= s.drop_first() + (seq![':'] + rest));
        assert forall|i: int| 0 <= i < s.drop_first().len() implies is_digit(
            #[trigger] s.drop_first()[i],
        ) by {
            assert(is_digit(s[i + 1]));
        }
        lemma_run(s.drop_first(), rest);
    }
}

/// The line that a message starts with comes out of it, and a message that starts
/// otherwise has none.
pub proof fn lines_are_recovered(n: usize, rest: Seq<char>, m: Seq<char>)
    ensures
        embedded_line("line "@ + (dec(n as int) + (seq![':'] + rest))) == Some(n),
        !begins(m, "line "@) ==> embedded_line(m) is None,
        begins(m, "line "@) && m.len() > 5 && !is_digit(m[5]) ==> embedded_line(m) is None,
{
    reveal_strlit("line ");
    let d = dec(n as int);
    let tail = d + (seq![':'] + rest);
    let s = "line "@ + tail;
    lemma_begins("line "@, tail);
    lemma_digits(n as nat);
    lemma_run(d, rest);
    assert(s.skip(5) =~= tail);
    assert(tail.take(d.len() as int) =~= d);
    assert(tail[d.len() as int] == ':');
    if begins(m, "line "@) && m.len() > 5 && !is_digit(m[5]) {
        assert(m.skip(5)[0] == m[5]);
    }
}

} // verus!
