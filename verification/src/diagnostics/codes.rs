//! The code table: by which words a message is told, and which code it then has.

use vstd::prelude::*;
use vstd::string::*;

use crate::diagnostics::{classified, io_message, trait_message};
use crate::text::{begins, occurs, occurs_at};

verus! {

/// What tells a message: words that stand in it, two such, or words that it starts
/// with.
pub enum Cue {
    Holds(Seq<char>),
    Both(Seq<char>, Seq<char>),
    Starts(Seq<char>),
}

/// Whether the words stand somewhere in a message.
pub open spec fn holds(m: Seq<char>, words: Seq<char>) -> bool {
    exists|a: Seq<char>, b: Seq<char>| m == #[trigger] (a + words + b)
}

/// Whether a message starts with the words.
pub open spec fn starts(m: Seq<char>, words: Seq<char>) -> bool {
    exists|b: Seq<char>| m == #[trigger] (words + b)
}

/// Whether a message shows a cue.
pub open spec fn shows(m: Seq<char>, cue: Cue) -> bool {
    match cue {
        Cue::Holds(w) => holds(m, w),
        Cue::Both(v, w) => holds(m, v) && holds(m, w),
        Cue::Starts(w) => starts(m, w),
    }
}

/// Whether a message shows one of the cues.
pub open spec fn shows_any(m: Seq<char>, cues: Seq<Cue>) -> bool {
    exists|i: int| 0 <= i < cues.len() && shows(m, #[trigger] cues[i])
}

/// The messages of a file that cannot be read.
pub open spec fn io_cues() -> Seq<Cue> {
    seq![Cue::Starts("cannot read "@)]
}

/// The messages of the trait checker, in whatever phase it runs.
pub open spec fn trait_cues() -> Seq<Cue> {
    seq![
        Cue::Holds("the interface declares"@),
        Cue::Holds("impl `"@),
        Cue::Holds("duplicate interface `"@),
        Cue::Both("interface `"@, " method `"@),
        Cue::Holds("requires its type parameter"@),
        Cue::Holds("is not bounded by"@),
        Cue::Holds("trait method"@),
        Cue::Holds("trait bound"@),
    ]
}

/// The rows of the type phase: a code and its cues, the first row that applies
/// counts.
pub open spec fn type_rows() -> Seq<(Seq<char>, Seq<Cue>)> {
    seq![
        (
            "E0210"@,
            seq![
                Cue::Holds("is declared `pure` but performs IO"@),
                Cue::Starts("cannot prove `"@),
            ],
        ),
        ("E0203"@, seq![Cue::Holds("non-exhaustive match"@)]),
        (
            "E0200"@,
            seq![
                Cue::Holds("unbound variable"@),
                Cue::Holds("unknown function"@),
                Cue::Holds("unknown constructor"@),
                Cue::Holds("unknown record type"@),
            ],
        ),
        ("E0204"@, seq![Cue::Holds("unknown type"@), Cue::Holds("unknown type parameter"@)]),
        ("E0205"@, seq![Cue::Holds("is unused (cannot be inferred)"@)]),
        (
            "E0202"@,
            seq![
                Cue::Both("expects"@, "argument(s)"@),
                Cue::Both("expects"@, "field(s)"@),
                Cue::Both("takes"@, "parameter(s)"@),
                Cue::Holds("type argument(s)"@),
                Cue::Holds("element tuple pattern cannot match"@),
                Cue::Holds("missing field `"@),
                Cue::Holds("duplicate field `"@),
                Cue::Holds("has no field `"@),
            ],
        ),
        ("E0207"@, seq![Cue::Starts("duplicate "@), Cue::Holds("cannot redefine built-in"@)]),
    ]
}

/// The rows of the other phases: each has one code.
pub open spec fn phase_rows() -> Seq<(Seq<char>, Seq<char>)> {
    seq![
        ("lex"@, "E0001"@),
        ("parse"@, "E0100"@),
        ("shape"@, "E0300"@),
        ("purity"@, "E0210"@),
        ("exhaustiveness"@, "E0203"@),
        ("io"@, "E0002"@),
    ]
}

proof fn lemma_holds(m: Seq<char>, w: Seq<char>)
    ensures
        holds(m, w) <==> occurs(m, w),
{
    if holds(m, w) {
        let (a, b) = choose|a: Seq<char>, b: Seq<char>| m == #[trigger] (a + w + b);
        assert(m.subrange(a.len() as int, (a.len() + w.len()) as int) =~= w);
        assert(occurs_at(m, w, a.len() as int));
    }
    if occurs(m, w) {
        let i = choose|i: int| #[trigger] occurs_at(m, w, i);
        let a = m.take(i);
        let b = m.skip(i + w.len());
        assert forall|k: int| 0 <= k < m.len() implies m[k] == (a + w + b)[k] by {
            if i <= k < i + w.len() {
                assert(m.subrange(i, i + w.len())[k - i] == w[k - i]);
            }
        }
        assert(m =~= a + w + b);
    }
}

proof fn lemma_starts(m: Seq<char>, w: Seq<char>)
    ensures
        starts(m, w) <==> begins(m, w),
{
    if starts(m, w) {
        let b = choose|b: Seq<char>| m == #[trigger] (w + b);
        assert(m.subrange(0, w.len() as int) =~= w);
    }
    if begins(m, w) {
        let b = m.skip(w.len() as int);
        assert forall|k: int| 0 <= k < m.len() implies m[k] == (w + b)[k] by {
            if k < w.len() {
                assert(m.subrange(0, w.len() as int)[k] == w[k]);
            }
        }
        assert(m =~= w + b);
    }
}

proof fn lemma_cues()
    ensures
        forall|m: Seq<char>, w: Seq<char>| #[trigger] holds(m, w) <==> occurs(m, w),
        forall|m: Seq<char>, w: Seq<char>| #[trigger] starts(m, w) <==> begins(m, w),
{
    assert forall|m: Seq<char>, w: Seq<char>| #[trigger] holds(m, w) <==> occurs(m, w) by {
        lemma_holds(m, w);
    }
    assert forall|m: Seq<char>, w: Seq<char>| #[trigger] starts(m, w) <==> begins(m, w) by {
        lemma_starts(m, w);
    }
}

/// A message that starts as a failure to read a file is an input error, and one that
/// shows a cue of the trait checker a trait error, in every phase.
pub proof fn reading_and_traits_come_first(phase: Seq<char>, m: Seq<char>)
    ensures
        shows_any(m, io_cues()) ==> classified(phase, m) == ("io"@, "E0002"@),
        !shows_any(m, io_cues()) && shows_any(m, trait_cues()) ==> classified(phase, m) == (
            "type"@,
            "E0206"@,
        ),
{
    lemma_io(m);
    lemma_trait(m);
}

proof fn lemma_io(m: Seq<char>)
    ensures
        shows_any(m, io_cues()) <==> io_message(m),
{
    lemma_cues();
    assert(shows(m, io_cues()[0]) <==> io_message(m));
}

proof fn lemma_trait(m: Seq<char>)
    ensures
        shows_any(m, trait_cues()) <==> trait_message(m),
{
    lemma_cues();
    let c = trait_cues();
    assert(shows(m, c[0]) <==> occurs(m, "the interface declares"@));
    assert(shows(m, c[1]) <==> occurs(m, "impl `"@));
    assert(shows(m, c[2]) <==> occurs(m, "duplicate interface `"@));
    assert(shows(m, c[3]) <==> occurs(m, "interface `"@) && occurs(m, " method `"@));
    assert(shows(m, c[4]) <==> occurs(m, "requires its type parameter"@));
    assert(shows(m, c[5]) <==> occurs(m, "is not bounded by"@));
    assert(shows(m, c[6]) <==> occurs(m, "trait method"@));
    assert(shows(m, c[7]) <==> occurs(m, "trait bound"@));
}

/// A message of the type phase has the code of the first row of the table that it
/// shows a cue of, and is a type mismatch only if it shows none. File failures and
/// trait messages, which come first, are left out.
pub proof fn first_row_decides(m: Seq<char>, k: int)
    requires
        !shows_any(m, io_cues()),
        !shows_any(m, trait_cues()),
        0 <= k <= type_rows().len(),
        forall|j: int| 0 <= j < k ==> !shows_any(m, (#[trigger] type_rows()[j]).1),
        k < type_rows().len() ==> shows_any(m, type_rows()[k].1),
    ensures
        classified("type"@, m) == (
            "type"@,
            if k < type_rows().len() {
                type_rows()[k].0
            } else {
                "E0201"@
            },
        ),
{
    lemma_io(m);
    lemma_trait(m);
    lemma_phase_names();
    lemma_rows(m);
}

proof fn lemma_phase_names()
    ensures
        "type"@ != "lex"@,
        "type"@ != "parse"@,
        "type"@ != "shape"@,
        "type"@ != "purity"@,
        "type"@ != "exhaustiveness"@,
        "type"@ != "io"@,
        "parse"@ != "lex"@,
        "shape"@ != "lex"@,
        "shape"@ != "parse"@,
        "purity"@ != "lex"@,
        "purity"@ != "parse"@,
        "purity"@ != "shape"@,
        "exhaustiveness"@ != "lex"@,
        "exhaustiveness"@ != "parse"@,
        "exhaustiveness"@ != "shape"@,
        "exhaustiveness"@ != "purity"@,
        "io"@ != "lex"@,
        "io"@ != "parse"@,
        "io"@ != "shape"@,
        "io"@ != "purity"@,
        "io"@ != "exhaustiveness"@,
{
    reveal_strlit("lex");
    reveal_strlit("parse");
    reveal_strlit("type");
    reveal_strlit("shape");
    reveal_strlit("purity");
    reveal_strlit("exhaustiveness");
    reveal_strlit("io");
    assert("type"@[0] == 't' && "lex"@[0] == 'l' && "parse"@[0] == 'p' && "parse"@[1] == 'a');
    assert("shape"@[0] == 's' && "purity"@[1] == 'u' && "exhaustiveness"@[0] == 'e' && "io"@[0]
        == 'i');
}

proof fn lemma_rows(m: Seq<char>)
    ensures
        shows_any(m, type_rows()[0].1) <==> occurs(m, "is declared `pure` but performs IO"@)
            || begins(m, "cannot prove `"@),
        shows_any(m, type_rows()[1].1) <==> occurs(m, "non-exhaustive match"@),
        shows_any(m, type_rows()[2].1) <==> occurs(m, "unbound variable"@) || occurs(
            m,
            "unknown function"@,
        ) || occurs(m, "unknown constructor"@) || occurs(m, "unknown record type"@),
        shows_any(m, type_rows()[3].1) <==> occurs(m, "unknown type"@) || occurs(
            m,
            "unknown type parameter"@,
        ),
        shows_any(m, type_rows()[4].1) <==> occurs(m, "is unused (cannot be inferred)"@),
        shows_any(m, type_rows()[5].1) <==> (occurs(m, "expects"@) && (occurs(m, "argument(s)"@)
            || occurs(m, "field(s)"@))) || (occurs(m, "takes"@) && occurs(m, "parameter(s)"@))
            || occurs(m, "type argument(s)"@) || occurs(m, "element tuple pattern cannot match"@)
            || occurs(m, "missing field `"@) || occurs(m, "duplicate field `"@) || occurs(
            m,
            "has no field `"@,
        ),
        shows_any(m, type_rows()[6].1) <==> begins(m, "duplicate "@) || occurs(
            m,
            "cannot redefine built-in"@,
        ),
{
    lemma_cues();
    let r = type_rows();
    assert(shows(m, r[0].1[0]) <==> occurs(m, "is declared `pure` but performs IO"@));
    assert(shows(m, r[0].1[1]) <==> begins(m, "cannot prove `"@));
    assert(shows(m, r[1].1[0]) <==> occurs(m, "non-exhaustive match"@));
    assert(shows(m, r[2].1[0]) <==> occurs(m, "unbound variable"@));
    assert(shows(m, r[2].1[1]) <==> occurs(m, "unknown function"@));
    assert(shows(m, r[2].1[2]) <==> occurs(m, "unknown constructor"@));
    assert(shows(m, r[2].1[3]) <==> occurs(m, "unknown record type"@));
    assert(shows(m, r[3].1[0]) <==> occurs(m, "unknown type"@));
    assert(shows(m, r[3].1[1]) <==> occurs(m, "unknown type parameter"@));
    assert(shows(m, r[4].1[0]) <==> occurs(m, "is unused (cannot be inferred)"@));
    assert(shows(m, r[5].1[0]) <==> occurs(m, "expects"@) && occurs(m, "argument(s)"@));
    assert(shows(m, r[5].1[1]) <==> occurs(m, "expects"@) && occurs(m, "field(s)"@));
    assert(shows(m, r[5].1[2]) <==> occurs(m, "takes"@) && occurs(m, "parameter(s)"@));
    assert(shows(m, r[5].1[3]) <==> occurs(m, "type argument(s)"@));
    assert(shows(m, r[5].1[4]) <==> occurs(m, "element tuple pattern cannot match"@));
    assert(shows(m, r[5].1[5]) <==> occurs(m, "missing field `"@));
    assert(shows(m, r[5].1[6]) <==> occurs(m, "duplicate field `"@));
    assert(shows(m, r[5].1[7]) <==> occurs(m, "has no field `"@));
    assert(shows(m, r[6].1[0]) <==> begins(m, "duplicate "@));
    assert(shows(m, r[6].1[1]) <==> occurs(m, "cannot redefine built-in"@));
}

/// Outside the type phase a message has its phase's code, whatever it says; a phase
/// of no row is reported as the type phase with the code for internal errors. File
/// failures and trait messages are left out.
pub proof fn phase_decides(phase: Seq<char>, m: Seq<char>)
    requires
        !shows_any(m, io_cues()),
        !shows_any(m, trait_cues()),
    ensures
        forall|k: int|
            0 <= k < phase_rows().len() && (#[trigger] phase_rows()[k]).0 == phase ==> classified(
                phase,
                m,
            ) == phase_rows()[k],
        phase != "type"@ && (forall|k: int|
            0 <= k < phase_rows().len() ==> (#[trigger] phase_rows()[k]).0 != phase) ==> classified(
            phase,
            m,
        ) == ("type"@, "E0900"@),
{
    lemma_io(m);
    lemma_trait(m);
    lemma_phase_names();
    let r = phase_rows();
    assert(r[0].0 == "lex"@ && r[1].0 == "parse"@ && r[2].0 == "shape"@ && r[3].0 == "purity"@
        && r[4].0 == "exhaustiveness"@ && r[5].0 == "io"@);
}

} // verus!
