//! Extracting a program from a model's reply.

use vstd::prelude::*;
use vstd::string::*;

use crate::text::{
    chars_of, find_char, find_from, first_index, fmt, fmt_at, matches_at, occurs, occurs_at,
    string_of, views,
};

verus! {

// ---------------------------------------------------------------------------
// White space
// ---------------------------------------------------------------------------

/// Whether a character is white space in the sense of Unicode.
pub open spec fn is_white(c: char) -> bool {
    let n = c as u32;
    0x9 <= n <= 0xD || n == 0x20 || n == 0x85 || n == 0xA0 || n == 0x1680 || 0x2000 <= n <= 0x200A
        || n == 0x2028 || n == 0x2029 || n == 0x202F || n == 0x205F || n == 0x3000
}

/// Whether a character is white space in the sense of Unicode.
pub fn white(c: char) -> (r: bool)
    ensures
        r == is_white(c),
{
    let n: u32 = c as u32;
    (0x9 <= n && n <= 0xD) || n == 0x20 || n == 0x85 || n == 0xA0 || n == 0x1680 || (0x2000 <= n
        && n <= 0x200A) || n == 0x2028 || n == 0x2029 || n == 0x202F || n == 0x205F || n == 0x3000
}

/// A text without the white space at its start.
pub open spec fn trimmed_start(s: Seq<char>) -> Seq<char>
    decreases s.len(),
{
    if s.len() > 0 && is_white(s[0]) {
        trimmed_start(s.drop_first())
    } else {
        s
    }
}

/// A text without the white space at its end.
pub open spec fn trimmed_end(s: Seq<char>) -> Seq<char>
    decreases s.len(),
{
    if s.len() > 0 && is_white(s.last()) {
        trimmed_end(s.drop_last())
    } else {
        s
    }
}

/// A text without the white space around it.
pub open spec fn trimmed(s: Seq<char>) -> Seq<char> {
    trimmed_end(trimmed_start(s))
}

/// The characters from `from` up to `to`, without the white space around them.
fn trim_range(cs: &Vec<char>, from: usize, to: usize) -> (r: String)
    requires
        from <= to <= cs@.len(),
    ensures
        r@ == trimmed(cs@.subrange(from as int, to as int)),
{
    let ghost all = cs@.subrange(from as int, to as int);
    let mut i: usize = from;
    while i < to && white(cs[i])
        invariant
            from <= i <= to <= cs@.len(),
            trimmed_start(all) == trimmed_start(cs@.subrange(i as int, to as int)),
        decreases to - i,
    {
        assert(cs@.subrange(i as int, to as int).drop_first() =~= cs@.subrange(i + 1, to as int));
        i = i + 1;
    }
    let ghost rest = cs@.subrange(i as int, to as int);
    assert(trimmed_start(all) == rest);
    let mut j: usize = to;
    while j > i && white(cs[j - 1])
        invariant
            i <= j <= to <= cs@.len(),
            trimmed_end(rest) == trimmed_end(cs@.subrange(i as int, j as int)),
        decreases j,
    {
        assert(cs@.subrange(i as int, j as int).drop_last() =~= cs@.subrange(i as int, j - 1));
        j = j - 1;
    }
    string_of(cs, i, j)
}

/// A copy of a text without the white space around it.
pub fn trim(s: &str) -> (r: String)
    ensures
        r@ == trimmed(s@),
{
    let cs: Vec<char> = chars_of(s);
    assert(cs@.subrange(0, cs@.len() as int) =~= s@);
    trim_range(&cs, 0, cs.len())
}

// ---------------------------------------------------------------------------
// Fenced blocks
// ---------------------------------------------------------------------------

/// The first position from `from` on at which `t` stands in `s`.
pub open spec fn next_at(s: Seq<char>, t: Seq<char>, from: int) -> Option<int>
    decreases s.len() - from + 1,
{
    if from > s.len() {
        None
    } else if occurs_at(s, t, from) {
        Some(from)
    } else {
        next_at(s, t, from + 1)
    }
}

proof fn lemma_next_at(s: Seq<char>, t: Seq<char>, from: int)
    ensures
        match next_at(s, t, from) {
            Some(i) => from <= i && occurs_at(s, t, i) && forall|j: int|
                from <= j < i ==> !#[trigger] occurs_at(s, t, j),
            None => forall|j: int| from <= j ==> !#[trigger] occurs_at(s, t, j),
        },
    decreases s.len() - from + 1,
{
    if from <= s.len() && !occurs_at(s, t, from) {
        lemma_next_at(s, t, from + 1);
    }
}

/// The end of the line that holds a position: the next line feed, or the end.
pub open spec fn line_end(s: Seq<char>, from: int) -> int {
    from + first_index(s.skip(from), '\n')
}

/// The bodies of the fenced blocks from a position on. A block opens with three
/// backticks and the rest of their line, which may name a language, and runs to
/// the next three backticks, or to the end of the text.
pub open spec fn blocks_from(text: Seq<char>, from: int) -> Seq<Seq<char>>
    decreases text.len() - from via blocks_end
{
    match next_at(text, "```"@, from) {
        None => Seq::empty(),
        Some(open) => {
            let start = line_end(text, open + 3) + 1;
            if start > text.len() {
                Seq::empty()
            } else {
                match next_at(text, "```"@, start) {
                    Some(close) => seq![text.subrange(start, close)] + blocks_from(text, close + 3),
                    None => seq![text.skip(start)],
                }
            }
        },
    }
}

#[via_fn]
proof fn blocks_end(text: Seq<char>, from: int) {
    reveal_strlit("```");
    lemma_next_at(text, "```"@, from);
    if let Some(open) = next_at(text, "```"@, from) {
        lemma_first_index(text.skip(open + 3), '\n');
        lemma_next_at(text, "```"@, line_end(text, open + 3) + 1);
    }
}

proof fn lemma_first_index(s: Seq<char>, c: char)
    ensures
        0 <= first_index(s, c) <= s.len(),
    decreases s.len(),
{
    if s.len() > 0 && s[0] != c {
        lemma_first_index(s.drop_first(), c);
    }
}

/// Whether a line of the text defines `main`.
pub open spec fn has_main(s: Seq<char>) -> bool {
    exists|i: int, j: int| #[trigger] main_at(s, i, j)
}

/// Whether the line that starts at `i` defines `main` at `j`, after white space
/// alone.
pub open spec fn main_at(s: Seq<char>, i: int, j: int) -> bool {
    &&& 0 <= i <= j <= s.len()
    &&& i == 0 || s[i - 1] == '\n'
    &&& forall|k: int| i <= k < j ==> is_white(#[trigger] s[k]) && s[k] != '\n'
    &&& word_at(s, "fn main"@, j) || word_at(s, "pure fn main"@, j)
}

/// Whether a character may stand in an identifier.
pub open spec fn is_word(c: char) -> bool {
    '0' <= c <= '9' || 'A' <= c <= 'Z' || 'a' <= c <= 'z' || c == '_'
}

/// Whether `t` stands in `s` at `j`, and its last word ends there.
pub open spec fn word_at(s: Seq<char>, t: Seq<char>, j: int) -> bool {
    occurs_at(s, t, j) && (j + t.len() == s.len() || !is_word(s[j + t.len()]))
}

/// Among the first `n` blocks the last that defines `main`.
pub open spec fn last_main(bs: Seq<Seq<char>>, n: nat) -> Option<Seq<char>>
    decreases n,
{
    if n == 0 || n > bs.len() {
        None
    } else if has_main(bs[n - 1]) {
        Some(bs[n - 1])
    } else {
        last_main(bs, (n - 1) as nat)
    }
}

/// The program in a reply: the last fenced block that defines `main`, else the
/// last fenced block, else the whole reply, without the white space around it.
pub open spec fn extracted(reply: Seq<char>) -> Seq<char> {
    let bs = blocks_from(reply, 0);
    if bs.len() == 0 {
        trimmed(reply)
    } else {
        match last_main(bs, bs.len()) {
            Some(b) => trimmed(b),
            None => trimmed(bs.last()),
        }
    }
}

/// Whether `t` stands in `s` at `j`, and its last word ends there.
fn matches_word(s: &Vec<char>, t: &Vec<char>, j: usize) -> (r: bool)
    requires
        j <= s@.len(),
    ensures
        r == word_at(s@, t@, j as int),
{
    if !matches_at(s, t, j) {
        return false;
    }
    let end: usize = s.len() - (s.len() - j - t.len());
    if end == s.len() {
        return true;
    }
    let c: char = s[end];
    !(('0' <= c && c <= '9') || ('A' <= c && c <= 'Z') || ('a' <= c && c <= 'z') || c == '_')
}

/// Whether a line of the text defines `main`.
pub fn defines_main(s: &str) -> (r: bool)
    ensures
        r == has_main(s@),
{
    let cs: Vec<char> = chars_of(s);
    let plain: Vec<char> = chars_of("fn main");
    let pure: Vec<char> = chars_of("pure fn main");
    proof {
        reveal_strlit("fn main");
        reveal_strlit("pure fn main");
    }
    let mut i: usize = 0;
    let mut j: usize = 0;
    // `i` is the start of a line, and `i..j` is white space in that line.
    loop
        invariant
            cs@ == s@,
            plain@ == "fn main"@,
            pure@ == "pure fn main"@,
            "fn main"@[0] == 'f',
            "fn main"@.len() == 7,
            "pure fn main"@.len() == 12,
            "pure fn main"@[0] == 'p',
            0 <= i <= j <= s@.len(),
            i == 0 || s@[i - 1] == '\n',
            forall|k: int| i <= k < j ==> is_white(#[trigger] s@[k]) && s@[k] != '\n',
            forall|a: int, b: int| #[trigger]
                main_at(s@, a, b) ==> a >= i && (a == i ==> b >= j),
        decreases s@.len() - j,
    {
        if matches_word(&cs, &plain, j) || matches_word(&cs, &pure, j) {
            assert(main_at(s@, i as int, j as int));
            return true;
        }
        if j == cs.len() {
            proof {
                assert forall|a: int, b: int| !#[trigger] main_at(s@, a, b) by {
                    if main_at(s@, a, b) {
                        if a > i {
                            assert(s@[a - 1] == '\n');
                            assert(i <= a - 1 < j);
                        }
                    }
                }
            }
            return false;
        }
        let c: char = cs[j];
        if c != '\n' && white(c) {
            proof {
                assert forall|a: int, b: int| #[trigger] main_at(s@, a, b) implies a >= i && (a == i
                    ==> b >= j + 1) by {
                    if a == i && b == j {
                        assert(false);
                    }
                }
            }
            j = j + 1;
        } else {
            let e: usize = find_char(&cs, j, '\n');
            proof {
                lemma_no_newline(s@, j as int, e as int);
                // The line holds something else at `j`, so `main` is not defined in it.
                assert forall|a: int, b: int| #[trigger] main_at(s@, a, b) implies a > e by {
                    if a == i {
                        if b > j {
                            assert(is_white(s@[j as int]) && s@[j as int] != '\n');
                        }
                    } else if a <= e {
                        assert(s@[a - 1] == '\n');
                        if a - 1 < j {
                            assert(i <= a - 1);
                        } else {
                            assert(s@[a - 1] != '\n');
                        }
                    }
                }
            }
            if e == cs.len() {
                assert forall|a: int, b: int| !#[trigger] main_at(s@, a, b) by {}
                return false;
            }
            i = e + 1;
            j = e + 1;
        }
    }
}

/// No line feed stands before the first one.
proof fn lemma_no_newline(s: Seq<char>, from: int, e: int)
    requires
        0 <= from <= s.len(),
        e == from + first_index(s.skip(from), '\n'),
    ensures
        from <= e <= s.len(),
        forall|k: int| from <= k < e ==> s[k] != '\n',
        e < s.len() ==> s[e] == '\n',
    decreases s.len() - from,
{
    let t = s.skip(from);
    if t.len() > 0 {
        assert(t[0] == s[from]);
        if t[0] != '\n' {
            assert(t.drop_first() =~= s.skip(from + 1));
            lemma_no_newline(s, from + 1, e);
        }
    }
}

/// Collect the bodies of all fenced code blocks in `text`. A language tag on the
/// opening fence is dropped, and an unterminated last fence runs to the end.
pub fn fenced_blocks(text: &str) -> (r: Vec<String>)
    ensures
        views(r@) == blocks_from(text@, 0),
{
    let cs: Vec<char> = chars_of(text);
    let fence: Vec<char> = chars_of("```");
    proof {
        reveal_strlit("```");
    }
    let n: usize = cs.len();
    let mut blocks: Vec<String> = Vec::new();
    let mut from: usize = 0;
    assert(views(blocks@) + blocks_from(text@, 0) =~= blocks_from(text@, 0));
    loop
        invariant
            cs@ == text@,
            n == cs@.len(),
            fence@ == "```"@,
            fence@.len() == 3,
            from <= cs@.len(),
            views(blocks@) + blocks_from(text@, from as int) == blocks_from(text@, 0),
        decreases cs@.len() - from,
    {
        proof {
            lemma_next_at(text@, "```"@, from as int);
        }
        let open: usize = match find_from(&cs, &fence, from) {
            Some(i) => {
                proof {
                    lemma_same_next(text@, "```"@, from as int, i as int);
                }
                i
            },
            None => {
                proof {
                    assert(next_at(text@, "```"@, from as int) is None);
                    assert(views(blocks@) =~= blocks_from(text@, 0));
                }
                return blocks;
            },
        };
        let nl: usize = find_char(&cs, open + 3, '\n');
        if nl == cs.len() {
            assert(views(blocks@) =~= blocks_from(text@, 0));
            return blocks;
        }
        let start: usize = nl + 1;
        proof {
            lemma_next_at(text@, "```"@, start as int);
        }
        match find_from(&cs, &fence, start) {
            Some(close) => {
                proof {
                    lemma_same_next(text@, "```"@, start as int, close as int);
                }
                let ghost before = blocks@;
                blocks.push(string_of(&cs, start, close));
                proof {
                    let b = text@.subrange(start as int, close as int);
                    assert(views(blocks@) =~= views(before).push(b));
                    assert(views(blocks@) + blocks_from(text@, close + 3) =~= views(before) + (
                    seq![b] + blocks_from(text@, close + 3)));
                }
                from = close + 3;
            },
            None => {
                let ghost before = blocks@;
                blocks.push(string_of(&cs, start, cs.len()));
                proof {
                    let b = text@.skip(start as int);
                    assert(text@.subrange(start as int, text@.len() as int) =~= b);
                    assert(views(blocks@) =~= views(before) + seq![b]);
                }
                return blocks;
            },
        }
    }
}

proof fn lemma_same_next(s: Seq<char>, t: Seq<char>, from: int, i: int)
    requires
        from <= i,
        occurs_at(s, t, i),
        forall|j: int| from <= j < i ==> !#[trigger] occurs_at(s, t, j),
    ensures
        next_at(s, t, from) == Some(i),
{
    lemma_next_at(s, t, from);
    match next_at(s, t, from) {
        Some(k) => {
            if k < i {
                assert(!occurs_at(s, t, k));
            } else if i < k {
                assert(!occurs_at(s, t, i));
            }
        },
        None => {
            assert(!occurs_at(s, t, i));
        },
    }
}

/// Extract a complete program from a model's raw reply: from a fenced block, of
/// several the last that defines `main`, or else the bare text.
pub fn extract_program(response: &str) -> (r: String)
    ensures
        r@ == extracted(response@),
{
    let blocks: Vec<String> = fenced_blocks(response);
    let n: usize = blocks.len();
    if n == 0 {
        return trim(response);
    }
    let ghost bs = views(blocks@);
    let mut i: usize = n;
    while i > 0
        invariant
            i <= n == blocks@.len(),
            bs == views(blocks@),
            last_main(bs, n as nat) == last_main(bs, i as nat),
            bs == blocks_from(response@, 0),
            n > 0,
        decreases i,
    {
        i = i - 1;
        assert(bs[i as int] == blocks@[i as int]@);
        if defines_main(blocks[i].as_str()) {
            return trim(blocks[i].as_str());
        }
    }
    assert(bs.last() == blocks@[n - 1]@);
    trim(blocks[n - 1].as_str())
}

// ---------------------------------------------------------------------------
// Laws
// ---------------------------------------------------------------------------

/// A program that is replied between fences is extracted as it is, up to the white
/// space around it, as long as it and the closing fence hold no earlier fence.
pub proof fn fenced_is_recovered(program: Seq<char>)
    requires
        !occurs(program + "``"@, "```"@),
    ensures
        extracted(fmt("```aria\n{}```"@, seq![program])) == trimmed(program),
{
    let text = fmt("```aria\n{}```"@, seq![program]);
    let n = program.len() as int;
    lemma_fenced(program);
    reveal_strlit("```");
    reveal_strlit("``");
    reveal_strlit("```aria\n");
    let head = "```aria\n"@;
    let fence = "```"@;
    assert(text.len() == n + 11);
    assert(occurs_at(text, fence, 0)) by {
        assert(text.subrange(0, 3) =~= fence);
    }
    assert(next_at(text, fence, 0) == Some(0int));
    assert(line_end(text, 3) == 7) by {
        lemma_no_newline(text, 3, line_end(text, 3));
        assert(text[7] == '\n');
        assert(text[3] != '\n' && text[4] != '\n' && text[5] != '\n' && text[6] != '\n');
    }
    assert(occurs_at(text, fence, n + 8)) by {
        assert(text.subrange(n + 8, n + 11) =~= fence);
    }
    assert forall|j: int| 8 <= j < n + 8 implies !#[trigger] occurs_at(text, fence, j) by {
        if occurs_at(text, fence, j) {
            let t = program + "``"@;
            assert(t.subrange(j - 8, j - 5) =~= text.subrange(j, j + 3));
            assert(occurs_at(t, fence, j - 8));
        }
    }
    lemma_same_next(text, fence, 8, n + 8);
    assert(blocks_from(text, n + 11) =~= Seq::<Seq<char>>::empty()) by {
        lemma_next_at(text, fence, n + 11);
    }
    assert(text.subrange(8, n + 8) =~= program);
    let bs = blocks_from(text, 0);
    assert(bs =~= seq![program]);
    assert(last_main(bs, 1) is Some ==> last_main(bs, 1) == Some(program)) by {
        reveal_with_fuel(last_main, 2);
    }
}

proof fn lemma_fenced(program: Seq<char>)
    ensures
        fmt("```aria\n{}```"@, seq![program]) == "```aria\n"@ + program + "```"@,
{
    reveal_strlit("```aria\n{}```");
    reveal_strlit("```aria\n");
    reveal_strlit("```");
    reveal(fmt);
    let t = "```aria\n{}```"@;
    let args = seq![program];
    assert(fmt_at(t, 13, args, 1) =~= Seq::<char>::empty());
    assert(fmt_at(t, 12, args, 1) =~= seq!['`']);
    assert(fmt_at(t, 11, args, 1) =~= seq!['`', '`']);
    assert(fmt_at(t, 10, args, 1) =~= "```"@);
    let tail = program + "```"@;
    assert(fmt_at(t, 8, args, 0) =~= tail);
    assert(fmt_at(t, 7, args, 0) =~= seq!['\n'] + tail);
    assert(fmt_at(t, 6, args, 0) =~= seq!['a', '\n'] + tail);
    assert(fmt_at(t, 5, args, 0) =~= seq!['i', 'a', '\n'] + tail);
    assert(fmt_at(t, 4, args, 0) =~= seq!['r', 'i', 'a', '\n'] + tail);
    assert(fmt_at(t, 3, args, 0) =~= seq!['a', 'r', 'i', 'a', '\n'] + tail);
    assert(fmt_at(t, 2, args, 0) =~= seq!['`', 'a', 'r', 'i', 'a', '\n'] + tail);
    assert(fmt_at(t, 1, args, 0) =~= seq!['`', '`', 'a', 'r', 'i', 'a', '\n'] + tail);
    assert(fmt_at(t, 0, args, 0) =~= "```aria\n"@ + program + "```"@);
}

/// The program that is extracted has no white space around it.
pub proof fn extracted_is_trimmed(reply: Seq<char>)
    ensures
        extracted(reply).len() > 0 ==> !is_white(extracted(reply)[0]) && !is_white(
            extracted(reply).last(),
        ),
{
    let bs = blocks_from(reply, 0);
    lemma_trimmed(reply);
    if bs.len() > 0 {
        lemma_trimmed(bs.last());
        if let Some(b) = last_main(bs, bs.len()) {
            lemma_trimmed(b);
        }
    }
}

/// Extracting from what was extracted changes nothing.
pub proof fn extracting_twice_is_once(reply: Seq<char>)
    ensures
        extracted(extracted(reply)) == extracted(reply),
{
    let fence = "```"@;
    reveal_strlit("```");
    let bs = blocks_from(reply, 0);
    if bs.len() == 0 {
        lemma_within(reply);
        let (i, j) = choose|i: int, j: int| #[trigger] core_of(reply, i, j);
        let t = trimmed(reply);
        lemma_next_at(reply, fence, 0);
        lemma_next_at(t, fence, 0);
        if let Some(open) = next_at(t, fence, 0) {
            assert(reply.subrange(i + open, i + open + 3) =~= t.subrange(open, open + 3));
            assert(occurs_at(reply, fence, i + open));
            let first = next_at(reply, fence, 0)->0;
            let e = line_end(reply, first + 3);
            lemma_no_newline(reply, first + 3, e);
            assert(e == reply.len());
            let f = line_end(t, open + 3);
            lemma_no_newline(t, open + 3, f);
            if f < t.len() {
                assert(reply[i + f] == t[f]);
            }
        }
        assert(blocks_from(t, 0).len() == 0);
        lemma_trimmed_twice(reply);
    } else {
        lemma_blocks_hold_no_fence(reply, 0);
        let b = match last_main(bs, bs.len()) {
            Some(b) => {
                lemma_last_main(bs, bs.len());
                b
            },
            None => bs.last(),
        };
        assert(bs.contains(b));
        let k = choose|k: int| 0 <= k < bs.len() && bs[k] == b;
        assert(!occurs(bs[k], fence));
        lemma_within(b);
        let (i, j) = choose|i: int, j: int| #[trigger] core_of(b, i, j);
        let t = trimmed(b);
        lemma_next_at(t, fence, 0);
        if let Some(open) = next_at(t, fence, 0) {
            assert(b.subrange(i + open, i + open + 3) =~= t.subrange(open, open + 3));
            assert(occurs_at(b, fence, i + open));
        }
        assert(blocks_from(t, 0).len() == 0);
        lemma_trimmed_twice(b);
    }
}

/// A reply without fences is taken as it is, up to the white space around it.
pub proof fn bare_is_trimmed(reply: Seq<char>)
    requires
        !occurs(reply, "```"@),
    ensures
        extracted(reply) == trimmed(reply),
{
    lemma_next_at(reply, "```"@, 0);
    if let Some(open) = next_at(reply, "```"@, 0) {
        assert(occurs_at(reply, "```"@, open));
    }
}

proof fn lemma_blocks_hold_no_fence(text: Seq<char>, from: int)
    ensures
        forall|k: int|
            0 <= k < blocks_from(text, from).len() ==> !occurs(
                #[trigger] blocks_from(text, from)[k],
                "```"@,
            ),
    decreases text.len() - from,
{
    let fence = "```"@;
    reveal_strlit("```");
    lemma_next_at(text, fence, from);
    if let Some(open) = next_at(text, fence, from) {
        lemma_first_index(text.skip(open + 3), '\n');
        let start = line_end(text, open + 3) + 1;
        if start <= text.len() {
            lemma_next_at(text, fence, start);
            match next_at(text, fence, start) {
                Some(close) => {
                    let b = text.subrange(start, close);
                    if occurs(b, fence) {
                        let m = choose|m: int| #[trigger] occurs_at(b, fence, m);
                        assert(text.subrange(start + m, start + m + 3) =~= b.subrange(m, m + 3));
                        assert(occurs_at(text, fence, start + m));
                    }
                    lemma_blocks_hold_no_fence(text, close + 3);
                    let rest = blocks_from(text, close + 3);
                    assert forall|k: int| 0 <= k < blocks_from(text, from).len() implies !occurs(
                        #[trigger] blocks_from(text, from)[k],
                        fence,
                    ) by {
                        if k > 0 {
                            assert(blocks_from(text, from)[k] == rest[k - 1]);
                        }
                    }
                },
                None => {
                    let b = text.skip(start);
                    if occurs(b, fence) {
                        let m = choose|m: int| #[trigger] occurs_at(b, fence, m);
                        assert(text.subrange(start + m, start + m + 3) =~= b.subrange(m, m + 3));
                        assert(occurs_at(text, fence, start + m));
                    }
                },
            }
        }
    }
}

proof fn lemma_last_main(bs: Seq<Seq<char>>, n: nat)
    requires
        n <= bs.len(),
    ensures
        last_main(bs, n) matches Some(b) ==> bs.contains(b),
    decreases n,
{
    if n > 0 && !has_main(bs[n - 1]) {
        lemma_last_main(bs, (n - 1) as nat);
    }
}

/// What is left of `s` without the white space around it stands from `i` to `j`.
spec fn core_of(s: Seq<char>, i: int, j: int) -> bool {
    0 <= i <= j <= s.len() && trimmed(s) == s.subrange(i, j)
}

proof fn lemma_within(s: Seq<char>)
    ensures
        exists|i: int, j: int| #[trigger] core_of(s, i, j),
{
    lemma_start_within(s);
    lemma_end_within(trimmed_start(s));
    let i = s.len() - trimmed_start(s).len();
    let n = trimmed(s).len() as int;
    assert(trimmed(s) =~= s.subrange(i, i + n));
    assert(core_of(s, i, i + n));
}

proof fn lemma_start_within(s: Seq<char>)
    ensures
        trimmed_start(s).len() <= s.len(),
        trimmed_start(s) == s.skip(s.len() - trimmed_start(s).len()),
    decreases s.len(),
{
    if s.len() > 0 && is_white(s[0]) {
        lemma_start_within(s.drop_first());
        assert(trimmed_start(s) =~= s.skip(s.len() - trimmed_start(s).len()));
    } else {
        assert(s =~= s.skip(0));
    }
}

proof fn lemma_end_within(s: Seq<char>)
    ensures
        trimmed_end(s).len() <= s.len(),
        trimmed_end(s) == s.take(trimmed_end(s).len() as int),
    decreases s.len(),
{
    if s.len() > 0 && is_white(s.last()) {
        lemma_end_within(s.drop_last());
        assert(trimmed_end(s) =~= s.take(trimmed_end(s).len() as int));
    } else {
        assert(s =~= s.take(s.len() as int));
    }
}

proof fn lemma_trimmed_twice(s: Seq<char>)
    ensures
        trimmed(trimmed(s)) == trimmed(s),
{
    lemma_trimmed(s);
}

proof fn lemma_trimmed(s: Seq<char>)
    ensures
        trimmed(s).len() > 0 ==> !is_white(trimmed(s)[0]) && !is_white(trimmed(s).last()),
{
    lemma_start(s);
    lemma_end(trimmed_start(s));
}

proof fn lemma_start(s: Seq<char>)
    ensures
        trimmed_start(s).len() > 0 ==> !is_white(trimmed_start(s)[0]),
    decreases s.len(),
{
    if s.len() > 0 && is_white(s[0]) {
        lemma_start(s.drop_first());
    }
}

proof fn lemma_end(s: Seq<char>)
    ensures
        trimmed_end(s).len() > 0 ==> !is_white(trimmed_end(s).last()) && trimmed_end(s)[0] == s[0],
    decreases s.len(),
{
    if s.len() > 0 && is_white(s.last()) {
        lemma_end(s.drop_last());
    }
}

} // verus!
