//! The words of a text are its runs of letters.

use vstd::prelude::*;

use crate::embed::{is_letter, lower, words, words_upto};

verus! {

/// Whether the characters from `i` up to `j` are a run of letters that no letter
/// extends.
pub open spec fn run_of_letters(s: Seq<char>, i: int, j: int) -> bool {
    &&& 0 <= i < j <= s.len()
    &&& forall|k: int| i <= k < j ==> is_letter(#[trigger] s[k])
    &&& i > 0 ==> !is_letter(s[i - 1])
    &&& j < s.len() ==> !is_letter(s[j])
}

/// The characters from `i` up to `j` in lower case.
pub open spec fn lowered_part(s: Seq<char>, i: int, j: int) -> Seq<char> {
    Seq::new((j - i) as nat, |k: int| lower(s[i + k]))
}

/// Whether a word is a run that ends before `n`.
spec fn ended_before(s: Seq<char>, n: int, w: Seq<char>) -> bool {
    exists|i: int, j: int|
        #[trigger] run_of_letters(s, i, j) && j < n && w == lowered_part(s, i, j)
}

/// Where the letters before `n` start.
spec fn letters_from(s: Seq<char>, n: nat) -> nat
    decreases n,
{
    if n == 0 || n > s.len() || !is_letter(s[n - 1]) {
        n
    } else {
        letters_from(s, (n - 1) as nat)
    }
}

proof fn lemma_from(s: Seq<char>, n: nat)
    requires
        n <= s.len(),
    ensures
        letters_from(s, n) <= n,
        forall|k: int| letters_from(s, n) <= k < n ==> is_letter(#[trigger] s[k]),
        letters_from(s, n) > 0 ==> !is_letter(s[letters_from(s, n) - 1]),
    decreases n,
{
    if n > 0 && is_letter(s[n - 1]) {
        lemma_from(s, (n - 1) as nat);
    }
}

proof fn lemma_same_end(s: Seq<char>, i: int, k: int, j: int)
    requires
        run_of_letters(s, i, j),
        run_of_letters(s, k, j),
    ensures
        i == k,
{
    if i < k {
        assert(is_letter(s[k - 1]));
    } else if k < i {
        assert(is_letter(s[i - 1]));
    }
}

proof fn lemma_upto(s: Seq<char>, n: nat, w: Seq<char>)
    requires
        n <= s.len(),
    ensures
        words_upto(s, n).1 == lowered_part(s, letters_from(s, n) as int, n as int),
        words_upto(s, n).0.contains(w) <==> ended_before(s, n as int, w),
    decreases n,
{
    if n == 0 {
        assert(words_upto(s, n).1 =~= lowered_part(s, 0, 0));
    } else {
        let (done, open) = words_upto(s, (n - 1) as nat);
        let from = letters_from(s, (n - 1) as nat) as int;
        lemma_upto(s, (n - 1) as nat, w);
        lemma_from(s, (n - 1) as nat);
        if is_letter(s[n - 1]) {
            assert(open.push(lower(s[n - 1])) =~= lowered_part(s, from, n as int));
            if ended_before(s, n as int, w) {
                let (i, j) = choose|i: int, j: int|
                    #[trigger] run_of_letters(s, i, j) && j < n && w == lowered_part(s, i, j);
                assert(j != n - 1);
                assert(run_of_letters(s, i, j) && j < n - 1);
            }
        } else {
            assert(words_upto(s, n).1 =~= lowered_part(s, n as int, n as int));
            if open.len() > 0 {
                assert(run_of_letters(s, from, n - 1));
                let after = done.push(open);
                if after.contains(w) {
                    let k = choose|k: int| 0 <= k < after.len() && after[k] == w;
                    if k < done.len() {
                        assert(done[k] == w);
                        assert(done.contains(w));
                    }
                }
                if ended_before(s, n as int, w) {
                    let (i, j) = choose|i: int, j: int|
                        #[trigger] run_of_letters(s, i, j) && j < n && w == lowered_part(s, i, j);
                    if j == n - 1 {
                        lemma_same_end(s, i, from, j);
                        assert(after[done.len() as int] == w);
                    } else {
                        assert(ended_before(s, n - 1, w));
                        let k = choose|k: int| 0 <= k < done.len() && done[k] == w;
                        assert(after[k] == w);
                    }
                }
            } else {
                assert(from == n - 1);
                if ended_before(s, n as int, w) {
                    let (i, j) = choose|i: int, j: int|
                        #[trigger] run_of_letters(s, i, j) && j < n && w == lowered_part(s, i, j);
                    if j == n - 1 {
                        assert(is_letter(s[j - 1]));
                        assert(from < n - 1);
                    }
                    assert(ended_before(s, n - 1, w));
                }
            }
        }
    }
}

/// A word is in a text's word list exactly if it is one of the text's runs of letters,
/// in lower case.
pub proof fn words_are_the_runs_of_letters(s: Seq<char>, w: Seq<char>)
    ensures
        words(s).contains(w) <==> exists|i: int, j: int|
            #[trigger] run_of_letters(s, i, j) && w == lowered_part(s, i, j),
{
    let n = s.len();
    let (done, open) = words_upto(s, n);
    let from = letters_from(s, n) as int;
    lemma_upto(s, n, w);
    lemma_from(s, n);
    if open.len() > 0 {
        let all = done.push(open);
        assert(run_of_letters(s, from, n as int));
        if all.contains(w) {
            let k = choose|k: int| 0 <= k < all.len() && all[k] == w;
            if k < done.len() {
                assert(done[k] == w);
                assert(done.contains(w));
            }
        }
        if exists|i: int, j: int|
            #[trigger] run_of_letters(s, i, j) && w == lowered_part(s, i, j) {
            let (i, j) = choose|i: int, j: int|
                #[trigger] run_of_letters(s, i, j) && w == lowered_part(s, i, j);
            if j == n {
                lemma_same_end(s, i, from, j);
                assert(all[done.len() as int] == w);
            } else {
                assert(ended_before(s, n as int, w));
                let k = choose|k: int| 0 <= k < done.len() && done[k] == w;
                assert(all[k] == w);
            }
        }
    } else {
        if exists|i: int, j: int|
            #[trigger] run_of_letters(s, i, j) && w == lowered_part(s, i, j) {
            let (i, j) = choose|i: int, j: int|
                #[trigger] run_of_letters(s, i, j) && w == lowered_part(s, i, j);
            if j == n {
                assert(is_letter(s[j - 1]));
                assert(from < n);
            }
            assert(ended_before(s, n as int, w));
        }
    }
}

/// A letter in lower case is one of the lower-case letters: itself, or the one as far
/// behind `a` as the letter is behind `A`.
pub proof fn lower_case_keeps_the_letter(c: char)
    ensures
        is_letter(c) ==> 'a' <= lower(c) <= 'z',
        'a' <= c <= 'z' ==> lower(c) == c,
        'A' <= c <= 'Z' ==> lower(c) as int - 'a' as int == c as int - 'A' as int,
        lower(lower(c)) == lower(c),
{
}

} // verus!
