//! The words, the vocabulary and the neighbours of a corpus.

use aria::embed::{
    cooccurrences, known_words, tokenize, tokenize_lines, vocabulary, word_id, Lcg, DIM, MIN_COUNT, WINDOW,
};

#[test]
fn words_are_letters_in_lower_case() {
    assert_eq!(tokenize("The Cat, the cat's 2 DOGS!"), vec!["the", "cat", "the", "cat", "s", "dogs"]);
    assert!(tokenize(" 12 -- é ").is_empty());
    assert_eq!(tokenize("naïve"), vec!["na", "ve"]);
    assert_eq!(
        tokenize_lines("a b\n\n 1 2\r\nc\n"),
        vec![vec!["a".to_string(), "b".to_string()], vec!["c".to_string()]]
    );
    assert!(tokenize_lines("").is_empty());
}

#[test]
fn vocabulary_counts_and_orders() {
    let lines = tokenize_lines("b a b c\na d b\ne e");
    let v = vocabulary(&lines);
    let expected = [("b", 3u64), ("a", 2), ("e", 2)];
    assert_eq!(v, expected.map(|(w, n)| (w.to_string(), n)));
    assert_eq!(word_id(&v, "e"), Some(2));
    assert_eq!(word_id(&v, "c"), None);
    assert_eq!(known_words(&v, "E? c, B e."), vec![2, 0, 2]);
    assert!(known_words(&v, "zzqqxx wuggle florbnak").is_empty());
    // Another order of the lines gives the same list.
    assert_eq!(vocabulary(&tokenize_lines("e e\na d b\nb a b c")), v);
    assert!(vocabulary(&Vec::new()).is_empty());
}

#[test]
fn neighbours_are_counted_both_ways_within_the_window() {
    let lines = tokenize_lines("a b x y z a\nb q\nx y z");
    let v = vocabulary(&lines);
    let id = |w: &str| word_id(&v, w).unwrap();
    let m = cooccurrences(&lines, &v);
    // `a` at 0 has b, x, y, z near; the second `a` is five words off the first.
    assert_eq!(m[id("a")][id("a")], 0);
    assert_eq!(m[id("a")][id("b")], 2);
    assert_eq!(m[id("x")][id("y")], 2);
    assert_eq!(m[id("b")][id("z")], 1);
    for i in 0..v.len() {
        assert_eq!(m[i].len(), v.len());
        for j in 0..v.len() {
            assert_eq!(m[i][j], m[j][i], "symmetric at {} {}", i, j);
        }
    }
    // A word that occurs twice in a window is its own neighbour, twice.
    let lines = tokenize_lines("p p");
    let v = vocabulary(&lines);
    assert_eq!(cooccurrences(&lines, &v), vec![vec![2]]);
    assert!(cooccurrences(&lines, &Vec::new()).is_empty());
}

#[test]
fn seed_is_deterministic() {
    let mut a = Lcg::new(0);
    assert_eq!(a.next_u64(), 1442695040888963407);
    assert_eq!(
        a.next_u64(),
        1442695040888963407u64
            .wrapping_mul(6364136223846793005)
            .wrapping_add(1442695040888963407)
    );
    let mut b = Lcg::new(0x9E37_79B9_7F4A_7C15);
    let mut c = Lcg::new(0x9E37_79B9_7F4A_7C15);
    for _ in 0..100 {
        assert_eq!(b.next_bits(), c.next_u64() >> 11);
    }
    assert_eq!((DIM, WINDOW, MIN_COUNT), (64, 4, 2));
}
