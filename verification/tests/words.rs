use typetty::words::{english_words, generate, generate_from};

#[test]
fn generates_requested_count_without_adjacent_duplicates() {
    let words = generate(2_000);
    assert_eq!(words.len(), 2_000);
    assert!(words.windows(2).all(|pair| pair[0] != pair[1]));
}

#[test]
fn generated_words_come_from_the_source() {
    let source: Vec<String> = vec!["a".into(), "b".into(), "a".into()];
    let out = generate_from(&source, 50);
    assert_eq!(out.len(), 50);
    assert!(out.iter().all(|w| source.contains(w)));
    assert!(out.windows(2).all(|pair| pair[0] != pair[1]));
    let list = english_words();
    assert!(generate(30).iter().all(|w| list.contains(w)));
}

#[test]
fn zero_and_one_word() {
    assert!(generate(0).is_empty());
    let single: Vec<String> = vec!["same".into()];
    assert_eq!(generate_from(&single, 1), vec!["same".to_string()]);
}

#[test]
fn shuffling_varies_the_order() {
    let a = generate(200);
    let b = generate(200);
    let c = generate(200);
    assert!(a != b || b != c);
}

#[test]
fn word_list_holds_common_words_in_dictionary_order() {
    let list = english_words();
    assert_eq!(list.len(), 200);
    assert!(list.contains(&"the".to_string()));
    assert!(list.contains(&"of".to_string()));
    assert!(list.iter().all(|w| !w.is_empty() && w.trim() == w));
    assert!(list.windows(2).all(|pair| pair[0] < pair[1]));
}

#[test]
fn first_round_uses_each_distinct_word_once() {
    let source: Vec<String> = vec!["a".into(), "b".into(), "c".into(), "d".into()];
    let out = generate_from(&source, 10);
    let mut first: Vec<String> = out[..4].to_vec();
    first.sort();
    assert_eq!(first, source);
    let short = generate_from(&source, 3);
    assert!(short[0] != short[1] && short[1] != short[2] && short[0] != short[2]);
}

#[test]
fn word_list_holds_no_word_twice() {
    let mut list = english_words();
    list.sort();
    list.dedup();
    assert_eq!(list.len(), 200);
}

#[test]
fn generated_words_come_in_rounds_over_the_whole_list() {
    let mut list = english_words();
    list.sort();
    let out = generate(1_000);
    let mut first: Vec<String> = out[..200].to_vec();
    first.sort();
    assert_eq!(first, list);
    for word in &list {
        let uses = out.iter().filter(|w| *w == word).count();
        assert!((1..=6).contains(&uses), "{word} drawn {uses} times");
    }
}

fn all_differ(words: &[String]) -> bool {
    words.iter().enumerate().all(|(a, x)| words[a + 1..].iter().all(|y| y != x))
}

/// Whether `out` can be cut into rounds over `n` different words: each round
/// holds no word twice, the first is as long as it can be, and every round
/// but the last holds all `n` words or all but the word just before it.
fn cut_in_rounds(out: &[String], n: usize) -> bool {
    let first = n.min(out.len());
    if !all_differ(&out[..first]) {
        return false;
    }
    let mut reachable = vec![false; out.len() + 1];
    reachable[first] = true;
    for p in first..out.len() {
        if !reachable[p] {
            continue;
        }
        if all_differ(&out[p..]) && out.len() - p <= n {
            return true;
        }
        if p + n <= out.len() && all_differ(&out[p..p + n]) {
            reachable[p + n] = true;
        }
        let short = &out[p..(p + n - 1).min(out.len())];
        if p + n - 1 <= out.len() && all_differ(short) && !short.contains(&out[p - 1]) {
            reachable[p + n - 1] = true;
        }
    }
    reachable[out.len()]
}

#[test]
fn later_rounds_hold_no_word_twice() {
    let source: Vec<String> = vec!["a".into(), "b".into(), "c".into(), "d".into()];
    for count in [4, 9, 40] {
        let out = generate_from(&source, count);
        assert!(cut_in_rounds(&out, 4));
    }
    let starved: Vec<String> =
        ["a", "b", "c", "d", "a", "b", "a", "b", "a"].iter().map(|w| w.to_string()).collect();
    assert!(!cut_in_rounds(&starved, 4));
    assert!(cut_in_rounds(&generate(900), 200));
}
