use std::collections::HashSet;

use cryptan::ratio::{is_retained, outranks};
use cryptan::scoring::{alphabetic_tokens, is_word, ratio_of_hits, tokenize};
use cryptan::{meaningful_ratio, Ratio, Vocabulary};

fn vocabulary(words: &[&str]) -> Vocabulary {
    let mut v = Vocabulary::new();
    for w in words {
        v.insert(w.to_string());
    }
    v
}

fn reference_tokens(text: &str) -> Vec<String> {
    text.split_whitespace()
        .map(|t| t.trim_matches(|c: char| !c.is_ascii_alphabetic()).to_ascii_lowercase())
        .filter(|t| !t.is_empty())
        .collect()
}

const TEXTS: [&str; 8] = [
    "",
    "   ",
    "Hello, World!",
    "HELLO WORLD",
    "It's a (very) fine day -- isn't it? 42 ...",
    "one\ttwo\nthree\u{a0}four",
    "\u{e9}t\u{e9} caf\u{e9} na\u{ef}ve",
    "hello hello unknown HELLO",
];

#[test]
fn tokens_are_stripped_lowered_and_not_empty() {
    for text in TEXTS {
        assert_eq!(tokenize(text), reference_tokens(text), "{:?}", text);
    }
    assert_eq!(tokenize("Hello, World!"), vec!["hello", "world"]);
    assert_eq!(tokenize("(It's) 42 -- don't!"), vec!["it's", "don't"]);
    assert_eq!(tokenize("\u{e9}t\u{e9} caf\u{e9}"), vec!["t", "caf"]);
}

#[test]
fn meaningful_ratio_counts_known_tokens() {
    let v = vocabulary(&["hello", "world"]);
    assert_eq!(meaningful_ratio("HELLO WORLD", &v), Ratio { numerator: 2, denominator: 2 });
    assert_eq!(meaningful_ratio("Hello, there world!", &v), Ratio { numerator: 2, denominator: 3 });
    assert_eq!(meaningful_ratio("nothing known here", &v), Ratio { numerator: 0, denominator: 3 });
    assert_eq!(
        meaningful_ratio("hello hello unknown HELLO", &v),
        Ratio { numerator: 3, denominator: 4 }
    );
}

#[test]
fn meaningful_ratio_of_a_text_without_tokens_is_zero_over_zero() {
    let v = vocabulary(&["hello"]);
    assert_eq!(meaningful_ratio("", &v), Ratio { numerator: 0, denominator: 0 });
    assert_eq!(meaningful_ratio("  42 ... !!", &v), Ratio { numerator: 0, denominator: 0 });
}

#[test]
fn meaningful_ratio_agrees_with_a_plain_count() {
    let words = ["hello", "world", "it's", "a", "fine", "day", "one", "two", "t"];
    let v = vocabulary(&words);
    let set: HashSet<String> = words.iter().map(|w| w.to_string()).collect();
    for text in TEXTS {
        let tokens = reference_tokens(text);
        let known = tokens.iter().filter(|t| set.contains(*t)).count();
        let ratio = meaningful_ratio(text, &v);
        assert_eq!(ratio.numerator, known as u64, "{:?}", text);
        assert_eq!(ratio.denominator, tokens.len() as u64, "{:?}", text);
    }
}

#[test]
fn vocabulary_lookup_is_exact() {
    let mut v = Vocabulary::new();
    assert!(!v.contains("hello"));
    assert!(v.insert("hello".to_string()));
    assert!(!v.insert("hello".to_string()));
    assert!(v.contains("hello"));
    assert!(!v.contains("Hello"));
    assert!(!v.contains("hell"));
    assert!(!v.contains(""));
}

#[test]
fn vocabulary_from_lines_reads_one_word_per_line() {
    let v = Vocabulary::from_lines("hello\n  world  \n\n\t\nit's\r\ntwo words\nlast");
    assert!(v.contains("hello"));
    assert!(v.contains("world"));
    assert!(v.contains("it's"));
    assert!(v.contains("two words"));
    assert!(v.contains("last"));
    assert!(!v.contains(""));
    assert!(!v.contains("  world  "));
    assert!(!v.contains("two"));
    assert!(!v.contains("it's\r"));
}

#[test]
fn vocabulary_from_lines_agrees_with_lines_and_trim() {
    let data = "alpha\n beta\ngamma \r\n\n  \ndelta\u{a0}\n\u{3000}epsilon\nzeta";
    let v = Vocabulary::from_lines(data);
    let expected: HashSet<String> =
        data.lines().map(|s| s.trim().to_owned()).filter(|s| !s.is_empty()).collect();
    assert_eq!(expected.len(), 6);
    for w in &expected {
        assert!(v.contains(w), "{:?}", w);
    }
    for w in ["", " beta", "gamma ", "eta", "alpha\n"] {
        assert_eq!(v.contains(w), expected.contains(w), "{:?}", w);
    }
}

#[test]
fn vocabulary_from_nothing_is_empty() {
    let v = Vocabulary::from_lines("");
    assert!(!v.contains(""));
    let w = Vocabulary::from_lines("\n \n\t\n");
    assert!(!w.contains(""));
    assert!(!w.contains(" "));
}

#[test]
fn ratio_comparison_is_exact() {
    let half = Ratio::new(1, 2);
    assert!(Ratio::new(1, 2).reaches(&half));
    assert!(Ratio::new(2, 4).reaches(&half));
    assert!(Ratio::new(2, 2).reaches(&half));
    assert!(Ratio::new(2, 3).reaches(&half));
    assert!(!Ratio::new(1, 3).reaches(&half));
    assert!(!Ratio::new(499_999, 1_000_000).reaches(&half));
    assert!(Ratio::new(500_000, 1_000_000).reaches(&half));
    assert!(Ratio::new(1, 3).reaches(&Ratio::new(333_333, 1_000_000)));
    assert!(!Ratio::new(1, 3).reaches(&Ratio::new(333_334, 1_000_000)));
    assert!(Ratio::new(u64::MAX, u64::MAX).reaches(&Ratio::new(u64::MAX, u64::MAX)));
    assert!(!Ratio::new(u64::MAX - 1, u64::MAX).reaches(&Ratio::new(u64::MAX, u64::MAX)));
}

#[test]
fn ratio_with_denominator_zero_counts_as_zero() {
    let none = Ratio::new(0, 0);
    assert!(none.reaches(&Ratio::zero()));
    assert!(none.reaches(&Ratio::new(0, 5)));
    assert!(none.reaches(&Ratio::new(7, 0)));
    assert!(!none.reaches(&Ratio::new(1, 1_000_000)));
    assert!(!Ratio::new(9, 0).reaches(&Ratio::new(1, 10)));
    assert!(Ratio::new(1, 10).reaches(&Ratio::new(9, 0)));
    assert_eq!(Ratio::zero(), Ratio { numerator: 0, denominator: 1 });
    assert_eq!(Ratio::new(3, 4), Ratio { numerator: 3, denominator: 4 });
}

#[test]
fn present_confidence_must_reach_a_present_threshold() {
    let half = Some(Ratio::new(1, 2));
    assert!(is_retained(Some(Ratio::new(1, 2)), half));
    assert!(is_retained(Some(Ratio::new(3, 4)), half));
    assert!(!is_retained(Some(Ratio::new(1, 4)), half));
    assert!(!is_retained(Some(Ratio::new(0, 0)), half));
    assert!(is_retained(Some(Ratio::new(0, 0)), Some(Ratio::zero())));
    assert!(!is_retained(Some(Ratio::new(1, 1)), Some(Ratio::new(3, 2))));
}

#[test]
fn absent_confidence_is_always_retained() {
    assert!(is_retained(None, Some(Ratio::new(1, 2))));
    assert!(is_retained(None, Some(Ratio::new(1, 1))));
    assert!(is_retained(None, Some(Ratio::new(5, 1))));
    assert!(is_retained(None, None));
}

#[test]
fn absent_threshold_retains_everything() {
    assert!(is_retained(Some(Ratio::new(0, 3)), None));
    assert!(is_retained(Some(Ratio::new(0, 0)), None));
    assert!(is_retained(Some(Ratio::new(3, 3)), None));
}

#[test]
fn outranks_orders_by_value_with_absent_as_zero() {
    let low = Some(Ratio::new(1, 4));
    let high = Some(Ratio::new(3, 4));
    assert!(outranks(high, low));
    assert!(!outranks(low, high));
    assert!(!outranks(low, low));
    assert!(!outranks(Some(Ratio::new(2, 8)), low));
    assert!(outranks(low, None));
    assert!(!outranks(None, low));
    assert!(!outranks(None, None));
    assert!(!outranks(None, Some(Ratio::new(0, 7))));
    assert!(!outranks(Some(Ratio::new(0, 7)), None));
}

#[test]
fn plain_words_are_letters_only() {
    assert!(is_word("hello"));
    assert!(is_word("Hello"));
    assert!(is_word("a"));
    assert!(!is_word(""));
    assert!(!is_word("it's"));
    assert!(!is_word("abc1"));
    assert!(!is_word("caf\u{e9}"));
    assert!(!is_word("two words"));
}

#[test]
fn alphabetic_tokens_lowers_and_filters() {
    let raw: Vec<String> =
        ["Hello", "WORLD", "", "it's", "42", "caf\u{e9}", "ok", "a1", "Zed"]
            .iter()
            .map(|s| s.to_string())
            .collect();
    assert_eq!(alphabetic_tokens(&raw), vec!["hello", "world", "ok", "zed"]);
    let expected: Vec<String> = raw
        .iter()
        .map(|t| t.to_ascii_lowercase())
        .filter(|t| !t.is_empty() && t.chars().all(|c| c.is_ascii_alphabetic()))
        .collect();
    assert_eq!(alphabetic_tokens(&raw), expected);
    assert!(alphabetic_tokens(&Vec::new()).is_empty());
}

#[test]
fn ratio_of_hits_counts_the_answers() {
    assert_eq!(ratio_of_hits(&vec![]), Ratio { numerator: 0, denominator: 0 });
    assert_eq!(ratio_of_hits(&vec![true]), Ratio { numerator: 1, denominator: 1 });
    assert_eq!(ratio_of_hits(&vec![false]), Ratio { numerator: 0, denominator: 1 });
    assert_eq!(
        ratio_of_hits(&vec![true, false, true, true, false]),
        Ratio { numerator: 3, denominator: 5 }
    );
}
