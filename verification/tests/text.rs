use cryptan::text::{
    chars_of, is_ascii_alphanumeric, is_ascii_letter, is_whitespace, same_text, split, string_of,
    strip, to_lower, to_lower_char, to_upper_char, CharClass,
};

const SAMPLES: [&str; 12] = [
    "",
    " ",
    "hello",
    "  hello   world  ",
    "Hello, World! It's 2024...",
    "\tTabs\tand\nnewlines\r\nand\u{a0}no-break\u{2003}spaces\u{3000}",
    "'quoted' (bracketed) --dashed-- a.b.c",
    "123 !!! ... ???",
    "\u{e9}t\u{e9} na\u{ef}ve \u{4e2d}\u{6587} caf\u{e9}!",
    "line one\nline two\n\n  line four  \n",
    "\n\n\n",
    "x",
];

#[test]
fn whitespace_is_what_std_calls_whitespace() {
    for u in 0u32..=0x10FFFF {
        if let Some(c) = char::from_u32(u) {
            assert_eq!(is_whitespace(c), c.is_whitespace(), "U+{:04X}", u);
        }
    }
}

#[test]
fn letter_classes_are_those_of_std() {
    for u in 0u32..=0x10FFFF {
        if let Some(c) = char::from_u32(u) {
            assert_eq!(is_ascii_letter(c), c.is_ascii_alphabetic(), "U+{:04X}", u);
            assert_eq!(is_ascii_alphanumeric(c), c.is_ascii_alphanumeric(), "U+{:04X}", u);
            assert_eq!(to_lower_char(c), c.to_ascii_lowercase(), "U+{:04X}", u);
            assert_eq!(to_upper_char(c), c.to_ascii_uppercase(), "U+{:04X}", u);
        }
    }
}

#[test]
fn char_class_membership() {
    assert!(CharClass::Space.test(' '));
    assert!(CharClass::Space.test('\n'));
    assert!(!CharClass::Space.test('a'));
    assert!(CharClass::LineFeed.test('\n'));
    assert!(!CharClass::LineFeed.test('\r'));
    assert!(!CharClass::LineFeed.test(' '));
    assert!(CharClass::NonLetter.test('1'));
    assert!(CharClass::NonLetter.test('\u{e9}'));
    assert!(!CharClass::NonLetter.test('q'));
    assert!(!CharClass::NonLetter.test('Q'));
}

#[test]
fn chars_of_and_string_of_are_inverse() {
    for s in SAMPLES {
        let chars = chars_of(s);
        let expected: Vec<char> = s.chars().collect();
        assert_eq!(chars, expected);
        assert_eq!(string_of(&chars, 0, chars.len()), s);
    }
    let chars = chars_of("abcdef");
    assert_eq!(string_of(&chars, 2, 4), "cd");
    assert_eq!(string_of(&chars, 3, 3), "");
    assert_eq!(string_of(&chars, 0, 1), "a");
}

#[test]
fn same_text_is_equality() {
    for a in SAMPLES {
        for b in SAMPLES {
            assert_eq!(same_text(a, b), a == b);
        }
    }
    assert!(!same_text("abc", "abd"));
    assert!(!same_text("abc", "ab"));
}

#[test]
fn to_lower_is_ascii_lowercase() {
    for s in SAMPLES {
        assert_eq!(to_lower(s), s.to_ascii_lowercase());
    }
    assert_eq!(to_lower("HeLLo \u{c9}"), "hello \u{c9}");
}

#[test]
fn split_at_space_is_split_whitespace() {
    for s in SAMPLES {
        let expected: Vec<String> = s.split_whitespace().map(|w| w.to_string()).collect();
        assert_eq!(split(s, CharClass::Space), expected, "{:?}", s);
    }
    assert_eq!(split("  a  bc d ", CharClass::Space), vec!["a", "bc", "d"]);
    assert!(split("   ", CharClass::Space).is_empty());
}

#[test]
fn split_at_line_feed_gives_the_lines_that_are_not_empty() {
    for s in SAMPLES {
        let expected: Vec<String> =
            s.split('\n').filter(|l| !l.is_empty()).map(|l| l.to_string()).collect();
        assert_eq!(split(s, CharClass::LineFeed), expected, "{:?}", s);
    }
    assert_eq!(split("a b\n\nc\n", CharClass::LineFeed), vec!["a b", "c"]);
}

#[test]
fn split_at_non_letters_gives_the_runs_of_letters() {
    assert_eq!(split("it's 4 o'clock", CharClass::NonLetter), vec!["it", "s", "o", "clock"]);
}

#[test]
fn strip_non_letters_is_trim_matches() {
    for s in SAMPLES {
        for w in s.split_whitespace() {
            let expected = w.trim_matches(|c: char| !c.is_ascii_alphabetic());
            assert_eq!(strip(w, CharClass::NonLetter), expected, "{:?}", w);
        }
    }
    assert_eq!(strip("(hello!)", CharClass::NonLetter), "hello");
    assert_eq!(strip("don't", CharClass::NonLetter), "don't");
    assert_eq!(strip("...", CharClass::NonLetter), "");
    assert_eq!(strip("", CharClass::NonLetter), "");
    assert_eq!(strip("a", CharClass::NonLetter), "a");
    assert_eq!(strip("1a", CharClass::NonLetter), "a");
    assert_eq!(strip("a1", CharClass::NonLetter), "a");
}

#[test]
fn strip_space_is_trim() {
    for s in SAMPLES {
        assert_eq!(strip(s, CharClass::Space), s.trim(), "{:?}", s);
    }
    assert_eq!(strip("  two words \t", CharClass::Space), "two words");
}
