//! The set of known words that candidate texts are scored against.

use vstd::prelude::*;
use vstd::hash_set::StringHashSet;
use crate::text::{runs, split, strip, stripped, CharClass};

verus! {

/// An unordered set of known words. Words are compared exactly, character
/// by character, so a word list is expected to be in lower case: that is the
/// form in which the words of a text are looked up.
pub struct Vocabulary {
    words: StringHashSet,
}

impl View for Vocabulary {
    type V = Set<Seq<char>>;

    closed spec fn view(&self) -> Set<Seq<char>> {
        self.words@
    }
}

/// The word that line `k` of `lines` holds: the line without the white
/// space at its ends.
pub open spec fn line_word(lines: Seq<Seq<char>>, k: int) -> Seq<char> {
    stripped(lines[k], CharClass::Space)
}

/// The words on the first `n` of `lines`: one per line, blank lines left out.
pub open spec fn words_among(lines: Seq<Seq<char>>, n: int) -> Set<Seq<char>> {
    Set::new(|w: Seq<char>| w.len() > 0 && exists|k: int| 0 <= k < n && line_word(lines, k) == w)
}

/// The words that a word list holds. The list has one word per line; white
/// space around a word does not belong to it, and blank lines hold none.
pub open spec fn listed_words(data: Seq<char>) -> Set<Seq<char>> {
    let lines = runs(data, CharClass::LineFeed);
    words_among(lines, lines.len() as int)
}

impl Vocabulary {
    /// The empty vocabulary.
    pub fn new() -> (v: Vocabulary)
        ensures
            v@ == Set::<Seq<char>>::empty(),
    {
        Vocabulary { words: StringHashSet::new() }
    }

    /// Adds `word`. Returns whether it was new.
    pub fn insert(&mut self, word: String) -> (fresh: bool)
        ensures
            final(self)@ == old(self)@.insert(word@),
            fresh == !old(self)@.contains(word@),
    {
        self.words.insert(word)
    }

    /// Whether `word` is one of the known words.
    pub fn contains(&self, word: &str) -> (known: bool)
        ensures
            known == self@.contains(word@),
    {
        self.words.contains(word)
    }

    /// Reads a word list: one word per line, surrounding white space and
    /// blank lines ignored.
    pub fn from_lines(data: &str) -> (v: Vocabulary)
        ensures
            v@ == listed_words(data@),
    {
        let lines = split(data, CharClass::LineFeed);
        let mut v = Vocabulary::new();
        let mut i: usize = 0;
        while i < lines.len()
            invariant
                i <= lines.len(),
                lines.deep_view() == runs(data@, CharClass::LineFeed),
                v@ == words_among(lines.deep_view(), i as int),
            decreases lines.len() - i,
        {
            let word = strip(lines[i].as_str(), CharClass::Space);
            let ghost before = v@;
            let ghost w = word@;
            assert(w == line_word(lines.deep_view(), i as int));
            if !word.as_str().is_empty() {
                v.insert(word);
                assert(v@ =~= words_among(lines.deep_view(), i + 1)) by {
                    assert forall|x: Seq<char>|
                        words_among(lines.deep_view(), i + 1).contains(x) implies before.insert(
                        w,
                    ).contains(x) by {
                        let k = choose|k: int|
                            0 <= k < i + 1 && line_word(lines.deep_view(), k) == x;
                        if k < i {
                            assert(words_among(lines.deep_view(), i as int).contains(x));
                        }
                    }
                }
            } else {
                assert(v@ =~= words_among(lines.deep_view(), i + 1)) by {
                    assert forall|x: Seq<char>|
                        words_among(lines.deep_view(), i + 1).contains(x) implies before.contains(
                        x,
                    ) by {
                        let k = choose|k: int|
                            0 <= k < i + 1 && line_word(lines.deep_view(), k) == x;
                        assert(k < i);
                    }
                }
            }
            i += 1;
        }
        v
    }
}

} // verus!
