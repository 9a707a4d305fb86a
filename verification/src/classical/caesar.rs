//! The Caesar cipher as a value that holds its key.

use vstd::prelude::*;
use crate::analysis::{
    candidates, candidates_by_scores, search, sound_results, wordlist_confidences,
    wordlist_scores, SearchReport,
};
use crate::analysis::passes;
use crate::scoring::score;
use crate::seq_lemmas::lemma_filter_all;
use crate::decoded::{Candidate, DecodedResult};
use crate::ratio::{apply_threshold, applied, Ratio};
use crate::rotation::{lemma_round_trip, transform, Direction};
use crate::traits::{BruteForce, ClassicalCipher, PyBruteForce};
use crate::vocabulary::Vocabulary;

verus! {

/// A Caesar cipher with a fixed key. Any key is accepted; keys that differ
/// by a multiple of 26 do the same.
pub struct CaesarCipher {
    key: i8,
}

impl View for CaesarCipher {
    type V = int;

    /// The key.
    closed spec fn view(&self) -> int {
        self.key as int
    }
}

impl CaesarCipher {
    /// A cipher with the key 0, which changes nothing.
    pub fn new() -> (cipher: Self)
        ensures
            cipher@ == 0,
    {
        Self { key: 0 }
    }

    /// A cipher with the given key.
    pub fn from_key(key: i8) -> (cipher: Self)
        ensures
            cipher@ == key,
    {
        Self { key }
    }

    /// Replaces the key.
    pub fn set_key(&mut self, key: i8)
        ensures
            final(self)@ == key,
    {
        self.key = key;
    }
}

impl ClassicalCipher for CaesarCipher {
    open spec fn encrypted(&self, input: Seq<char>) -> Seq<char> {
        crate::rotation::encrypted(input, self@)
    }

    open spec fn decrypted(&self, input: Seq<char>) -> Seq<char> {
        crate::rotation::decrypted(input, self@)
    }

    proof fn lemma_reversible(&self, input: Seq<char>) {
        lemma_round_trip(input, self@);
    }

    /// Rotates every letter of `input` forward by the key.
    fn encrypt(&self, input: &str) -> (out: String) {
        transform(input, self.key, Direction::Forward)
    }

    /// Rotates every letter of `input` backward by the key.
    fn decrypt(&self, input: &str) -> (out: String) {
        transform(input, self.key, Direction::Inverse)
    }
}

impl BruteForce for CaesarCipher {
    open spec fn attempts(&self, input: Seq<char>, vocabulary: Set<Seq<char>>) -> Seq<Candidate> {
        candidates(input, wordlist_scores(input, vocabulary))
    }

    /// Decrypts `input` under each of the 26 keys, scores each plain text
    /// against `wordlist`, and returns those that pass `threshold`, by
    /// ascending key. A threshold above 1 counts as the threshold 0: all 26
    /// plain texts then come back. The key of the cipher itself plays no
    /// part.
    fn bruteforce(&mut self, input: &str, threshold: Option<Ratio>, wordlist: &Vocabulary) -> (out:
        Vec<DecodedResult>)
        ensures
            sound_results(out@, input@, applied(threshold)),
            threshold matches Some(t) && t.in_unit_range() ==> sound_results(
                out@,
                input@,
                threshold,
            ),
            threshold matches Some(t) && !t.in_unit_range() ==> out.len() == 26,
            threshold is None ==> out.len() == 26,
            forall|i: int|
                0 <= i < out.len() ==> (#[trigger] out[i]).meaningful_ratio == Some(
                    score(out[i].text@, wordlist@),
                ),
    {
        let scores = wordlist_confidences(input, wordlist);
        let out = candidates_by_scores(input, &scores, apply_threshold(threshold));
        proof {
            let all = candidates(input@, wordlist_scores(input@, wordlist@));
            if applied(threshold) is None || applied(threshold) == Some(
                Ratio { numerator: 0, denominator: 1 },
            ) {
                assert forall|i: int| 0 <= i < all.len() implies passes(applied(threshold))(
                    #[trigger] all[i],
                ) by {
                    let c = all[i].confidence->0;
                    assert(c.top() * 1 >= 0 * c.bottom());
                }
                lemma_filter_all(all, passes(applied(threshold)));
                assert(out.deep_view().len() == 26);
            }
        }
        out
    }
}

impl PyBruteForce for CaesarCipher {
    open spec fn py_attempts(&self, input: Seq<char>, scores: Seq<Option<Ratio>>) -> Seq<
        Candidate,
    > {
        candidates(input, scores)
    }

    /// Decrypts `input` under each of the 26 keys and reports the plain
    /// texts that pass `threshold`, by ascending key, each with the
    /// confidence reported for its key, and whether the service failed for
    /// any key. A plain text without a confidence is kept whatever the
    /// threshold. A threshold above 1 counts as the threshold 0. The key of
    /// the cipher itself plays no part.
    fn py_bruteforce(&self, input: &str, threshold: Option<Ratio>, scores: &[Option<Ratio>; 26]) -> (report:
        SearchReport)
        ensures
            sound_results(report.candidates@, input@, applied(threshold)),
            forall|i: int|
                0 <= i < report.candidates.len() ==> (#[trigger] report.candidates[i]).meaningful_ratio
                    == scores@[report.candidates[i].key as int],
    {
        search(input, scores, apply_threshold(threshold))
    }
}

} // verus!
