//! What ciphers and codecs have in common.

use vstd::prelude::*;
use crate::analysis::{lacking, selected, SearchReport};
use crate::decoded::{Candidate, DecodedResult};
use crate::ratio::{applied, Ratio};
use crate::vocabulary::Vocabulary;

verus! {

/// A cipher that turns text into text under a key it holds, and back.
pub trait ClassicalCipher {
    /// What `encrypt` makes of `input`.
    spec fn encrypted(&self, input: Seq<char>) -> Seq<char>;

    /// What `decrypt` makes of `input`.
    spec fn decrypted(&self, input: Seq<char>) -> Seq<char>;

    /// A cipher can be undone: decrypting what was encrypted gives the
    /// text back.
    proof fn lemma_reversible(&self, input: Seq<char>)
        ensures
            self.decrypted(self.encrypted(input)) == input,
    ;

    /// Encrypts `input`.
    fn encrypt(&self, input: &str) -> (out: String)
        ensures
            out@ == self.encrypted(input@),
    ;

    /// Decrypts `input`.
    fn decrypt(&self, input: &str) -> (out: String)
        ensures
            out@ == self.decrypted(input@),
    ;
}

/// Recovering a plain text without the key, by trying all keys.
pub trait BruteForce: Sized {
    /// Every attempt at `input`, one per key, each scored against
    /// `vocabulary`, before any threshold is applied.
    spec fn attempts(&self, input: Seq<char>, vocabulary: Set<Seq<char>>) -> Seq<Candidate>;

    /// The attempts at `input` that pass `threshold`, each scored against
    /// `wordlist`. A threshold above 1 counts as the threshold 0, so that
    /// every attempt comes back. The cipher itself is left as it was.
    fn bruteforce(&mut self, input: &str, threshold: Option<Ratio>, wordlist: &Vocabulary) -> (out:
        Vec<DecodedResult>)
        ensures
            out.deep_view() == selected(
                old(self).attempts(input@, wordlist@),
                applied(threshold),
            ),
            *final(self) == *old(self),
    ;
}

/// Recovering a plain text without the key, with confidences that a word
/// frequency service outside this crate has reported.
pub trait PyBruteForce {
    /// Every attempt at `input`, one per key, where `scores[k]` is the
    /// confidence reported for the key `k`, before any threshold is applied.
    spec fn py_attempts(&self, input: Seq<char>, scores: Seq<Option<Ratio>>) -> Seq<Candidate>;

    /// The attempts at `input` that pass `threshold`, and whether the
    /// service failed for any key. `scores[k]` is the confidence that the
    /// service gave for the attempt of key `k`, or `None` where it could
    /// not be consulted. A threshold above 1 counts as the threshold 0.
    fn py_bruteforce(&self, input: &str, threshold: Option<Ratio>, scores: &[Option<Ratio>; 26]) -> (report:
        SearchReport)
        ensures
            report.candidates.deep_view() == selected(
                self.py_attempts(input@, scores@),
                applied(threshold),
            ),
            report.backend_failed == lacking(scores@),
    ;
}

/// An encoding of text as text.
pub trait Codec {
    /// What `encode` makes of `input`.
    spec fn encoded(&self, input: Seq<char>) -> Seq<char>;

    /// What `decode` makes of `input`.
    spec fn decoded(&self, input: Seq<char>) -> Seq<char>;

    /// Encodes `input`.
    fn encode(&self, input: &str) -> (out: String)
        ensures
            out@ == self.encoded(input@),
    ;

    /// Decodes `input`.
    fn decode(&self, input: &str) -> (out: String)
        ensures
            out@ == self.decoded(input@),
    ;
}

} // verus!
