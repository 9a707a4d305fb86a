//! The first shape of the cipher: an object with a plain text and an
//! encoded text, and one small trait for each thing it can do.

use vstd::prelude::*;
use crate::analysis::{candidates, lacking, search, selected, sound_results, SearchReport};
use crate::ratio::Ratio;
use crate::rotation::{decrypted, encrypted, transform, Direction};

verus! {

/// A cipher that holds a plain text to encode and an encoded text to decode.
pub struct CeasarCipher {
    plain: String,
    encoded_text: String,
}

/// Encoding the text that a value holds.
pub trait Encode {
    /// What `encode` returns under `key`.
    spec fn encoded(&self, key: int) -> Seq<char>;

    /// Encodes the held text under `key`.
    fn encode(&self, key: i8) -> (out: String)
        ensures
            out@ == self.encoded(key as int),
    ;
}

/// Decoding the text that a value holds.
pub trait Decode {
    /// What `decode` returns under `key`.
    spec fn decoded(&self, key: int) -> Seq<char>;

    /// Decodes the held text under `key`.
    fn decode(&self, key: i8) -> (out: String)
        ensures
            out@ == self.decoded(key as int),
    ;
}

/// Recovering the text that a value holds in encoded form, without the key.
pub trait BruteForce {
    /// The encoded text that the search works on.
    spec fn target(&self) -> Seq<char>;

    /// Tries all 26 keys and reports the candidates that are at least half
    /// made of known words, by ascending key, and whether the scoring
    /// failed for any key.
    ///
    /// `scores[k]` is the confidence that the scoring backend gave for the
    /// candidate of key `k`, or `None` where it could not be consulted. A
    /// candidate without a confidence is kept.
    fn brute_force(&self, scores: &[Option<Ratio>; 26]) -> (report: SearchReport)
        ensures
            report.candidates.deep_view() == selected(
                candidates(self.target(), scores@),
                Some(one_half()),
            ),
            sound_results(report.candidates@, self.target(), Some(one_half())),
            report.backend_failed == lacking(scores@),
    ;
}

/// The threshold that `brute_force` applies: one half.
pub open spec fn one_half() -> Ratio {
    Ratio { numerator: 1, denominator: 2 }
}

impl CeasarCipher {
    /// The plain text that the cipher holds.
    pub closed spec fn plain(&self) -> Seq<char> {
        self.plain@
    }

    /// The encoded text that the cipher holds.
    pub closed spec fn encoded_text(&self) -> Seq<char> {
        self.encoded_text@
    }

    /// A cipher that holds no text.
    pub fn new() -> (cipher: Self)
        ensures
            cipher.plain().len() == 0,
            cipher.encoded_text().len() == 0,
    {
        Self { plain: String::new(), encoded_text: String::new() }
    }

    /// Replaces the plain text.
    pub fn set_plain(&mut self, new_plain: String)
        ensures
            final(self).plain() == new_plain@,
            final(self).encoded_text() == old(self).encoded_text(),
    {
        self.plain = new_plain;
    }

    /// Replaces the encoded text.
    pub fn set_encoded_text(&mut self, new_encoded_text: String)
        ensures
            final(self).plain() == old(self).plain(),
            final(self).encoded_text() == new_encoded_text@,
    {
        self.encoded_text = new_encoded_text;
    }

    /// A copy of the plain text.
    pub fn get_plain(&self) -> (text: String)
        ensures
            text@ == self.plain(),
    {
        self.plain.clone()
    }

    /// A copy of the encoded text.
    pub fn get_encoded_text(&self) -> (text: String)
        ensures
            text@ == self.encoded_text(),
    {
        self.encoded_text.clone()
    }
}

impl Encode for CeasarCipher {
    open spec fn encoded(&self, key: int) -> Seq<char> {
        encrypted(self.plain(), key)
    }

    /// Encrypts the plain text under `key`. The cipher keeps what it held.
    fn encode(&self, key: i8) -> (out: String) {
        transform(self.plain.as_str(), key, Direction::Forward)
    }
}

impl Decode for CeasarCipher {
    open spec fn decoded(&self, key: int) -> Seq<char> {
        decrypted(self.encoded_text(), key)
    }

    /// Decrypts the encoded text under `key`. The cipher keeps what it held.
    fn decode(&self, key: i8) -> (out: String) {
        transform(self.encoded_text.as_str(), key, Direction::Inverse)
    }
}

impl BruteForce for CeasarCipher {
    open spec fn target(&self) -> Seq<char> {
        self.encoded_text()
    }

    fn brute_force(&self, scores: &[Option<Ratio>; 26]) -> (report: SearchReport)
        ensures
            forall|i: int|
                0 <= i < report.candidates.len() ==> (#[trigger] report.candidates[i]).meaningful_ratio
                    == scores@[report.candidates[i].key as int],
    {
        search(self.encoded_text.as_str(), scores, Some(Ratio { numerator: 1, denominator: 2 }))
    }
}

} // verus!
