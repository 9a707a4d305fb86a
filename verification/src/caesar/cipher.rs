//! The Caesar cipher as an object that keeps the texts it works on.

use vstd::prelude::*;
use crate::analysis::{
    all_candidates, candidates, lacking, search, selected, sound_results, SearchReport,
};
use crate::caesar::caesar_fn::{key_as_byte, key_byte};
use crate::decoded::DecodedResult;
use crate::ratio::Ratio;
use crate::rotation::{decrypted, encrypted, transform, Direction};

verus! {

/// A cipher with two buffers: a plain text to encrypt and a cipher text to
/// decrypt.
pub struct CaesarCipher {
    plain: String,
    encrypted_text: String,
}

impl CaesarCipher {
    /// The plain text that the cipher holds.
    pub closed spec fn plain(&self) -> Seq<char> {
        self.plain@
    }

    /// The cipher text that the cipher holds.
    pub closed spec fn encrypted_text(&self) -> Seq<char> {
        self.encrypted_text@
    }

    /// A cipher that holds no text.
    pub fn new() -> (cipher: Self)
        ensures
            cipher.plain().len() == 0,
            cipher.encrypted_text().len() == 0,
    {
        Self { plain: String::new(), encrypted_text: String::new() }
    }

    /// A cipher that holds the given cipher text and no plain text.
    pub fn from_encrypted(encrypted_text: String) -> (cipher: Self)
        ensures
            cipher.plain().len() == 0,
            cipher.encrypted_text() == encrypted_text@,
    {
        Self { plain: String::new(), encrypted_text }
    }

    /// A cipher that holds the given plain text and no cipher text.
    pub fn from_plain(plain: String) -> (cipher: Self)
        ensures
            cipher.plain() == plain@,
            cipher.encrypted_text().len() == 0,
    {
        Self { plain, encrypted_text: String::new() }
    }

    /// Replaces the plain text and hands the cipher back for the next call.
    pub fn set_plain(&mut self, new_plain: String) -> (cipher: &mut Self)
        ensures
            cipher.plain() == new_plain@,
            cipher.encrypted_text() == old(self).encrypted_text(),
            *final(self) == *final(cipher),
    {
        self.plain = new_plain;
        self
    }

    /// Replaces the cipher text and hands the cipher back for the next call.
    pub fn set_encrypted_text(&mut self, new_encrypted_text: String) -> (cipher: &mut Self)
        ensures
            cipher.plain() == old(self).plain(),
            cipher.encrypted_text() == new_encrypted_text@,
            *final(self) == *final(cipher),
    {
        self.encrypted_text = new_encrypted_text;
        self
    }

    /// A copy of the plain text.
    pub fn get_plain(&self) -> (text: String)
        ensures
            text@ == self.plain(),
    {
        self.plain.clone()
    }

    /// A copy of the cipher text.
    pub fn get_encrypted_text(&self) -> (text: String)
        ensures
            text@ == self.encrypted_text(),
    {
        self.encrypted_text.clone()
    }

    /// Encrypts the plain text under `key`, keeps the result as the cipher
    /// text, and returns a copy of it.
    ///
    /// Where there is no plain text there is nothing to encrypt: the result
    /// is empty and the cipher stays as it is, with or without a key.
    /// Otherwise a key is required.
    pub fn encrypt(&mut self, key: Option<i8>) -> (out: String)
        requires
            old(self).plain().len() > 0 ==> key is Some,
        ensures
            old(self).plain().len() == 0 ==> out@.len() == 0 && *final(self) == *old(self),
            old(self).plain().len() > 0 ==> {
                &&& out@ == encrypted(old(self).plain(), key->0 as int)
                &&& final(self).plain() == old(self).plain()
                &&& final(self).encrypted_text() == out@
            },
    {
        if self.plain.as_str().is_empty() {
            return String::new();
        }
        let k: i8 = key.unwrap();
        let out = transform(self.plain.as_str(), k, Direction::Forward);
        self.encrypted_text = out.clone();
        out
    }

    /// Decrypts the cipher text under `key`, which is required.
    ///
    /// `confidence` is what the scoring backend answered for the plain
    /// text, or `None` where it could not be consulted; the result carries
    /// it as it is.
    pub fn decrypt(&self, key: Option<i8>, confidence: Option<Ratio>) -> (out: DecodedResult)
        requires
            key is Some,
        ensures
            out.text@ == decrypted(self.encrypted_text(), key->0 as int),
            out.key == key_byte(key->0 as int),
            out.meaningful_ratio == confidence,
    {
        let k: i8 = key.unwrap();
        let text = transform(self.encrypted_text.as_str(), k, Direction::Inverse);
        DecodedResult { text, key: key_as_byte(k), meaningful_ratio: confidence }
    }

    /// Tries all 26 keys on the cipher text and reports the candidates that
    /// pass `threshold`, by ascending key, and whether the scoring failed
    /// for any key.
    ///
    /// `scores[k]` is the confidence that the scoring backend gave for the
    /// candidate of key `k`, or `None` where it could not be consulted. A
    /// candidate without a confidence is kept whatever the threshold. The
    /// threshold is applied as it is given.
    pub fn brute_force(&self, scores: &[Option<Ratio>; 26], threshold: Option<Ratio>) -> (report:
        SearchReport)
        ensures
            report.candidates.deep_view() == selected(
                candidates(self.encrypted_text(), scores@),
                threshold,
            ),
            sound_results(report.candidates@, self.encrypted_text(), threshold),
            forall|i: int|
                0 <= i < report.candidates.len() ==> (#[trigger] report.candidates[i]).meaningful_ratio
                    == scores@[report.candidates[i].key as int],
            report.backend_failed == lacking(scores@),
    {
        search(self.encrypted_text.as_str(), scores, threshold)
    }

    /// Tries all 26 keys on the cipher text and returns every candidate, by
    /// ascending key, each with the confidence `scores[k]` of its key `k`.
    pub fn brute_force_all(&self, scores: &[Option<Ratio>; 26]) -> (out: Vec<DecodedResult>)
        ensures
            out.deep_view() == candidates(self.encrypted_text(), scores@),
            out.len() == 26,
            forall|k: int|
                0 <= k < 26 ==> {
                    &&& (#[trigger] out[k]).key == k
                    &&& out[k].text@ == decrypted(self.encrypted_text(), k)
                    &&& out[k].meaningful_ratio == scores@[k]
                },
    {
        all_candidates(self.encrypted_text.as_str(), scores)
    }
}

} // verus!
