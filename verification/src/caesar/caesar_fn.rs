//! The Caesar cipher as plain functions.
//!
//! Scoring a plain text is not the business of these functions: a caller
//! that has a scoring backend asks it about the plain texts (see
//! `plain_texts`) and hands in what it answered.

use vstd::prelude::*;
use crate::analysis::{
    all_candidates, candidates, lacking, search, selected, sound_results, SearchReport,
};
use crate::decoded::DecodedResult;
use crate::ratio::Ratio;
use crate::rotation::{decrypted, encrypted, keeps_shape, transform, Direction};

verus! {

/// What a key is recorded as in a decoded result: itself where it is not
/// negative, and 256 more where it is.
pub open spec fn key_byte(key: int) -> int {
    if key < 0 {
        key + 256
    } else {
        key
    }
}

/// Records `key` as a byte.
pub fn key_as_byte(key: i8) -> (byte: u8)
    ensures
        byte == key_byte(key as int),
{
    if key < 0 {
        (key as i16 + 256) as u8
    } else {
        key as u8
    }
}

/// Encrypts `text` under `key`: every ASCII letter moves `key` places
/// forward within the alphabet of its case, all else stays.
pub fn encrypt(text: &str, key: i8) -> (out: String)
    ensures
        out@ == encrypted(text@, key as int),
        keeps_shape(text@, out@),
        key == 0 ==> out@ == text@,
{
    transform(text, key, Direction::Forward)
}

/// Decrypts `cipher_text` under `key`.
///
/// `confidence` is what the scoring backend answered for the plain text, or
/// `None` where it could not be consulted; the result carries it as it is.
pub fn decrypt(cipher_text: &str, key: i8, confidence: Option<Ratio>) -> (out: DecodedResult)
    ensures
        out.text@ == decrypted(cipher_text@, key as int),
        keeps_shape(cipher_text@, out.text@),
        out.key == key_byte(key as int),
        out.meaningful_ratio == confidence,
{
    let text = transform(cipher_text, key, Direction::Inverse);
    DecodedResult { text, key: key_as_byte(key), meaningful_ratio: confidence }
}

/// Tries all 26 keys on `cipher_text` and reports the candidates that pass
/// `threshold`, by ascending key, and whether the scoring failed for any
/// key.
///
/// `scores[k]` is the confidence that the scoring backend gave for the
/// candidate of key `k`, or `None` where it could not be consulted. A
/// candidate without a confidence is kept whatever the threshold. The
/// threshold is applied as it is given.
pub fn brute_force(cipher_text: &str, scores: &[Option<Ratio>; 26], threshold: Option<Ratio>) -> (report:
    SearchReport)
    ensures
        report.candidates.deep_view() == selected(candidates(cipher_text@, scores@), threshold),
        sound_results(report.candidates@, cipher_text@, threshold),
        forall|i: int|
            0 <= i < report.candidates.len() ==> (#[trigger] report.candidates[i]).meaningful_ratio
                == scores@[report.candidates[i].key as int],
        report.backend_failed == lacking(scores@),
{
    search(cipher_text, scores, threshold)
}

/// Tries all 26 keys on `cipher_text` and returns every candidate, by
/// ascending key, each with the confidence `scores[k]` of its key `k`. No
/// candidate is dropped, whatever its confidence and whether it has one.
pub fn brute_force_all(cipher_text: &str, scores: &[Option<Ratio>; 26]) -> (out: Vec<DecodedResult>)
    ensures
        out.deep_view() == candidates(cipher_text@, scores@),
        out.len() == 26,
        forall|k: int|
            0 <= k < 26 ==> {
                &&& (#[trigger] out[k]).key == k
                &&& out[k].text@ == decrypted(cipher_text@, k)
                &&& out[k].meaningful_ratio == scores@[k]
            },
{
    all_candidates(cipher_text, scores)
}

} // verus!
