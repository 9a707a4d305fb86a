//! Breaking the cipher by trying every key.
//!
//! There are 26 keys, so there are 26 candidate plain texts. Each comes
//! with the confidence that was found for it, or with none where the
//! scoring failed; a threshold then decides which candidates are kept.

use vstd::prelude::*;
use crate::decoded::{Candidate, DecodedResult};
use crate::ratio::{is_retained, retained, Ratio};
use crate::rotation::{decrypted, inverse_shift, rotate};
use crate::scoring::{meaningful_ratio, score};
use crate::seq_lemmas::{lemma_filter_all, lemma_filter_empty, lemma_filter_push, lemma_take_push};
use crate::vocabulary::Vocabulary;

verus! {

/// The candidate of `key`: the plain text of `cipher` under that key, with
/// the confidence given.
pub open spec fn candidate(cipher: Seq<char>, key: int, confidence: Option<Ratio>) -> Candidate {
    Candidate { text: decrypted(cipher, key), key, confidence }
}

/// All 26 candidates of `cipher`, by ascending key, where `confidences[k]`
/// is the confidence of the candidate of key `k`.
pub open spec fn candidates(cipher: Seq<char>, confidences: Seq<Option<Ratio>>) -> Seq<Candidate> {
    Seq::new(26, |k: int| candidate(cipher, k, confidences[k]))
}

/// For each key, the confidence of its candidate against the vocabulary.
pub open spec fn wordlist_scores(cipher: Seq<char>, vocabulary: Set<Seq<char>>) -> Seq<
    Option<Ratio>,
> {
    Seq::new(26, |k: int| Some(score(decrypted(cipher, k), vocabulary)))
}

/// The scoring failed for at least one of the 26 keys.
pub open spec fn lacking(scores: Seq<Option<Ratio>>) -> bool {
    exists|k: int| 0 <= k < 26 && (#[trigger] scores[k]) is None
}

/// What holds of every result of a search through the keys of `cipher`:
/// each result is the plain text under its own key, which is one of the 26;
/// the results stand by ascending key; and each passes `threshold`.
pub open spec fn sound_results(
    results: Seq<DecodedResult>,
    cipher: Seq<char>,
    threshold: Option<Ratio>,
) -> bool {
    &&& results.len() <= 26
    &&& forall|i: int|
        0 <= i < results.len() ==> {
            &&& (#[trigger] results[i]).key < 26
            &&& results[i].text@ == decrypted(cipher, results[i].key as int)
            &&& retained(results[i].meaningful_ratio, threshold)
        }
    &&& forall|i: int, j: int|
        0 <= i < j < results.len() ==> (#[trigger] results[i]).key < (#[trigger] results[j]).key
}

/// The test that a candidate passes `threshold`.
pub open spec fn passes(threshold: Option<Ratio>) -> spec_fn(Candidate) -> bool {
    |c: Candidate| retained(c.confidence, threshold)
}

/// Those of `all` that pass `threshold`, in the order in which they stand.
pub open spec fn selected(all: Seq<Candidate>, threshold: Option<Ratio>) -> Seq<Candidate> {
    all.filter(passes(threshold))
}

/// What a search hands back: the candidates it kept, and whether the
/// scoring failed for any key. A caller that warns of a scoring backend out
/// of reach warns where `backend_failed` is set: once for the whole search,
/// however many keys went without a score.
#[derive(Debug)]
pub struct SearchReport {
    pub candidates: Vec<DecodedResult>,
    pub backend_failed: bool,
}

/// Completeness of the key space: there are exactly 26 candidates, and the
/// one at position `k` is the plain text under the key `k`, with the
/// confidence that belongs to that key.
pub proof fn lemma_one_candidate_per_key(cipher: Seq<char>, confidences: Seq<Option<Ratio>>)
    ensures
        candidates(cipher, confidences).len() == 26,
        forall|k: int|
            0 <= k < 26 ==> #[trigger] candidates(cipher, confidences)[k] == candidate(
                cipher,
                k,
                confidences[k],
            ),
{
}

/// Soundness of the filter: every candidate that was selected is one of
/// those that were offered, and it passes the threshold. In particular, where
/// a threshold was given and the confidence of a selected candidate is
/// present, the confidence reaches the threshold.
pub proof fn lemma_selected_sound(all: Seq<Candidate>, threshold: Option<Ratio>)
    ensures
        selected(all, threshold).len() <= all.len(),
        forall|i: int|
            0 <= i < selected(all, threshold).len() ==> all.contains(
                #[trigger] selected(all, threshold)[i],
            ),
        forall|i: int|
            0 <= i < selected(all, threshold).len() ==> retained(
                (#[trigger] selected(all, threshold)[i]).confidence,
                threshold,
            ),
        forall|i: int, c: Ratio, t: Ratio|
            0 <= i < selected(all, threshold).len() && (#[trigger] selected(
                all,
                threshold,
            )[i]).confidence == Some(c) && threshold == Some(t) ==> #[trigger] c.at_least(t),
{
    broadcast use vstd::seq_lib::group_filter_ensures;

    let kept = selected(all, threshold);
    assert forall|i: int| 0 <= i < kept.len() implies all.contains(#[trigger] kept[i]) by {
        all.lemma_filter_contains_rev(passes(threshold), kept[i]);
    }
    assert forall|i: int| 0 <= i < kept.len() implies retained(
        (#[trigger] kept[i]).confidence,
        threshold,
    ) by {
        all.lemma_filter_pred(passes(threshold), i);
    }
}

/// Completeness of the filter: every candidate that passes the threshold is
/// selected. A candidate without a confidence always is.
pub proof fn lemma_selected_complete(all: Seq<Candidate>, threshold: Option<Ratio>)
    ensures
        forall|k: int|
            0 <= k < all.len() && retained(all[k].confidence, threshold) ==> selected(
                all,
                threshold,
            ).contains(#[trigger] all[k]),
        forall|k: int|
            0 <= k < all.len() && all[k].confidence is None ==> selected(all, threshold).contains(
                #[trigger] all[k],
            ),
{
    assert forall|k: int|
        0 <= k < all.len() && retained(all[k].confidence, threshold) implies selected(
        all,
        threshold,
    ).contains(#[trigger] all[k]) by {
        all.lemma_filter_contains(passes(threshold), k);
    }
}

/// Without a threshold nothing is filtered: every candidate is selected.
pub proof fn lemma_no_threshold_selects_all(all: Seq<Candidate>)
    ensures
        selected(all, None) == all,
{
    lemma_filter_all(all, passes(None));
}

/// Whether the scoring failed for at least one key.
pub fn lacks_score(scores: &[Option<Ratio>; 26]) -> (missing: bool)
    ensures
        missing == lacking(scores@),
{
    let mut key: usize = 0;
    while key < 26
        invariant
            key <= 26,
            forall|k: int| 0 <= k < key ==> (#[trigger] scores@[k]) is Some,
        decreases 26 - key,
    {
        if scores[key].is_none() {
            return true;
        }
        key += 1;
    }
    false
}

/// The 26 plain texts of `cipher`, the one under the key `k` at position
/// `k`: what a scoring backend is asked about.
pub fn plain_texts(cipher: &str) -> (out: Vec<String>)
    ensures
        out.len() == 26,
        forall|k: int| 0 <= k < 26 ==> (#[trigger] out[k])@ == decrypted(cipher@, k),
{
    let mut out: Vec<String> = Vec::new();
    let mut key: u8 = 0;
    while key < 26
        invariant
            key <= 26,
            out.len() == key,
            forall|k: int| 0 <= k < key ==> (#[trigger] out[k])@ == decrypted(cipher@, k),
        decreases 26 - key,
    {
        out.push(rotate(cipher, inverse_shift(key as i8)));
        key += 1;
    }
    out
}

/// Scores each of the 26 plain texts of `cipher` against `wordlist`.
pub fn wordlist_confidences(cipher: &str, wordlist: &Vocabulary) -> (scores: [Option<Ratio>; 26])
    ensures
        scores@ == wordlist_scores(cipher@, wordlist@),
{
    let mut scores: [Option<Ratio>; 26] = [None; 26];
    let mut key: u8 = 0;
    while key < 26
        invariant
            key <= 26,
            forall|k: int|
                0 <= k < key ==> (#[trigger] scores@[k]) == Some(
                    score(decrypted(cipher@, k), wordlist@),
                ),
        decreases 26 - key,
    {
        let text = rotate(cipher, inverse_shift(key as i8));
        scores[key as usize] = Some(meaningful_ratio(text.as_str(), wordlist));
        key += 1;
    }
    assert(scores@ =~= wordlist_scores(cipher@, wordlist@));
    scores
}

/// The candidates of `cipher` that pass `threshold`, by ascending key,
/// where `scores[k]` is the confidence that was found for the candidate of
/// key `k`, or `None` where none could be had.
pub fn candidates_by_scores(cipher: &str, scores: &[Option<Ratio>; 26], threshold: Option<Ratio>) -> (out:
    Vec<DecodedResult>)
    ensures
        out.deep_view() == selected(candidates(cipher@, scores@), threshold),
        sound_results(out@, cipher@, threshold),
        forall|i: int|
            0 <= i < out.len() ==> (#[trigger] out[i]).meaningful_ratio == scores@[out[i].key as int],
{
    let ghost all = candidates(cipher@, scores@);
    let mut out: Vec<DecodedResult> = Vec::new();
    let mut key: u8 = 0;
    proof {
        lemma_filter_empty::<Candidate>(passes(threshold));
        assert(all.take(0) =~= Seq::<Candidate>::empty());
        assert(out.deep_view() =~= Seq::<Candidate>::empty());
    }
    while key < 26
        invariant
            key <= 26,
            all == candidates(cipher@, scores@),
            out.deep_view() == selected(all.take(key as int), threshold),
            sound_results(out@, cipher@, threshold),
            forall|i: int| 0 <= i < out.len() ==> (#[trigger] out[i]).key < key,
            forall|i: int|
                0 <= i < out.len() ==> (#[trigger] out[i]).meaningful_ratio
                    == scores@[out[i].key as int],
        decreases 26 - key,
    {
        let ratio = scores[key as usize];
        proof {
            lemma_take_push(all, key as int);
            lemma_filter_push(all.take(key as int), all[key as int], passes(threshold));
        }
        if is_retained(ratio, threshold) {
            let text = rotate(cipher, inverse_shift(key as i8));
            let found = DecodedResult { text, key, meaningful_ratio: ratio };
            let ghost before = out.deep_view();
            out.push(found);
            assert(out.deep_view() =~= before.push(found@));
        }
        key += 1;
    }
    assert(all.take(26) =~= all);
    out
}

/// Every candidate of `cipher`: exactly 26, the one at position `k` being
/// the plain text under the key `k` with the confidence `scores[k]`.
pub fn all_candidates(cipher: &str, scores: &[Option<Ratio>; 26]) -> (out: Vec<DecodedResult>)
    ensures
        out.deep_view() == candidates(cipher@, scores@),
        out.len() == 26,
        forall|k: int|
            0 <= k < 26 ==> {
                &&& (#[trigger] out[k]).key == k
                &&& out[k].text@ == decrypted(cipher@, k)
                &&& out[k].meaningful_ratio == scores@[k]
            },
{
    let out = candidates_by_scores(cipher, scores, None);
    proof {
        lemma_no_threshold_selects_all(candidates(cipher@, scores@));
        assert(out.deep_view().len() == 26);
        assert forall|k: int| 0 <= k < 26 implies {
            &&& (#[trigger] out[k]).key == k
            &&& out[k].text@ == decrypted(cipher@, k)
            &&& out[k].meaningful_ratio == scores@[k]
        } by {
            assert(out.deep_view()[k] == candidates(cipher@, scores@)[k]);
        }
    }
    out
}

/// A whole search: the candidates of `cipher` that pass `threshold`, and
/// whether any key went without a score.
pub fn search(cipher: &str, scores: &[Option<Ratio>; 26], threshold: Option<Ratio>) -> (report:
    SearchReport)
    ensures
        report.candidates.deep_view() == selected(candidates(cipher@, scores@), threshold),
        sound_results(report.candidates@, cipher@, threshold),
        forall|i: int|
            0 <= i < report.candidates.len() ==> (#[trigger] report.candidates[i]).meaningful_ratio
                == scores@[report.candidates[i].key as int],
        report.backend_failed == lacking(scores@),
{
    let candidates = candidates_by_scores(cipher, scores, threshold);
    let backend_failed = lacks_score(scores);
    SearchReport { candidates, backend_failed }
}

} // verus!
