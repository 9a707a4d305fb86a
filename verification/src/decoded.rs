//! What a decryption attempt yields.

use vstd::prelude::*;
use crate::ratio::Ratio;

verus! {

/// The outcome of decrypting under one key.
#[derive(Debug)]
pub struct DecodedResult {
    /// The text that the key produced.
    pub text: String,
    /// The key that produced it.
    pub key: u8,
    /// The share of the words of `text` that are known, if the text was
    /// scored. `None` says that no score could be had, which is not the
    /// same as a score of 0.
    pub meaningful_ratio: Option<Ratio>,
}

/// A decoded result as a mathematical value.
pub struct Candidate {
    pub text: Seq<char>,
    pub key: int,
    pub confidence: Option<Ratio>,
}

impl View for DecodedResult {
    type V = Candidate;

    open spec fn view(&self) -> Candidate {
        Candidate { text: self.text@, key: self.key as int, confidence: self.meaningful_ratio }
    }
}

impl DeepView for DecodedResult {
    type V = Candidate;

    open spec fn deep_view(&self) -> Candidate {
        self@
    }
}

} // verus!
