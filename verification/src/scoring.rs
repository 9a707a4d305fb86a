//! Scoring a candidate text: which share of its words is known?
//!
//! A text is cut into words at white space. What is left of a word after
//! everything but letters is taken from its two ends, in lower case, is a
//! token; words of which nothing is left give none. The confidence of a
//! text is the number of its tokens that the vocabulary holds over the
//! number of its tokens.

use vstd::prelude::*;
use crate::ratio::Ratio;
use crate::seq_lemmas::{lemma_filter_empty, lemma_filter_push, lemma_take_push};
use crate::text::{
    chars_of, is_ascii_letter, is_letter, lowered, runs, split, strip, stripped, to_lower,
    CharClass,
};
use crate::vocabulary::Vocabulary;

verus! {

/// What a word is looked up as: the word without the characters at its two
/// ends that are no ASCII letters, in lower case.
pub open spec fn token_of(word: Seq<char>) -> Seq<char> {
    lowered(stripped(word, CharClass::NonLetter))
}

/// The test that a token has at least one character.
pub open spec fn not_empty() -> spec_fn(Seq<char>) -> bool {
    |t: Seq<char>| t.len() > 0
}

/// The test that the vocabulary holds a token.
pub open spec fn known_in(vocabulary: Set<Seq<char>>) -> spec_fn(Seq<char>) -> bool {
    |t: Seq<char>| vocabulary.contains(t)
}

/// The tokens of a sequence of words, in order.
pub open spec fn tokens_of(words: Seq<Seq<char>>) -> Seq<Seq<char>> {
    words.map_values(|w: Seq<char>| token_of(w)).filter(not_empty())
}

/// The tokens of a text, in order.
pub open spec fn tokens(text: Seq<char>) -> Seq<Seq<char>> {
    tokens_of(runs(text, CharClass::Space))
}

/// Those of `tokens` that the vocabulary holds, in order and as often as
/// they occur.
pub open spec fn known_tokens(tokens: Seq<Seq<char>>, vocabulary: Set<Seq<char>>) -> Seq<
    Seq<char>,
> {
    tokens.filter(known_in(vocabulary))
}

/// The confidence of `text` against `vocabulary`: its known tokens over its
/// tokens. A text without tokens has the confidence 0 over 0, which counts
/// as 0.
pub open spec fn score(text: Seq<char>, vocabulary: Set<Seq<char>>) -> Ratio {
    Ratio {
        numerator: known_tokens(tokens(text), vocabulary).len() as u64,
        denominator: tokens(text).len() as u64,
    }
}

/// The tokens of the first `i + 1` words are those of the first `i` words,
/// followed by the token of word `i` unless it is empty.
proof fn lemma_tokens_of_step(words: Seq<Seq<char>>, i: int)
    requires
        0 <= i < words.len(),
    ensures
        tokens_of(words.take(i + 1)) == if token_of(words[i]).len() > 0 {
            tokens_of(words.take(i)).push(token_of(words[i]))
        } else {
            tokens_of(words.take(i))
        },
{
    let f = |w: Seq<char>| token_of(w);
    lemma_take_push(words, i);
    assert(words.take(i + 1).map_values(f) =~= words.take(i).map_values(f).push(
        token_of(words[i]),
    ));
    lemma_filter_push(words.take(i).map_values(f), token_of(words[i]), not_empty());
}

/// Cuts `text` into its tokens.
pub fn tokenize(text: &str) -> (out: Vec<String>)
    ensures
        out.deep_view() == tokens(text@),
        forall|i: int| 0 <= i < out.len() ==> (#[trigger] out[i])@.len() > 0,
{
    let words = split(text, CharClass::Space);
    let mut out: Vec<String> = Vec::new();
    let mut i: usize = 0;
    proof {
        lemma_filter_empty::<Seq<char>>(not_empty());
        assert(words.deep_view().take(0).map_values(|w: Seq<char>| token_of(w)) =~= Seq::<
            Seq<char>,
        >::empty());
        assert(out.deep_view() =~= Seq::<Seq<char>>::empty());
    }
    while i < words.len()
        invariant
            i <= words.len(),
            words.deep_view() == runs(text@, CharClass::Space),
            out.deep_view() == tokens_of(words.deep_view().take(i as int)),
            forall|k: int| 0 <= k < out.len() ==> (#[trigger] out[k])@.len() > 0,
        decreases words.len() - i,
    {
        let core = strip(words[i].as_str(), CharClass::NonLetter);
        let token = to_lower(core.as_str());
        proof {
            assert(token@ == token_of(words.deep_view()[i as int]));
            lemma_tokens_of_step(words.deep_view(), i as int);
        }
        if !token.as_str().is_empty() {
            let ghost before = out.deep_view();
            out.push(token);
            assert(out.deep_view() =~= before.push(token@));
        }
        i += 1;
    }
    assert(words.deep_view().take(words.len() as int) =~= words.deep_view());
    out
}

/// Scores `text` against the word list.
///
/// The numerator of the result is the number of tokens of `text` that the
/// word list holds, the denominator the number of its tokens.
pub fn meaningful_ratio(text: &str, wordlist: &Vocabulary) -> (ratio: Ratio)
    ensures
        ratio == score(text@, wordlist@),
        ratio.numerator == known_tokens(tokens(text@), wordlist@).len(),
        ratio.denominator == tokens(text@).len(),
        ratio.numerator <= ratio.denominator,
{
    let found = tokenize(text);
    let mut hits: usize = 0;
    let mut i: usize = 0;
    proof {
        lemma_filter_empty::<Seq<char>>(known_in(wordlist@));
        assert(found.deep_view().take(0) =~= Seq::<Seq<char>>::empty());
    }
    while i < found.len()
        invariant
            i <= found.len(),
            hits <= i,
            hits == known_tokens(found.deep_view().take(i as int), wordlist@).len(),
        decreases found.len() - i,
    {
        proof {
            lemma_take_push(found.deep_view(), i as int);
            lemma_filter_push(
                found.deep_view().take(i as int),
                found.deep_view()[i as int],
                known_in(wordlist@),
            );
        }
        if wordlist.contains(found[i].as_str()) {
            hits += 1;
        }
        i += 1;
    }
    assert(found.deep_view().take(found.len() as int) =~= found.deep_view());
    Ratio::new(hits as u64, found.len() as u64)
}

/// `t` is a word as a frequency list knows words: not empty, and made of
/// ASCII letters alone.
pub open spec fn is_plain_word(t: Seq<char>) -> bool {
    t.len() > 0 && forall|i: int| 0 <= i < t.len() ==> is_letter(#[trigger] t[i])
}

/// The test `is_plain_word`.
pub open spec fn plain_word() -> spec_fn(Seq<char>) -> bool {
    |t: Seq<char>| is_plain_word(t)
}

/// Those of `raw`, in lower case, that are plain words, in order.
pub open spec fn plain_words(raw: Seq<Seq<char>>) -> Seq<Seq<char>> {
    raw.map_values(|t: Seq<char>| lowered(t)).filter(plain_word())
}

/// How many of `answers` are `true`.
pub open spec fn hits(answers: Seq<bool>) -> nat {
    answers.filter(|b: bool| b).len()
}

/// Tests whether `token` is a plain word.
pub fn is_word(token: &str) -> (b: bool)
    ensures
        b == is_plain_word(token@),
{
    let chars = chars_of(token);
    if chars.len() == 0 {
        return false;
    }
    let mut i: usize = 0;
    while i < chars.len()
        invariant
            chars@ == token@,
            i <= chars.len(),
            forall|j: int| 0 <= j < i ==> is_letter(#[trigger] token@[j]),
        decreases chars.len() - i,
    {
        if !is_ascii_letter(chars[i]) {
            return false;
        }
        i += 1;
    }
    true
}

/// Prepares the tokens that a tokenizer outside this crate has cut for
/// being looked up one by one: puts each in lower case and keeps those that
/// are plain words.
pub fn alphabetic_tokens(raw: &Vec<String>) -> (out: Vec<String>)
    ensures
        out.deep_view() == plain_words(raw.deep_view()),
{
    let mut out: Vec<String> = Vec::new();
    let mut i: usize = 0;
    let ghost f = |t: Seq<char>| lowered(t);
    proof {
        lemma_filter_empty::<Seq<char>>(plain_word());
        assert(raw.deep_view().take(0).map_values(f) =~= Seq::<Seq<char>>::empty());
        assert(out.deep_view() =~= Seq::<Seq<char>>::empty());
    }
    while i < raw.len()
        invariant
            i <= raw.len(),
            f == (|t: Seq<char>| lowered(t)),
            out.deep_view() == plain_words(raw.deep_view().take(i as int)),
        decreases raw.len() - i,
    {
        let token = to_lower(raw[i].as_str());
        proof {
            lemma_take_push(raw.deep_view(), i as int);
            assert(raw.deep_view().take(i + 1).map_values(f) =~= raw.deep_view().take(
                i as int,
            ).map_values(f).push(token@));
            lemma_filter_push(raw.deep_view().take(i as int).map_values(f), token@, plain_word());
        }
        if is_word(token.as_str()) {
            let ghost before = out.deep_view();
            out.push(token);
            assert(out.deep_view() =~= before.push(token@));
        }
        i += 1;
    }
    assert(raw.deep_view().take(raw.len() as int) =~= raw.deep_view());
    out
}

/// The confidence that a series of lookups amounts to, where `answers[i]`
/// says whether token `i` was found: the number of tokens found over the
/// number of tokens.
pub fn ratio_of_hits(answers: &Vec<bool>) -> (ratio: Ratio)
    ensures
        ratio.numerator == hits(answers@),
        ratio.denominator == answers.len(),
        ratio.numerator <= ratio.denominator,
{
    let mut count: usize = 0;
    let mut i: usize = 0;
    let ghost yes = |b: bool| b;
    proof {
        lemma_filter_empty::<bool>(yes);
        assert(answers@.take(0) =~= Seq::<bool>::empty());
    }
    while i < answers.len()
        invariant
            i <= answers.len(),
            count <= i,
            yes == (|b: bool| b),
            count == answers@.take(i as int).filter(yes).len(),
        decreases answers.len() - i,
    {
        proof {
            lemma_take_push(answers@, i as int);
            lemma_filter_push(answers@.take(i as int), answers@[i as int], yes);
        }
        if answers[i] {
            count += 1;
        }
        i += 1;
    }
    assert(answers@.take(answers.len() as int) =~= answers@);
    Ratio::new(count as u64, answers.len() as u64)
}

} // verus!
