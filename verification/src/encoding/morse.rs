//! The Morse codec.
//!
//! Encoded text is a sequence of codes separated by single spaces. A slash
//! stands for the space between two words.

use vstd::prelude::*;
use vstd::std_specs::iter::IteratorSpec;
use vstd::string::StringExecFns;
use crate::encoding::morse_code::{
    code, code_of, has_code, international, lemma_codes_are_signals, lemma_codes_differ, symbol,
    symbol_at, MorseLang,
};
use crate::seq_lemmas::{lemma_filter_empty, lemma_filter_push, lemma_take_push};
use crate::text::{
    is_ascii_alphanumeric, is_digit, is_letter, is_run, is_upper, lemma_runs_append,
    lemma_runs_single, runs, same_text, split, to_upper_char, upper_char, CharClass,
};
use crate::traits::Codec;

verus! {

/// The result of `str::to_lowercase` of the standard library, which follows
/// the lower case mappings of Unicode, on the text `s`.
pub uninterp spec fn unicode_lowercase(s: Seq<char>) -> Seq<char>;

/// `str::to_lowercase` of the standard library returns the lower case
/// equivalent of the string. What that is, character by character, is left
/// to Unicode: the contract only gives the result its name.
pub assume_specification[ str::to_lowercase ](s: &str) -> (out: String)
    ensures
        out@ == unicode_lowercase(s@),
;

/// A Morse encoder and decoder for one of the two standards.
pub struct Morse {
    lang: MorseLang,
}

impl View for Morse {
    type V = MorseLang;

    /// The standard in use.
    closed spec fn view(&self) -> MorseLang {
        self.lang
    }
}

/// The standard that a name in lower case stands for: American for
/// `american`, International for everything else.
pub open spec fn lang_named(name: Seq<char>) -> MorseLang {
    if name == "american"@ {
        MorseLang::American
    } else {
        MorseLang::International
    }
}

/// The standard that a name in lower case stands for.
pub fn lang_of_name(name: &str) -> (lang: MorseLang)
    ensures
        lang == lang_named(name@),
{
    if same_text(name, "american") {
        MorseLang::American
    } else {
        MorseLang::International
    }
}

/// What one character of a text contributes to its encoding: a slash for a
/// space, its code for a letter or digit of either case, nothing for any
/// other character.
pub open spec fn piece_of(lang: MorseLang, c: char) -> Option<Seq<char>> {
    if c == ' ' {
        Some(seq!['/'])
    } else if is_letter(c) || is_digit(c) {
        Some(code(lang, upper_char(c)))
    } else {
        None
    }
}

/// The pieces of the encoding of `input`, in order.
pub open spec fn pieces(lang: MorseLang, input: Seq<char>) -> Seq<Seq<char>> {
    input.filter_map(|c: char| piece_of(lang, c))
}

/// The pieces with one space between each two of them.
pub open spec fn spaced(pieces: Seq<Seq<char>>) -> Seq<char>
    decreases pieces.len(),
{
    if pieces.len() == 0 {
        Seq::empty()
    } else if pieces.len() == 1 {
        pieces[0]
    } else {
        spaced(pieces.drop_last()) + seq![' '] + pieces.last()
    }
}

/// The Morse encoding of `input` in the standard `lang`.
pub open spec fn encoded_text(lang: MorseLang, input: Seq<char>) -> Seq<char> {
    spaced(pieces(lang, input))
}

/// The first symbol at or after position `from` of the code table whose
/// code is `token`, if there is one.
pub open spec fn symbol_coded(lang: MorseLang, token: Seq<char>, from: int) -> Option<char>
    decreases 36 - from,
{
    if from < 0 || from >= 36 {
        None
    } else if code(lang, symbol_at(from)) == token {
        Some(symbol_at(from))
    } else {
        symbol_coded(lang, token, from + 1)
    }
}

/// What one token of an encoded text stands for: a space for a slash, the
/// symbol whose code it is, nothing where it is no code.
pub open spec fn meaning_of(lang: MorseLang, token: Seq<char>) -> Option<char> {
    if token == seq!['/'] {
        Some(' ')
    } else {
        symbol_coded(lang, token, 0)
    }
}

/// The text that `input` encodes in the standard `lang`: the meanings of
/// its tokens, which are what white space separates.
pub open spec fn decoded_text(lang: MorseLang, input: Seq<char>) -> Seq<char> {
    runs(input, CharClass::Space).filter_map(|t: Seq<char>| meaning_of(lang, t))
}

/// The test that a character contributes nothing to an encoding.
pub open spec fn without_piece(lang: MorseLang) -> spec_fn(char) -> bool {
    |c: char| piece_of(lang, c) is None
}

/// The test that a token of an encoded text stands for nothing.
pub open spec fn without_meaning(lang: MorseLang) -> spec_fn(Seq<char>) -> bool {
    |t: Seq<char>| meaning_of(lang, t) is None
}

/// Mapping and filtering a sequence that ends in `x` is doing so to what
/// comes before `x` and then adding what `x` maps to, if anything.
proof fn lemma_filter_map_push<A, B>(s: Seq<A>, x: A, f: spec_fn(A) -> Option<B>)
    ensures
        s.push(x).filter_map(f) == match f(x) {
            Some(y) => s.filter_map(f).push(y),
            None => s.filter_map(f),
        },
{
    assert(s.push(x).drop_last() =~= s);
    match f(x) {
        Some(y) => {
            assert(s.filter_map(f) + seq![y] =~= s.filter_map(f).push(y));
        },
        None => {},
    }
}

/// The position of a symbol in the code table.
pub open spec fn position_of(c: char) -> int {
    if is_upper(c) {
        c as int - 65
    } else {
        c as int - 48 + 26
    }
}

/// Looking for the code of `c` from any position up to that of `c` finds
/// `c`, because no symbol before it has the same code.
proof fn lemma_scan_finds(c: char, from: int)
    requires
        has_code(c),
        0 <= from <= position_of(c),
    ensures
        symbol_coded(MorseLang::International, international(c), from) == Some(c),
    decreases position_of(c) - from,
{
    assert(symbol_at(position_of(c)) == c);
    if from < position_of(c) {
        let other = symbol_at(from);
        assert(has_code(other) && other != c);
        lemma_codes_differ(other, c);
        lemma_scan_finds(c, from + 1);
    }
}

/// Decoding inverts the International code table: the code of every
/// symbol that has one stands for that symbol and no other.
pub proof fn lemma_code_decodes(c: char)
    requires
        has_code(c),
    ensures
        meaning_of(MorseLang::International, code(MorseLang::International, c)) == Some(c),
{
    lemma_codes_are_signals(c);
    assert(international(c)[0] != '/');
    assert(seq!['/'][0] == '/');
    lemma_scan_finds(c, 0);
}

/// `text` is made of ASCII letters, digits and spaces alone: every one of
/// its characters has a place in an encoding.
pub open spec fn is_plain(text: Seq<char>) -> bool {
    forall|i: int|
        0 <= i < text.len() ==> (#[trigger] text[i]) == ' ' || is_letter(text[i]) || is_digit(
            text[i],
        )
}

/// `text` with its lower case letters in upper case.
pub open spec fn in_capitals(text: Seq<char>) -> Seq<char> {
    Seq::new(text.len(), |i: int| upper_char(text[i]))
}

/// What the round trip rests on: the pieces of a plain text are found
/// again as the tokens of its encoding, and they mean the text in
/// capitals.
proof fn lemma_pieces_come_back(text: Seq<char>)
    requires
        is_plain(text),
    ensures
        runs(encoded_text(MorseLang::International, text), CharClass::Space) == pieces(
            MorseLang::International,
            text,
        ),
        pieces(MorseLang::International, text).filter_map(
            |t: Seq<char>| meaning_of(MorseLang::International, t),
        ) == in_capitals(text),
        pieces(MorseLang::International, text).len() == text.len(),
    decreases text.len(),
{
    let lang = MorseLang::International;
    let f = |c: char| piece_of(lang, c);
    let g = |t: Seq<char>| meaning_of(lang, t);
    if text.len() == 0 {
        assert(pieces(lang, text) =~= Seq::<Seq<char>>::empty());
        assert(runs(Seq::<char>::empty(), CharClass::Space) =~= Seq::<Seq<char>>::empty());
        assert(pieces(lang, text).filter_map(g) =~= in_capitals(text));
    } else {
        let before = text.drop_last();
        let c = text.last();
        assert(text =~= before.push(c));
        assert(is_plain(before)) by {
            assert forall|i: int| 0 <= i < before.len() implies (#[trigger] before[i]) == ' '
                || is_letter(before[i]) || is_digit(before[i]) by {
                assert(before[i] == text[i]);
            }
        }
        lemma_pieces_come_back(before);
        lemma_filter_map_push(before, c, f);
        let old_pieces = pieces(lang, before);
        let piece = piece_of(lang, c)->0;
        let all = pieces(lang, text);
        assert(all == old_pieces.push(piece));
        assert(all.drop_last() =~= old_pieces);
        assert(is_run(piece, CharClass::Space) && meaning_of(lang, piece) == Some(upper_char(c)))
            by {
            if c == ' ' {
                assert(piece =~= seq!['/']);
            } else {
                lemma_codes_are_signals(upper_char(c));
                lemma_code_decodes(upper_char(c));
            }
        }
        if old_pieces.len() == 0 {
            assert(spaced(old_pieces) =~= Seq::<char>::empty());
            assert(spaced(all) == piece);
            lemma_runs_single(piece, CharClass::Space);
            assert(seq![piece] =~= all);
        } else {
            assert(spaced(all) == spaced(old_pieces) + seq![' '] + piece);
            lemma_runs_append(spaced(old_pieces), ' ', piece, CharClass::Space);
        }
        lemma_filter_map_push(old_pieces, piece, g);
        assert(in_capitals(before).push(upper_char(c)) =~= in_capitals(text));
    }
}

/// Round trip of the codec: in International Morse code, decoding what was
/// encoded gives back the text in capitals, for every text made of ASCII
/// letters, digits and spaces.
pub proof fn lemma_decode_inverts_encode(text: Seq<char>)
    requires
        is_plain(text),
    ensures
        decoded_text(MorseLang::International, encoded_text(MorseLang::International, text))
            == in_capitals(text),
{
    lemma_pieces_come_back(text);
}

/// Finds what a token of an encoded text stands for.
pub fn decode_token(lang: MorseLang, token: &str) -> (meaning: Option<char>)
    ensures
        meaning == meaning_of(lang, token@),
{
    proof {
        reveal_strlit("/");
    }
    if same_text(token, "/") {
        assert(token@ =~= seq!['/']);
        return Some(' ');
    }
    assert(token@ != seq!['/']) by {
        if token@ == seq!['/'] {
            assert(token@ =~= "/"@);
        }
    }
    let mut i: u8 = 0;
    while i < 36
        invariant
            i <= 36,
            token@ != seq!['/'],
            symbol_coded(lang, token@, 0) == symbol_coded(lang, token@, i as int),
        decreases 36 - i,
    {
        let c = symbol(i);
        if same_text(code_of(lang, c), token) {
            return Some(c);
        }
        i += 1;
    }
    None
}

impl Morse {
    /// A codec for International Morse code.
    pub fn new() -> (morse: Self)
        ensures
            morse@ == MorseLang::International,
    {
        Self { lang: MorseLang::International }
    }

    /// A codec for the standard that `lang` names: American where `lang`
    /// in lower case reads `american`, International otherwise.
    pub fn from_lang(lang: &str) -> (morse: Self)
        ensures
            morse@ == lang_named(unicode_lowercase(lang@)),
    {
        let name = lang.to_lowercase();
        Self { lang: lang_of_name(name.as_str()) }
    }

    /// Changes the standard to the one that `lang` names, as `from_lang`
    /// reads it.
    pub fn set_lang(&mut self, lang: &str)
        ensures
            final(self)@ == lang_named(unicode_lowercase(lang@)),
    {
        let name = lang.to_lowercase();
        self.lang = lang_of_name(name.as_str());
    }

    /// The name of the standard in use: `International` or `American`.
    pub fn get_lang(&self) -> (name: String)
        ensures
            name@ == match self@ {
                MorseLang::International => "International"@,
                MorseLang::American => "American"@,
            },
    {
        match self.lang {
            MorseLang::International => String::from_str("International"),
            MorseLang::American => String::from_str("American"),
        }
    }
}

impl Morse {
    /// The characters of `input` that `encode` leaves out because they
    /// have no code, in order: what a caller may want to warn about.
    pub fn unsupported_chars(&self, input: &str) -> (out: Vec<char>)
        ensures
            out@ == input@.filter(without_piece(self@)),
    {
        let mut out: Vec<char> = Vec::new();
        proof {
            lemma_filter_empty::<char>(without_piece(self@));
            assert(input@.take(0) =~= Seq::<char>::empty());
        }
        for c in it: input.chars()
            invariant
                it.seq() == input@,
                out@ == input@.take(it.index() as int).filter(without_piece(self@)),
        {
            proof {
                assert(input@.take(it.index() + 1) =~= input@.take(it.index() as int).push(c));
                lemma_filter_push(input@.take(it.index() as int), c, without_piece(self@));
            }
            if c != ' ' && !is_ascii_alphanumeric(c) {
                out.push(c);
            }
        }
        assert(input@.take(input@.len() as int) =~= input@);
        out
    }

    /// The tokens of `input` that `decode` leaves out because they are no
    /// code, in order: what a caller may want to warn about.
    pub fn unsupported_codes(&self, input: &str) -> (out: Vec<String>)
        ensures
            out.deep_view() == runs(input@, CharClass::Space).filter(without_meaning(self@)),
    {
        let tokens = split(input, CharClass::Space);
        let ghost all = tokens.deep_view();
        let mut out: Vec<String> = Vec::new();
        let mut i: usize = 0;
        proof {
            lemma_filter_empty::<Seq<char>>(without_meaning(self@));
            assert(all.take(0) =~= Seq::<Seq<char>>::empty());
            assert(out.deep_view() =~= Seq::<Seq<char>>::empty());
        }
        while i < tokens.len()
            invariant
                i <= tokens.len(),
                tokens.deep_view() == all,
                all == runs(input@, CharClass::Space),
                out.deep_view() == all.take(i as int).filter(without_meaning(self@)),
            decreases tokens.len() - i,
        {
            proof {
                lemma_take_push(all, i as int);
                lemma_filter_push(all.take(i as int), all[i as int], without_meaning(self@));
            }
            if decode_token(self.lang, tokens[i].as_str()).is_none() {
                let token = tokens[i].clone();
                let ghost before = out.deep_view();
                out.push(token);
                assert(out.deep_view() =~= before.push(token@));
            }
            i += 1;
        }
        assert(all.take(all.len() as int) =~= all);
        out
    }
}

impl Codec for Morse {
    open spec fn encoded(&self, input: Seq<char>) -> Seq<char> {
        encoded_text(self@, input)
    }

    open spec fn decoded(&self, input: Seq<char>) -> Seq<char> {
        decoded_text(self@, input)
    }

    /// Encodes `input`: each letter and digit becomes its code, each space
    /// a slash, and the codes are separated by single spaces. Characters
    /// that have no code are left out.
    fn encode(&self, input: &str) -> (out: String) {
        let mut out = String::new();
        let mut first: bool = true;
        let ghost f = |c: char| piece_of(self@, c);
        assert(input@.take(0).filter_map(f) =~= Seq::<Seq<char>>::empty());
        for c in it: input.chars()
            invariant
                it.seq() == input@,
                f == (|c: char| piece_of(self@, c)),
                first == (input@.take(it.index() as int).filter_map(f).len() == 0),
                out@ == spaced(input@.take(it.index() as int).filter_map(f)),
        {
            let ghost before = input@.take(it.index() as int).filter_map(f);
            proof {
                assert(input@.take(it.index() + 1) =~= input@.take(it.index() as int).push(c));
                lemma_filter_map_push(input@.take(it.index() as int), c, f);
            }
            if c == ' ' {
                if !first {
                    out.push(' ');
                }
                out.push('/');
                first = false;
                proof {
                    let after = before.push(seq!['/']);
                    assert(after.drop_last() =~= before);
                    assert(out@ =~= spaced(after));
                }
            } else if is_ascii_alphanumeric(c) {
                if !first {
                    out.push(' ');
                }
                let piece = code_of(self.lang, to_upper_char(c));
                out.append(piece);
                first = false;
                proof {
                    let after = before.push(piece@);
                    assert(after.drop_last() =~= before);
                    assert(out@ =~= spaced(after));
                }
            }
        }
        assert(input@.take(input@.len() as int) =~= input@);
        out
    }

    /// Decodes `input`: each code becomes its symbol and each slash a
    /// space. Tokens that are no code are left out.
    fn decode(&self, input: &str) -> (out: String) {
        let tokens = split(input, CharClass::Space);
        let mut out = String::new();
        let ghost f = |t: Seq<char>| meaning_of(self@, t);
        let mut i: usize = 0;
        assert(tokens.deep_view().take(0).filter_map(f) =~= Seq::<char>::empty());
        while i < tokens.len()
            invariant
                i <= tokens.len(),
                tokens.deep_view() == runs(input@, CharClass::Space),
                f == (|t: Seq<char>| meaning_of(self@, t)),
                out@ == tokens.deep_view().take(i as int).filter_map(f),
            decreases tokens.len() - i,
        {
            proof {
                assert(tokens.deep_view().take(i + 1) =~= tokens.deep_view().take(i as int).push(
                    tokens[i as int]@,
                ));
                lemma_filter_map_push(tokens.deep_view().take(i as int), tokens[i as int]@, f);
            }
            match decode_token(self.lang, tokens[i].as_str()) {
                Some(c) => {
                    out.push(c);
                },
                None => {},
            }
            i += 1;
        }
        assert(tokens.deep_view().take(tokens.len() as int) =~= tokens.deep_view());
        out
    }
}

} // verus!
