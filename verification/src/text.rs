//! Working with text one character at a time: character classes, splitting
//! a text into runs, stripping the ends of a word, and lower case.
//!
//! A text is modelled as its sequence of characters. Every function here
//! says what it returns as a function of that sequence.

use vstd::prelude::*;
use vstd::std_specs::iter::IteratorSpec;

verus! {

/// `String::push` of the standard library appends exactly one character to
/// the end of the string and leaves everything before it untouched.
pub assume_specification[ String::push ](s: &mut String, ch: char)
    ensures
        final(s)@ == old(s)@.push(ch),
;

/// `c` is one of `A` to `Z`.
pub open spec fn is_upper(c: char) -> bool {
    'A' <= c && c <= 'Z'
}

/// `c` is one of `a` to `z`.
pub open spec fn is_lower(c: char) -> bool {
    'a' <= c && c <= 'z'
}

/// `c` is an ASCII letter of either case.
pub open spec fn is_letter(c: char) -> bool {
    is_upper(c) || is_lower(c)
}

/// `c` is one of `0` to `9`.
pub open spec fn is_digit(c: char) -> bool {
    '0' <= c && c <= '9'
}

/// `c` has the Unicode property White_Space.
pub open spec fn is_space(c: char) -> bool {
    let u = c as u32;
    ||| 0x09 <= u <= 0x0D
    ||| u == 0x20
    ||| u == 0x85
    ||| u == 0xA0
    ||| u == 0x1680
    ||| 0x2000 <= u <= 0x200A
    ||| u == 0x2028
    ||| u == 0x2029
    ||| u == 0x202F
    ||| u == 0x205F
    ||| u == 0x3000
}

/// The lower case form of an upper case ASCII letter; any other character
/// itself.
pub open spec fn lower_char(c: char) -> char {
    if is_upper(c) {
        ((c as int) + 32) as char
    } else {
        c
    }
}

/// The upper case form of a lower case ASCII letter; any other character
/// itself.
pub open spec fn upper_char(c: char) -> char {
    if is_lower(c) {
        ((c as int) - 32) as char
    } else {
        c
    }
}

/// `text` with every upper case ASCII letter replaced by its lower case form.
pub open spec fn lowered(text: Seq<char>) -> Seq<char> {
    Seq::new(text.len(), |i: int| lower_char(text[i]))
}

/// The classes of characters at which a text is split or stripped.
#[derive(Clone, Copy, Debug, PartialEq, Eq, Structural)]
pub enum CharClass {
    /// Unicode white space.
    Space,
    /// The line feed character alone.
    LineFeed,
    /// Everything but the ASCII letters.
    NonLetter,
}

impl CharClass {
    /// `c` belongs to the class.
    pub open spec fn holds(self, c: char) -> bool {
        match self {
            CharClass::Space => is_space(c),
            CharClass::LineFeed => c == '\n',
            CharClass::NonLetter => !is_letter(c),
        }
    }

    /// Tests whether `c` belongs to the class.
    pub fn test(&self, c: char) -> (b: bool)
        ensures
            b == self.holds(c),
    {
        match self {
            CharClass::Space => is_whitespace(c),
            CharClass::LineFeed => c == '\n',
            CharClass::NonLetter => !is_ascii_letter(c),
        }
    }
}

/// Tests whether `c` is an ASCII letter.
pub fn is_ascii_letter(c: char) -> (b: bool)
    ensures
        b == is_letter(c),
{
    ('A' <= c && c <= 'Z') || ('a' <= c && c <= 'z')
}

/// Tests whether `c` is an ASCII letter or digit.
pub fn is_ascii_alphanumeric(c: char) -> (b: bool)
    ensures
        b == (is_letter(c) || is_digit(c)),
{
    is_ascii_letter(c) || ('0' <= c && c <= '9')
}

/// Tests whether `c` is Unicode white space.
pub fn is_whitespace(c: char) -> (b: bool)
    ensures
        b == is_space(c),
{
    let u: u32 = c as u32;
    (0x09 <= u && u <= 0x0D) || u == 0x20 || u == 0x85 || u == 0xA0 || u == 0x1680 || (0x2000 <= u
        && u <= 0x200A) || u == 0x2028 || u == 0x2029 || u == 0x202F || u == 0x205F || u == 0x3000
}

/// Turns an upper case ASCII letter into lower case.
pub fn to_lower_char(c: char) -> (r: char)
    ensures
        r == lower_char(c),
{
    if 'A' <= c && c <= 'Z' {
        (c as u8 + 32) as char
    } else {
        c
    }
}

/// Turns a lower case ASCII letter into upper case.
pub fn to_upper_char(c: char) -> (r: char)
    ensures
        r == upper_char(c),
{
    if 'a' <= c && c <= 'z' {
        (c as u8 - 32) as char
    } else {
        c
    }
}

/// The characters of `text`, in order, as a vector that can be indexed.
pub fn chars_of(text: &str) -> (chars: Vec<char>)
    ensures
        chars@ == text@,
{
    let mut chars: Vec<char> = Vec::new();
    for c in it: text.chars()
        invariant
            it.seq() == text@,
            chars@ == text@.take(it.index() as int),
    {
        chars.push(c);
    }
    chars
}

/// The string made of `chars[from..to]`.
pub fn string_of(chars: &Vec<char>, from: usize, to: usize) -> (out: String)
    requires
        from <= to <= chars.len(),
    ensures
        out@ == chars@.subrange(from as int, to as int),
{
    let mut out = String::new();
    let mut i: usize = from;
    while i < to
        invariant
            from <= i <= to <= chars.len(),
            out@ == chars@.subrange(from as int, i as int),
        decreases to - i,
    {
        out.push(chars[i]);
        i += 1;
    }
    out
}

/// Whether two strings hold the same characters.
pub fn same_text(a: &str, b: &str) -> (same: bool)
    ensures
        same == (a@ == b@),
{
    let x = chars_of(a);
    let y = chars_of(b);
    if x.len() != y.len() {
        return false;
    }
    let mut i: usize = 0;
    while i < x.len()
        invariant
            x@ == a@,
            y@ == b@,
            x.len() == y.len(),
            i <= x.len(),
            forall|j: int| 0 <= j < i ==> x@[j] == y@[j],
        decreases x.len() - i,
    {
        if x[i] != y[i] {
            return false;
        }
        i += 1;
    }
    assert(a@ =~= b@);
    true
}

/// `text` in lower case, as far as ASCII letters go.
pub fn to_lower(text: &str) -> (out: String)
    ensures
        out@ == lowered(text@),
{
    let mut out = String::new();
    for c in it: text.chars()
        invariant
            it.seq() == text@,
            out@ == lowered(text@.take(it.index() as int)),
    {
        out.push(to_lower_char(c));
        assert(out@ =~= lowered(text@.take(it.index() + 1)));
    }
    assert(text@.take(text@.len() as int) =~= text@);
    out
}

/// The first position at or after `from` that holds a character of class
/// `sep`, or the length of `s` where there is none.
pub open spec fn run_end(s: Seq<char>, from: int, sep: CharClass) -> int
    decreases s.len() - from,
{
    if 0 <= from < s.len() && !sep.holds(s[from]) {
        run_end(s, from + 1, sep)
    } else {
        from
    }
}

/// The maximal runs of characters outside `sep` that start at or after
/// `from`, in the order in which they stand in `s`. No run is empty.
pub open spec fn runs_from(s: Seq<char>, from: int, sep: CharClass) -> Seq<Seq<char>>
    decreases s.len() - from,
    via runs_from_decreases
{
    if from < 0 || from >= s.len() {
        Seq::empty()
    } else if sep.holds(s[from]) {
        runs_from(s, from + 1, sep)
    } else {
        seq![s.subrange(from, run_end(s, from, sep))] + runs_from(s, run_end(s, from, sep), sep)
    }
}

#[via_fn]
proof fn runs_from_decreases(s: Seq<char>, from: int, sep: CharClass) {
    if 0 <= from < s.len() && !sep.holds(s[from]) {
        lemma_run_end(s, from + 1, sep);
    }
}

/// What splitting `s` at the characters of class `sep` leaves: the maximal
/// runs of other characters, in order.
pub open spec fn runs(s: Seq<char>, sep: CharClass) -> Seq<Seq<char>> {
    runs_from(s, 0, sep)
}

/// `run_end` stays within the text, passes only characters outside `sep`,
/// and stops at the end of the text or at a character of `sep`.
pub proof fn lemma_run_end(s: Seq<char>, from: int, sep: CharClass)
    requires
        0 <= from <= s.len(),
    ensures
        from <= run_end(s, from, sep) <= s.len(),
        forall|k: int| from <= k < run_end(s, from, sep) ==> !sep.holds(#[trigger] s[k]),
        run_end(s, from, sep) == s.len() || sep.holds(s[run_end(s, from, sep)]),
    decreases s.len() - from,
{
    if from < s.len() && !sep.holds(s[from]) {
        lemma_run_end(s, from + 1, sep);
    }
}

/// Where a run ends: if no character from `from` up to `to` belongs to
/// `sep`, and `to` is the end of the text or holds a character of `sep`,
/// then the run that starts at `from` ends at `to`.
pub proof fn lemma_run_end_is(s: Seq<char>, from: int, to: int, sep: CharClass)
    requires
        0 <= from <= to <= s.len(),
        forall|k: int| from <= k < to ==> !sep.holds(#[trigger] s[k]),
        to == s.len() || sep.holds(s[to]),
    ensures
        run_end(s, from, sep) == to,
    decreases to - from,
{
    if from < to {
        lemma_run_end_is(s, from + 1, to, sep);
    }
}

/// No character of `p` belongs to the class `sep`, and `p` is not empty.
pub open spec fn is_run(p: Seq<char>, sep: CharClass) -> bool {
    p.len() > 0 && forall|k: int| 0 <= k < p.len() ==> !sep.holds(#[trigger] p[k])
}

/// Adding a separator and one more run to a text adds that run to its runs,
/// from whatever position the runs are taken.
proof fn lemma_runs_from_append(x: Seq<char>, gap: char, p: Seq<char>, from: int, sep: CharClass)
    requires
        0 <= from <= x.len(),
        sep.holds(gap),
        is_run(p, sep),
    ensures
        runs_from(x + seq![gap] + p, from, sep) == runs_from(x, from, sep).push(p),
    decreases x.len() - from,
{
    let s = x + seq![gap] + p;
    let n = x.len() as int;
    assert(s[n] == gap);
    assert(forall|k: int| 0 <= k < n ==> s[k] == x[k]);
    assert(forall|k: int| 0 <= k < p.len() ==> s[n + 1 + k] == p[k]);
    if from == n {
        assert(s[n + 1] == p[0]);
        assert forall|k: int| n + 1 <= k < s.len() implies !sep.holds(#[trigger] s[k]) by {
            assert(s[k] == p[k - n - 1]);
        }
        lemma_run_end_is(s, n + 1, s.len() as int, sep);
        assert(s.subrange(n + 1, s.len() as int) =~= p);
        assert(runs_from(s, s.len() as int, sep) =~= Seq::<Seq<char>>::empty());
        assert(runs_from(s, n + 1, sep) =~= seq![p]);
        assert(runs_from(s, n, sep) == runs_from(s, n + 1, sep));
        assert(runs_from(x, n, sep).push(p) =~= seq![p]);
    } else if sep.holds(x[from]) {
        lemma_runs_from_append(x, gap, p, from + 1, sep);
    } else {
        lemma_run_end(x, from, sep);
        let e = run_end(x, from, sep);
        assert(e > from);
        assert forall|k: int| from <= k < e implies !sep.holds(#[trigger] s[k]) by {
            assert(s[k] == x[k]);
        }
        lemma_run_end_is(s, from, e, sep);
        assert(s.subrange(from, e) =~= x.subrange(from, e));
        lemma_runs_from_append(x, gap, p, e, sep);
        assert((seq![x.subrange(from, e)] + runs_from(x, e, sep)).push(p) =~= seq![
            x.subrange(from, e),
        ] + runs_from(x, e, sep).push(p));
    }
}

/// Adding a separator and one more run to a text adds that run to its
/// runs.
pub proof fn lemma_runs_append(x: Seq<char>, gap: char, p: Seq<char>, sep: CharClass)
    requires
        sep.holds(gap),
        is_run(p, sep),
    ensures
        runs(x + seq![gap] + p, sep) == runs(x, sep).push(p),
{
    lemma_runs_from_append(x, gap, p, 0, sep);
}

/// A text that is one run has itself as its only run.
pub proof fn lemma_runs_single(p: Seq<char>, sep: CharClass)
    requires
        is_run(p, sep),
    ensures
        runs(p, sep) == seq![p],
{
    lemma_run_end_is(p, 0, p.len() as int, sep);
    assert(p.subrange(0, p.len() as int) =~= p);
    assert(runs_from(p, p.len() as int, sep) =~= Seq::<Seq<char>>::empty());
    assert(runs(p, sep) =~= seq![p]);
}

/// Splits `text` at the characters of class `sep` and returns the pieces
/// between them that are not empty.
pub fn split(text: &str, sep: CharClass) -> (pieces: Vec<String>)
    ensures
        pieces.deep_view() == runs(text@, sep),
{
    let chars = chars_of(text);
    let n: usize = chars.len();
    let mut pieces: Vec<String> = Vec::new();
    let mut i: usize = 0;
    while i < n
        invariant
            chars@ == text@,
            n == chars.len(),
            i <= n,
            runs(text@, sep) == pieces.deep_view() + runs_from(text@, i as int, sep),
        decreases n - i,
    {
        if sep.test(chars[i]) {
            i += 1;
        } else {
            let mut j: usize = i + 1;
            while j < n && !sep.test(chars[j])
                invariant
                    chars@ == text@,
                    n == chars.len(),
                    i < j <= n,
                    run_end(text@, i as int, sep) == run_end(text@, j as int, sep),
                decreases n - j,
            {
                j += 1;
            }
            let piece = string_of(&chars, i, j);
            let ghost before = pieces.deep_view();
            pieces.push(piece);
            assert(pieces.deep_view() =~= before.push(piece@));
            assert(before + (seq![piece@] + runs_from(text@, j as int, sep)) =~= before.push(
                piece@,
            ) + runs_from(text@, j as int, sep));
            i = j;
        }
    }
    assert(pieces.deep_view() + Seq::<Seq<char>>::empty() =~= pieces.deep_view());
    pieces
}

/// The first position at or after `from` that holds a character outside
/// `strip`, or the length of `w` where there is none.
pub open spec fn kept_start(w: Seq<char>, from: int, strip: CharClass) -> int
    decreases w.len() - from,
{
    if 0 <= from < w.len() && strip.holds(w[from]) {
        kept_start(w, from + 1, strip)
    } else {
        from
    }
}

/// The position just after the last character before `to` that is outside
/// `strip`, or 0 where there is none.
pub open spec fn kept_end(w: Seq<char>, to: int, strip: CharClass) -> int
    decreases to,
{
    if 0 < to <= w.len() && strip.holds(w[to - 1]) {
        kept_end(w, to - 1, strip)
    } else {
        to
    }
}

/// `w` without the characters of class `strip` at its two ends: what lies
/// between its first and its last character outside the class, both
/// included. Empty where every character of `w` belongs to the class.
pub open spec fn stripped(w: Seq<char>, strip: CharClass) -> Seq<char> {
    let from = kept_start(w, 0, strip);
    let to = kept_end(w, w.len() as int, strip);
    if from < to {
        w.subrange(from, to)
    } else {
        Seq::empty()
    }
}

/// Removes the characters of class `strip` from both ends of `word`.
pub fn strip(word: &str, class: CharClass) -> (out: String)
    ensures
        out@ == stripped(word@, class),
{
    let chars = chars_of(word);
    let n: usize = chars.len();
    let mut from: usize = 0;
    while from < n && class.test(chars[from])
        invariant
            chars@ == word@,
            n == chars.len(),
            from <= n,
            kept_start(word@, 0, class) == kept_start(word@, from as int, class),
        decreases n - from,
    {
        from += 1;
    }
    let mut to: usize = n;
    while to > 0 && class.test(chars[to - 1])
        invariant
            chars@ == word@,
            n == chars.len(),
            to <= n,
            kept_end(word@, n as int, class) == kept_end(word@, to as int, class),
        decreases to,
    {
        to -= 1;
    }
    if from < to {
        string_of(&chars, from, to)
    } else {
        String::new()
    }
}

} // verus!
