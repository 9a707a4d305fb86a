//! The rotation at the heart of the Caesar cipher.
//!
//! A text is a sequence of characters. Only the 52 ASCII letters take part in
//! the rotation, each within the alphabet of its own case; every other
//! character, ASCII or not, stays where and what it is.

use vstd::prelude::*;
use vstd::std_specs::iter::IteratorSpec;
use crate::text::{is_letter, is_lower, is_upper};

verus! {

/// The representative of `key` in `[0, 26)`: the Euclidean remainder.
pub open spec fn normalized(key: int) -> int {
    key % 26
}

/// `c` moved `shift` places forward in the alphabet of its case, wrapping
/// from the last letter to the first. Characters that are no ASCII letter
/// are left alone.
pub open spec fn rotate_char(c: char, shift: int) -> char {
    if is_upper(c) {
        (((c as int) - 65 + shift) % 26 + 65) as char
    } else if is_lower(c) {
        (((c as int) - 97 + shift) % 26 + 97) as char
    } else {
        c
    }
}

/// Every character of `text` rotated by `shift`, position by position.
pub open spec fn rotate_text(text: Seq<char>, shift: int) -> Seq<char> {
    Seq::new(text.len(), |i: int| rotate_char(text[i], shift))
}

/// The cipher text of `text` under `key`.
pub open spec fn encrypted(text: Seq<char>, key: int) -> Seq<char> {
    rotate_text(text, normalized(key))
}

/// The plain text of `text` under `key`: the rotation by the negated key.
pub open spec fn decrypted(text: Seq<char>, key: int) -> Seq<char> {
    rotate_text(text, normalized(-key))
}

/// The two ways a key can be applied.
#[derive(Clone, Copy, Debug, PartialEq, Eq, Structural)]
pub enum Direction {
    /// Rotate by the key: encryption.
    Forward,
    /// Rotate by the negated key: decryption.
    Inverse,
}

/// What `transform` yields, as a function of its inputs.
pub open spec fn transformed(text: Seq<char>, key: int, direction: Direction) -> Seq<char> {
    match direction {
        Direction::Forward => encrypted(text, key),
        Direction::Inverse => decrypted(text, key),
    }
}

/// `output` has the shape of `input`: the same length, an upper case letter
/// wherever `input` has one, a lower case letter wherever `input` has one,
/// and at every other position the very character of `input`.
pub open spec fn keeps_shape(input: Seq<char>, output: Seq<char>) -> bool {
    &&& output.len() == input.len()
    &&& forall|i: int|
        0 <= i < input.len() ==> {
            &&& is_upper(#[trigger] input[i]) ==> is_upper(output[i])
            &&& is_lower(input[i]) ==> is_lower(output[i])
            &&& !is_letter(input[i]) ==> output[i] == input[i]
        }
}

/// Maps any key to the rotation in `[0, 26)` that it stands for.
pub fn normalize_shift(key: i8) -> (shift: u8)
    ensures
        shift == normalized(key as int),
        shift < 26,
{
    let r: i16 = (key as i16) % 26;
    if r < 0 {
        (r + 26) as u8
    } else {
        r as u8
    }
}

/// The rotation in `[0, 26)` that undoes `key`. Unlike negating the key
/// first, this is right for every key, the smallest one included.
pub fn inverse_shift(key: i8) -> (shift: u8)
    ensures
        shift == normalized(-(key as int)),
        shift < 26,
{
    let r: i16 = (-(key as i16)) % 26;
    if r < 0 {
        (r + 26) as u8
    } else {
        r as u8
    }
}

/// Rotates one character.
pub fn rotate_letter(c: char, shift: u8) -> (r: char)
    ensures
        r == rotate_char(c, shift as int),
{
    if 'A' <= c && c <= 'Z' {
        let offset: u32 = (c as u32 - 65 + shift as u32) % 26;
        (offset as u8 + 65) as char
    } else if 'a' <= c && c <= 'z' {
        let offset: u32 = (c as u32 - 97 + shift as u32) % 26;
        (offset as u8 + 97) as char
    } else {
        c
    }
}

/// Rotates every letter of `text` by `shift` places.
pub fn rotate(text: &str, shift: u8) -> (out: String)
    ensures
        out@ == rotate_text(text@, shift as int),
        keeps_shape(text@, out@),
{
    let mut out = String::new();
    for c in it: text.chars()
        invariant
            it.seq() == text@,
            out@ == rotate_text(text@.take(it.index() as int), shift as int),
    {
        out.push(rotate_letter(c, shift));
        assert(out@ =~= rotate_text(text@.take(it.index() + 1), shift as int));
    }
    assert(text@.take(text@.len() as int) =~= text@);
    out
}

/// Applies `key` to `text` in the given direction.
///
/// The result has the length of `text`. Letters are rotated within their own
/// case by the normalized key (forward) or by the normalized negated key
/// (inverse); all other characters are copied.
pub fn transform(text: &str, key: i8, direction: Direction) -> (out: String)
    ensures
        out@ == transformed(text@, key as int, direction),
        keeps_shape(text@, out@),
        key == 0 ==> out@ == text@,
{
    proof {
        lemma_zero_key(text@);
    }
    let shift: u8 = match direction {
        Direction::Forward => normalize_shift(key),
        Direction::Inverse => inverse_shift(key),
    };
    rotate(text, shift)
}

/// Rotating a character by `shift` and then by the complement of `shift`
/// gives the character back.
pub proof fn lemma_rotate_char_back(c: char, shift: int)
    requires
        0 <= shift < 26,
    ensures
        rotate_char(rotate_char(c, shift), (26 - shift) % 26) == c,
        is_upper(c) <==> is_upper(rotate_char(c, shift)),
        is_lower(c) <==> is_lower(rotate_char(c, shift)),
{
}

/// Round trip: decrypting with the key that encrypted gives the text back,
/// for every text and every integer key.
pub proof fn lemma_round_trip(text: Seq<char>, key: int)
    ensures
        decrypted(encrypted(text, key), key) == text,
{
    let shift = normalized(key);
    assert(normalized(-key) == (26 - shift) % 26);
    assert forall|i: int| 0 <= i < text.len() implies #[trigger] decrypted(
        encrypted(text, key),
        key,
    )[i] == text[i] by {
        lemma_rotate_char_back(text[i], shift);
    }
    assert(decrypted(encrypted(text, key), key) =~= text);
}

/// The round trip in the other order: encrypting what was decrypted with the
/// same key gives the text back.
pub proof fn lemma_round_trip_inverse(text: Seq<char>, key: int)
    ensures
        encrypted(decrypted(text, key), key) == text,
{
    let shift = normalized(-key);
    assert(normalized(key) == (26 - shift) % 26);
    assert forall|i: int| 0 <= i < text.len() implies #[trigger] encrypted(
        decrypted(text, key),
        key,
    )[i] == text[i] by {
        lemma_rotate_char_back(text[i], shift);
    }
    assert(encrypted(decrypted(text, key), key) =~= text);
}

/// Key normalization: keys that differ by a whole alphabet encrypt, and
/// decrypt, alike.
pub proof fn lemma_key_period(text: Seq<char>, key: int)
    ensures
        encrypted(text, key) == encrypted(text, key + 26),
        encrypted(text, key) == encrypted(text, key - 26),
        decrypted(text, key) == decrypted(text, key + 26),
        decrypted(text, key) == decrypted(text, key - 26),
{
    assert(normalized(key + 26) == normalized(key));
    assert(normalized(key - 26) == normalized(key));
    assert(normalized(-(key + 26)) == normalized(-key));
    assert(normalized(-(key - 26)) == normalized(-key));
}

/// Identity at zero: the key 0 changes nothing, in either direction.
pub proof fn lemma_zero_key(text: Seq<char>)
    ensures
        encrypted(text, 0) == text,
        decrypted(text, 0) == text,
{
    assert(encrypted(text, 0) =~= text);
    assert(decrypted(text, 0) =~= text);
}

/// Alphabet closure: encryption and decryption keep the length of the
/// text, turn upper case letters into upper case letters and lower case
/// letters into lower case letters, and leave every other character as it
/// is, where it is.
pub proof fn lemma_alphabet_closure(text: Seq<char>, key: int)
    ensures
        keeps_shape(text, encrypted(text, key)),
        keeps_shape(text, decrypted(text, key)),
{
}

} // verus!
