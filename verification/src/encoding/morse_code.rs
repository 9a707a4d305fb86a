//! The code tables of the two Morse standards.

use vstd::prelude::*;
use crate::text::{is_digit, is_upper};

verus! {

/// The Morse standards that the codec knows.
#[derive(Clone, Copy, Debug, PartialEq, Eq, Structural)]
pub enum MorseLang {
    /// International Morse code, the standard in use world-wide.
    International,
    /// American Morse code, the older standard of the North American
    /// telegraph lines.
    American,
}

/// The symbol at position `i` of the code table: the letters `A` to `Z`,
/// then the digits `0` to `9`.
pub open spec fn symbol_at(i: int) -> char {
    if i < 26 {
        (65 + i) as char
    } else {
        (48 + i - 26) as char
    }
}

/// `c` has a Morse code: it is an upper case letter or a digit.
pub open spec fn has_code(c: char) -> bool {
    is_upper(c) || is_digit(c)
}

/// The International Morse code of an upper case letter or a digit; empty
/// for any other character.
pub open spec fn international(c: char) -> Seq<char> {
    match c {
        'A' => ".-"@,
        'B' => "-..."@,
        'C' => "-.-."@,
        'D' => "-.."@,
        'E' => "."@,
        'F' => "..-."@,
        'G' => "--."@,
        'H' => "...."@,
        'I' => ".."@,
        'J' => ".---"@,
        'K' => "-.-"@,
        'L' => ".-.."@,
        'M' => "--"@,
        'N' => "-."@,
        'O' => "---"@,
        'P' => ".--."@,
        'Q' => "--.-"@,
        'R' => ".-."@,
        'S' => "..."@,
        'T' => "-"@,
        'U' => "..-"@,
        'V' => "...-"@,
        'W' => ".--"@,
        'X' => "-..-"@,
        'Y' => "-.--"@,
        'Z' => "--.."@,
        '0' => "-----"@,
        '1' => ".----"@,
        '2' => "..---"@,
        '3' => "...--"@,
        '4' => "....-"@,
        '5' => "....."@,
        '6' => "-...."@,
        '7' => "--..."@,
        '8' => "---.."@,
        '9' => "----."@,
        _ => Seq::empty(),
    }
}

/// The code of `c` in the standard `lang`. The American table differs from
/// the International one in the letter `C`, whose code holds a pause.
pub open spec fn code(lang: MorseLang, c: char) -> Seq<char> {
    if lang == MorseLang::American && c == 'C' {
        ".. ."@
    } else {
        international(c)
    }
}

/// `s` is a signal of the International table: one to five dots and
/// dashes.
pub open spec fn is_signal(s: Seq<char>) -> bool {
    &&& 1 <= s.len() <= 5
    &&& forall|k: int| 0 <= k < s.len() ==> (#[trigger] s[k]) == '.' || s[k] == '-'
}

/// 1 where position `k` of `s` holds a dash, 0 where it does not.
pub open spec fn dash_at(s: Seq<char>, k: int) -> int {
    if k < s.len() && s[k] == '-' {
        1
    } else {
        0
    }
}

/// A number that tells signals apart: it is made of the length of the
/// signal and of the places of its dashes.
pub open spec fn signature(s: Seq<char>) -> int {
    32 * s.len() + dash_at(s, 0) + 2 * dash_at(s, 1) + 4 * dash_at(s, 2) + 8 * dash_at(s, 3) + 16
        * dash_at(s, 4)
}

/// Every symbol of the International table has a signal for its code.
pub proof fn lemma_codes_are_signals(c: char)
    requires
        has_code(c),
    ensures
        is_signal(international(c)),
{
    reveal_strlit(".-");
    reveal_strlit("-...");
    reveal_strlit("-.-.");
    reveal_strlit("-..");
    reveal_strlit(".");
    reveal_strlit("..-.");
    reveal_strlit("--.");
    reveal_strlit("....");
    reveal_strlit("..");
    reveal_strlit(".---");
    reveal_strlit("-.-");
    reveal_strlit(".-..");
    reveal_strlit("--");
    reveal_strlit("-.");
    reveal_strlit("---");
    reveal_strlit(".--.");
    reveal_strlit("--.-");
    reveal_strlit(".-.");
    reveal_strlit("...");
    reveal_strlit("-");
    reveal_strlit("..-");
    reveal_strlit("...-");
    reveal_strlit(".--");
    reveal_strlit("-..-");
    reveal_strlit("-.--");
    reveal_strlit("--..");
    reveal_strlit("-----");
    reveal_strlit(".----");
    reveal_strlit("..---");
    reveal_strlit("...--");
    reveal_strlit("....-");
    reveal_strlit(".....");
    reveal_strlit("-....");
    reveal_strlit("--...");
    reveal_strlit("---..");
    reveal_strlit("----.");
}

/// No two symbols of the International table share a code.
pub proof fn lemma_codes_differ(a: char, b: char)
    requires
        has_code(a),
        has_code(b),
        a != b,
    ensures
        international(a) != international(b),
{
    reveal_strlit(".-");
    reveal_strlit("-...");
    reveal_strlit("-.-.");
    reveal_strlit("-..");
    reveal_strlit(".");
    reveal_strlit("..-.");
    reveal_strlit("--.");
    reveal_strlit("....");
    reveal_strlit("..");
    reveal_strlit(".---");
    reveal_strlit("-.-");
    reveal_strlit(".-..");
    reveal_strlit("--");
    reveal_strlit("-.");
    reveal_strlit("---");
    reveal_strlit(".--.");
    reveal_strlit("--.-");
    reveal_strlit(".-.");
    reveal_strlit("...");
    reveal_strlit("-");
    reveal_strlit("..-");
    reveal_strlit("...-");
    reveal_strlit(".--");
    reveal_strlit("-..-");
    reveal_strlit("-.--");
    reveal_strlit("--..");
    reveal_strlit("-----");
    reveal_strlit(".----");
    reveal_strlit("..---");
    reveal_strlit("...--");
    reveal_strlit("....-");
    reveal_strlit(".....");
    reveal_strlit("-....");
    reveal_strlit("--...");
    reveal_strlit("---..");
    reveal_strlit("----.");
    assert(signature(international(a)) != signature(international(b)));
}

/// The symbol at position `i` of the code table.
pub fn symbol(i: u8) -> (c: char)
    requires
        i < 36,
    ensures
        c == symbol_at(i as int),
        has_code(c),
{
    if i < 26 {
        (65 + i) as char
    } else {
        (48 + i - 26) as char
    }
}

/// Looks up the International Morse code of `c`.
fn international_code(c: char) -> (out: &'static str)
    ensures
        out@ == international(c),
{
    match c {
        'A' => ".-",
        'B' => "-...",
        'C' => "-.-.",
        'D' => "-..",
        'E' => ".",
        'F' => "..-.",
        'G' => "--.",
        'H' => "....",
        'I' => "..",
        'J' => ".---",
        'K' => "-.-",
        'L' => ".-..",
        'M' => "--",
        'N' => "-.",
        'O' => "---",
        'P' => ".--.",
        'Q' => "--.-",
        'R' => ".-.",
        'S' => "...",
        'T' => "-",
        'U' => "..-",
        'V' => "...-",
        'W' => ".--",
        'X' => "-..-",
        'Y' => "-.--",
        'Z' => "--..",
        '0' => "-----",
        '1' => ".----",
        '2' => "..---",
        '3' => "...--",
        '4' => "....-",
        '5' => ".....",
        '6' => "-....",
        '7' => "--...",
        '8' => "---..",
        '9' => "----.",
        _ => {
            proof {
                reveal_strlit("");
            }
            assert(""@ =~= Seq::<char>::empty());
            ""
        },
    }
}

/// Looks up the code of `c` in the standard `lang`.
pub fn code_of(lang: MorseLang, c: char) -> (out: &'static str)
    ensures
        out@ == code(lang, c),
{
    match lang {
        MorseLang::American => if c == 'C' {
            ".. ."
        } else {
            international_code(c)
        },
        MorseLang::International => international_code(c),
    }
}

} // verus!
