//! Helpers around keys.

use vstd::prelude::*;
use vstd::string::StringExecFns;

verus! {

/// The character of the decimal digit `d`.
pub open spec fn digit_char(d: int) -> char {
    (48 + d) as char
}

/// The decimal digits of `n`, most significant first, without leading zeros.
pub open spec fn digits(n: nat) -> Seq<char>
    decreases n,
{
    if n < 10 {
        seq![digit_char(n as int)]
    } else {
        digits(n / 10).push(digit_char((n % 10) as int))
    }
}

/// `k` written in decimal, with a minus sign in front where it is negative.
pub open spec fn decimal(k: int) -> Seq<char> {
    if k < 0 {
        seq!['-'] + digits((-k) as nat)
    } else {
        digits(k as nat)
    }
}

/// What `parse_key_i8` says of a key that does not fit.
pub open spec fn key_range_message(k: int) -> Seq<char> {
    "Key out of i8 range: "@ + decimal(k)
}

/// Appends the decimal digits of `n` to `out`.
fn push_digits(out: &mut String, n: u32)
    ensures
        final(out)@ == old(out)@ + digits(n as nat),
    decreases n,
{
    if n >= 10 {
        push_digits(out, n / 10);
    }
    let d: u8 = (n % 10) as u8;
    out.push((48 + d) as char);
    assert(out@ =~= old(out)@ + digits(n as nat));
}

/// Narrows a key to the width that the cipher takes.
///
/// Succeeds exactly for the keys from -128 to 127, with the key unchanged.
/// Any other key is refused with a message that names it.
pub fn parse_key_i8(k: i16) -> (r: Result<i8, String>)
    ensures
        -128 <= k <= 127 ==> r == Ok::<i8, String>(k as i8),
        !(-128 <= k <= 127) ==> r is Err && r->Err_0@ == key_range_message(k as int),
{
    if k < -128 || k > 127 {
        let mut message = String::from_str("Key out of i8 range: ");
        if k < 0 {
            message.push('-');
            push_digits(&mut message, (-(k as i32)) as u32);
            assert(message@ =~= key_range_message(k as int));
        } else {
            push_digits(&mut message, k as u32);
        }
        Err(message)
    } else {
        Ok(k as i8)
    }
}

} // verus!
