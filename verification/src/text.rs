//! Text as a sequence of characters, and the decimal notation of integers.

use vstd::prelude::*;

verus! {

/// The characters of a piece of text, in order.
pub type Text = Seq<char>;

/// Appending one character to a `String` extends its view by that character.
/// Specifies `String::push` of the standard library, which is documented to
/// append the given `char` to the end of the string.
pub assume_specification[ String::push ](s: &mut String, ch: char)
    ensures
        final(s)@ == old(s)@.push(ch),
;

/// The character that writes the digit `d`; meaningful for `d < 10`.
pub open spec fn digit(d: nat) -> char {
    "0123456789"@[d as int]
}

/// The decimal notation of a natural number, without leading zeros.
pub open spec fn decimal(n: nat) -> Text
    decreases n,
{
    if n < 10 {
        seq![digit(n)]
    } else {
        decimal(n / 10).push(digit(n % 10))
    }
}

/// The decimal notation of an integer: a minus sign before the magnitude of a
/// negative number, nothing before any other.
pub open spec fn signed_decimal(i: int) -> Text {
    if i < 0 {
        seq!['-'] + decimal((-i) as nat)
    } else {
        decimal(i as nat)
    }
}

/// The character of a single decimal digit.
fn digit_char(d: u8) -> (c: char)
    requires
        d < 10,
    ensures
        c == digit(d as nat),
{
    proof {
        reveal_strlit("0123456789");
    }
    "0123456789".get_char(d as usize)
}

/// Appends the decimal notation of `n` to `text`.
pub fn push_decimal(text: &mut String, n: u64)
    ensures
        final(text)@ == old(text)@ + decimal(n as nat),
    decreases n,
{
    if n >= 10 {
        push_decimal(text, n / 10);
    }
    let d: u8 = (n % 10) as u8;
    text.push(digit_char(d));
}

/// Appends the decimal notation of `i` to `text`, with a minus sign if `i` is
/// negative.
pub fn push_signed_decimal(text: &mut String, i: i64)
    ensures
        final(text)@ == old(text)@ + signed_decimal(i as int),
{
    if i < 0 {
        text.push('-');
        let magnitude: i128 = -(i as i128);
        push_decimal(text, magnitude as u64);
    } else {
        push_decimal(text, i as u64);
    }
}

} // verus!
