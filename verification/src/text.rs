//! Building text one character at a time.
use vstd::prelude::*;

verus! {

/// `String::push` of the standard library appends the given character to the
/// end of the string. Its effect is taken on trust here.
pub assume_specification[ String::push ](text: &mut String, c: char)
    ensures
        final(text)@ == old(text)@.push(c),
;

/// The lower-case hexadecimal digit of a value below 16.
pub open spec fn hex_digit(value: int) -> char {
    if value < 10 {
        (value + '0') as char
    } else {
        (value - 10 + 'a') as char
    }
}

/// Computes the lower-case hexadecimal digit of `value`.
pub fn hex_char(value: u8) -> (c: char)
    requires
        value < 16,
    ensures
        c == hex_digit(value as int),
{
    if value < 10 {
        (0x30 + value) as char
    } else {
        (0x61 + (value - 10)) as char
    }
}

} // verus!
