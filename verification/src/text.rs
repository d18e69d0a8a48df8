//! Numbers and characters as text.

use vstd::prelude::*;

verus! {

/// The character of a decimal digit.
pub open spec fn digit(d: nat) -> char {
    if d == 0 {
        '0'
    } else if d == 1 {
        '1'
    } else if d == 2 {
        '2'
    } else if d == 3 {
        '3'
    } else if d == 4 {
        '4'
    } else if d == 5 {
        '5'
    } else if d == 6 {
        '6'
    } else if d == 7 {
        '7'
    } else if d == 8 {
        '8'
    } else {
        '9'
    }
}

/// The decimal digits of a number.
pub open spec fn decimal(n: nat) -> Seq<char>
    decreases n,
{
    if n < 10 {
        seq![digit(n)]
    } else {
        decimal(n / 10).push(digit(n % 10))
    }
}

/// The character of a hexadecimal digit, in lower case.
pub open spec fn hex_digit(d: nat) -> char {
    if d < 10 {
        digit(d)
    } else if d == 10 {
        'a'
    } else if d == 11 {
        'b'
    } else if d == 12 {
        'c'
    } else if d == 13 {
        'd'
    } else if d == 14 {
        'e'
    } else {
        'f'
    }
}

/// The two hexadecimal digits of a byte.
pub open spec fn hex_pair(n: u8) -> Seq<char> {
    seq![hex_digit((n / 16) as nat), hex_digit((n % 16) as nat)]
}

/// Whether the character is a letter; what counts as one is decided by `char::is_alphabetic`.
pub uninterp spec fn is_letter(c: char) -> bool;

/// Whether the character is numeric; what counts as such is decided by `char::is_numeric`.
pub uninterp spec fn is_number(c: char) -> bool;

/// `u16`'s `to_string`: the decimal digits of the number, without sign or padding.
#[verifier::external_body]
pub(crate) fn decimal_string(n: u16) -> (s: String)
    ensures
        s@ == decimal(n as nat),
{
    n.to_string()
}

/// `format!` with `{:02x}`: the two hexadecimal digits of a byte, in lower case.
#[verifier::external_body]
pub(crate) fn hex_string(n: u8) -> (s: String)
    ensures
        s@ == hex_pair(n),
{
    format!("{:02x}", n)
}

/// `char::is_alphabetic`.
#[verifier::external_body]
pub(crate) fn letter(c: char) -> (r: bool)
    ensures
        r == is_letter(c),
{
    c.is_alphabetic()
}

/// `char::is_numeric`.
#[verifier::external_body]
pub(crate) fn number(c: char) -> (r: bool)
    ensures
        r == is_number(c),
{
    c.is_numeric()
}

} // verus!
