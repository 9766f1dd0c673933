//! Lowercase hexadecimal digit characters.

use vstd::prelude::*;

verus! {

/// The lowercase hexadecimal digit character for a value in `[0, 16)`.
pub open spec fn hex_digit(n: int) -> char {
    if n == 0 {
        '0'
    } else if n == 1 {
        '1'
    } else if n == 2 {
        '2'
    } else if n == 3 {
        '3'
    } else if n == 4 {
        '4'
    } else if n == 5 {
        '5'
    } else if n == 6 {
        '6'
    } else if n == 7 {
        '7'
    } else if n == 8 {
        '8'
    } else if n == 9 {
        '9'
    } else if n == 10 {
        'a'
    } else if n == 11 {
        'b'
    } else if n == 12 {
        'c'
    } else if n == 13 {
        'd'
    } else if n == 14 {
        'e'
    } else {
        'f'
    }
}

/// Holds exactly of the sixteen lowercase hexadecimal digit characters.
pub open spec fn is_hex_char(c: char) -> bool {
    c == '0' || c == '1' || c == '2' || c == '3' || c == '4' || c == '5' || c == '6' || c == '7'
        || c == '8' || c == '9' || c == 'a' || c == 'b' || c == 'c' || c == 'd' || c == 'e'
        || c == 'f'
}

/// Every digit value yields a hexadecimal character.
pub proof fn lemma_hex_digit_is_hex(n: int)
    ensures
        is_hex_char(hex_digit(n)),
{
}

/// The hexadecimal digit characters order by code point as their values
/// do: the digits `0`-`9` come before the letters `a`-`f`.
pub proof fn lemma_hex_digit_mono(n1: int, n2: int)
    requires
        0 <= n1 < n2 < 16,
    ensures
        (hex_digit(n1) as int) < (hex_digit(n2) as int),
{
}

pub fn hex_char(n: u8) -> (c: char)
    requires
        n < 16,
    ensures
        c == hex_digit(n as int),
{
    match n {
        0 => '0',
        1 => '1',
        2 => '2',
        3 => '3',
        4 => '4',
        5 => '5',
        6 => '6',
        7 => '7',
        8 => '8',
        9 => '9',
        10 => 'a',
        11 => 'b',
        12 => 'c',
        13 => 'd',
        14 => 'e',
        _ => 'f',
    }
}

} // verus!
