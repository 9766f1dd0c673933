//! Random identifier strings and byte buffers.
//!
//! The characters are drawn with a uniform integer sampler over the
//! alphabet, so every alphabet character is equally likely. The process-wide
//! random source is not cryptographically strong: none of these outputs is
//! fit for a password or another secret.

use vstd::prelude::*;
use crate::hex::hex_char;
use crate::hex::is_hex_char;
use crate::sys;
use crate::text::chars_to_string;

verus! {

/// Holds exactly of the 62 alphanumeric ASCII characters: the lowercase and
/// uppercase letters and the decimal digits.
pub open spec fn is_alphanum_char(c: char) -> bool {
    (97 <= c as int <= 122) || (48 <= c as int <= 57) || (65 <= c as int <= 90)
}

/// The entry at position `n` of the 62-character alphabet: the lowercase
/// letters at 0-25, the decimal digits at 26-35, the uppercase letters at
/// 36-61.
pub open spec fn alphanum_digit(n: int) -> char {
    if n < 26 {
        ((97 + n) as u8) as char
    } else if n < 36 {
        ((48 + (n - 26)) as u8) as char
    } else {
        ((65 + (n - 36)) as u8) as char
    }
}

/// Every alphabet position yields an alphanumeric character.
pub proof fn lemma_alphanum_digit_in_alphabet(n: int)
    requires
        0 <= n < 62,
    ensures
        is_alphanum_char(alphanum_digit(n)),
{
}

/// The alphanumeric character at position `i` of the 62-character alphabet.
fn alphanum_char(i: usize) -> (c: char)
    requires
        i < 62,
    ensures
        c == alphanum_digit(i as int),
{
    if i < 26 {
        (97 + i as u8) as char
    } else if i < 36 {
        (48 + (i - 26) as u8) as char
    } else {
        (65 + (i - 36) as u8) as char
    }
}

/// `length` random bytes, freshly drawn from the process-wide source.
pub fn get_random_buffer(length: u32) -> (r: Vec<u8>)
    ensures
        r@.len() == length as int,
{
    let mut rand_vec: Vec<u8> = Vec::new();
    let mut k: u32 = 0;
    while k < length
        invariant
            k <= length,
            rand_vec@.len() == k as int,
        decreases length - k,
    {
        rand_vec.push(sys::rand_byte());
        k += 1;
    }
    rand_vec
}

/// A string of exactly `length` characters, each drawn uniformly and
/// independently from the 62-character alphanumeric alphabet. Not fit for
/// secrets.
pub fn create_random_string(length: u32) -> (r: String)
    ensures
        r@.len() == length as int,
        forall|i: int| 0 <= i < r@.len() ==> is_alphanum_char(#[trigger] r@[i]),
{
    let mut v: Vec<char> = Vec::new();
    let mut k: u32 = 0;
    while k < length
        invariant
            k <= length,
            v@.len() == k as int,
            forall|i: int| 0 <= i < v@.len() ==> is_alphanum_char(#[trigger] v@[i]),
        decreases length - k,
    {
        let idx = sys::rand_below(62);
        let c = alphanum_char(idx);
        proof {
            lemma_alphanum_digit_in_alphabet(idx as int);
        }
        v.push(c);
        k += 1;
    }
    chars_to_string(&v)
}

/// A string of exactly `length` characters, each drawn uniformly and
/// independently from the 16 lowercase hexadecimal digits. Not fit for
/// secrets.
pub fn create_random_hex_string(length: u32) -> (r: String)
    ensures
        r@.len() == length as int,
        forall|i: int| 0 <= i < r@.len() ==> is_hex_char(#[trigger] r@[i]),
{
    let mut v: Vec<char> = Vec::new();
    let mut k: u32 = 0;
    while k < length
        invariant
            k <= length,
            v@.len() == k as int,
            forall|i: int| 0 <= i < v@.len() ==> is_hex_char(#[trigger] v@[i]),
        decreases length - k,
    {
        let idx = sys::rand_below(16);
        let c = hex_char(idx as u8);
        proof {
            crate::hex::lemma_hex_digit_is_hex(idx as int);
        }
        v.push(c);
        k += 1;
    }
    chars_to_string(&v)
}

} // verus!
