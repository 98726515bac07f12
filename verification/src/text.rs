//! Byte classification and small text helpers shared by the scanner.
//!
//! The scanner works on a raw byte buffer; each byte is read as the character
//! with the same code point. These spec functions name the byte classes of the
//! lexical grammar, and `str_eq` is a verified string comparison used by the
//! closed-vocabulary lookups.

use vstd::prelude::*;
use vstd::string::StrSliceExecFns;

verus! {

/// Whitespace skipped between tokens: space, tab, carriage return, newline.
pub open spec fn is_space_b(b: u8) -> bool {
    b == 32 || b == 9 || b == 13 || b == 10
}

/// An ASCII decimal digit.
pub open spec fn is_digit_b(b: u8) -> bool {
    48 <= b && b <= 57
}

/// An ASCII hexadecimal digit.
pub open spec fn is_hex_digit_b(b: u8) -> bool {
    is_digit_b(b) || (97 <= b && b <= 102) || (65 <= b && b <= 70)
}

/// An ASCII letter.
pub open spec fn is_alpha_b(b: u8) -> bool {
    (97 <= b && b <= 122) || (65 <= b && b <= 90)
}

/// A byte that may start an identifier or keyword: a letter or `_`.
pub open spec fn is_word_start_b(b: u8) -> bool {
    is_alpha_b(b) || b == 95
}

/// A byte that may continue an identifier or keyword.
pub open spec fn is_word_b(b: u8) -> bool {
    is_word_start_b(b) || is_digit_b(b)
}

/// The value of a decimal digit byte.
pub open spec fn digit_val(b: u8) -> u8 {
    (b - 48) as u8
}

/// The value of a hexadecimal digit byte.
pub open spec fn hex_val(b: u8) -> u8 {
    if b <= 57 {
        (b - 48) as u8
    } else if b >= 97 {
        (b - 87) as u8
    } else {
        (b - 55) as u8
    }
}

/// The characters spelled by a byte sequence, one character per byte.
pub open spec fn chars_of(s: Seq<u8>) -> Seq<char> {
    Seq::new(s.len(), |k: int| s[k] as char)
}

/// Executable check for `is_digit_b`.
pub(crate) fn digit_byte(b: u8) -> (r: bool)
    ensures
        r == is_digit_b(b),
{
    48 <= b && b <= 57
}

/// Executable check for `is_hex_digit_b`.
pub(crate) fn hex_digit_byte(b: u8) -> (r: bool)
    ensures
        r == is_hex_digit_b(b),
{
    (48 <= b && b <= 57) || (97 <= b && b <= 102) || (65 <= b && b <= 70)
}

/// Executable check for `is_word_b`.
pub(crate) fn word_byte(b: u8) -> (r: bool)
    ensures
        r == is_word_b(b),
{
    (97 <= b && b <= 122) || (65 <= b && b <= 90) || (48 <= b && b <= 57) || b == 95
}

/// An element-for-element copy of a byte vector.
pub(crate) fn copy_bytes(v: &Vec<u8>) -> (r: Vec<u8>)
    ensures
        r@ == v@,
{
    let mut r: Vec<u8> = Vec::new();
    let mut k: usize = 0;
    while k < v.len()
        invariant
            k <= v@.len(),
            r@ == v@.subrange(0, k as int),
        decreases v@.len() - k,
    {
        r.push(v[k]);
        k = k + 1;
        proof {
            assert(r@ =~= v@.subrange(0, k as int));
        }
    }
    proof {
        assert(r@ =~= v@);
    }
    r
}

/// Relies on `String::push` from std: appends exactly the one character.
#[verifier::external_body]
pub(crate) fn push_char(s: &mut String, c: char)
    ensures
        final(s)@ == old(s)@.push(c),
{
    s.push(c)
}

/// Verified string comparison: true exactly when the two views are equal.
pub fn str_eq(a: &str, b: &str) -> (r: bool)
    ensures
        r == (a@ == b@),
{
    let n = a.unicode_len();
    let m = b.unicode_len();
    if n != m {
        proof {
            assert(a@.len() != b@.len());
        }
        return false;
    }
    let mut k: usize = 0;
    while k < n
        invariant
            n == a@.len(),
            n == b@.len(),
            k <= n,
            forall|j: int| 0 <= j < k ==> a@[j] == b@[j],
        decreases n - k,
    {
        if a.get_char(k) != b.get_char(k) {
            return false;
        }
        k = k + 1;
    }
    proof {
        assert(a@ =~= b@);
    }
    true
}

} // verus!
