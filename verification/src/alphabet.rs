//! The Base58 alphabet.
//!
//! The table is the Bitcoin one,
//! `123456789ABCDEFGHJKLMNPQRSTUVWXYZabcdefghijkmnopqrstuvwxyz`:
//! digits and ASCII letters with the visually ambiguous `0`, `O`, `I` and
//! `l` left out.  Because the kept characters fall into six contiguous
//! ASCII ranges, both directions of the table are written as range
//! arithmetic on the code point.
use vstd::prelude::*;

verus! {

/// True of the characters that the Base58 alphabet admits.
pub open spec fn is_b58_char(c: char) -> bool {
    b58_digit_of(c) >= 0
}

/// The alphabet index (0 to 57) of a Base58 character, or -1 for any other
/// character.
pub open spec fn b58_digit_of(c: char) -> int {
    let x = c as int;
    if 0x31 <= x <= 0x39 {
        x - 0x31
    } else if 0x41 <= x <= 0x48 {
        x - 0x41 + 9
    } else if 0x4a <= x <= 0x4e {
        x - 0x4a + 17
    } else if 0x50 <= x <= 0x5a {
        x - 0x50 + 22
    } else if 0x61 <= x <= 0x6b {
        x - 0x61 + 33
    } else if 0x6d <= x <= 0x7a {
        x - 0x6d + 44
    } else {
        -1
    }
}

/// The Base58 character for an alphabet index between 0 and 57.
pub open spec fn b58_char_of(d: int) -> char {
    if d < 9 {
        (0x31 + d) as u8 as char
    } else if d < 17 {
        (0x41 + d - 9) as u8 as char
    } else if d < 22 {
        (0x4a + d - 17) as u8 as char
    } else if d < 33 {
        (0x50 + d - 22) as u8 as char
    } else if d < 44 {
        (0x61 + d - 33) as u8 as char
    } else {
        (0x6d + d - 44) as u8 as char
    }
}

/// The two directions of the table agree: every index maps to a character
/// of the alphabet that maps back to it.
pub proof fn lemma_b58_char_of_digit(d: int)
    requires
        0 <= d < 58,
    ensures
        is_b58_char(b58_char_of(d)),
        b58_digit_of(b58_char_of(d)) == d,
{
}

/// The alphabet never contains the excluded look-alike characters `0`,
/// `O`, `I` and `l`, nor anything outside the ASCII alphanumerics.
pub proof fn lemma_b58_exclusions()
    ensures
        !is_b58_char('0'),
        !is_b58_char('O'),
        !is_b58_char('I'),
        !is_b58_char('l'),
        !is_b58_char('-'),
{
}

/// The alphabet index of `c`, or `None` for a character outside the
/// alphabet.
pub fn b58_index_of(c: char) -> (r: Option<u8>)
    ensures
        match r {
            Some(d) => is_b58_char(c) && d as int == b58_digit_of(c) && d < 58,
            None => !is_b58_char(c),
        },
{
    let x = c as u32;
    if 0x31 <= x && x <= 0x39 {
        Some((x - 0x31) as u8)
    } else if 0x41 <= x && x <= 0x48 {
        Some((x - 0x41 + 9) as u8)
    } else if 0x4a <= x && x <= 0x4e {
        Some((x - 0x4a + 17) as u8)
    } else if 0x50 <= x && x <= 0x5a {
        Some((x - 0x50 + 22) as u8)
    } else if 0x61 <= x && x <= 0x6b {
        Some((x - 0x61 + 33) as u8)
    } else if 0x6d <= x && x <= 0x7a {
        Some((x - 0x6d + 44) as u8)
    } else {
        None
    }
}

/// The Base58 character for an alphabet index.
pub fn b58_char_from(d: u8) -> (c: char)
    ensures
        d < 58 ==> c == b58_char_of(d as int),
{
    let b: u8 = if d < 9 {
        0x31 + d
    } else if d < 17 {
        0x41 + d - 9
    } else if d < 22 {
        0x4a + d - 17
    } else if d < 33 {
        0x50 + d - 22
    } else if d < 44 {
        0x61 + d - 33
    } else if d < 58 {
        0x6d + d - 44
    } else {
        0x31
    };
    b as char
}

/// Whether `c` belongs to the Base58 alphabet.
pub fn char_is_b58(c: char) -> (r: bool)
    ensures
        r == is_b58_char(c),
{
    b58_index_of(c).is_some()
}

} // verus!
