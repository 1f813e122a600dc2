//! Hexadecimal digits as characters.
//!
//! Reading is case-insensitive; rendering always emits the lowercase
//! digit.  The bridge between the two is `lower_char`, ASCII lowering,
//! under which reading and rendering are inverse to one another.
use vstd::prelude::*;

verus! {

/// True of the characters `0`-`9`, `a`-`f` and `A`-`F`.
pub open spec fn is_hex_char(c: char) -> bool {
    hex_val_of_char(c) >= 0
}

/// The numeric value (0 to 15) of a hexadecimal digit character, either
/// case, or -1 for any other character.
pub open spec fn hex_val_of_char(c: char) -> int {
    let x = c as int;
    if 0x30 <= x <= 0x39 {
        x - 0x30
    } else if 0x61 <= x <= 0x66 {
        x - 0x61 + 10
    } else if 0x41 <= x <= 0x46 {
        x - 0x41 + 10
    } else {
        -1
    }
}

/// The lowercase hexadecimal digit character for a value between 0 and 15.
pub open spec fn hex_char_of(d: int) -> char {
    if d < 10 {
        (0x30 + d) as u8 as char
    } else {
        (0x61 + d - 10) as u8 as char
    }
}

/// ASCII lowering: an uppercase ASCII letter becomes its lowercase form,
/// every other character stays as it is.
pub open spec fn lower_char(c: char) -> char {
    let x = c as int;
    if 0x41 <= x <= 0x5a {
        (x + 0x20) as u8 as char
    } else {
        c
    }
}

/// Rendering a hexadecimal value yields a lowercase hexadecimal digit that
/// reads back as the same value.
pub proof fn lemma_hex_char_of_val(d: int)
    requires
        0 <= d < 16,
    ensures
        is_hex_char(hex_char_of(d)),
        hex_val_of_char(hex_char_of(d)) == d,
        lower_char(hex_char_of(d)) == hex_char_of(d),
{
}

/// Rendering the value of a hexadecimal digit gives its lowercase form.
pub proof fn lemma_hex_render_lower(c: char)
    requires
        is_hex_char(c),
    ensures
        hex_char_of(hex_val_of_char(c)) == lower_char(c),
{
}

/// The value of a hexadecimal digit character, or `None` for a character
/// that is not one.
pub fn hex_index_of(c: char) -> (r: Option<u8>)
    ensures
        match r {
            Some(d) => is_hex_char(c) && d as int == hex_val_of_char(c) && d < 16,
            None => !is_hex_char(c),
        },
{
    let x = c as u32;
    if 0x30 <= x && x <= 0x39 {
        Some((x - 0x30) as u8)
    } else if 0x61 <= x && x <= 0x66 {
        Some((x - 0x61 + 10) as u8)
    } else if 0x41 <= x && x <= 0x46 {
        Some((x - 0x41 + 10) as u8)
    } else {
        None
    }
}

/// The lowercase hexadecimal digit character for a value.
pub fn hex_char_from(d: u8) -> (c: char)
    ensures
        d < 16 ==> c == hex_char_of(d as int),
{
    let b: u8 = if d < 10 {
        0x30 + d
    } else if d < 16 {
        0x61 + d - 10
    } else {
        0x30
    };
    b as char
}

} // verus!
