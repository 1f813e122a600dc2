//! The round-trip guarantees of the codec.
//!
//! Each law is stated over the spec functions that the executable
//! functions' contracts use, so it applies to any outputs those contracts
//! admit.
use vstd::prelude::*;
use crate::base58::{b58_val, is_valid_b58};
use crate::digits::{lemma_digits_val_unique, lemma_pow256_constants};
use crate::hexchars::{lower_char, lemma_hex_render_lower};
use crate::uuid_text::{
    is_valid_uuid_hyphenated, is_uuid_hyphen_pos, uuid_hex_pos, uuid_digits_before, uuid_val,
    uuid_hex_digits, uuid_nibble, uuid_nibble_digits, uuid_text_of, lemma_nibbles_val,
    lemma_uuid_digits_in_range,
};
use crate::value::{be_val, lemma_be_val_bound, lemma_be_val_injective};

verus! {

/// Round trip through Base58: a buffer that encodes to a Base58 text `e`,
/// as `encode_bytes` guarantees, is the one buffer that `e` decodes to.
/// Its value always fits in 128 bits, so decoding `e` cannot fail.
pub proof fn lemma_encode_decode_round_trip(b: Seq<u8>, e: Seq<char>, d: Seq<u8>)
    requires
        b.len() == 16,
        is_valid_b58(e),
        b58_val(e) == be_val(b),
        d.len() == 16,
        be_val(d) == b58_val(e),
    ensures
        b58_val(e) < 0x100000000000000000000000000000000,
        d == b,
{
    lemma_be_val_bound(b);
    lemma_pow256_constants();
    lemma_be_val_injective(d, b);
}

/// Round trip through the UUID text: formatting the buffer that a
/// well-formed hyphenated text `u` parses to, as `parse_uuid` and
/// `format_uuid` guarantee, reproduces `u` with every character lowered.
pub proof fn lemma_parse_format_round_trip(u: Seq<char>, b: Seq<u8>)
    requires
        is_valid_uuid_hyphenated(u),
        b.len() == 16,
        be_val(b) == uuid_val(u),
    ensures
        uuid_text_of(b) == Seq::new(u.len(), |j: int| lower_char(u[j])),
{
    lemma_nibbles_val(b);
    lemma_uuid_digits_in_range(u);
    assert forall|i: int| 0 <= i < 32 implies 0 <= #[trigger] uuid_nibble_digits(b)[i] < 16 by {
        vstd::arithmetic::div_mod::lemma_mod_division_less_than_divisor(b[i / 2] as int, 16);
    }
    lemma_digits_val_unique(uuid_hex_digits(u), uuid_nibble_digits(b), 16);
    let lowered = Seq::new(u.len(), |j: int| lower_char(u[j]));
    assert forall|j: int| 0 <= j < 36 implies uuid_text_of(b)[j] == lowered[j] by {
        if !is_uuid_hyphen_pos(j) {
            let i = uuid_digits_before(j);
            assert(uuid_hex_pos(i) == j);
            assert(uuid_nibble(b, i) == uuid_nibble_digits(b)[i]);
            assert(uuid_hex_digits(u)[i] == crate::hexchars::hex_val_of_char(u[j]));
            lemma_hex_render_lower(u[j]);
        }
    }
    assert(uuid_text_of(b) =~= lowered);
}

} // verus!

