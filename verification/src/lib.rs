//! Conversion between the standard UUID text (36 hyphenated hexadecimal
//! characters) and a compact fixed-width Base58 text (22 characters) of
//! the same 128-bit value, plus random generation in either form.
//!
//! Both directions pivot through the 16-byte big-endian buffer of the
//! value.  Encoding always yields exactly 22 alphabet characters;
//! decoding accepts exactly the well-formed inputs and reports every
//! malformed or overflowing one as a typed error, never by panicking.
mod alphabet;
mod base58;
mod digits;
mod errors;
mod hexchars;
mod laws;
mod strbuild;
mod uuid_text;
mod value;

use vstd::prelude::*;

pub use crate::alphabet::{is_b58_char, char_is_b58, lemma_b58_exclusions};
pub use crate::base58::{b58_val, is_valid_b58, b58_text_of, encode_bytes, decode_bytes};
pub use crate::errors::CodecError;
pub use crate::hexchars::lower_char;
pub use crate::laws::{lemma_encode_decode_round_trip, lemma_parse_format_round_trip};
pub use crate::uuid_text::{
    is_valid_uuid_text, is_valid_uuid_hyphenated, is_valid_uuid_plain, uuid_val, uuid_text_of,
    parse_uuid, format_uuid,
};
pub use crate::value::{be_val, be_bytes16_of, u128_from_be_bytes, be_bytes_from_u128};

verus! {

/// Relies on `uuid::Uuid::new_v4` and `Uuid::as_bytes`: 16 random bytes,
/// big-endian, with the version nibble set to 4 and the variant bits set
/// to the RFC 4122 pattern, as the crate documents for version-4 UUIDs.
/// Nothing else is assumed of the random value.
#[verifier::external_body]
fn random_uuid_bytes() -> (r: Vec<u8>)
    ensures
        r@.len() == 16,
        r@[6] as int / 16 == 4,
        8 <= r@[8] as int / 16 <= 11,
{
    uuid::Uuid::new_v4().as_bytes().to_vec()
}

/// Encodes a UUID text (hyphenated or bare, either case) as its 22-character
/// Base58 text.  Succeeds exactly on the well-formed UUID texts.
pub fn encode_uuid(uuid_str: &str) -> (r: Result<String, CodecError>)
    ensures
        match r {
            Ok(t) => {
                &&& is_valid_uuid_text(uuid_str@)
                &&& t@ == b58_text_of(uuid_val(uuid_str@))
                &&& t@.len() == 22
                &&& (forall|j: int| 0 <= j < t@.len() ==> is_b58_char(#[trigger] t@[j]))
                &&& b58_val(t@) == uuid_val(uuid_str@)
            },
            Err(CodecError::InvalidUuidFormat(m)) => !is_valid_uuid_text(uuid_str@) && m@
                == uuid_str@,
            Err(CodecError::InvalidB58Format(_)) => false,
            Err(CodecError::ValueOverflow(_)) => false,
        },
{
    match parse_uuid(uuid_str) {
        Ok(b) => Ok(encode_bytes(&b)),
        Err(e) => Err(e),
    }
}

/// Decodes a 22-character Base58 text into the canonical UUID text of the
/// same value.  Succeeds exactly on the well-formed Base58 texts whose
/// value fits in 128 bits.
pub fn decode_to_uuid(b58_str: &str) -> (r: Result<String, CodecError>)
    ensures
        match r {
            Ok(t) => {
                &&& is_valid_b58(b58_str@)
                &&& b58_val(b58_str@) < 0x100000000000000000000000000000000
                &&& t@ == uuid_text_of(be_bytes16_of(b58_val(b58_str@)))
                &&& t@.len() == 36
                &&& is_valid_uuid_hyphenated(t@)
                &&& uuid_val(t@) == b58_val(b58_str@)
            },
            Err(CodecError::InvalidB58Format(m)) => !is_valid_b58(b58_str@) && m@ == b58_str@,
            Err(CodecError::ValueOverflow(m)) => {
                &&& is_valid_b58(b58_str@)
                &&& b58_val(b58_str@) >= 0x100000000000000000000000000000000
                &&& m@ == b58_str@
            },
            Err(CodecError::InvalidUuidFormat(_)) => false,
        },
{
    match decode_bytes(b58_str) {
        Ok(b) => Ok(format_uuid(&b)),
        Err(e) => Err(e),
    }
}

/// Generates a random version-4 UUID and returns its 22-character Base58
/// text.  The result always encodes some 16-byte buffer that carries the
/// version-4 nibble and the RFC 4122 variant bits.
pub fn generate() -> (r: String)
    ensures
        r@.len() == 22,
        forall|j: int| 0 <= j < r@.len() ==> is_b58_char(#[trigger] r@[j]),
        b58_val(r@) < 0x100000000000000000000000000000000,
        exists|b: Seq<u8>|
            {
                &&& b.len() == 16
                &&& #[trigger] be_val(b) == b58_val(r@)
                &&& b[6] as int / 16 == 4
                &&& 8 <= b[8] as int / 16 <= 11
            },
{
    let b = random_uuid_bytes();
    proof {
        crate::value::lemma_be_val_bound(b@);
        crate::digits::lemma_pow256_constants();
    }
    let r = encode_bytes(&b);
    proof {
        assert(b@.len() == 16 && be_val(b@) == b58_val(r@) && b@[6] as int / 16 == 4 && 8 <= b@[8] as int / 16 <= 11);
    }
    r
}

/// Generates a random version-4 UUID and returns its canonical 36-character
/// text, always lowercase.  The version digit is always `4` and the variant
/// digit one of `8`, `9`, `a`, `b`.
pub fn generate_uuid() -> (r: String)
    ensures
        r@.len() == 36,
        is_valid_uuid_hyphenated(r@),
        forall|j: int| 0 <= j < r@.len() ==> #[trigger] lower_char(r@[j]) == r@[j],
        r@[14] == '4',
        r@[19] == '8' || r@[19] == '9' || r@[19] == 'a' || r@[19] == 'b',
{
    let b = random_uuid_bytes();
    let r = format_uuid(&b);
    proof {
        assert(r@[14] == crate::hexchars::hex_char_of(b@[6] as int / 16));
        assert(r@[19] == crate::hexchars::hex_char_of(b@[8] as int / 16));
        assert forall|j: int| 0 <= j < r@.len() implies #[trigger] lower_char(r@[j]) == r@[j] by {
            if !crate::uuid_text::is_uuid_hyphen_pos(j) {
                let i = crate::uuid_text::uuid_digits_before(j);
                vstd::arithmetic::div_mod::lemma_mod_division_less_than_divisor(
                    b@[i / 2] as int,
                    16,
                );
                crate::hexchars::lemma_hex_char_of_val(crate::uuid_text::uuid_nibble(b@, i));
            }
        }
    }
    r
}

} // verus!
