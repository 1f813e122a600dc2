//! The fixed-width Base58 codec.
//!
//! A 16-byte big-endian buffer is rendered as exactly 22 Base58 digits,
//! most significant first, left-padded with the alphabet's zero character
//! `1`; the width suffices for every 128-bit value because
//! `58^22 > 2^128`.  Decoding accepts exactly the 22-character strings
//! over the alphabet whose value fits in 128 bits; a well-formed string
//! whose value reaches `2^128` is rejected as an overflow, never wrapped.
use vstd::prelude::*;
use vstd::arithmetic::power::pow;
use crate::alphabet::{is_b58_char, b58_digit_of, b58_char_of, b58_index_of, b58_char_from};
use crate::alphabet::lemma_b58_char_of_digit;
use crate::digits::{
    digits_val, digits_in_range, lemma_digits_val_push, lemma_digits_val_prefix_le,
    lemma_emit_prefix_val, lemma_pow58_constants, lemma_pow256_constants,
};
use crate::errors::CodecError;
use crate::strbuild::push_char;
use crate::value::{be_val, be_bytes16_of, lemma_be_val_bound};
use crate::value::{u128_from_be_bytes, be_bytes_from_u128};

verus! {

/// The alphabet indexes of the characters of `s`, -1 where a character is
/// outside the alphabet.
pub open spec fn b58_digits(s: Seq<char>) -> Seq<int> {
    Seq::new(s.len(), |i: int| b58_digit_of(s[i]))
}

/// The value of `s` read as Base58 digits, most significant first.
pub open spec fn b58_val(s: Seq<char>) -> int {
    digits_val(b58_digits(s), 58)
}

/// A well-formed Base58 text: exactly 22 characters, all in the alphabet.
pub open spec fn is_valid_b58(s: Seq<char>) -> bool {
    s.len() == 22 && forall|i: int| 0 <= i < s.len() ==> is_b58_char(#[trigger] s[i])
}

/// The 22-character Base58 rendering of a value below `58^22`, most
/// significant digit first.
pub open spec fn b58_text_of(v: int) -> Seq<char> {
    Seq::new(22, |j: int| b58_char_of((v / pow(58, (21 - j) as nat)) % 58))
}

pub proof fn lemma_b58_digits_in_range(s: Seq<char>)
    requires
        forall|i: int| 0 <= i < s.len() ==> is_b58_char(#[trigger] s[i]),
    ensures
        digits_in_range(b58_digits(s), 58),
{
    assert forall|i: int| 0 <= i < b58_digits(s).len() implies 0 <= #[trigger] b58_digits(s)[i]
        < 58 by {
        assert(is_b58_char(s[i]));
    }
}

/// The fixed-width rendering of a value below `58^22` is well-formed and
/// reads back as the value.
pub proof fn lemma_b58_text_of_val(v: int)
    requires
        0 <= v < pow(58, 22),
    ensures
        is_valid_b58(b58_text_of(v)),
        b58_val(b58_text_of(v)) == v,
{
    reveal(pow);
    lemma_emit_prefix_val(v, 58, 22, 22);
    let ds = Seq::new(22, |i: int| (v / pow(58, (21 - i) as nat)) % 58);
    assert forall|j: int| 0 <= j < 22 implies is_b58_char(#[trigger] b58_text_of(v)[j])
        && b58_digits(b58_text_of(v))[j] == ds[j] by {
        vstd::arithmetic::power::lemma_pow_positive(58, (21 - j) as nat);
        vstd::arithmetic::div_mod::lemma_mod_division_less_than_divisor(
            v / pow(58, (21 - j) as nat),
            58,
        );
        lemma_b58_char_of_digit((v / pow(58, (21 - j) as nat)) % 58);
    }
    assert(b58_digits(b58_text_of(v)) =~= ds);
    assert(pow(58, 0) == 1);
}

/// Encodes a 16-byte big-endian buffer as its fixed-width Base58 text:
/// always exactly 22 characters, all in the alphabet, preserving the
/// 128-bit value.
pub fn encode_bytes(b: &Vec<u8>) -> (r: String)
    requires
        b@.len() == 16,
    ensures
        r@ == b58_text_of(be_val(b@)),
        r@.len() == 22,
        forall|j: int| 0 <= j < r@.len() ==> is_b58_char(#[trigger] r@[j]),
        b58_val(r@) == be_val(b@),
{
    proof {
        reveal(pow);
        lemma_be_val_bound(b@);
        lemma_pow256_constants();
        lemma_pow58_constants();
    }
    let v = u128_from_be_bytes(b);
    let ghost vi = v as int;
    let mut out = String::new();
    let mut p: u128 = 0x819237f3896f2f30bb832ce3da00000;
    let mut j: usize = 0;
    while j < 22
        invariant
            j <= 22,
            out@.len() == j,
            0 <= vi < pow(58, 22),
            vi == v as int,
            forall|k: int| 0 <= k < j ==> out@[k] == b58_text_of(vi)[k],
            j < 22 ==> p as int == pow(58, (21 - j) as nat),
        decreases 22 - j,
    {
        proof {
            vstd::arithmetic::power::lemma_pow_positive(58, (21 - j) as nat);
            vstd::arithmetic::div_mod::lemma_mod_division_less_than_divisor(
                vi / (p as int),
                58,
            );
            vstd::arithmetic::div_mod::lemma_div_pos_is_pos(vi, p as int);
        }
        let d = ((v / p) % 58) as u8;
        push_char(&mut out, b58_char_from(d));
        if j < 21 {
            proof {
                reveal(pow);
                assert(pow(58, (21 - j) as nat) == 58 * pow(58, (20 - j) as nat));
                vstd::arithmetic::power::lemma_pow_positive(58, (20 - j) as nat);
                vstd::arithmetic::div_mod::lemma_div_multiples_vanish(
                    pow(58, (20 - j) as nat),
                    58,
                );
            }
            p = p / 58;
        }
        j += 1;
    }
    proof {
        assert(out@ =~= b58_text_of(vi));
        lemma_b58_text_of_val(vi);
    }
    out
}

/// Decodes a fixed-width Base58 text back into its 16-byte big-endian
/// buffer.  Exactly the well-formed 22-character texts whose value fits in
/// 128 bits succeed; a malformed text is an `InvalidB58Format`, a
/// well-formed one whose value reaches `2^128` a `ValueOverflow`.
pub fn decode_bytes(s: &str) -> (r: Result<Vec<u8>, CodecError>)
    ensures
        match r {
            Ok(b) => {
                &&& is_valid_b58(s@)
                &&& b58_val(s@) < 0x100000000000000000000000000000000
                &&& b@ == be_bytes16_of(b58_val(s@))
                &&& b@.len() == 16
                &&& be_val(b@) == b58_val(s@)
            },
            Err(CodecError::InvalidB58Format(m)) => !is_valid_b58(s@) && m@ == s@,
            Err(CodecError::ValueOverflow(m)) => {
                &&& is_valid_b58(s@)
                &&& b58_val(s@) >= 0x100000000000000000000000000000000
                &&& m@ == s@
            },
            Err(CodecError::InvalidUuidFormat(_)) => false,
        },
{
    let n = s.unicode_len();
    if n != 22 {
        return Err(CodecError::InvalidB58Format(s.to_owned()));
    }
    let mut ds: Vec<u8> = Vec::new();
    let mut i: usize = 0;
    while i < 22
        invariant
            s@.len() == 22,
            i <= 22,
            ds@.len() == i,
            forall|k: int| 0 <= k < i ==> is_b58_char(#[trigger] s@[k]),
            forall|k: int| 0 <= k < i ==> #[trigger] ds@[k] as int == b58_digit_of(s@[k]),
            forall|k: int| 0 <= k < i ==> #[trigger] ds@[k] < 58,
        decreases 22 - i,
    {
        let c = s.get_char(i);
        match b58_index_of(c) {
            Some(d) => {
                ds.push(d);
            },
            None => {
                return Err(CodecError::InvalidB58Format(s.to_owned()));
            },
        }
        i += 1;
    }
    let ghost dg = b58_digits(s@);
    proof {
        lemma_b58_digits_in_range(s@);
        assert(digits_val(dg.subrange(0, 0), 58) == 0) by {
            assert(dg.subrange(0, 0) =~= Seq::<int>::empty());
        }
    }
    let mut acc: u128 = 0;
    i = 0;
    while i < 22
        invariant
            s@.len() == 22,
            is_valid_b58(s@),
            dg == b58_digits(s@),
            digits_in_range(dg, 58),
            ds@.len() == 22,
            forall|k: int| 0 <= k < 22 ==> #[trigger] ds@[k] as int == b58_digit_of(s@[k]),
            forall|k: int| 0 <= k < 22 ==> #[trigger] ds@[k] < 58,
            i <= 22,
            acc as int == digits_val(dg.subrange(0, i as int), 58),
        decreases 22 - i,
    {
        let d = ds[i];
        let limit = (u128::MAX - d as u128) / 58;
        proof {
            let a = acc as int;
            let dd = d as int;
            let m = u128::MAX as int;
            vstd::arithmetic::div_mod::lemma_fundamental_div_mod(m - dd, 58);
            vstd::arithmetic::div_mod::lemma_mod_division_less_than_divisor(m - dd, 58);
            lemma_digits_val_push(dg.subrange(0, i as int), 58, dg[i as int]);
            assert(dg.subrange(0, i + 1) =~= dg.subrange(0, i as int).push(dg[i as int]));
            if a <= (m - dd) / 58 {
                assert(a * 58 + dd <= m) by (nonlinear_arith)
                    requires
                        0 <= a <= (m - dd) / 58,
                        m - dd == 58 * ((m - dd) / 58) + (m - dd) % 58,
                        0 <= (m - dd) % 58,
                        0 <= dd,
                ;
            } else {
                assert(a * 58 + dd > m) by (nonlinear_arith)
                    requires
                        a > (m - dd) / 58,
                        m - dd == 58 * ((m - dd) / 58) + (m - dd) % 58,
                        (m - dd) % 58 < 58,
                        0 <= dd,
                ;
                lemma_digits_val_prefix_le(dg, 58, i + 1);
            }
        }
        if acc > limit {
            return Err(CodecError::ValueOverflow(s.to_owned()));
        }
        acc = acc * 58 + d as u128;
        i += 1;
    }
    proof {
        assert(dg.subrange(0, 22) =~= dg);
        lemma_pow256_constants();
    }
    Ok(be_bytes_from_u128(acc))
}

} // verus!
