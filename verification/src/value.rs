//! The 16-byte big-endian buffer and its 128-bit value.
//!
//! The byte buffer is the pivot between the two textual forms: `be_val`
//! reads it as one unsigned integer, `be_bytes16_of` renders a value back
//! into exactly 16 bytes.  On 16-byte buffers the two are inverse to one
//! another, and `be_val` is injective, which is what the round-trip
//! guarantees of the codec rest on.
use vstd::prelude::*;
use vstd::arithmetic::power::pow;
use crate::digits::{
    digits_val, digits_in_range, lemma_digits_val_bound, lemma_digits_val_unique,
    lemma_digits_val_push, lemma_emit_prefix_val, lemma_pow256_constants,
};

verus! {

/// The bytes of `bs`, each widened to an `int` digit of base 256.
pub open spec fn byte_digits(bs: Seq<u8>) -> Seq<int> {
    Seq::new(bs.len(), |i: int| bs[i] as int)
}

/// The value of `bs` read as a big-endian unsigned integer.
pub open spec fn be_val(bs: Seq<u8>) -> int {
    digits_val(byte_digits(bs), 256)
}

/// The 16-byte big-endian rendering of a value below `2^128`.
pub open spec fn be_bytes16_of(v: int) -> Seq<u8> {
    Seq::new(16, |i: int| ((v / pow(256, (15 - i) as nat)) % 256) as u8)
}

pub proof fn lemma_byte_digits_in_range(bs: Seq<u8>)
    ensures
        digits_in_range(byte_digits(bs), 256),
{
}

/// A buffer of `n` bytes holds a value below `256^n`.
pub proof fn lemma_be_val_bound(bs: Seq<u8>)
    ensures
        0 <= be_val(bs) < pow(256, bs.len()),
{
    lemma_byte_digits_in_range(bs);
    lemma_digits_val_bound(byte_digits(bs), 256);
}

/// Two equally long buffers with the same value are the same buffer.
pub proof fn lemma_be_val_injective(b1: Seq<u8>, b2: Seq<u8>)
    requires
        b1.len() == b2.len(),
        be_val(b1) == be_val(b2),
    ensures
        b1 == b2,
{
    lemma_byte_digits_in_range(b1);
    lemma_byte_digits_in_range(b2);
    lemma_digits_val_unique(byte_digits(b1), byte_digits(b2), 256);
    assert forall|i: int| 0 <= i < b1.len() implies b1[i] == b2[i] by {
        assert(byte_digits(b1)[i] == byte_digits(b2)[i]);
    }
    assert(b1 =~= b2);
}

/// Rendering a value below `2^128` into 16 bytes reads back as the value.
pub proof fn lemma_be_bytes16_of_val(v: int)
    requires
        0 <= v < pow(256, 16),
    ensures
        be_bytes16_of(v).len() == 16,
        be_val(be_bytes16_of(v)) == v,
{
    reveal(pow);
    lemma_emit_prefix_val(v, 256, 16, 16);
    let ds = Seq::new(16, |i: int| (v / pow(256, (15 - i) as nat)) % 256);
    assert forall|i: int| 0 <= i < 16 implies byte_digits(be_bytes16_of(v))[i] == ds[i] by {
        vstd::arithmetic::power::lemma_pow_positive(256, (15 - i) as nat);
        vstd::arithmetic::div_mod::lemma_mod_division_less_than_divisor(
            v / pow(256, (15 - i) as nat),
            256,
        );
        vstd::arithmetic::div_mod::lemma_div_pos_is_pos(v, pow(256, (15 - i) as nat));
    }
    assert(byte_digits(be_bytes16_of(v)) =~= ds);
    assert(pow(256, 0) == 1);
    assert(v / 1 == v);
}

/// Reads a 16-byte buffer as its big-endian 128-bit value.
pub fn u128_from_be_bytes(b: &Vec<u8>) -> (v: u128)
    requires
        b@.len() == 16,
    ensures
        v as int == be_val(b@),
{
    proof {
        lemma_pow256_constants();
    }
    let mut acc: u128 = 0;
    let mut i: usize = 0;
    while i < 16
        invariant
            b@.len() == 16,
            i <= 16,
            acc as int == digits_val(byte_digits(b@.subrange(0, i as int)), 256),
        decreases 16 - i,
    {
        proof {
            let prefix = b@.subrange(0, i as int);
            lemma_byte_digits_in_range(prefix);
            lemma_digits_val_bound(byte_digits(prefix), 256);
            vstd::arithmetic::power::lemma_pow_increases(256, i as nat, 15);
            lemma_pow256_constants();
            assert(acc as int <= pow(256, 15) - 1);
            assert((pow(256, 15) - 1) * 256 + 255 < pow(256, 16)) by (nonlinear_arith)
                requires
                    pow(256, 16) == 256 * pow(256, 15),
            ;
            assert(acc as int * 256 <= (pow(256, 15) - 1) * 256) by (nonlinear_arith)
                requires
                    0 <= acc as int <= pow(256, 15) - 1,
            ;
            lemma_digits_val_push(byte_digits(prefix), 256, b@[i as int] as int);
            assert(b@.subrange(0, i + 1) =~= prefix.push(b@[i as int]));
            assert(byte_digits(prefix.push(b@[i as int])) =~= byte_digits(prefix).push(
                b@[i as int] as int,
            ));
        }
        acc = acc * 256 + (b[i] as u128);
        i += 1;
    }
    proof {
        assert(b@.subrange(0, 16) =~= b@);
    }
    acc
}

/// Renders a 128-bit value as its 16-byte big-endian buffer.
pub fn be_bytes_from_u128(v: u128) -> (r: Vec<u8>)
    ensures
        r@ == be_bytes16_of(v as int),
        r@.len() == 16,
        be_val(r@) == v as int,
{
    proof {
        reveal(pow);
        lemma_pow256_constants();
    }
    let mut out: Vec<u8> = Vec::new();
    let mut p: u128 = 0x1000000000000000000000000000000;
    let mut j: usize = 0;
    while j < 16
        invariant
            j <= 16,
            out@.len() == j,
            forall|k: int| 0 <= k < j ==> out@[k] == be_bytes16_of(v as int)[k],
            j < 16 ==> p as int == pow(256, (15 - j) as nat),
        decreases 16 - j,
    {
        proof {
            vstd::arithmetic::power::lemma_pow_positive(256, (15 - j) as nat);
            vstd::arithmetic::div_mod::lemma_mod_division_less_than_divisor(
                (v as int) / (p as int),
                256,
            );
            vstd::arithmetic::div_mod::lemma_div_pos_is_pos(v as int, p as int);
        }
        let d = ((v / p) % 256) as u8;
        out.push(d);
        if j < 15 {
            proof {
                reveal(pow);
                assert(pow(256, (15 - j) as nat) == 256 * pow(256, (14 - j) as nat));
                vstd::arithmetic::power::lemma_pow_positive(256, (14 - j) as nat);
                vstd::arithmetic::div_mod::lemma_div_multiples_vanish(
                    pow(256, (14 - j) as nat),
                    256,
                );
            }
            p = p / 256;
        }
        j += 1;
    }
    proof {
        assert(out@ =~= be_bytes16_of(v as int));
        lemma_pow256_constants();
        assert((v as int) < pow(256, 16));
        lemma_be_bytes16_of_val(v as int);
    }
    out
}

} // verus!
