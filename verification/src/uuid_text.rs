//! The hyphenated hexadecimal UUID text.
//!
//! The canonical form is 32 hexadecimal digits grouped 8-4-4-4-12 by
//! hyphens at positions 8, 13, 18 and 23, lowercase on output.  Parsing
//! is case-insensitive and also accepts the bare 32-digit form; any other
//! length, hyphen placement or character is rejected.
use vstd::prelude::*;
use vstd::arithmetic::power::pow;
use crate::digits::{
    digits_val, digits_in_range, lemma_digits_val_bound, lemma_digits_val_push,
    lemma_pow16_constants, lemma_pow256_constants,
};
use crate::errors::CodecError;
use crate::hexchars::{
    is_hex_char, hex_val_of_char, hex_char_of, hex_index_of, hex_char_from, lemma_hex_char_of_val,
};
use crate::strbuild::push_char;
use crate::value::{be_val, be_bytes16_of, byte_digits, lemma_be_val_bound};
use crate::value::be_bytes_from_u128;

verus! {

/// The four positions that hold a hyphen in the 36-character form.
pub open spec fn is_uuid_hyphen_pos(j: int) -> bool {
    j == 8 || j == 13 || j == 18 || j == 23
}

/// The position in the 36-character form of hex digit `i` (0 to 31).
pub open spec fn uuid_hex_pos(i: int) -> int {
    if i < 8 {
        i
    } else if i < 12 {
        i + 1
    } else if i < 16 {
        i + 2
    } else if i < 20 {
        i + 3
    } else {
        i + 4
    }
}

/// How many hex digits stand before position `j` of the 36-character form.
pub open spec fn uuid_digits_before(j: int) -> int {
    if j <= 8 {
        j
    } else if j <= 13 {
        j - 1
    } else if j <= 18 {
        j - 2
    } else if j <= 23 {
        j - 3
    } else {
        j - 4
    }
}

/// A well-formed 36-character UUID text: hyphens exactly at the four
/// canonical positions, hexadecimal digits of either case everywhere else.
pub open spec fn is_valid_uuid_hyphenated(s: Seq<char>) -> bool {
    &&& s.len() == 36
    &&& s[8] == '-'
    &&& s[13] == '-'
    &&& s[18] == '-'
    &&& s[23] == '-'
    &&& forall|j: int|
        0 <= j < 36 && !is_uuid_hyphen_pos(j) ==> is_hex_char(#[trigger] s[j])
}

/// A well-formed bare UUID text: 32 hexadecimal digits, no hyphens.
pub open spec fn is_valid_uuid_plain(s: Seq<char>) -> bool {
    s.len() == 32 && forall|i: int| 0 <= i < 32 ==> is_hex_char(#[trigger] s[i])
}

/// A text the parser accepts: the hyphenated or the bare form.
pub open spec fn is_valid_uuid_text(s: Seq<char>) -> bool {
    is_valid_uuid_hyphenated(s) || is_valid_uuid_plain(s)
}

/// The 32 hexadecimal digit values of a UUID text, hyphens skipped.
pub open spec fn uuid_hex_digits(s: Seq<char>) -> Seq<int> {
    if s.len() == 36 {
        Seq::new(32, |i: int| hex_val_of_char(s[uuid_hex_pos(i)]))
    } else {
        Seq::new(s.len(), |i: int| hex_val_of_char(s[i]))
    }
}

/// The 128-bit value a UUID text denotes.
pub open spec fn uuid_val(s: Seq<char>) -> int {
    digits_val(uuid_hex_digits(s), 16)
}

/// Nibble `i` (0 to 31) of a byte buffer, high nibble first.
pub open spec fn uuid_nibble(b: Seq<u8>, i: int) -> int {
    if i % 2 == 0 {
        b[i / 2] as int / 16
    } else {
        b[i / 2] as int % 16
    }
}

/// The nibbles of a byte buffer as base-16 digits.
pub open spec fn uuid_nibble_digits(b: Seq<u8>) -> Seq<int> {
    Seq::new(2 * b.len(), |i: int| uuid_nibble(b, i))
}

/// The canonical text of a 16-byte buffer: lowercase hexadecimal with
/// hyphens at the four canonical positions.
pub open spec fn uuid_text_of(b: Seq<u8>) -> Seq<char> {
    Seq::new(
        36,
        |j: int|
            if is_uuid_hyphen_pos(j) {
                '-'
            } else {
                hex_char_of(uuid_nibble(b, uuid_digits_before(j)))
            },
    )
}

/// The nibbles of a buffer read in base 16 give the same value as the
/// bytes read in base 256.
pub proof fn lemma_nibbles_val(b: Seq<u8>)
    ensures
        digits_val(uuid_nibble_digits(b), 16) == be_val(b),
    decreases b.len(),
{
    if b.len() == 0 {
        assert(uuid_nibble_digits(b) =~= Seq::<int>::empty());
        assert(byte_digits(b) =~= Seq::<int>::empty());
    } else {
        let t = b.drop_last();
        lemma_nibbles_val(t);
        let nb = uuid_nibble_digits(b);
        let nt = uuid_nibble_digits(t);
        let last = b.last() as int;
        let hi = last / 16;
        let lo = last % 16;
        assert(nb[2 * b.len() - 2] == hi && nb[2 * b.len() - 1] == lo);
        assert(nt =~= nb.subrange(0, 2 * b.len() - 2));
        assert(nb =~= nt.push(hi).push(lo));
        lemma_digits_val_push(nt, 16, hi);
        lemma_digits_val_push(nt.push(hi), 16, lo);
        vstd::arithmetic::div_mod::lemma_fundamental_div_mod(last, 16);
        let x = digits_val(nt, 16);
        assert((x * 16 + hi) * 16 + lo == x * 256 + (16 * hi + lo)) by (nonlinear_arith);
        assert(byte_digits(b).drop_last() =~= byte_digits(t));
        assert(byte_digits(b).last() == last);
    }
}

/// The canonical text of a 16-byte buffer is a well-formed hyphenated
/// UUID text, it is already lowercase, and it denotes the buffer's value.
pub proof fn lemma_uuid_text_of_valid(b: Seq<u8>)
    requires
        b.len() == 16,
    ensures
        is_valid_uuid_hyphenated(uuid_text_of(b)),
        uuid_val(uuid_text_of(b)) == be_val(b),
{
    let t = uuid_text_of(b);
    assert forall|j: int| 0 <= j < 36 && !is_uuid_hyphen_pos(j) implies is_hex_char(
        #[trigger] t[j],
    ) by {
        let i = uuid_digits_before(j);
        vstd::arithmetic::div_mod::lemma_mod_division_less_than_divisor(b[i / 2] as int, 16);
        lemma_hex_char_of_val(uuid_nibble(b, i));
    }
    assert forall|i: int| 0 <= i < 32 implies uuid_hex_digits(t)[i] == uuid_nibble_digits(b)[i] by {
        let j = uuid_hex_pos(i);
        assert(!is_uuid_hyphen_pos(j));
        assert(uuid_digits_before(j) == i);
        vstd::arithmetic::div_mod::lemma_mod_division_less_than_divisor(b[i / 2] as int, 16);
        lemma_hex_char_of_val(uuid_nibble(b, i));
    }
    assert(uuid_hex_digits(t) =~= uuid_nibble_digits(b));
    lemma_nibbles_val(b);
}

/// The digit values of a valid UUID text are base-16 digits.
pub proof fn lemma_uuid_digits_in_range(s: Seq<char>)
    requires
        is_valid_uuid_text(s),
    ensures
        digits_in_range(uuid_hex_digits(s), 16),
        uuid_hex_digits(s).len() == 32,
{
    if s.len() == 36 {
        assert forall|i: int| 0 <= i < 32 implies 0 <= #[trigger] uuid_hex_digits(s)[i] < 16 by {
            assert(!is_uuid_hyphen_pos(uuid_hex_pos(i)));
            assert(is_hex_char(s[uuid_hex_pos(i)]));
        }
    } else {
        assert forall|i: int| 0 <= i < 32 implies 0 <= #[trigger] uuid_hex_digits(s)[i] < 16 by {
            assert(is_hex_char(s[i]));
        }
    }
}

/// A valid UUID text denotes a value below `2^128`.
pub proof fn lemma_uuid_val_bound(s: Seq<char>)
    requires
        is_valid_uuid_text(s),
    ensures
        0 <= uuid_val(s) < 0x100000000000000000000000000000000,
{
    lemma_uuid_digits_in_range(s);
    lemma_digits_val_bound(uuid_hex_digits(s), 16);
    lemma_pow16_constants();
}

/// Parses a UUID text into its 16-byte big-endian buffer.  Exactly the
/// well-formed hyphenated or bare texts succeed, case-insensitively; any
/// other input is an `InvalidUuidFormat`.
pub fn parse_uuid(s: &str) -> (r: Result<Vec<u8>, CodecError>)
    ensures
        match r {
            Ok(b) => {
                &&& is_valid_uuid_text(s@)
                &&& b@ == be_bytes16_of(uuid_val(s@))
                &&& b@.len() == 16
                &&& be_val(b@) == uuid_val(s@)
            },
            Err(CodecError::InvalidUuidFormat(m)) => !is_valid_uuid_text(s@) && m@ == s@,
            Err(CodecError::InvalidB58Format(_)) => false,
            Err(CodecError::ValueOverflow(_)) => false,
        },
{
    let n = s.unicode_len();
    let ghost dg = uuid_hex_digits(s@);
    proof {
        assert(dg.subrange(0, 0) =~= Seq::<int>::empty());
        lemma_pow16_constants();
    }
    if n == 36 {
        let mut acc: u128 = 0;
        let mut j: usize = 0;
        while j < 36
            invariant
                s@.len() == 36,
                dg == uuid_hex_digits(s@),
                j <= 36,
                forall|k: int|
                    0 <= k < j && is_uuid_hyphen_pos(k) ==> #[trigger] s@[k] == '-',
                forall|k: int|
                    0 <= k < j && !is_uuid_hyphen_pos(k) ==> is_hex_char(#[trigger] s@[k]),
                acc as int == digits_val(dg.subrange(0, uuid_digits_before(j as int)), 16),
            decreases 36 - j,
        {
            let c = s.get_char(j);
            if j == 8 || j == 13 || j == 18 || j == 23 {
                if c != '-' {
                    return Err(CodecError::InvalidUuidFormat(s.to_owned()));
                }
            } else {
                match hex_index_of(c) {
                    None => {
                        return Err(CodecError::InvalidUuidFormat(s.to_owned()));
                    },
                    Some(d) => {
                        proof {
                            let i = uuid_digits_before(j as int);
                            let prefix = dg.subrange(0, i);
                            assert(uuid_hex_pos(i) == j);
                            assert(dg[i] == hex_val_of_char(s@[j as int]));
                            assert(forall|k: int|
                                0 <= k < i ==> 0 <= #[trigger] prefix[k] < 16 && uuid_hex_pos(k)
                                    < j && prefix[k] == hex_val_of_char(s@[uuid_hex_pos(k)]));
                            lemma_digits_val_bound(prefix, 16);
                            vstd::arithmetic::power::lemma_pow_increases(16, i as nat, 31);
                            lemma_pow16_constants();
                            assert(acc as int <= 0x10000000000000000000000000000000 - 1);
                            lemma_digits_val_push(prefix, 16, dg[i]);
                            assert(dg.subrange(0, i + 1) =~= prefix.push(dg[i]));
                            assert(uuid_digits_before(j + 1) == i + 1);
                        }
                        acc = acc * 16 + d as u128;
                    },
                }
            }
            j += 1;
        }
        proof {
            assert(is_valid_uuid_hyphenated(s@));
            assert(dg.subrange(0, 32) =~= dg);
            lemma_uuid_val_bound(s@);
            lemma_pow256_constants();
        }
        Ok(be_bytes_from_u128(acc))
    } else if n == 32 {
        let mut acc: u128 = 0;
        let mut j: usize = 0;
        while j < 32
            invariant
                s@.len() == 32,
                dg == uuid_hex_digits(s@),
                j <= 32,
                forall|k: int| 0 <= k < j ==> is_hex_char(#[trigger] s@[k]),
                acc as int == digits_val(dg.subrange(0, j as int), 16),
            decreases 32 - j,
        {
            let c = s.get_char(j);
            match hex_index_of(c) {
                None => {
                    return Err(CodecError::InvalidUuidFormat(s.to_owned()));
                },
                Some(d) => {
                    proof {
                        let i = j as int;
                        let prefix = dg.subrange(0, i);
                        assert(dg[i] == hex_val_of_char(s@[i]));
                        assert(forall|k: int|
                            0 <= k < i ==> 0 <= #[trigger] prefix[k] < 16);
                        lemma_digits_val_bound(prefix, 16);
                        vstd::arithmetic::power::lemma_pow_increases(16, i as nat, 31);
                        lemma_pow16_constants();
                        assert(acc as int <= 0x10000000000000000000000000000000 - 1);
                        lemma_digits_val_push(prefix, 16, dg[i]);
                        assert(dg.subrange(0, i + 1) =~= prefix.push(dg[i]));
                    }
                    acc = acc * 16 + d as u128;
                },
            }
            j += 1;
        }
        proof {
            assert(is_valid_uuid_plain(s@));
            assert(dg.subrange(0, 32) =~= dg);
            lemma_uuid_val_bound(s@);
            lemma_pow256_constants();
        }
        Ok(be_bytes_from_u128(acc))
    } else {
        proof {
            assert(!is_valid_uuid_text(s@));
        }
        Err(CodecError::InvalidUuidFormat(s.to_owned()))
    }
}

/// Renders a 16-byte big-endian buffer as its canonical UUID text:
/// exactly 36 characters, lowercase, hyphenated at the four canonical
/// positions, denoting the buffer's value.
pub fn format_uuid(b: &Vec<u8>) -> (r: String)
    requires
        b@.len() == 16,
    ensures
        r@ == uuid_text_of(b@),
        r@.len() == 36,
        is_valid_uuid_hyphenated(r@),
        uuid_val(r@) == be_val(b@),
{
    let mut out = String::new();
    let mut j: usize = 0;
    while j < 36
        invariant
            b@.len() == 16,
            j <= 36,
            out@.len() == j,
            forall|k: int| 0 <= k < j ==> out@[k] == uuid_text_of(b@)[k],
        decreases 36 - j,
    {
        if j == 8 || j == 13 || j == 18 || j == 23 {
            push_char(&mut out, '-');
        } else {
            let ghost i = uuid_digits_before(j as int);
            let di: usize = if j < 8 {
                j
            } else if j < 13 {
                j - 1
            } else if j < 18 {
                j - 2
            } else if j < 23 {
                j - 3
            } else {
                j - 4
            };
            let byte = b[di / 2];
            let d: u8 = if di % 2 == 0 {
                byte / 16
            } else {
                byte % 16
            };
            proof {
                assert(di as int == i);
                assert(d as int == uuid_nibble(b@, i));
            }
            push_char(&mut out, hex_char_from(d));
        }
        j += 1;
    }
    proof {
        assert(out@ =~= uuid_text_of(b@));
        lemma_uuid_text_of_valid(b@);
    }
    out
}

} // verus!
