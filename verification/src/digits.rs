//! Positional digit sequences and their numeric value.
//!
//! Every textual form this library handles (hex, Base58) and the byte form
//! itself are positional representations of one 128-bit value.  This module
//! gives the common spec, `digits_val`, reading a most-significant-first
//! digit sequence in an arbitrary base, and the facts the codec rests on:
//! the value is bounded by `base^len`, a fixed-width representation is
//! unique, a prefix never exceeds the whole, and emitting digits by repeated
//! division reproduces the value.
use vstd::prelude::*;
use vstd::arithmetic::power::pow;
use vstd::arithmetic::div_mod::{
    lemma_div_denominator, lemma_fundamental_div_mod, lemma_fundamental_div_mod_converse,
    lemma_multiply_divide_lt,
};

verus! {

/// The value of `ds` read as digits in base `base`, most significant first.
pub open spec fn digits_val(ds: Seq<int>, base: int) -> int
    decreases ds.len(),
{
    if ds.len() == 0 {
        0
    } else {
        digits_val(ds.drop_last(), base) * base + ds.last()
    }
}

/// Every entry of `ds` is a digit of base `base`.
pub open spec fn digits_in_range(ds: Seq<int>, base: int) -> bool {
    forall|i: int| 0 <= i < ds.len() ==> 0 <= #[trigger] ds[i] < base
}

pub proof fn lemma_digits_val_nonneg(ds: Seq<int>, base: int)
    requires
        base >= 1,
        digits_in_range(ds, base),
    ensures
        digits_val(ds, base) >= 0,
    decreases ds.len(),
{
    if ds.len() > 0 {
        assert(digits_in_range(ds.drop_last(), base));
        lemma_digits_val_nonneg(ds.drop_last(), base);
        assert(digits_val(ds.drop_last(), base) * base >= 0) by (nonlinear_arith)
            requires
                digits_val(ds.drop_last(), base) >= 0,
                base >= 1,
        ;
    }
}

pub proof fn lemma_digits_val_bound(ds: Seq<int>, base: int)
    requires
        base >= 2,
        digits_in_range(ds, base),
    ensures
        0 <= digits_val(ds, base) < pow(base, ds.len()),
    decreases ds.len(),
{
    reveal(pow);
    lemma_digits_val_nonneg(ds, base);
    if ds.len() == 0 {
        assert(pow(base, 0) == 1);
    } else {
        assert(digits_in_range(ds.drop_last(), base));
        lemma_digits_val_bound(ds.drop_last(), base);
        let v = digits_val(ds.drop_last(), base);
        let p = pow(base, (ds.len() - 1) as nat);
        assert(pow(base, ds.len()) == base * p);
        assert(v * base + ds.last() < base * p) by (nonlinear_arith)
            requires
                0 <= v < p,
                0 <= ds.last() < base,
        ;
    }
}

/// A fixed-width representation is unique: two digit sequences of the same
/// length and the same value are equal.
pub proof fn lemma_digits_val_unique(d1: Seq<int>, d2: Seq<int>, base: int)
    requires
        base >= 2,
        d1.len() == d2.len(),
        digits_in_range(d1, base),
        digits_in_range(d2, base),
        digits_val(d1, base) == digits_val(d2, base),
    ensures
        d1 == d2,
    decreases d1.len(),
{
    if d1.len() == 0 {
        assert(d1 =~= d2);
    } else {
        let v = digits_val(d1, base);
        let q1 = digits_val(d1.drop_last(), base);
        let q2 = digits_val(d2.drop_last(), base);
        assert(digits_in_range(d1.drop_last(), base));
        assert(digits_in_range(d2.drop_last(), base));
        lemma_digits_val_nonneg(d1.drop_last(), base);
        lemma_digits_val_nonneg(d2.drop_last(), base);
        lemma_fundamental_div_mod_converse(v, base, q1, d1.last());
        lemma_fundamental_div_mod_converse(v, base, q2, d2.last());
        assert(q1 == v / base && q2 == v / base);
        assert(d1.last() == v % base && d2.last() == v % base);
        lemma_digits_val_unique(d1.drop_last(), d2.drop_last(), base);
        assert forall|i: int| 0 <= i < d1.len() implies d1[i] == d2[i] by {
            if i < d1.len() - 1 {
                assert(d1[i] == d1.drop_last()[i]);
                assert(d2[i] == d2.drop_last()[i]);
            }
        }
        assert(d1 =~= d2);
    }
}

/// Reading one more digit multiplies the value by the base and adds it.
pub proof fn lemma_digits_val_push(ds: Seq<int>, base: int, d: int)
    ensures
        digits_val(ds.push(d), base) == digits_val(ds, base) * base + d,
{
    assert(ds.push(d).drop_last() =~= ds);
    assert(ds.push(d).last() == d);
}

/// The value of a prefix never exceeds the value of the whole sequence.
pub proof fn lemma_digits_val_prefix_le(ds: Seq<int>, base: int, k: int)
    requires
        base >= 1,
        digits_in_range(ds, base),
        0 <= k <= ds.len(),
    ensures
        digits_val(ds.subrange(0, k), base) <= digits_val(ds, base),
    decreases ds.len() - k,
{
    if k == ds.len() {
        assert(ds.subrange(0, k) =~= ds);
    } else {
        assert(digits_in_range(ds.drop_last(), base));
        lemma_digits_val_prefix_le(ds.drop_last(), base, k);
        assert(ds.drop_last().subrange(0, k) =~= ds.subrange(0, k));
        let q = digits_val(ds.drop_last(), base);
        lemma_digits_val_nonneg(ds.drop_last(), base);
        assert(q * base + ds.last() >= q) by (nonlinear_arith)
            requires
                q >= 0,
                base >= 1,
                ds.last() >= 0,
        ;
    }
}

/// Emitting digits of `v` most significant first by repeated division: the
/// first `j` digits of an `n`-digit rendering carry the value `v` shifted
/// right by `n - j` digit positions.
pub proof fn lemma_emit_prefix_val(v: int, base: int, n: nat, j: nat)
    requires
        base >= 2,
        0 <= v < pow(base, n),
        j <= n,
    ensures
        digits_val(Seq::new(j as nat, |i: int| (v / pow(base, (n - 1 - i) as nat)) % base), base)
            == v / pow(base, (n - j) as nat),
    decreases j,
{
    reveal(pow);
    vstd::arithmetic::power::lemma_pow_positive(base, n);
    vstd::arithmetic::power::lemma_pow_positive(base, (n - j) as nat);
    let ds = Seq::new(j as nat, |i: int| (v / pow(base, (n - 1 - i) as nat)) % base);
    if j == 0 {
        lemma_multiply_divide_lt(v, pow(base, n), 1);
        assert(pow(base, n) * 1 == pow(base, n));
        assert(v / pow(base, n) >= 0) by {
            vstd::arithmetic::div_mod::lemma_div_pos_is_pos(v, pow(base, n));
        }
        assert(digits_val(ds, base) == 0);
    } else {
        let prev = Seq::new((j - 1) as nat, |i: int| (v / pow(base, (n - 1 - i) as nat)) % base);
        lemma_emit_prefix_val(v, base, n, (j - 1) as nat);
        assert(ds =~= prev.push((v / pow(base, (n - j) as nat)) % base));
        lemma_digits_val_push(prev, base, (v / pow(base, (n - j) as nat)) % base);
        let e = (n - j) as nat;
        let x = v / pow(base, e);
        // v / pow(base, e + 1) == (v / pow(base, e)) / base
        vstd::arithmetic::power::lemma_pow_positive(base, e);
        lemma_div_denominator(v, pow(base, e), base);
        assert(pow(base, (e + 1) as nat) == base * pow(base, e));
        assert(pow(base, e) * base == base * pow(base, e)) by (nonlinear_arith);
        assert(v / pow(base, (e + 1) as nat) == x / base);
        lemma_fundamental_div_mod(x, base);
        assert((x / base) * base + x % base == x) by (nonlinear_arith)
            requires
                x == base * (x / base) + x % base,
        ;
        assert(digits_val(ds, base) == (x / base) * base + x % base);
        assert((n - (j - 1)) as nat == (e + 1) as nat);
    }
}

/// `pow(58, e)` for the exponents the 22-digit Base58 width rests on:
/// `58^21` still fits in 128 bits while `58^22` exceeds `2^128`.
pub proof fn lemma_pow58_constants()
    ensures
        pow(58, 21) == 0x819237f3896f2f30bb832ce3da00000,
        pow(58, 22) == 0x1d5b20ad2d2330b10a7bb82b9f6400000,
{
    reveal(pow);
    assert(pow(58, 0) == 0x1);
    assert(pow(58, 1) == 0x3a);
    assert(pow(58, 2) == 0xd24);
    assert(pow(58, 3) == 0x2fa28);
    assert(pow(58, 4) == 0xacad10);
    assert(pow(58, 5) == 0x271f35a0);
    assert(pow(58, 6) == 0x8dd122640);
    assert(pow(58, 7) == 0x202161caa80);
    assert(pow(58, 8) == 0x7479027ea100);
    assert(pow(58, 9) == 0x1a636a90b07a00);
    assert(pow(58, 10) == 0x5fa8624c7fba400);
    assert(pow(58, 11) == 0x15ac264554f032800);
    assert(pow(58, 12) == 0x4e900abb53e6b71000);
    assert(pow(58, 13) == 0x11cca26e71024579a000);
    assert(pow(58, 14) == 0x4085ccd059a83bd8e4000);
    assert(pow(58, 15) == 0xe9e506734501d8f23a8000);
    assert(pow(58, 16) == 0x34fde3761da26b26e1410000);
    assert(pow(58, 17) == 0xc018588c2b6cc46cf08ba0000);
    assert(pow(58, 18) == 0x2b85840fc1d6a480ae7fa240000);
    assert(pow(58, 19) == 0x9dc3feb91eaa1452788eac280000);
    assert(pow(58, 20) == 0x23be67b5f0f2889aaf505301100000);
    assert(pow(58, 21) == 0x819237f3896f2f30bb832ce3da00000);
    assert(pow(58, 22) == 0x1d5b20ad2d2330b10a7bb82b9f6400000);
}

/// `pow(16, 32) == 2^128`: 32 hex digits exactly cover a 128-bit value.
pub proof fn lemma_pow16_constants()
    ensures
        pow(16, 31) == 0x10000000000000000000000000000000,
        pow(16, 32) == 0x100000000000000000000000000000000,
{
    reveal(pow);
    assert(pow(16, 0) == 0x1);
    assert(pow(16, 1) == 0x10);
    assert(pow(16, 2) == 0x100);
    assert(pow(16, 3) == 0x1000);
    assert(pow(16, 4) == 0x10000);
    assert(pow(16, 5) == 0x100000);
    assert(pow(16, 6) == 0x1000000);
    assert(pow(16, 7) == 0x10000000);
    assert(pow(16, 8) == 0x100000000);
    assert(pow(16, 9) == 0x1000000000);
    assert(pow(16, 10) == 0x10000000000);
    assert(pow(16, 11) == 0x100000000000);
    assert(pow(16, 12) == 0x1000000000000);
    assert(pow(16, 13) == 0x10000000000000);
    assert(pow(16, 14) == 0x100000000000000);
    assert(pow(16, 15) == 0x1000000000000000);
    assert(pow(16, 16) == 0x10000000000000000);
    assert(pow(16, 17) == 0x100000000000000000);
    assert(pow(16, 18) == 0x1000000000000000000);
    assert(pow(16, 19) == 0x10000000000000000000);
    assert(pow(16, 20) == 0x100000000000000000000);
    assert(pow(16, 21) == 0x1000000000000000000000);
    assert(pow(16, 22) == 0x10000000000000000000000);
    assert(pow(16, 23) == 0x100000000000000000000000);
    assert(pow(16, 24) == 0x1000000000000000000000000);
    assert(pow(16, 25) == 0x10000000000000000000000000);
    assert(pow(16, 26) == 0x100000000000000000000000000);
    assert(pow(16, 27) == 0x1000000000000000000000000000);
    assert(pow(16, 28) == 0x10000000000000000000000000000);
    assert(pow(16, 29) == 0x100000000000000000000000000000);
    assert(pow(16, 30) == 0x1000000000000000000000000000000);
    assert(pow(16, 31) == 0x10000000000000000000000000000000);
    assert(pow(16, 32) == 0x100000000000000000000000000000000);
}

/// `pow(256, 16) == 2^128`: 16 bytes exactly cover a 128-bit value.
pub proof fn lemma_pow256_constants()
    ensures
        pow(256, 15) == 0x1000000000000000000000000000000,
        pow(256, 16) == 0x100000000000000000000000000000000,
{
    reveal(pow);
    assert(pow(256, 0) == 0x1);
    assert(pow(256, 1) == 0x100);
    assert(pow(256, 2) == 0x10000);
    assert(pow(256, 3) == 0x1000000);
    assert(pow(256, 4) == 0x100000000);
    assert(pow(256, 5) == 0x10000000000);
    assert(pow(256, 6) == 0x1000000000000);
    assert(pow(256, 7) == 0x100000000000000);
    assert(pow(256, 8) == 0x10000000000000000);
    assert(pow(256, 9) == 0x1000000000000000000);
    assert(pow(256, 10) == 0x100000000000000000000);
    assert(pow(256, 11) == 0x10000000000000000000000);
    assert(pow(256, 12) == 0x1000000000000000000000000);
    assert(pow(256, 13) == 0x100000000000000000000000000);
    assert(pow(256, 14) == 0x10000000000000000000000000000);
    assert(pow(256, 15) == 0x1000000000000000000000000000000);
    assert(pow(256, 16) == 0x100000000000000000000000000000000);
}

} // verus!
