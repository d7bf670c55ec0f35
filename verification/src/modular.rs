//! Modular exponentiation on 64-bit values.

use vstd::arithmetic::div_mod::{lemma_mod_bound, lemma_mul_mod_noop_general, lemma_small_mod};
use vstd::arithmetic::mul::lemma_mul_is_associative;
use vstd::arithmetic::power::{
    lemma_pow0, lemma_pow1, lemma_pow_adds, lemma_pow_mod_noop, lemma_pow_multiplies, pow,
};
use vstd::prelude::*;

verus! {

/// `base` raised to `exponent`, reduced modulo `modulus`.
pub open spec fn pow_mod(base: nat, exponent: nat, modulus: nat) -> nat
    recommends
        modulus > 0,
{
    (pow(base as int, exponent) % (modulus as int)) as nat
}

/// The loop of `mod_pow` keeps `acc * pow(b, e)` congruent to the wanted power.
/// This is the step for one bit of the exponent.
proof fn lemma_square_step(acc: int, b: int, e: nat, m: int)
    requires
        m > 0,
        e > 0,
    ensures
        e % 2 == 1 ==> (((acc * b) % m) * pow((b * b) % m, e / 2)) % m == (acc * pow(b, e)) % m,
        e % 2 == 0 ==> (acc * pow((b * b) % m, e / 2)) % m == (acc * pow(b, e)) % m,
{
    let h = e / 2;
    let sq = (b * b) % m;
    // pow(sq, h) is congruent to pow(b * b, h), which is pow(b, 2 * h).
    lemma_pow_mod_noop(b * b, h, m);
    lemma_pow1(b);
    lemma_pow_adds(b, 1, 1);
    assert(pow(b, 2) == b * b);
    lemma_pow_multiplies(b, 2, h);
    assert(pow(b * b, h) == pow(b, 2 * h));
    if e % 2 == 1 {
        lemma_pow_adds(b, 1, 2 * h);
        assert(pow(b, e) == b * pow(b, 2 * h));
        lemma_mul_mod_noop_general((acc * b) % m, pow(sq, h), m);
        lemma_mul_mod_noop_general(acc * b, pow(sq, h), m);
        lemma_mul_mod_noop_general(acc * b, pow(b, 2 * h), m);
        assert((((acc * b) % m) * pow(sq, h)) % m == ((acc * b) * pow(b, 2 * h)) % m);
        lemma_mul_is_associative(acc, b, pow(b, 2 * h));
    } else {
        lemma_mul_mod_noop_general(acc, pow(sq, h), m);
        lemma_mul_mod_noop_general(acc, pow(b, 2 * h), m);
    }
}

/// Computes `base^exponent mod modulus` by squaring, one exponent bit at a
/// time from the lowest. Products are formed in 128 bits and reduced before
/// they are narrowed, so no intermediate value overflows. A modulus of 1
/// gives 0.
pub fn mod_pow(base: u64, exponent: u64, modulus: u64) -> (result: u64)
    requires
        modulus > 0,
    ensures
        result == pow_mod(base as nat, exponent as nat, modulus as nat),
        result < modulus,
        exponent == 0 ==> result == 1u64 % modulus,
        modulus == 1 ==> result == 0,
{
    proof {
        lemma_mod_bound(pow(base as int, exponent as nat), modulus as int);
        lemma_pow0(base as int);
    }
    if modulus == 1 {
        return 0;
    }
    let m: u128 = modulus as u128;
    let mut acc: u128 = 1;
    let mut b: u128 = (base % modulus) as u128;
    let mut e: u64 = exponent;
    proof {
        lemma_pow_mod_noop(base as int, exponent as nat, modulus as int);
        lemma_small_mod(1, modulus as nat);
    }
    while e > 0
        invariant
            m == modulus,
            m > 1,
            acc < m,
            b < m,
            (acc * pow(b as int, e as nat)) % (m as int) == pow_mod(
                base as nat,
                exponent as nat,
                modulus as nat,
            ),
        decreases e,
    {
        proof {
            lemma_square_step(acc as int, b as int, e as nat, m as int);
            assert(acc * b <= (m - 1) * (m - 1)) by (nonlinear_arith)
                requires
                    0 <= acc < m,
                    0 <= b < m,
            ;
            assert(b * b <= (m - 1) * (m - 1)) by (nonlinear_arith)
                requires
                    0 <= b < m,
            ;
            assert((m - 1) * (m - 1) < 0x1_0000_0000_0000_0000 * 0x1_0000_0000_0000_0000)
                by (nonlinear_arith)
                requires
                    0 < m <= 0x1_0000_0000_0000_0000,
            ;
            lemma_mod_bound(acc * b, m as int);
            lemma_mod_bound(b * b, m as int);
        }
        if e % 2 == 1 {
            acc = (acc * b) % m;
        }
        e = e / 2;
        b = (b * b) % m;
    }
    proof {
        lemma_pow0(b as int);
        lemma_small_mod(acc as nat, m as nat);
    }
    acc as u64
}

} // verus!
