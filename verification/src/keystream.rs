//! The keystream: a linear congruential generator that gives one byte per
//! step.

use vstd::prelude::*;

verus! {

/// Multiplier of the generator.
pub const LCG_A: u64 = 1103515245;

/// Increment of the generator.
pub const LCG_C: u64 = 12345;

/// Modulus of the generator, `2^32`.
pub const LCG_M: u64 = 0x1_0000_0000;

/// The state that follows `state`.
pub open spec fn advance(state: u64) -> u64 {
    ((LCG_A * state + LCG_C) % (LCG_M as int)) as u64
}

/// The byte that a state gives: bits 24 to 31.
pub open spec fn output(state: u64) -> u8 {
    ((state / 0x100_0000) % 0x100) as u8
}

/// The state after `n` steps from `seed`.
pub open spec fn state_after(seed: u64, n: nat) -> u64
    decreases n,
{
    if n == 0 {
        seed
    } else {
        advance(state_after(seed, (n - 1) as nat))
    }
}

/// Byte number `i` (from 0) of the stream that starts at `seed`.
pub open spec fn keystream_byte(seed: u64, i: nat) -> u8 {
    output(state_after(seed, i + 1))
}

/// The first `n` bytes of the stream that starts at `seed`.
pub open spec fn keystream(seed: u64, n: nat) -> Seq<u8> {
    Seq::new(n, |i: int| keystream_byte(seed, i as nat))
}

/// The generator. Its state starts as the seed and moves once per byte.
#[derive(Clone, Copy, Debug, PartialEq, Eq)]
pub struct LCG {
    pub state: u64,
}

impl LCG {
    /// A generator whose state is `seed`. The seed is stored whole; the first
    /// step reduces it modulo `2^32`, so only its low 32 bits matter.
    pub fn new(seed: u64) -> (lcg: LCG)
        ensures
            lcg.state == seed,
    {
        LCG { state: seed }
    }

    /// Moves to the next state and returns its top byte. The product is
    /// formed in 128 bits, so it cannot overflow.
    pub fn next(&mut self) -> (byte: u8)
        ensures
            final(self).state == advance(old(self).state),
            byte == output(final(self).state),
            byte == keystream_byte(old(self).state, 0),
    {
        let old_state: u64 = self.state;
        assert((LCG_A as u128) * (old_state as u128) <= 1103515245 * 0xffff_ffff_ffff_ffff)
            by (nonlinear_arith)
            requires
                LCG_A == 1103515245,
                old_state <= 0xffff_ffff_ffff_ffff,
        ;
        let wide: u128 = (LCG_A as u128) * (old_state as u128) + (LCG_C as u128);
        let state: u64 = (wide % (LCG_M as u128)) as u64;
        self.state = state;
        assert((state >> 24) < 0x100 && (state >> 24) == (state / 0x100_0000) % 0x100)
            by (bit_vector)
            requires
                state < 0x1_0000_0000,
        ;
        assert(state_after(old_state, 1) == advance(state_after(old_state, 0)));
        (state >> 24) as u8
    }
}

/// Steps add up: `n` steps from where `m` steps led are `m + n` steps.
pub proof fn lemma_state_after_add(seed: u64, m: nat, n: nat)
    ensures
        state_after(state_after(seed, m), n) == state_after(seed, m + n),
    decreases n,
{
    if n > 0 {
        lemma_state_after_add(seed, m, (n - 1) as nat);
        assert(state_after(seed, m + n) == advance(state_after(seed, (m + n - 1) as nat)));
    }
}

/// A stream is the bytes of its first `m` steps followed by the stream that
/// starts from the state reached then.
pub proof fn lemma_keystream_split(seed: u64, m: nat, n: nat)
    ensures
        keystream(seed, m + n) =~= keystream(seed, m) + keystream(state_after(seed, m), n),
{
    let tail = keystream(state_after(seed, m), n);
    assert forall|i: int| 0 <= i < n implies #[trigger] tail[i] == keystream_byte(
        seed,
        (m + i) as nat,
    ) by {
        lemma_state_after_add(seed, m, (i + 1) as nat);
    }
}

/// Two generators in the same state give the same bytes and reach the same
/// state, however many steps are taken.
pub proof fn lemma_keystream_deterministic(a: LCG, b: LCG, n: nat)
    requires
        a.state == b.state,
    ensures
        keystream(a.state, n) == keystream(b.state, n),
        state_after(a.state, n) == state_after(b.state, n),
{
}

/// One step forgets all but the low 32 bits of the state it starts from.
pub proof fn lemma_advance_truncates(state: u64)
    ensures
        advance(state) == advance((state % LCG_M) as u64),
{
    let low = (state % LCG_M) as u64;
    vstd::arithmetic::div_mod::lemma_mul_mod_noop_right(LCG_A as int, state as int, LCG_M as int);
    vstd::arithmetic::div_mod::lemma_mul_mod_noop_right(LCG_A as int, low as int, LCG_M as int);
    vstd::arithmetic::div_mod::lemma_add_mod_noop(LCG_A * state, LCG_C as int, LCG_M as int);
    vstd::arithmetic::div_mod::lemma_add_mod_noop(LCG_A * low, LCG_C as int, LCG_M as int);
}

/// Only the low 32 bits of a seed reach the stream: from the first step on,
/// the states are those of the seed reduced modulo `2^32`.
pub proof fn lemma_seed_truncates(seed: u64, n: nat)
    requires
        n > 0,
    ensures
        state_after(seed, n) == state_after((seed % LCG_M) as u64, n),
    decreases n,
{
    if n == 1 {
        lemma_advance_truncates(seed);
        assert(state_after(seed, 1) == advance(state_after(seed, 0)));
        assert(state_after((seed % LCG_M) as u64, 1) == advance(
            state_after((seed % LCG_M) as u64, 0),
        ));
    } else {
        lemma_seed_truncates(seed, (n - 1) as nat);
    }
}

/// The stream of a seed is the stream of its low 32 bits.
pub proof fn lemma_keystream_truncates(seed: u64, n: nat)
    ensures
        keystream(seed, n) =~= keystream((seed % LCG_M) as u64, n),
{
    let stream = keystream(seed, n);
    assert forall|i: int| 0 <= i < n implies #[trigger] stream[i] == keystream_byte(
        (seed % LCG_M) as u64,
        i as nat,
    ) by {
        lemma_seed_truncates(seed, (i + 1) as nat);
    }
}

} // verus!
