//! Diffie-Hellman key pairs over a fixed 64-bit modulus.

use crate::modular::{mod_pow, pow_mod};
use rand::Rng;
use vstd::arithmetic::mul::lemma_mul_is_commutative;
use vstd::arithmetic::power::{lemma_pow_mod_noop, lemma_pow_multiplies, pow};
use vstd::prelude::*;

verus! {

/// The modulus that both peers use.
pub const P: u64 = 0xD87FA3E291B4C7F3;

/// The generator that both peers use.
pub const G: u64 = 2;

/// What a peer with private key `own_private` derives from the public value
/// `peer_public`.
pub open spec fn shared_secret(peer_public: u64, own_private: u64) -> nat {
    pow_mod(peer_public as nat, own_private as nat, P as nat)
}

/// The public value that belongs to a private key.
pub open spec fn public_of(private: u64) -> nat {
    pow_mod(G as nat, private as nat, P as nat)
}

/// A private key and the public value derived from it. The private key
/// belongs to the peer that made it and is never sent.
#[derive(Clone, Copy, Debug, PartialEq, Eq)]
pub struct DHKeys {
    pub private: u64,
    pub public: u64,
}

impl DHKeys {
    /// The public value is the generator raised to the private key.
    pub open spec fn wf(self) -> bool {
        self.public == public_of(self.private)
    }

    /// A pair as `new` makes it: well formed, with its private key in `[2, P)`.
    pub open spec fn fresh(self) -> bool {
        self.wf() && 2 <= self.private < P
    }

    /// The key pair of a given private key.
    pub fn from_private(private: u64) -> (keys: DHKeys)
        ensures
            keys.private == private,
            keys.wf(),
    {
        DHKeys { private, public: mod_pow(G, private, P) }
    }

    /// Draws a private key from `[2, P)` and derives its public value. The
    /// random source is a general-purpose one: good enough for a toy
    /// protocol, not for production use.
    pub fn new() -> (keys: DHKeys)
        ensures
            keys.fresh(),
    {
        DHKeys::from_private(draw_private_key())
    }
}

/// Calls `rand::thread_rng().gen_range(2..P)`. The contract claims only what
/// `gen_range` documents for a half-open integer range: the value lies in it.
/// `gen_range` panics on an empty range, which this one is not; `thread_rng`
/// panics where the system has no randomness to seed it with, which nothing
/// handed to this function decides.
#[verifier::external_body]
fn draw_private_key() -> (private: u64)
    ensures
        2 <= private < P,
{
    rand::thread_rng().gen_range(2..P)
}

/// The secret that this peer shares with the owner of `their_public`:
/// `their_public ^ our_private mod P`. The peer's value is taken as it comes;
/// a corrupted one gives a secret that the other side does not have.
pub fn compute_shared_secret(their_public: u64, our_private: u64) -> (secret: u64)
    ensures
        secret == shared_secret(their_public, our_private),
        secret < P,
{
    mod_pow(their_public, our_private, P)
}

/// Both peers derive the same secret: each raises the other's public value to
/// its own private key, and `(G^a)^b` equals `(G^b)^a` modulo `P`.
pub proof fn lemma_shared_secret_agrees(a: DHKeys, b: DHKeys)
    requires
        a.wf(),
        b.wf(),
    ensures
        shared_secret(b.public, a.private) == shared_secret(a.public, b.private),
{
    let g = G as int;
    let p = P as int;
    let x = a.private as nat;
    let y = b.private as nat;
    lemma_pow_mod_noop(pow(g, y), x, p);
    lemma_pow_mod_noop(pow(g, x), y, p);
    lemma_pow_multiplies(g, y, x);
    lemma_pow_multiplies(g, x, y);
    lemma_mul_is_commutative(x as int, y as int);
    assert(pow(pow(g, y), x) == pow(pow(g, x), y));
}

} // verus!
