//! The stream cipher: each byte is combined with one keystream byte.

use crate::keystream::{keystream, keystream_byte, lemma_state_after_add, state_after, LCG};
use vstd::prelude::*;

verus! {

/// `data` combined byte by byte with as many bytes of `key`.
pub open spec fn xor_bytes(data: Seq<u8>, key: Seq<u8>) -> Seq<u8>
    recommends
        key.len() >= data.len(),
{
    Seq::new(data.len(), |i: int| data[i] ^ key[i])
}

/// `data` under the keystream that starts at `seed`.
pub open spec fn crypt(data: Seq<u8>, seed: u64) -> Seq<u8> {
    xor_bytes(data, keystream(seed, data.len()))
}

/// Encrypts or decrypts `data`: byte `i` of the result is byte `i` of `data`
/// XOR the next keystream byte. The result is as long as `data`, and the
/// generator has moved by that many steps.
pub fn xor_crypt(data: &[u8], keystream: &mut LCG) -> (out: Vec<u8>)
    ensures
        out@ == crypt(data@, old(keystream).state),
        out@.len() == data@.len(),
        final(keystream).state == state_after(old(keystream).state, data@.len()),
{
    let ghost seed = keystream.state;
    let mut out: Vec<u8> = Vec::with_capacity(data.len());
    let mut i: usize = 0;
    while i < data.len()
        invariant
            i <= data.len(),
            out@.len() == i,
            keystream.state == state_after(seed, i as nat),
            forall|j: int| 0 <= j < i ==> out@[j] == data@[j] ^ keystream_byte(seed, j as nat),
        decreases data.len() - i,
    {
        proof {
            lemma_state_after_add(seed, i as nat, 1);
        }
        let k: u8 = keystream.next();
        out.push(data[i] ^ k);
        i += 1;
    }
    assert(out@ =~= crypt(data@, seed));
    out
}

/// Applying the cipher twice from the same seed gives the data back.
pub proof fn lemma_crypt_involution(data: Seq<u8>, seed: u64)
    ensures
        crypt(crypt(data, seed), seed) == data,
{
    let once = crypt(data, seed);
    let twice = crypt(once, seed);
    assert forall|i: int| 0 <= i < data.len() implies #[trigger] twice[i] == data[i] by {
        let d = data[i];
        let k = keystream_byte(seed, i as nat);
        assert((d ^ k) ^ k == d) by (bit_vector);
    }
    assert(twice =~= data);
}

} // verus!
