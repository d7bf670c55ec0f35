//! Big-endian integers on the wire: the 8 bytes of a public key and the
//! 4 bytes of a frame's length.

use vstd::prelude::*;

verus! {

/// Bytes of a public key on the wire.
pub const KEY_LEN: usize = 8;

/// Bytes of a frame's length on the wire.
pub const HEADER_LEN: usize = 4;

/// The number that `bytes` spell, most significant byte first.
pub open spec fn be_value(bytes: Seq<u8>) -> nat
    decreases bytes.len(),
{
    if bytes.len() == 0 {
        0
    } else {
        be_value(bytes.drop_last()) * 256 + bytes.last() as nat
    }
}

/// The low `width` bytes of `value`, most significant first.
pub open spec fn be_bytes(value: nat, width: nat) -> Seq<u8>
    decreases width,
{
    if width == 0 {
        Seq::empty()
    } else {
        be_bytes(value / 256, (width - 1) as nat).push((value % 256) as u8)
    }
}

/// `256^width`: one more than the largest number that `width` bytes spell.
pub open spec fn radix(width: nat) -> nat
    decreases width,
{
    if width == 0 {
        1
    } else {
        256 * radix((width - 1) as nat)
    }
}

/// `be_bytes` gives as many bytes as asked for.
pub proof fn lemma_be_bytes_len(value: nat, width: nat)
    ensures
        be_bytes(value, width).len() == width,
    decreases width,
{
    if width > 0 {
        lemma_be_bytes_len(value / 256, (width - 1) as nat);
    }
}

/// What `n` bytes spell is below `256^n`.
pub proof fn lemma_be_value_bound(bytes: Seq<u8>)
    ensures
        be_value(bytes) < radix(bytes.len()),
    decreases bytes.len(),
{
    if bytes.len() > 0 {
        lemma_be_value_bound(bytes.drop_last());
    }
}

/// Reading back the bytes of a number that fits gives the number.
pub proof fn lemma_value_of_bytes(value: nat, width: nat)
    requires
        value < radix(width),
    ensures
        be_value(be_bytes(value, width)) == value,
    decreases width,
{
    if width > 0 {
        let head = be_bytes(value / 256, (width - 1) as nat);
        lemma_value_of_bytes(value / 256, (width - 1) as nat);
        assert(be_bytes(value, width).drop_last() =~= head);
    }
}

/// Writing the number that some bytes spell, at their width, gives the bytes.
pub proof fn lemma_bytes_of_value(bytes: Seq<u8>)
    ensures
        be_bytes(be_value(bytes), bytes.len()) == bytes,
    decreases bytes.len(),
{
    if bytes.len() > 0 {
        lemma_bytes_of_value(bytes.drop_last());
        assert(bytes.drop_last().push(bytes.last()) =~= bytes);
    }
}

/// Writes the low `width` bytes of `value`, most significant first.
fn put_be(value: u64, width: usize) -> (out: Vec<u8>)
    requires
        width <= 8,
    ensures
        out@ == be_bytes(value as nat, width as nat),
        out@.len() == width,
{
    let wide: u128 = value as u128;
    let mut out: Vec<u8> = Vec::with_capacity(width);
    let mut i: usize = 0;
    while i < width
        invariant
            i <= width <= 8,
            wide == value,
            out@.len() == i,
            out@ == be_bytes((wide >> ((8 * (width - i)) as u128)) as nat, i as nat),
        decreases width - i,
    {
        let shift: u128 = (8 * (width - i - 1)) as u128;
        let rest: u128 = wide >> shift;
        let byte: u8 = (rest & 0xff) as u8;
        assert(rest / 256 == wide >> ((shift + 8) as u128) && rest & 0xff == rest % 256)
            by (bit_vector)
            requires
                rest == wide >> shift,
                shift <= 56,
        ;
        out.push(byte);
        i += 1;
    }
    assert(wide >> 0 == wide) by (bit_vector);
    out
}

/// Reads up to 8 bytes as one number, most significant first.
fn get_be(bytes: &[u8]) -> (value: u64)
    requires
        bytes@.len() <= 8,
    ensures
        value == be_value(bytes@),
{
    let mut value: u64 = 0;
    let mut i: usize = 0;
    assert(bytes@.take(0) =~= Seq::<u8>::empty());
    while i < bytes.len()
        invariant
            i <= bytes@.len() <= 8,
            value == be_value(bytes@.take(i as int)),
        decreases bytes.len() - i,
    {
        proof {
            let seen = bytes@.take(i as int);
            let next = bytes@.take(i + 1);
            lemma_be_value_bound(seen);
            lemma_be_value_bound(next);
            reveal_with_fuel(radix, 9);
            assert(next.drop_last() =~= seen);
        }
        value = value * 256 + bytes[i] as u64;
        i += 1;
    }
    assert(bytes@.take(i as int) =~= bytes@);
    value
}

/// A public key as it is sent: 8 bytes, most significant first.
pub fn encode_key(key: u64) -> (out: Vec<u8>)
    ensures
        out@ == be_bytes(key as nat, 8),
        out@.len() == KEY_LEN,
{
    put_be(key, KEY_LEN)
}

/// The public key that 8 received bytes spell. Any other number of bytes is
/// no key.
pub fn decode_key(bytes: &[u8]) -> (key: Option<u64>)
    ensures
        key is Some <==> bytes@.len() == KEY_LEN,
        key matches Some(k) ==> k == be_value(bytes@),
{
    if bytes.len() == KEY_LEN {
        Some(get_be(bytes))
    } else {
        None
    }
}

/// A frame's length as it is sent: 4 bytes, most significant first.
pub fn encode_length(length: u32) -> (out: Vec<u8>)
    ensures
        out@ == be_bytes(length as nat, 4),
        out@.len() == HEADER_LEN,
{
    put_be(length as u64, HEADER_LEN)
}

/// The length that a 4-byte header spells. Any other number of bytes is no
/// header.
pub fn decode_length(bytes: &[u8]) -> (length: Option<u32>)
    ensures
        length is Some <==> bytes@.len() == HEADER_LEN,
        length matches Some(n) ==> n == be_value(bytes@),
{
    if bytes.len() == HEADER_LEN {
        proof {
            lemma_be_value_bound(bytes@);
            reveal_with_fuel(radix, 5);
        }
        Some(get_be(bytes) as u32)
    } else {
        None
    }
}

/// A key survives the wire: decoding its 8 bytes gives it back.
pub proof fn lemma_key_round_trip(key: u64)
    ensures
        be_bytes(key as nat, 8).len() == 8,
        be_value(be_bytes(key as nat, 8)) == key,
{
    reveal_with_fuel(radix, 9);
    lemma_be_bytes_len(key as nat, 8);
    lemma_value_of_bytes(key as nat, 8);
}

/// A length survives the wire: decoding its 4 bytes gives it back.
pub proof fn lemma_length_round_trip(length: u32)
    ensures
        be_bytes(length as nat, 4).len() == 4,
        be_value(be_bytes(length as nat, 4)) == length,
{
    reveal_with_fuel(radix, 5);
    lemma_be_bytes_len(length as nat, 4);
    lemma_value_of_bytes(length as nat, 4);
}

} // verus!
