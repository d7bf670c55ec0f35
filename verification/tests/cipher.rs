use streamchat::cipher::xor_crypt;
use streamchat::keystream::{LCG, LCG_A, LCG_C, LCG_M};

fn take(lcg: &mut LCG, n: usize) -> Vec<u8> {
    (0..n).map(|_| lcg.next()).collect()
}

#[test]
fn generator_constants() {
    assert_eq!(LCG_A, 1103515245);
    assert_eq!(LCG_C, 12345);
    assert_eq!(LCG_M, 1u64 << 32);
}

#[test]
fn new_stores_the_seed_whole() {
    assert_eq!(LCG::new(0).state, 0);
    assert_eq!(LCG::new(42).state, 42);
    assert_eq!(LCG::new(u64::MAX).state, u64::MAX);
}

#[test]
fn next_updates_state_and_returns_top_byte() {
    let mut lcg = LCG::new(0);
    assert_eq!(lcg.next(), 0);
    assert_eq!(lcg.state, 12345);
    let mut lcg = LCG::new(1);
    assert_eq!(lcg.next(), 65);
    assert_eq!(lcg.state, 1103527590);
    assert_eq!(lcg.next(), 150);
    assert_eq!(lcg.state, (1103515245u64 * 1103527590 + 12345) % (1u64 << 32));
}

#[test]
fn keystream_known_values() {
    assert_eq!(take(&mut LCG::new(0), 6), vec![0, 211, 167, 214, 13, 194]);
    assert_eq!(take(&mut LCG::new(1), 6), vec![65, 150, 39, 196, 249, 149]);
    assert_eq!(take(&mut LCG::new(42), 6), vec![202, 194, 187, 227, 182, 132]);
    assert_eq!(
        take(&mut LCG::new(0xDEAD_BEEF_CAFE_BABE), 6),
        vec![184, 122, 109, 180, 236, 218]
    );
}

#[test]
fn next_does_not_overflow_on_large_state() {
    let mut lcg = LCG::new(u64::MAX);
    assert_eq!(take(&mut lcg, 6), vec![190, 17, 38, 232, 34, 238]);
    assert_eq!(lcg.state, 3997353105);
}

#[test]
fn state_stays_below_modulus_after_first_step() {
    let mut lcg = LCG::new(u64::MAX - 7);
    for _ in 0..100 {
        lcg.next();
        assert!(lcg.state < LCG_M);
    }
}

#[test]
fn same_seed_gives_same_stream() {
    let mut a = LCG::new(0x0123_4567_89ab_cdef);
    let mut b = LCG::new(0x0123_4567_89ab_cdef);
    for _ in 0..1000 {
        assert_eq!(a.next(), b.next());
    }
    assert_eq!(a.state, b.state);
}

#[test]
fn seed_is_truncated_to_32_bits() {
    let mut low = LCG::new(42);
    let mut high = LCG::new((1u64 << 32) + 42);
    assert_eq!(take(&mut low, 64), take(&mut high, 64));
    let mut a = LCG::new(0xFFFF_FFFF);
    let mut b = LCG::new(u64::MAX);
    assert_eq!(take(&mut a, 64), take(&mut b, 64));
}

#[test]
fn xor_crypt_known_ciphertext() {
    let mut lcg = LCG::new(42);
    assert_eq!(xor_crypt(b"hello", &mut lcg), vec![162, 167, 215, 143, 217]);
    assert_eq!(lcg.state, 3055579383);
    let mut lcg = LCG::new(42);
    assert_eq!(xor_crypt(b"world", &mut lcg), vec![189, 173, 201, 143, 210]);
}

#[test]
fn xor_crypt_keeps_length_and_consumes_one_byte_each() {
    for n in [0usize, 1, 2, 17, 256] {
        let data = vec![0xA5u8; n];
        let mut lcg = LCG::new(7);
        let out = xor_crypt(&data, &mut lcg);
        assert_eq!(out.len(), n);
        let mut stepped = LCG::new(7);
        for _ in 0..n {
            stepped.next();
        }
        assert_eq!(lcg.state, stepped.state);
    }
}

#[test]
fn xor_crypt_of_empty_data() {
    let mut lcg = LCG::new(99);
    assert_eq!(xor_crypt(&[], &mut lcg), Vec::<u8>::new());
    assert_eq!(lcg.state, 99);
}

#[test]
fn xor_crypt_of_zeros_is_the_keystream() {
    let mut lcg = LCG::new(1);
    assert_eq!(xor_crypt(&[0u8; 6], &mut lcg), vec![65, 150, 39, 196, 249, 149]);
}

#[test]
fn xor_crypt_twice_with_fresh_generators_is_identity() {
    let seeds: [u64; 4] = [0, 42, 0xDEAD_BEEF_CAFE_BABE, u64::MAX];
    let messages: [&[u8]; 4] = [b"", b"hello", b"\x00\xff\x80\x7f", b"a longer line of text, with punctuation!"];
    for seed in seeds {
        for data in messages {
            let sealed = xor_crypt(data, &mut LCG::new(seed));
            let opened = xor_crypt(&sealed, &mut LCG::new(seed));
            assert_eq!(opened, data);
        }
    }
}

#[test]
fn shared_generator_runs_on_across_messages() {
    // One generator per peer, advanced in the same order on both sides.
    let mut ours = LCG::new(0x5eed);
    let mut theirs = LCG::new(0x5eed);
    let first = xor_crypt(b"hello", &mut ours);
    assert_eq!(xor_crypt(&first, &mut theirs), b"hello");
    let second = xor_crypt(b"world", &mut theirs);
    assert_eq!(xor_crypt(&second, &mut ours), b"world");
    assert_eq!(ours.state, theirs.state);
    // The second message did not reuse the first message's keystream.
    let mut fresh = LCG::new(0x5eed);
    assert_ne!(xor_crypt(b"world", &mut fresh), second);
}
