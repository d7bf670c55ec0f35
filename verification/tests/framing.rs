use streamchat::frame::{encode_frame, parse_frame, FrameError, DEFAULT_CEILING};
use streamchat::wire::{
    decode_key, decode_length, encode_key, encode_length, HEADER_LEN, KEY_LEN,
};

#[test]
fn key_is_eight_bytes_big_endian() {
    assert_eq!(KEY_LEN, 8);
    assert_eq!(encode_key(0), vec![0, 0, 0, 0, 0, 0, 0, 0]);
    assert_eq!(encode_key(1), vec![0, 0, 0, 0, 0, 0, 0, 1]);
    assert_eq!(
        encode_key(0x0102_0304_0506_0708),
        vec![1, 2, 3, 4, 5, 6, 7, 8]
    );
    assert_eq!(encode_key(u64::MAX), vec![255; 8]);
    assert_eq!(
        encode_key(5755916621290203964),
        vec![79, 225, 31, 171, 192, 196, 235, 60]
    );
}

#[test]
fn key_encoding_matches_std() {
    for k in [0u64, 1, 255, 256, 0xD87F_A3E2_91B4_C7F3, u64::MAX - 1, u64::MAX] {
        assert_eq!(encode_key(k), k.to_be_bytes().to_vec());
        assert_eq!(decode_key(&k.to_be_bytes()), Some(k));
    }
}

#[test]
fn key_round_trip() {
    for k in [0u64, 2, 0x8000_0000_0000_0000, 0x00ff_00ff_00ff_00ff, u64::MAX] {
        assert_eq!(decode_key(&encode_key(k)), Some(k));
    }
}

#[test]
fn short_or_long_key_is_no_key() {
    assert_eq!(decode_key(&[]), None);
    assert_eq!(decode_key(&[1, 2, 3, 4, 5, 6, 7]), None);
    assert_eq!(decode_key(&[1, 2, 3, 4, 5, 6, 7, 8, 9]), None);
}

#[test]
fn length_is_four_bytes_big_endian() {
    assert_eq!(HEADER_LEN, 4);
    assert_eq!(encode_length(0), vec![0, 0, 0, 0]);
    assert_eq!(encode_length(5), vec![0, 0, 0, 5]);
    assert_eq!(encode_length(0x0102_0304), vec![1, 2, 3, 4]);
    assert_eq!(encode_length(u32::MAX), vec![255, 255, 255, 255]);
    for n in [0u32, 1, 255, 256, 65535, 65536, u32::MAX] {
        assert_eq!(encode_length(n), n.to_be_bytes().to_vec());
        assert_eq!(decode_length(&n.to_be_bytes()), Some(n));
        assert_eq!(decode_length(&encode_length(n)), Some(n));
    }
}

#[test]
fn short_or_long_header_is_no_header() {
    assert_eq!(decode_length(&[]), None);
    assert_eq!(decode_length(&[0, 0, 1]), None);
    assert_eq!(decode_length(&[0, 0, 0, 1, 0]), None);
}

#[test]
fn frame_is_length_then_ciphertext() {
    assert_eq!(encode_frame(&[]), Some(vec![0, 0, 0, 0]));
    assert_eq!(
        encode_frame(&[162, 167, 215, 143, 217]),
        Some(vec![0, 0, 0, 5, 162, 167, 215, 143, 217])
    );
    let long = vec![7u8; 300];
    let frame = encode_frame(&long).unwrap();
    assert_eq!(&frame[..4], &[0, 0, 1, 44]);
    assert_eq!(&frame[4..], &long[..]);
}

#[test]
fn frame_round_trip() {
    let payloads: [&[u8]; 4] = [b"", b"x", b"hello", &[0u8, 255, 1, 254, 2, 253]];
    for c in payloads {
        let bytes = encode_frame(c).unwrap();
        assert_eq!(bytes.len(), 4 + c.len());
        let frame = parse_frame(&bytes, DEFAULT_CEILING).unwrap();
        assert_eq!(frame.ciphertext, c);
        assert_eq!(frame.length as usize, c.len());
    }
}

#[test]
fn parse_leaves_what_follows_the_frame() {
    let mut bytes = encode_frame(b"abc").unwrap();
    bytes.extend_from_slice(&[0, 0, 0, 1, 9]);
    let frame = parse_frame(&bytes, 16).unwrap();
    assert_eq!(frame.length, 3);
    assert_eq!(frame.ciphertext, b"abc");
}

#[test]
fn parse_rejects_incomplete_header() {
    for n in 0..4 {
        let bytes = vec![0u8; n];
        assert_eq!(parse_frame(&bytes, 16).unwrap_err(), FrameError::Incomplete);
    }
}

#[test]
fn parse_rejects_incomplete_body() {
    assert_eq!(
        parse_frame(&[0, 0, 0, 3, 1, 2], 16).unwrap_err(),
        FrameError::Incomplete
    );
    assert_eq!(
        parse_frame(&[0, 0, 0, 1], 16).unwrap_err(),
        FrameError::Incomplete
    );
}

#[test]
fn parse_rejects_length_above_ceiling() {
    assert_eq!(
        parse_frame(&[0, 0, 0, 17, 0], 16).unwrap_err(),
        FrameError::TooLarge
    );
    assert_eq!(
        parse_frame(&[255, 255, 255, 255], DEFAULT_CEILING).unwrap_err(),
        FrameError::TooLarge
    );
    // The ceiling is checked before the body is looked for.
    assert_eq!(
        parse_frame(&[0, 0, 0, 17], 16).unwrap_err(),
        FrameError::TooLarge
    );
}

#[test]
fn parse_admits_length_at_ceiling() {
    let body = vec![1u8; 16];
    let bytes = encode_frame(&body).unwrap();
    let frame = parse_frame(&bytes, 16).unwrap();
    assert_eq!(frame.ciphertext, body);
    assert_eq!(parse_frame(&bytes, 15).unwrap_err(), FrameError::TooLarge);
}

#[test]
fn parse_with_no_ceiling_to_speak_of() {
    let bytes = encode_frame(b"hello").unwrap();
    let frame = parse_frame(&bytes, u32::MAX).unwrap();
    assert_eq!(frame.ciphertext, b"hello");
    assert_eq!(
        parse_frame(&[255, 255, 255, 255, 0], u32::MAX).unwrap_err(),
        FrameError::Incomplete
    );
}
