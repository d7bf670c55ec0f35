//! Frames: a 4-byte big-endian length, then that many bytes of ciphertext.

use crate::wire::{
    be_bytes, be_value, decode_length, encode_length, lemma_be_bytes_len, lemma_length_round_trip,
    HEADER_LEN,
};
use vstd::prelude::*;
use vstd::slice::slice_subrange;

verus! {

/// The ceiling on a frame's length that a session uses unless told otherwise.
pub const DEFAULT_CEILING: u32 = 0x10_0000;

/// One unit of ciphertext as it was read from the wire.
#[derive(Clone, Debug, PartialEq, Eq)]
pub struct Frame {
    pub length: u32,
    pub ciphertext: Vec<u8>,
}

/// Why bytes are not a frame.
#[derive(Clone, Copy, Debug, PartialEq, Eq, Structural)]
pub enum FrameError {
    /// Fewer bytes than the header, or than the header declares.
    Incomplete,
    /// The declared length is above the ceiling.
    TooLarge,
}

/// The frame that carries `ciphertext`.
pub open spec fn frame_of(ciphertext: Seq<u8>) -> Seq<u8>
    recommends
        ciphertext.len() <= u32::MAX,
{
    be_bytes(ciphertext.len(), 4) + ciphertext
}

/// The length that the first four bytes declare.
pub open spec fn declared_length(bytes: Seq<u8>) -> nat
    recommends
        bytes.len() >= 4,
{
    be_value(bytes.take(4))
}

/// The ciphertext of the frame at the start of `bytes`, or why there is none.
pub open spec fn parsed(bytes: Seq<u8>, ceiling: u32) -> Result<Seq<u8>, FrameError> {
    if bytes.len() < 4 {
        Err(FrameError::Incomplete)
    } else if declared_length(bytes) > ceiling {
        Err(FrameError::TooLarge)
    } else if bytes.len() < 4 + declared_length(bytes) {
        Err(FrameError::Incomplete)
    } else {
        Ok(bytes.subrange(4, 4 + declared_length(bytes) as int))
    }
}

/// Builds the frame for `ciphertext`: its length in 4 bytes, then the bytes.
/// There is none for a ciphertext whose length does not fit in 32 bits.
pub fn encode_frame(ciphertext: &[u8]) -> (frame: Option<Vec<u8>>)
    ensures
        frame is Some <==> ciphertext@.len() <= u32::MAX,
        frame matches Some(bytes) ==> bytes@ == frame_of(ciphertext@),
{
    if ciphertext.len() > u32::MAX as usize {
        return None;
    }
    let mut frame: Vec<u8> = encode_length(ciphertext.len() as u32);
    let mut i: usize = 0;
    while i < ciphertext.len()
        invariant
            i <= ciphertext@.len(),
            frame@ == be_bytes(ciphertext@.len(), 4) + ciphertext@.take(i as int),
        decreases ciphertext.len() - i,
    {
        frame.push(ciphertext[i]);
        i += 1;
        assert(frame@ =~= be_bytes(ciphertext@.len(), 4) + ciphertext@.take(i as int));
    }
    assert(ciphertext@.take(i as int) =~= ciphertext@);
    Some(frame)
}

/// Reads the frame at the start of `bytes`. The declared length is checked
/// against `ceiling` before anything is read on its word; bytes after the
/// frame are left alone.
pub fn parse_frame(bytes: &[u8], ceiling: u32) -> (result: Result<Frame, FrameError>)
    ensures
        result matches Ok(frame) ==> parsed(bytes@, ceiling) == Ok::<Seq<u8>, FrameError>(
            frame.ciphertext@,
        ) && frame.length == frame.ciphertext@.len() && frame.length == declared_length(bytes@),
        result matches Err(e) ==> parsed(bytes@, ceiling) == Err::<Seq<u8>, FrameError>(e),
{
    if bytes.len() < HEADER_LEN {
        return Err(FrameError::Incomplete);
    }
    let header = slice_subrange(bytes, 0, HEADER_LEN);
    assert(header@ =~= bytes@.take(4));
    let length: u32 = match decode_length(header) {
        Some(n) => n,
        None => { return Err(FrameError::Incomplete); },
    };
    if length > ceiling {
        return Err(FrameError::TooLarge);
    }
    if bytes.len() - HEADER_LEN < length as usize {
        return Err(FrameError::Incomplete);
    }
    let body = slice_subrange(bytes, HEADER_LEN, HEADER_LEN + length as usize);
    let ciphertext: Vec<u8> = vstd::slice::slice_to_vec(body);
    Ok(Frame { length, ciphertext })
}

/// Parsing the frame of a ciphertext gives back the ciphertext and declares
/// its length, under any ceiling that admits it and whatever follows it.
pub proof fn lemma_frame_round_trip(ciphertext: Seq<u8>, ceiling: u32, rest: Seq<u8>)
    requires
        ciphertext.len() <= ceiling,
    ensures
        declared_length(frame_of(ciphertext) + rest) == ciphertext.len(),
        parsed(frame_of(ciphertext) + rest, ceiling) == Ok::<Seq<u8>, FrameError>(ciphertext),
{
    let header = be_bytes(ciphertext.len(), 4);
    let bytes = frame_of(ciphertext) + rest;
    lemma_length_round_trip(ciphertext.len() as u32);
    assert(bytes.take(4) =~= header);
    assert(bytes.subrange(4, 4 + ciphertext.len() as int) =~= ciphertext);
}

/// A frame is four bytes longer than what it carries.
pub proof fn lemma_frame_len(ciphertext: Seq<u8>)
    ensures
        frame_of(ciphertext).len() == 4 + ciphertext.len(),
{
    lemma_be_bytes_len(ciphertext.len(), 4);
}

} // verus!
