//! Lines of text at the two ends of the channel: what an input line becomes
//! before it is enciphered, and what deciphered bytes become before they are
//! shown.

use vstd::prelude::*;
use vstd::string::StrSliceExecFns;
use vstd::string::StringSliceAdditionalSpecFns;
use vstd::utf8::{
    decode_utf8, encode_utf8, encode_utf8_decode_utf8, encode_utf8_valid_utf8, valid_utf8,
};

verus! {

/// The characters with the Unicode property `White_Space`: U+0009 to U+000D,
/// U+0020, U+0085, U+00A0, U+1680, U+2000 to U+200A, U+2028, U+2029, U+202F,
/// U+205F and U+3000.
pub open spec fn is_whitespace(c: char) -> bool {
    let u = c as u32;
    ||| 0x09 <= u <= 0x0D
    ||| u == 0x20
    ||| u == 0x85
    ||| u == 0xA0
    ||| u == 0x1680
    ||| 0x2000 <= u <= 0x200A
    ||| u == 0x2028
    ||| u == 0x2029
    ||| u == 0x202F
    ||| u == 0x205F
    ||| u == 0x3000
}

/// `text` without the whitespace it starts with.
pub open spec fn trim_start(text: Seq<char>) -> Seq<char>
    decreases text.len(),
{
    if text.len() > 0 && is_whitespace(text.first()) {
        trim_start(text.drop_first())
    } else {
        text
    }
}

/// `text` without the whitespace it ends with.
pub open spec fn trim_end(text: Seq<char>) -> Seq<char>
    decreases text.len(),
{
    if text.len() > 0 && is_whitespace(text.last()) {
        trim_end(text.drop_last())
    } else {
        text
    }
}

/// `text` without the whitespace at either end.
pub open spec fn trimmed(text: Seq<char>) -> Seq<char> {
    trim_end(trim_start(text))
}

/// What is enciphered for an input line: the UTF-8 bytes of the trimmed
/// line, or nothing where the trimmed line is empty.
pub open spec fn message(line: Seq<char>) -> Option<Seq<u8>> {
    if trimmed(line).len() == 0 {
        None
    } else {
        Some(encode_utf8(trimmed(line)))
    }
}

/// Names what `String::from_utf8_lossy` makes of bytes that are not valid
/// UTF-8: the text with U+FFFD in place of each invalid sequence.
pub uninterp spec fn lossy_text(bytes: Seq<u8>) -> Seq<char>;

/// The text that is shown for deciphered bytes: their decoding where they are
/// valid UTF-8, and the lossy reading otherwise. Never an error.
pub open spec fn shown_text(bytes: Seq<u8>) -> Seq<char> {
    if valid_utf8(bytes) {
        decode_utf8(bytes)
    } else {
        lossy_text(bytes)
    }
}

/// Calls `str::trim`. The contract claims what std documents: the result is
/// the line without its leading and trailing whitespace, where whitespace is
/// the Unicode property `White_Space`.
#[verifier::external_body]
fn trim(line: &str) -> (kept: &str)
    ensures
        kept@ == trimmed(line@),
{
    line.trim()
}

/// Calls `String::from_utf8_lossy`. The contract claims what std documents:
/// valid UTF-8 is decoded as it stands; of other input it only names the
/// result.
#[verifier::external_body]
pub(crate) fn decode_lossy(bytes: &[u8]) -> (text: String)
    ensures
        text@ == shown_text(bytes@),
        !valid_utf8(bytes@) ==> text@ == lossy_text(bytes@),
{
    String::from_utf8_lossy(bytes).into_owned()
}

/// The bytes to encipher for an input line, or `None` for a line that is
/// empty once trimmed: such a line is not sent.
pub fn message_of(line: &str) -> (bytes: Option<Vec<u8>>)
    ensures
        bytes is Some <==> message(line@) is Some,
        bytes matches Some(b) ==> message(line@) == Some(b@),
        trimmed(line@).len() == 0 ==> bytes is None,
{
    let kept: &str = trim(line);
    if kept.is_empty() {
        None
    } else {
        Some(kept.as_bytes_vec())
    }
}

/// Text survives the trip: the bytes made for a line are shown as the trimmed
/// line.
pub proof fn lemma_message_shown(line: Seq<char>)
    requires
        trimmed(line).len() > 0,
    ensures
        message(line) is Some,
        shown_text(message(line).unwrap()) == trimmed(line),
{
    encode_utf8_valid_utf8(trimmed(line));
    encode_utf8_decode_utf8(trimmed(line));
}

} // verus!
