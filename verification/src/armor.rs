//! Base64 in the standard alphabet with padding, as the `base64` crate
//! provides it. The two functions at the end call the crate's `STANDARD`
//! engine, and their contracts are taken on trust.

use vstd::prelude::*;
use base64::engine::general_purpose::STANDARD;
use base64::Engine;

verus! {

/// The text that the standard base64 engine gives for `bytes`.
pub uninterp spec fn base64_encode(bytes: Seq<u8>) -> Seq<char>;

/// The bytes that the standard base64 engine reads from `text`, or `None`
/// where it rejects the text.
pub uninterp spec fn base64_decode(text: Seq<char>) -> Option<Seq<u8>>;

/// Characters in the padded base64 text of `len` bytes: four for every three
/// bytes, the last group filled up.
pub open spec fn base64_len(len: nat) -> nat {
    (len + 2) / 3 * 4
}

/// Equals signs at the end of the padded base64 text of `len` bytes: none
/// where the bytes fill whole groups of three, else as many as bytes are
/// missing from the last group.
pub open spec fn base64_padding(len: nat) -> nat {
    if len % 3 == 0 {
        0
    } else {
        (3 - len % 3) as nat
    }
}

/// Whether `c` is a character of the standard alphabet: a letter or digit of
/// ASCII, a plus sign or a slash.
pub open spec fn is_alphabet_char(c: char) -> bool {
    ||| 'A' <= c <= 'Z'
    ||| 'a' <= c <= 'z'
    ||| '0' <= c <= '9'
    ||| c == '+'
    ||| c == '/'
}

/// Whether `c` is a character of base64 text: one of the alphabet, or the
/// equals sign that pads the last group.
pub open spec fn is_base64_char(c: char) -> bool {
    is_alphabet_char(c) || c == '='
}

/// Whether `text` is made of base64 characters alone, and so is printable and
/// holds neither a blank nor a line end.
pub open spec fn printable(text: Seq<char>) -> bool {
    forall|i: int| 0 <= i < text.len() ==> is_base64_char(#[trigger] text[i])
}

/// Whether `text` ends in `padding` equals signs with characters of the
/// alphabet alone before them.
pub open spec fn padded_by(text: Seq<char>, padding: nat) -> bool {
    &&& padding <= text.len()
    &&& forall|i: int|
        0 <= i < text.len() ==> if i < text.len() - padding {
            is_alphabet_char(#[trigger] text[i])
        } else {
            text[i] == '='
        }
}

/// Text that is padded as base64 is, is printable.
pub proof fn padded_is_printable(text: Seq<char>, padding: nat)
    requires
        padded_by(text, padding),
    ensures
        printable(text),
{
}

/// Calls `Engine::encode` on `base64::engine::general_purpose::STANDARD`.
///
/// Trusted: the text is a function of the bytes alone; it has four characters
/// for every group of three bytes, all of them from the standard alphabet but
/// for the equals signs that fill up the last group; and the same engine
/// decodes it to the bytes it was made from. The length bound keeps the text
/// within what a `String` can hold.
#[verifier::external_body]
pub(crate) fn to_base64(bytes: &[u8]) -> (text: String)
    requires
        base64_len(bytes@.len()) <= isize::MAX,
    ensures
        text@ == base64_encode(bytes@),
        text@.len() == base64_len(bytes@.len()),
        padded_by(text@, base64_padding(bytes@.len())),
        base64_decode(text@) == Some(bytes@),
{
    STANDARD.encode(bytes)
}

/// Calls `Engine::decode` on `base64::engine::general_purpose::STANDARD`.
///
/// Trusted: the outcome is a function of the text alone. The engine's error,
/// which says where the text went wrong, is dropped.
#[verifier::external_body]
pub(crate) fn from_base64(text: &str) -> (outcome: Option<Vec<u8>>)
    ensures
        match outcome {
            Some(bytes) => base64_decode(text@) == Some(bytes@),
            None => base64_decode(text@) is None,
        },
{
    STANDARD.decode(text).ok()
}

} // verus!
