//! Sealing a password into a stored record and opening it again.
//!
//! A record is the IV followed by the ciphertext, written as base64 text. The
//! cipher and the base64 engine are outside code, so the contracts here speak
//! of their results by name; what this module proves is everything around
//! them: the checks, the layout of a record, which failure is reported when,
//! and that what was sealed opens again.

use vstd::prelude::*;
use vstd::utf8::{
    decode_utf8, decode_utf8_encode_utf8, encode_utf8, encode_utf8_decode_utf8,
    encode_utf8_valid_utf8, valid_utf8,
};
use crate::armor::{
    base64_decode, base64_encode, base64_len, base64_padding, from_base64, padded_by,
    padded_is_printable, printable, to_base64,
};
use crate::block_mode::{
    aes256_cbc_pkcs7_decrypt, aes256_cbc_pkcs7_encrypt, cbc_decrypt, cbc_encrypt, padded_len,
    BLOCK_LEN, KEY_LEN,
};
use crate::entropy::fresh_iv;
use crate::error::{DecodeError, EncodeError};
use crate::text::string_from_utf8;

verus! {

/// Bytes in the IV that leads every record.
pub const IV_LEN: usize = 16;

/// The bytes of the record that seals `password` under `key` and `iv`: the
/// IV, then the ciphertext of the password's UTF-8 bytes.
pub open spec fn record_bytes(key: Seq<u8>, iv: Seq<u8>, password: Seq<char>) -> Seq<u8> {
    iv + aes256_cbc_pkcs7_encrypt(key, iv, encode_utf8(password))
}

/// The stored text of that record.
pub open spec fn record_text(key: Seq<u8>, iv: Seq<u8>, password: Seq<char>) -> Seq<char> {
    base64_encode(record_bytes(key, iv, password))
}

/// Bytes in the record of `password`: the IV and the padded ciphertext.
pub open spec fn record_len(password: Seq<char>) -> nat {
    IV_LEN as nat + padded_len(encode_utf8(password).len())
}

/// Characters in the stored text of the record of `password`.
pub open spec fn record_text_len(password: Seq<char>) -> nat {
    base64_len(record_len(password))
}

/// Whether the stored text of the record of `password` is no longer than a
/// `String` can be on this machine.
pub open spec fn fits(password: Seq<char>) -> bool {
    record_text_len(password) <= isize::MAX
}

/// What a recovered plaintext is worth as text.
pub open spec fn recovered_text(plaintext: Seq<u8>) -> Result<Seq<char>, DecodeError> {
    if valid_utf8(plaintext) {
        Ok(decode_utf8(plaintext))
    } else {
        Err(DecodeError::InvalidText)
    }
}

/// What opening the bytes of a record under `key` gives. The key's length is
/// tested first; then the first 16 bytes are the IV, the rest is the
/// ciphertext.
pub open spec fn opened_record(key: Seq<u8>, record: Seq<u8>) -> Result<Seq<char>, DecodeError> {
    if key.len() != KEY_LEN {
        Err(DecodeError::InvalidKeyLength)
    } else if record.len() < IV_LEN {
        Err(DecodeError::TooShort)
    } else {
        match aes256_cbc_pkcs7_decrypt(key, record.take(IV_LEN as int), record.skip(IV_LEN as int)) {
            None => Err(DecodeError::PaddingOrCipherError),
            Some(plaintext) => recovered_text(plaintext),
        }
    }
}

/// What opening a stored text under `key` gives. The key's length is tested
/// before the text is looked at.
pub open spec fn opened_text(key: Seq<u8>, text: Seq<char>) -> Result<Seq<char>, DecodeError> {
    if key.len() != KEY_LEN {
        Err(DecodeError::InvalidKeyLength)
    } else {
        match base64_decode(text) {
            None => Err(DecodeError::BadEncoding),
            Some(record) => opened_record(key, record),
        }
    }
}

/// An outcome with its text taken as a sequence of characters.
pub open spec fn outcome_view(outcome: Result<String, DecodeError>) -> Result<Seq<char>, DecodeError> {
    match outcome {
        Ok(text) => Ok(text@),
        Err(e) => Err(e),
    }
}

/// Whether a record is long enough to open: an IV and then whole cipher
/// blocks, at least one.
pub open spec fn whole_blocks(record: Seq<u8>) -> bool {
    record.len() >= IV_LEN + BLOCK_LEN && record.len() % 16 == 0
}

/// Whether `record` is the record of `password` under `key` and the IV that
/// the record itself carries.
pub open spec fn is_record_of(key: Seq<u8>, record: Seq<u8>, password: Seq<char>) -> bool {
    record.len() >= IV_LEN && record == record_bytes(key, record.take(IV_LEN as int), password)
}

/// Whether `text` is the stored record of `password` under `key` and `iv`,
/// with all that follows from it: the record and its text have the lengths
/// that the password's length fixes, the text is printable and padded as
/// base64 is, it decodes to the IV and the ciphertext, and it opens under
/// `key` to the password.
pub open spec fn sealed(key: Seq<u8>, iv: Seq<u8>, password: Seq<char>, text: Seq<char>) -> bool {
    &&& text == record_text(key, iv, password)
    &&& record_bytes(key, iv, password).len() == record_len(password)
    &&& text.len() == record_text_len(password)
    &&& padded_by(text, base64_padding(record_len(password)))
    &&& printable(text)
    &&& base64_decode(text) == Some(record_bytes(key, iv, password))
    &&& opened_text(key, text) == Ok::<Seq<char>, DecodeError>(password)
}

/// Opening undoes sealing: where the base64 engine gives back the bytes of a
/// record from its text, and the cipher gives back the password's bytes from
/// the record's ciphertext, opening the text under the same key gives the
/// password.
proof fn opening_undoes_sealing(key: Seq<u8>, iv: Seq<u8>, password: Seq<char>)
    requires
        key.len() == KEY_LEN,
        iv.len() == IV_LEN,
        base64_decode(record_text(key, iv, password)) == Some(record_bytes(key, iv, password)),
        aes256_cbc_pkcs7_decrypt(
            key,
            iv,
            aes256_cbc_pkcs7_encrypt(key, iv, encode_utf8(password)),
        ) == Some(encode_utf8(password)),
    ensures
        opened_text(key, record_text(key, iv, password)) == Ok::<Seq<char>, DecodeError>(password),
{
    let record = record_bytes(key, iv, password);
    assert(record.take(IV_LEN as int) =~= iv);
    assert(record.skip(IV_LEN as int) =~= aes256_cbc_pkcs7_encrypt(key, iv, encode_utf8(password)));
    encode_utf8_valid_utf8(password);
    encode_utf8_decode_utf8(password);
}

/// Two records of one password under one key differ wherever their IVs
/// differ: each carries its IV in the clear.
pub proof fn distinct_ivs_give_distinct_records(
    key: Seq<u8>,
    first_iv: Seq<u8>,
    second_iv: Seq<u8>,
    password: Seq<char>,
    first: Seq<char>,
    second: Seq<char>,
)
    requires
        first_iv.len() == IV_LEN,
        second_iv.len() == IV_LEN,
        first_iv != second_iv,
        sealed(key, first_iv, password, first),
        sealed(key, second_iv, password, second),
    ensures
        first != second,
{
    if first == second {
        let one = record_bytes(key, first_iv, password);
        let other = record_bytes(key, second_iv, password);
        assert(one.take(IV_LEN as int) =~= first_iv);
        assert(other.take(IV_LEN as int) =~= second_iv);
    }
}

/// One key, one IV and one password have one record. So a record whose
/// ciphertext was changed, its IV left as it was, is no record of the password
/// that was sealed, and by what `open_record` ensures it does not open to it.
pub proof fn changed_record_is_of_another_password(
    key: Seq<u8>,
    iv: Seq<u8>,
    password: Seq<char>,
    changed: Seq<u8>,
)
    requires
        iv.len() == IV_LEN,
        changed.len() >= IV_LEN,
        changed.take(IV_LEN as int) == iv,
        changed != record_bytes(key, iv, password),
    ensures
        is_record_of(key, record_bytes(key, iv, password), password),
        !is_record_of(key, changed, password),
{
    assert(record_bytes(key, iv, password).take(IV_LEN as int) =~= iv);
}

/// UTF-8 spends at least one byte and at most four on a character.
pub proof fn utf8_len_bounds(chars: Seq<char>)
    ensures
        chars.len() <= encode_utf8(chars).len() <= 4 * chars.len(),
    decreases chars.len(),
{
    if chars.len() > 0 {
        utf8_len_bounds(chars.drop_first());
    }
}

/// A record is never shorter than an IV and one cipher block, and it is made
/// of whole blocks; its stored text has 44 characters or more.
pub proof fn shortest_record(password: Seq<char>)
    ensures
        record_len(password) >= IV_LEN + BLOCK_LEN,
        record_len(password) % 16 == 0,
        encode_utf8(password).len() < record_len(password) - IV_LEN <= encode_utf8(password).len()
            + BLOCK_LEN,
        record_text_len(password) >= 44,
        record_text_len(password) % 4 == 0,
{
}

/// A password of no more than 2^28 characters fits, on a machine of 32 bits
/// as on one of 64.
pub proof fn short_password_fits(password: Seq<char>)
    requires
        password.len() <= 0x1000_0000,
    ensures
        fits(password),
{
    utf8_len_bounds(password);
}

/// Tests whether the record of `password` fits: whether its stored text would
/// be no longer than a `String` can be on this machine.
pub fn fits_record(password: &str) -> (fitting: bool)
    ensures
        fitting == fits(password@),
{
    let longest_record: usize = (isize::MAX as usize) / 4 * 3;
    let blocks: usize = password.as_bytes().len() / BLOCK_LEN;
    // The text fits exactly when the record is no longer than three bytes
    // for every four characters of the longest `String`.
    assert(fits(password@) <==> record_len(password@) <= longest_record);
    blocks <= (longest_record - IV_LEN - BLOCK_LEN) / BLOCK_LEN
}

/// Lays out a record: the IV, then the ciphertext.
pub fn join_record(iv: &[u8; 16], ciphertext: &[u8]) -> (record: Vec<u8>)
    ensures
        record@ == iv@ + ciphertext@,
{
    let mut record: Vec<u8> = Vec::new();
    record.extend_from_slice(iv.as_slice());
    record.extend_from_slice(ciphertext);
    record
}

/// Takes a record apart into its IV and its ciphertext, or gives `None` where
/// the record is too short to hold an IV.
pub fn split_record(record: &[u8]) -> (parts: Option<(&[u8], &[u8])>)
    ensures
        record@.len() < IV_LEN <==> parts is None,
        parts matches Some((iv, ciphertext)) ==> {
            &&& iv@ == record@.take(IV_LEN as int)
            &&& ciphertext@ == record@.skip(IV_LEN as int)
        },
{
    if record.len() < IV_LEN {
        None
    } else {
        let (iv, ciphertext) = record.split_at(IV_LEN);
        Some((iv, ciphertext))
    }
}

/// Reads a recovered plaintext as text: `InvalidText` exactly where the bytes
/// are not UTF-8.
pub fn text_of(plaintext: Vec<u8>) -> (outcome: Result<String, DecodeError>)
    ensures
        outcome_view(outcome) == recovered_text(plaintext@),
{
    match string_from_utf8(plaintext) {
        Ok(text) => Ok(text),
        Err(_) => Err(DecodeError::InvalidText),
    }
}

/// Opens the bytes of a record: `InvalidKeyLength` where the key is not 32
/// bytes long, then `TooShort` where the bytes cannot hold an IV,
/// `PaddingOrCipherError` where the cipher rejects the rest, `InvalidText`
/// where the plaintext is not UTF-8.
///
/// A record that is not an IV and whole blocks never opens. One that opens is
/// the record of the text that comes out, under the key and the IV it
/// carries, and its ciphertext is longer than that text by 1 to 16 bytes.
pub fn open_record(key: &[u8], record: &[u8]) -> (outcome: Result<String, DecodeError>)
    ensures
        key@.len() != KEY_LEN ==> outcome == Err::<String, DecodeError>(
            DecodeError::InvalidKeyLength,
        ),
        outcome_view(outcome) == opened_record(key@, record@),
        key@.len() == KEY_LEN && record@.len() >= IV_LEN && !whole_blocks(record@) ==> outcome
            == Err::<String, DecodeError>(DecodeError::PaddingOrCipherError),
        outcome matches Ok(text) ==> {
            &&& whole_blocks(record@)
            &&& is_record_of(key@, record@, text@)
            &&& encode_utf8(text@).len() < record@.len() - IV_LEN <= encode_utf8(text@).len()
                + BLOCK_LEN
        },
{
    if key.len() != KEY_LEN {
        return Err(DecodeError::InvalidKeyLength);
    }
    match split_record(record) {
        None => Err(DecodeError::TooShort),
        Some((iv, ciphertext)) => match cbc_decrypt(key, iv, ciphertext) {
            Err(_) => Err(DecodeError::PaddingOrCipherError),
            Ok(plaintext) => {
                let outcome = text_of(plaintext);
                proof {
                    if outcome is Ok {
                        decode_utf8_encode_utf8(plaintext@);
                        assert(record@ =~= iv@ + ciphertext@);
                    }
                }
                outcome
            },
        },
    }
}

/// Opens a stored record: decodes the base64 text, splits off the IV, decrypts
/// the rest under `key` and reads the plaintext as UTF-8.
///
/// Each failure is reported exactly where `opened_text` places it:
/// `InvalidKeyLength` where the key is not 32 bytes long, whatever the text;
/// then `BadEncoding` where the text is no base64; then as `open_record` does
/// for the decoded bytes. Only a text that decodes to an IV and whole blocks
/// ever opens, and then those bytes are the record of the text that comes
/// out, the ciphertext longer than it by 1 to 16 bytes.
pub fn decrypt_password(key: &[u8], encrypted_data: &str) -> (outcome: Result<String, DecodeError>)
    ensures
        key@.len() != KEY_LEN ==> outcome == Err::<String, DecodeError>(
            DecodeError::InvalidKeyLength,
        ),
        outcome_view(outcome) == opened_text(key@, encrypted_data@),
        outcome matches Ok(text) ==> (base64_decode(encrypted_data@) matches Some(record)
            && whole_blocks(record) && is_record_of(key@, record, text@) && encode_utf8(
            text@,
        ).len() < record.len() - IV_LEN <= encode_utf8(text@).len() + BLOCK_LEN),
{
    if key.len() != KEY_LEN {
        return Err(DecodeError::InvalidKeyLength);
    }
    match from_base64(encrypted_data) {
        None => Err(DecodeError::BadEncoding),
        Some(record) => open_record(key, record.as_slice()),
    }
}

/// Seals `password` under `key` with the IV given.
///
/// A key that is not 32 bytes long is refused with `InvalidKeyLength`. Any
/// other key succeeds, and the text returned is the record of the password
/// under that key and IV: in particular it opens again, under the same key,
/// to the password.
///
/// The stored text must fit in a `String`; `fits_record` tests that.
pub fn encrypt_with_iv(key: &[u8], iv: &[u8; 16], password: &str) -> (outcome: Result<
    String,
    EncodeError,
>)
    requires
        key@.len() == KEY_LEN ==> fits(password@),
    ensures
        key@.len() != KEY_LEN ==> outcome == Err::<String, EncodeError>(
            EncodeError::InvalidKeyLength,
        ),
        key@.len() == KEY_LEN ==> (outcome matches Ok(text) && sealed(
            key@,
            iv@,
            password@,
            text@,
        )),
{
    if key.len() != KEY_LEN {
        return Err(EncodeError::InvalidKeyLength);
    }
    let plaintext = password.as_bytes();
    let ciphertext = cbc_encrypt(key, iv.as_slice(), plaintext);
    let record = join_record(iv, ciphertext.as_slice());
    let text = to_base64(record.as_slice());
    proof {
        padded_is_printable(text@, base64_padding(record@.len()));
        opening_undoes_sealing(key@, iv@, password@);
    }
    Ok(text)
}

/// Seals `password` under `key` with an IV drawn afresh from the operating
/// system's random source.
///
/// A key that is not 32 bytes long is refused with `InvalidKeyLength`, before
/// any randomness is drawn. Any other key succeeds: the text returned is the
/// record of the password under the key and some 16-byte IV, and it opens
/// again, under the same key, to the password.
///
/// The stored text must fit in a `String`; `fits_record` tests that. Should
/// the operating system fail to deliver random bytes, the draw panics.
pub fn encrypt_password(key: &[u8], password: &str) -> (outcome: Result<String, EncodeError>)
    requires
        key@.len() == KEY_LEN ==> fits(password@),
    ensures
        key@.len() != KEY_LEN ==> outcome == Err::<String, EncodeError>(
            EncodeError::InvalidKeyLength,
        ),
        key@.len() == KEY_LEN ==> (outcome matches Ok(text) && {
            &&& exists|iv: Seq<u8>| iv.len() == IV_LEN && #[trigger] sealed(key@, iv, password@, text@)
            &&& text@.len() == record_text_len(password@)
            &&& padded_by(text@, base64_padding(record_len(password@)))
            &&& printable(text@)
            &&& base64_decode(text@) matches Some(record) && record.len() == record_len(password@)
                && is_record_of(key@, record, password@)
            &&& opened_text(key@, text@) == Ok::<Seq<char>, DecodeError>(password@)
        }),
{
    if key.len() != KEY_LEN {
        return Err(EncodeError::InvalidKeyLength);
    }
    let iv = fresh_iv();
    let outcome = encrypt_with_iv(key, &iv, password);
    proof {
        // The record carries the IV that was drawn as its first 16 bytes.
        assert(record_bytes(key@, iv@, password@).take(IV_LEN as int) =~= iv@);
    }
    outcome
}

} // verus!
