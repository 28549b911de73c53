//! AES-256 in CBC mode with PKCS#7 padding, as the `aes`, `cbc` and `cipher`
//! crates provide it. Nothing in this module is proved: the two functions
//! below call the cipher, and their contracts are taken on trust.

use vstd::prelude::*;
use cipher::block_padding::{Pkcs7, UnpadError};
use cipher::{BlockDecryptMut, BlockEncryptMut, KeyIvInit};

verus! {

/// Bytes in an AES-256 key.
pub const KEY_LEN: usize = 32;

/// Bytes in a cipher block, and so in an IV.
pub const BLOCK_LEN: usize = 16;

/// The ciphertext that AES-256-CBC gives for `plaintext` under `key` and `iv`,
/// the plaintext first padded by PKCS#7 to a whole number of blocks.
pub uninterp spec fn aes256_cbc_pkcs7_encrypt(key: Seq<u8>, iv: Seq<u8>, plaintext: Seq<u8>) -> Seq<u8>;

/// The plaintext that AES-256-CBC recovers from `ciphertext` under `key` and
/// `iv` once the PKCS#7 padding is taken off, or `None` where the ciphertext is
/// not a whole number of blocks or the padding is malformed.
pub uninterp spec fn aes256_cbc_pkcs7_decrypt(key: Seq<u8>, iv: Seq<u8>, ciphertext: Seq<u8>) -> Option<Seq<u8>>;

/// Length of a message of `len` bytes after PKCS#7 padding: the next multiple
/// of the block length that is strictly greater than `len`.
pub open spec fn padded_len(len: nat) -> nat {
    (len / 16 + 1) * 16
}

/// The error with which the cipher rejects a ciphertext.
#[verifier::external_type_specification]
#[verifier::external_body]
pub struct ExUnpadError(UnpadError);

/// Calls `cbc::Encryptor::<aes::Aes256>::new` and then
/// `BlockEncryptMut::encrypt_padded_vec_mut::<Pkcs7>`.
///
/// Trusted: the result is a function of key, IV and plaintext alone; it is one
/// block longer than the whole blocks of the plaintext; and decrypting it
/// under the same key and IV gives the plaintext back. The length bound keeps
/// the output buffer, which the cipher allocates at the padded length, within
/// what a `Vec` can hold.
#[verifier::external_body]
pub(crate) fn cbc_encrypt(key: &[u8], iv: &[u8], plaintext: &[u8]) -> (ciphertext: Vec<u8>)
    requires
        key@.len() == KEY_LEN,
        iv@.len() == BLOCK_LEN,
        padded_len(plaintext@.len()) <= isize::MAX,
    ensures
        ciphertext@ == aes256_cbc_pkcs7_encrypt(key@, iv@, plaintext@),
        ciphertext@.len() == padded_len(plaintext@.len()),
        aes256_cbc_pkcs7_decrypt(key@, iv@, ciphertext@) == Some(plaintext@),
{
    let cipher = cbc::Encryptor::<aes::Aes256>::new(key.into(), iv.into());
    cipher.encrypt_padded_vec_mut::<Pkcs7>(plaintext)
}

/// Calls `cbc::Decryptor::<aes::Aes256>::new` and then
/// `BlockDecryptMut::decrypt_padded_vec_mut::<Pkcs7>`.
///
/// Trusted: the outcome is a function of key, IV and ciphertext alone. A
/// plaintext comes back only from a ciphertext of whole blocks, at least one,
/// of which it is shorter by the padding, between 1 and 16 bytes; and only
/// from the ciphertext that encrypting it under the same key and IV gives,
/// since the padding is checked byte by byte.
#[verifier::external_body]
pub(crate) fn cbc_decrypt(key: &[u8], iv: &[u8], ciphertext: &[u8]) -> (outcome: Result<Vec<u8>, UnpadError>)
    requires
        key@.len() == KEY_LEN,
        iv@.len() == BLOCK_LEN,
    ensures
        match outcome {
            Ok(plaintext) => aes256_cbc_pkcs7_decrypt(key@, iv@, ciphertext@) == Some(plaintext@),
            Err(_) => aes256_cbc_pkcs7_decrypt(key@, iv@, ciphertext@) is None,
        },
        outcome matches Ok(plaintext) ==> {
            &&& ciphertext@.len() % 16 == 0
            &&& plaintext@.len() < ciphertext@.len() <= plaintext@.len() + 16
            &&& ciphertext@ == aes256_cbc_pkcs7_encrypt(key@, iv@, plaintext@)
        },
{
    let cipher = cbc::Decryptor::<aes::Aes256>::new(key.into(), iv.into());
    cipher.decrypt_padded_vec_mut::<Pkcs7>(ciphertext)
}

} // verus!
