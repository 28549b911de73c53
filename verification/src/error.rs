//! The failures that sealing and opening a record can report.

use vstd::prelude::*;

verus! {

/// Why a password could not be sealed.
#[derive(Clone, Copy, Debug, PartialEq, Eq, Structural)]
pub enum EncodeError {
    /// The key is not exactly 32 bytes long.
    InvalidKeyLength,
}

/// Why a stored record could not be opened.
#[derive(Clone, Copy, Debug, PartialEq, Eq, Structural)]
pub enum DecodeError {
    /// The key is not exactly 32 bytes long.
    InvalidKeyLength,
    /// The text is not base64 in the standard alphabet with canonical padding.
    BadEncoding,
    /// The decoded bytes are too few to hold an IV.
    TooShort,
    /// The ciphertext is not a whole number of blocks, or what came out of the
    /// cipher does not end in valid PKCS#7 padding. A wrong key and a damaged
    /// record both end here: the record carries no integrity tag that could
    /// tell them apart.
    PaddingOrCipherError,
    /// The recovered bytes are not UTF-8.
    InvalidText,
}

impl EncodeError {
    /// The words that `message` gives for this failure.
    pub open spec fn message_text(self) -> Seq<char> {
        "Encryption key must be 32 bytes."@
    }

    /// Says in words what went wrong.
    pub fn message(&self) -> (words: String)
        ensures
            words@ == self.message_text(),
    {
        "Encryption key must be 32 bytes.".to_owned()
    }
}

impl DecodeError {
    /// The words that `message` gives for this failure.
    pub open spec fn message_text(self) -> Seq<char> {
        match self {
            DecodeError::InvalidKeyLength => "Decryption key must be 32 bytes."@,
            DecodeError::BadEncoding => "Stored record is not valid base64."@,
            DecodeError::TooShort => "Ciphertext too short."@,
            DecodeError::PaddingOrCipherError => "Decryption error: UnpadError"@,
            DecodeError::InvalidText => "Decrypted password is not valid UTF-8."@,
        }
    }

    /// Says in words what went wrong.
    pub fn message(&self) -> (words: String)
        ensures
            words@ == self.message_text(),
    {
        match self {
            DecodeError::InvalidKeyLength => "Decryption key must be 32 bytes.".to_owned(),
            DecodeError::BadEncoding => "Stored record is not valid base64.".to_owned(),
            DecodeError::TooShort => "Ciphertext too short.".to_owned(),
            DecodeError::PaddingOrCipherError => "Decryption error: UnpadError".to_owned(),
            DecodeError::InvalidText => "Decrypted password is not valid UTF-8.".to_owned(),
        }
    }
}

} // verus!
