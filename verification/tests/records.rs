use base64::engine::general_purpose::STANDARD;
use base64::Engine;
use cipher::block_padding::Pkcs7;
use cipher::{BlockEncryptMut, KeyIvInit};
use password_locker::crypto::{
    decrypt_password, encrypt_password, encrypt_with_iv, fits_record, join_record, open_record,
    split_record, text_of,
};
use password_locker::error::{DecodeError, EncodeError};

const KEY: &[u8; 32] = b"AAAAAAAAAAAAAAAAAAAAAAAAAAAAAAAA";
const IV: [u8; 16] = [0, 1, 2, 3, 4, 5, 6, 7, 8, 9, 10, 11, 12, 13, 14, 15];

#[test]
fn round_trip_recovers_the_password() {
    let passwords = [
        "",
        "hunter2",
        "0123456789abcdef",
        "correct horse battery staple",
        "pässwörd ✓",
        "with: separator and\nline break",
    ];
    for password in passwords {
        let sealed = encrypt_password(KEY, password).unwrap();
        assert_eq!(decrypt_password(KEY, &sealed), Ok(password.to_string()));
    }
}

#[test]
fn round_trip_under_every_byte_of_key() {
    for fill in [0u8, 1, 0x41, 0x7f, 0x80, 0xff] {
        let key = [fill; 32];
        let sealed = encrypt_password(&key, "maple syrup").unwrap();
        assert_eq!(decrypt_password(&key, &sealed), Ok("maple syrup".to_string()));
    }
}

#[test]
fn fresh_iv_makes_two_records_differ() {
    let first = encrypt_password(KEY, "hunter2").unwrap();
    let second = encrypt_password(KEY, "hunter2").unwrap();
    assert_ne!(first, second);
    assert_ne!(STANDARD.decode(&first).unwrap()[..16], STANDARD.decode(&second).unwrap()[..16]);
    assert_eq!(decrypt_password(KEY, &first), Ok("hunter2".to_string()));
    assert_eq!(decrypt_password(KEY, &second), Ok("hunter2".to_string()));
}

#[test]
fn distinct_ivs_give_distinct_records() {
    let first = encrypt_with_iv(KEY, &IV, "hunter2").unwrap();
    let mut other_iv = IV;
    other_iv[15] ^= 0x01;
    let second = encrypt_with_iv(KEY, &other_iv, "hunter2").unwrap();
    assert_ne!(first, second);
    assert_eq!(first, encrypt_with_iv(KEY, &IV, "hunter2").unwrap());
    assert_eq!(decrypt_password(KEY, &second), Ok("hunter2".to_string()));
}

#[test]
fn fresh_iv_is_not_left_at_zero() {
    let sealed = encrypt_password(KEY, "hunter2").unwrap();
    let record = STANDARD.decode(&sealed).unwrap();
    assert_ne!(record[..16], [0u8; 16]);
}

#[test]
fn key_of_wrong_length_is_refused() {
    for len in [0usize, 1, 16, 24, 31, 33, 64] {
        let key = vec![0x41u8; len];
        assert_eq!(encrypt_password(&key, "hunter2"), Err(EncodeError::InvalidKeyLength));
        assert_eq!(encrypt_with_iv(&key, &IV, "hunter2"), Err(EncodeError::InvalidKeyLength));
    }
}

#[test]
fn decrypt_refuses_a_key_of_wrong_length() {
    let sealed = encrypt_with_iv(KEY, &IV, "hunter2").unwrap();
    for len in [0usize, 1, 16, 24, 31, 33, 64] {
        let key = vec![0x41u8; len];
        assert_eq!(decrypt_password(&key, &sealed), Err(DecodeError::InvalidKeyLength));
        assert_eq!(decrypt_password(&key, "not-valid-base64!!"), Err(DecodeError::InvalidKeyLength));
        assert_eq!(decrypt_password(&key, ""), Err(DecodeError::InvalidKeyLength));
        assert_eq!(open_record(&key, &[]), Err(DecodeError::InvalidKeyLength));
        assert_eq!(open_record(&key, &[0x5au8; 32]), Err(DecodeError::InvalidKeyLength));
    }
}

#[test]
fn record_decodes_to_iv_and_whole_blocks() {
    for (bytes, decoded) in [(0usize, 32usize), (1, 32), (15, 32), (16, 48), (17, 48), (32, 64)] {
        let password = "x".repeat(bytes);
        let sealed = encrypt_password(KEY, &password).unwrap();
        let record = STANDARD.decode(&sealed).unwrap();
        assert_eq!(record.len(), decoded);
        assert_eq!(record.len(), 16 + 16 * (bytes / 16 + 1));
        assert_eq!(sealed.len(), 4 * ((record.len() + 2) / 3));
    }
}

#[test]
fn padding_signs_fill_the_last_group() {
    for (bytes, signs) in [(0usize, 1usize), (15, 1), (16, 0), (31, 0), (32, 2), (47, 2), (48, 1)] {
        let sealed = encrypt_password(KEY, &"x".repeat(bytes)).unwrap();
        let body = sealed.trim_end_matches('=');
        assert_eq!(sealed.len() - body.len(), signs, "{} bytes", bytes);
        assert!(body.chars().all(|c| c.is_ascii_alphanumeric() || c == '+' || c == '/'));
    }
    let whole = encrypt_with_iv(KEY, &IV, "0123456789abcdef").unwrap();
    assert_eq!(whole.len(), 64);
    assert!(!whole.contains('='));
}

#[test]
fn changed_ciphertext_never_opens_to_the_same_password() {
    for password in ["hunter2", "0123456789abcdef", "correct horse battery staple"] {
        let sealed = encrypt_with_iv(KEY, &IV, password).unwrap();
        let record = STANDARD.decode(&sealed).unwrap();
        for at in 16..record.len() {
            for flip in [0x01u8, 0x80, 0xff] {
                let mut damaged = record.clone();
                damaged[at] ^= flip;
                let outcome = decrypt_password(KEY, &STANDARD.encode(&damaged));
                assert_ne!(outcome, Ok(password.to_string()));
                assert_ne!(outcome, Err(DecodeError::BadEncoding));
                assert_ne!(outcome, Err(DecodeError::TooShort));
                assert_ne!(outcome, Err(DecodeError::InvalidKeyLength));
            }
        }
    }
}

#[test]
fn opened_record_encrypts_back_to_itself() {
    let record = STANDARD.decode("AAECAwQFBgcICQoLDA0OD8pTryOzjReprVFO8U/UnOg=").unwrap();
    let password = open_record(KEY, &record).unwrap();
    let mut iv = [0u8; 16];
    iv.copy_from_slice(&record[..16]);
    assert_eq!(encrypt_with_iv(KEY, &iv, &password), Ok(STANDARD.encode(&record)));
}

#[test]
fn tampered_ciphertext_fails_on_padding() {
    let sealed = encrypt_with_iv(KEY, &IV, "hunter2").unwrap();
    let record = STANDARD.decode(&sealed).unwrap();
    for at in 16..record.len() {
        let mut damaged = record.clone();
        damaged[at] ^= 0x01;
        let outcome = decrypt_password(KEY, &STANDARD.encode(&damaged));
        assert_eq!(outcome, Err(DecodeError::PaddingOrCipherError));
    }
}

#[test]
fn tampered_first_block_fails_on_text() {
    let sealed = encrypt_with_iv(KEY, &IV, "correct horse battery staple").unwrap();
    let mut record = STANDARD.decode(&sealed).unwrap();
    record[16] ^= 0x80;
    let outcome = decrypt_password(KEY, &STANDARD.encode(&record));
    assert_eq!(outcome, Err(DecodeError::InvalidText));
}

#[test]
fn tampered_iv_goes_unnoticed() {
    let sealed = encrypt_with_iv(KEY, &IV, "hunter2").unwrap();
    let mut record = STANDARD.decode(&sealed).unwrap();
    record[0] ^= 0x01;
    let outcome = decrypt_password(KEY, &STANDARD.encode(&record));
    assert_eq!(outcome, Ok("iunter2".to_string()));
}

#[test]
fn wrong_key_is_rejected() {
    let sealed = encrypt_with_iv(KEY, &IV, "hunter2").unwrap();
    let other = [0x42u8; 32];
    assert_eq!(decrypt_password(&other, &sealed), Err(DecodeError::PaddingOrCipherError));
}

#[test]
fn concrete_scenario_hunter2() {
    let sealed = encrypt_password(KEY, "hunter2").unwrap();
    assert!(sealed.len() >= 44);
    assert_eq!(sealed.len(), 44);
    assert_eq!(decrypt_password(KEY, &sealed), Ok("hunter2".to_string()));
}

#[test]
fn malformed_input_is_bad_encoding() {
    assert_eq!(decrypt_password(KEY, "not-valid-base64!!"), Err(DecodeError::BadEncoding));
}

#[test]
fn bad_encoding_of_every_kind() {
    for text in ["A", "AA", "AAA", "AA=A", "QR==", "AAAA\n", " AAAA", "AAAA====", "=", "AA-_"] {
        assert_eq!(decrypt_password(KEY, text), Err(DecodeError::BadEncoding), "{:?}", text);
    }
}

#[test]
fn truncated_input_is_too_short() {
    let ten = [7u8, 3, 250, 9, 1, 0, 44, 128, 5, 6];
    assert_eq!(decrypt_password(KEY, &STANDARD.encode(ten)), Err(DecodeError::TooShort));
    assert_eq!(decrypt_password(KEY, "AAECAwQFBgcICQ=="), Err(DecodeError::TooShort));
}

#[test]
fn empty_and_fifteen_bytes_are_too_short() {
    assert_eq!(decrypt_password(KEY, ""), Err(DecodeError::TooShort));
    assert_eq!(decrypt_password(KEY, &STANDARD.encode([0u8; 15])), Err(DecodeError::TooShort));
    assert_eq!(open_record(KEY, &[0u8; 15]), Err(DecodeError::TooShort));
    assert_eq!(open_record(KEY, &[]), Err(DecodeError::TooShort));
}

#[test]
fn record_without_whole_blocks_fails_on_padding() {
    assert_eq!(decrypt_password(KEY, "AAECAwQFBgcICQoLDA0ODw=="), Err(DecodeError::PaddingOrCipherError));
    assert_eq!(decrypt_password(KEY, "AAECAwQFBgcICQoLDA0OD3g="), Err(DecodeError::PaddingOrCipherError));
    for len in [16usize, 17, 31, 33, 47] {
        let record = vec![0x5au8; len];
        assert_eq!(open_record(KEY, &record), Err(DecodeError::PaddingOrCipherError));
    }
}

#[test]
fn invalid_text_is_reported() {
    let cipher = cbc::Encryptor::<aes::Aes256>::new(KEY.into(), (&IV).into());
    let ciphertext = cipher.encrypt_padded_vec_mut::<Pkcs7>(&[0xff, 0xfe, 0xfd]);
    let mut record = IV.to_vec();
    record.extend_from_slice(&ciphertext);
    assert_eq!(open_record(KEY, &record), Err(DecodeError::InvalidText));
    assert_eq!(decrypt_password(KEY, &STANDARD.encode(&record)), Err(DecodeError::InvalidText));
    assert_eq!(
        decrypt_password(KEY, "AAECAwQFBgcICQoLDA0ODz9yaENbsOt4JfPavfr5XB4="),
        Err(DecodeError::InvalidText)
    );
}

#[test]
fn known_records() {
    let cases = [
        ("hunter2", "AAECAwQFBgcICQoLDA0OD8pTryOzjReprVFO8U/UnOg="),
        ("", "AAECAwQFBgcICQoLDA0OD7YlvQ4d28A0q57h207o4lI="),
        (
            "0123456789abcdef",
            "AAECAwQFBgcICQoLDA0OD81IAgX7MvFb5IFOvht9bOw67jv5dEXs+Ey4CkQImh/G",
        ),
        ("pässwörd ✓", "AAECAwQFBgcICQoLDA0OD3mpOdadleVEd6y2ReNNzjo="),
        (
            "correct horse battery staple",
            "AAECAwQFBgcICQoLDA0OD/aE3RKzKyjSLCHkgUejTR15iADzVB1w1UDbnkk6H/Pf",
        ),
    ];
    for (password, record) in cases {
        assert_eq!(encrypt_with_iv(KEY, &IV, password), Ok(record.to_string()));
        assert_eq!(decrypt_password(KEY, record), Ok(password.to_string()));
    }
}

#[test]
fn known_record_under_another_key_and_iv() {
    let key = b"ThisIs32ByteLongPassphraseForAES";
    let iv = [0xffu8; 16];
    let record = "/////////////////////7XG8EqAC2ko9oDaBK77ZJI=";
    assert_eq!(encrypt_with_iv(key, &iv, "maple syrup"), Ok(record.to_string()));
    assert_eq!(decrypt_password(key, record), Ok("maple syrup".to_string()));
}

#[test]
fn record_is_iv_then_ciphertext() {
    let sealed = encrypt_with_iv(KEY, &IV, "hunter2").unwrap();
    let record = STANDARD.decode(&sealed).unwrap();
    assert_eq!(record[..16], IV);
    let cipher = cbc::Encryptor::<aes::Aes256>::new(KEY.into(), (&IV).into());
    assert_eq!(record[16..], cipher.encrypt_padded_vec_mut::<Pkcs7>(b"hunter2"));
    assert_eq!(
        record[16..],
        [0xca, 0x53, 0xaf, 0x23, 0xb3, 0x8d, 0x17, 0xa9, 0xad, 0x51, 0x4e, 0xf1, 0x4f, 0xd4, 0x9c, 0xe8]
    );
}

#[test]
fn record_length_follows_the_password() {
    for (bytes, chars) in [(0usize, 44usize), (1, 44), (15, 44), (16, 64), (31, 64), (32, 88), (100, 172)] {
        let password = "x".repeat(bytes);
        let sealed = encrypt_password(KEY, &password).unwrap();
        assert_eq!(sealed.len(), chars);
        assert_eq!(sealed.len(), (16 + (bytes / 16 + 1) * 16 + 2) / 3 * 4);
        assert_eq!(decrypt_password(KEY, &sealed), Ok(password));
    }
}

#[test]
fn record_is_printable() {
    let sealed = encrypt_password(KEY, "correct horse battery staple").unwrap();
    assert!(sealed.chars().all(|c| c.is_ascii_alphanumeric() || c == '+' || c == '/' || c == '='));
}

#[test]
fn join_puts_the_iv_first() {
    assert_eq!(join_record(&IV, &[]), IV.to_vec());
    let joined = join_record(&IV, &[200, 201, 202]);
    assert_eq!(joined.len(), 19);
    assert_eq!(joined[..16], IV);
    assert_eq!(joined[16..], [200, 201, 202]);
}

#[test]
fn split_takes_sixteen_bytes() {
    assert_eq!(split_record(&[]), None);
    assert_eq!(split_record(&[1u8; 15]), None);
    let exact = [9u8; 16];
    assert_eq!(split_record(&exact), Some((&exact[..], &[][..])));
    let record: Vec<u8> = (0u8..40).collect();
    let (iv, ciphertext) = split_record(&record).unwrap();
    assert_eq!(iv, &record[..16]);
    assert_eq!(ciphertext, &record[16..]);
}

#[test]
fn split_undoes_join() {
    let joined = join_record(&IV, &[1, 2, 3, 4]);
    assert_eq!(split_record(&joined), Some((&IV[..], &[1u8, 2, 3, 4][..])));
}

#[test]
fn text_of_reads_utf8() {
    assert_eq!(text_of(Vec::new()), Ok(String::new()));
    assert_eq!(text_of(b"hunter2".to_vec()), Ok("hunter2".to_string()));
    assert_eq!(text_of("pässwörd ✓".as_bytes().to_vec()), Ok("pässwörd ✓".to_string()));
    assert_eq!(text_of(vec![0xff]), Err(DecodeError::InvalidText));
    assert_eq!(text_of(vec![0x68, 0xc3]), Err(DecodeError::InvalidText));
    assert_eq!(text_of(vec![0xed, 0xa0, 0x80]), Err(DecodeError::InvalidText));
    assert_eq!(text_of(vec![0xc0, 0x80]), Err(DecodeError::InvalidText));
}

#[test]
fn open_record_reads_a_known_record() {
    let record = STANDARD.decode("AAECAwQFBgcICQoLDA0OD8pTryOzjReprVFO8U/UnOg=").unwrap();
    assert_eq!(open_record(KEY, &record), Ok("hunter2".to_string()));
}

#[test]
fn ordinary_passwords_fit() {
    assert!(fits_record(""));
    assert!(fits_record("hunter2"));
    assert!(fits_record(&"x".repeat(1 << 20)));
}

#[test]
fn errors_say_what_went_wrong() {
    assert_eq!(EncodeError::InvalidKeyLength.message(), "Encryption key must be 32 bytes.");
    assert_eq!(DecodeError::InvalidKeyLength.message(), "Decryption key must be 32 bytes.");
    assert_eq!(DecodeError::BadEncoding.message(), "Stored record is not valid base64.");
    assert_eq!(DecodeError::TooShort.message(), "Ciphertext too short.");
    assert_eq!(DecodeError::PaddingOrCipherError.message(), "Decryption error: UnpadError");
    assert_eq!(DecodeError::InvalidText.message(), "Decrypted password is not valid UTF-8.");
}
