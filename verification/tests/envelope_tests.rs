//! Tests of the envelope codec: round trips, tamper detection, wrong
//! passwords, malformed input, and the wire layout.

use passman::envelope::{decrypt, encrypt};
use passman::errors::VaultError;

const B64: base64::engine::general_purpose::GeneralPurpose =
    base64::engine::general_purpose::STANDARD;

#[test]
fn round_trip_returns_plaintext() {
    let sealed = encrypt("hunter2", "s3cr3t").unwrap();
    assert_eq!(decrypt("hunter2", &sealed).unwrap(), "s3cr3t");
}

#[test]
fn round_trip_empty_plaintext() {
    let sealed = encrypt("hunter2", "").unwrap();
    assert_eq!(decrypt("hunter2", &sealed).unwrap(), "");
}

#[test]
fn round_trip_non_ascii_plaintext() {
    let sealed = encrypt("pässwörd", "gehéim ✓").unwrap();
    assert_eq!(decrypt("pässwörd", &sealed).unwrap(), "gehéim ✓");
}

#[test]
fn wrong_password_is_authentication_failure() {
    let sealed = encrypt("correct horse", "secret").unwrap();
    assert_eq!(
        decrypt("battery staple", &sealed).unwrap_err(),
        VaultError::AuthenticationFailure
    );
}

#[test]
fn sealing_twice_differs() {
    let a = encrypt("hunter2", "same plaintext").unwrap();
    let b = encrypt("hunter2", "same plaintext").unwrap();
    assert_ne!(a, b);
}

#[test]
fn wire_layout_is_salt_nonce_ciphertext_tag() {
    let sealed = encrypt("hunter2", "abc").unwrap();
    let raw = base64::Engine::decode(&B64, &sealed).unwrap();
    assert_eq!(raw.len(), 16 + 12 + 3 + 16);
}

#[test]
fn flipping_a_ciphertext_bit_fails_authentication() {
    let sealed = encrypt("hunter2", "payload").unwrap();
    let mut raw = base64::Engine::decode(&B64, &sealed).unwrap();
    raw[28] ^= 0x01;
    let tampered = base64::Engine::encode(&B64, &raw);
    assert_eq!(
        decrypt("hunter2", &tampered).unwrap_err(),
        VaultError::AuthenticationFailure
    );
}

#[test]
fn flipping_a_tag_bit_fails_authentication() {
    let sealed = encrypt("hunter2", "payload").unwrap();
    let mut raw = base64::Engine::decode(&B64, &sealed).unwrap();
    let last = raw.len() - 1;
    raw[last] ^= 0x80;
    let tampered = base64::Engine::encode(&B64, &raw);
    assert_eq!(
        decrypt("hunter2", &tampered).unwrap_err(),
        VaultError::AuthenticationFailure
    );
}

#[test]
fn text_that_is_not_base64_is_malformed() {
    assert_eq!(
        decrypt("hunter2", "this is not base64!!!").unwrap_err(),
        VaultError::MalformedEnvelope
    );
}

#[test]
fn decoded_text_shorter_than_salt_and_nonce_is_malformed() {
    let short = base64::Engine::encode(&B64, [1u8, 2, 3]);
    assert_eq!(
        decrypt("hunter2", &short).unwrap_err(),
        VaultError::MalformedEnvelope
    );
}

// Builds an envelope directly with the underlying crates, so that the test
// fails if the library's wrappers were to hand their input back unchanged or
// disagree with the crates on the key derivation, cipher, or encoding.
fn seal_bytes_by_hand(password: &[u8], salt: [u8; 16], nonce: [u8; 12], plain: &[u8]) -> String {
    let key = pbkdf2::pbkdf2_hmac_array::<sha2::Sha256, 32>(password, &salt, 100_000);
    let cipher = <aes_gcm::Aes256Gcm as aes_gcm::KeyInit>::new_from_slice(&key).unwrap();
    let mut buffer = plain.to_vec();
    aes_gcm::AeadInPlace::encrypt_in_place(
        &cipher,
        aes_gcm::Nonce::from_slice(&nonce),
        b"",
        &mut buffer,
    )
    .unwrap();
    let mut raw = salt.to_vec();
    raw.extend_from_slice(&nonce);
    raw.extend_from_slice(&buffer);
    base64::Engine::encode(&B64, &raw)
}

#[test]
fn opens_envelope_sealed_by_the_crates_directly() {
    let sealed = seal_bytes_by_hand(b"hunter2", [7u8; 16], [9u8; 12], b"hello");
    assert_eq!(decrypt("hunter2", &sealed).unwrap(), "hello");
}

#[test]
fn plaintext_that_is_not_text_is_an_encoding_failure() {
    let sealed = seal_bytes_by_hand(b"hunter2", [7u8; 16], [9u8; 12], &[0xff, 0xfe, 0x01]);
    assert_eq!(
        decrypt("hunter2", &sealed).unwrap_err(),
        VaultError::EncodingFailure
    );
}

#[test]
fn derived_key_matches_the_kdf_and_depends_on_the_salt() {
    let salt_a = [1u8; 16];
    let salt_b = [2u8; 16];
    let key_a = passman::crypto::derive_key_from_password("abc", &salt_a);
    let key_b = passman::crypto::derive_key_from_password("abc", &salt_b);
    assert_eq!(
        key_a,
        pbkdf2::pbkdf2_hmac_array::<sha2::Sha256, 32>(b"abc", &salt_a, 100_000)
    );
    assert_ne!(key_a, key_b);
}
