//! Trusted boundary to the cryptographic and encoding crates.
//!
//! Each function here is an `external_body` wrapper around one call into an
//! outside crate; its contract states what that crate's source and
//! documentation show. Deterministic results that no short formula can state
//! (the PBKDF2 key, the AES-GCM ciphertext, the base64 text) are given names
//! by bodiless spec functions, and the contracts of the verified envelope
//! code speak of those names exactly.

use vstd::prelude::*;
use vstd::string::StringSliceAdditionalSpecFns;
use vstd::utf8::{encode_utf8, valid_utf8};

verus! {

/// The 32-byte key that PBKDF2-HMAC-SHA-256 with 100000 rounds derives from a
/// password and a salt. A function of its two arguments alone.
pub uninterp spec fn pbkdf2_key(password: Seq<u8>, salt: Seq<u8>) -> Seq<u8>;

/// The ciphertext-with-tag that AES-256-GCM (16-byte tag, empty associated
/// data) produces from a key, a nonce and a plaintext. A function of its
/// three arguments alone.
pub uninterp spec fn gcm_seal(key: Seq<u8>, nonce: Seq<u8>, plain: Seq<u8>) -> Seq<u8>;

/// The standard padded base64 text of a byte sequence. A function of its
/// argument alone.
pub uninterp spec fn b64_of(bytes: Seq<u8>) -> Seq<char>;

/// Largest plaintext, in bytes, that one envelope seals: far below the
/// AES-GCM per-message limit of `2^36` bytes, and small enough that every
/// derived length fits `usize` even on 32-bit machines.
pub const MAX_PLAINTEXT_BYTES: usize = 0x4000_0000;

/// Iteration count of the key derivation, fixed and large to impose a
/// deliberate cost on brute-force attempts.
pub const PBKDF2_ITERATIONS: u32 = 100_000;

/// Relies on `rand::rngs::OsRng` through `rand::RngCore::fill_bytes`: fills a
/// buffer from the operating system's randomness source. Nothing is promised
/// of the bytes beyond their count.
#[verifier::external_body]
pub(crate) fn random_bytes(n: usize) -> (r: Vec<u8>)
    ensures
        r@.len() == n,
{
    let mut buf = vec![0u8; n];
    rand::RngCore::fill_bytes(&mut rand::rngs::OsRng, &mut buf);
    buf
}

/// Relies on `pbkdf2::pbkdf2_hmac_array` with `sha2::Sha256`: the derived key
/// is a function of the password bytes and the salt alone, here named
/// [`pbkdf2_key`]. Deterministic, so decryption can re-derive the identical
/// key from the salt stored alongside the ciphertext.
#[verifier::external_body]
pub fn derive_key_from_password(password: &str, salt: &[u8]) -> (r: [u8; 32])
    ensures
        r@ == pbkdf2_key(password.spec_bytes(), salt@),
{
    pbkdf2::pbkdf2_hmac_array::<sha2::Sha256, 32>(password.as_bytes(), salt, PBKDF2_ITERATIONS)
}

/// Relies on `aes_gcm::Aes256Gcm` (`encrypt_in_place` of the `aead` crate,
/// 16-byte tag, empty associated data): for inputs within the length limit it
/// succeeds, the result is a function of key, nonce and plaintext alone,
/// named [`gcm_seal`], and is exactly 16 bytes longer than the plaintext.
#[verifier::external_body]
pub(crate) fn aead_encrypt(key: &[u8; 32], nonce: &[u8], plain: &[u8]) -> (r: Vec<u8>)
    requires
        nonce@.len() == 12,
        plain@.len() <= MAX_PLAINTEXT_BYTES,
    ensures
        r@ == gcm_seal(key@, nonce@, plain@),
        r@.len() == plain@.len() + 16,
{
    let cipher = <aes_gcm::Aes256Gcm as aes_gcm::KeyInit>::new_from_slice(key).unwrap();
    let mut buffer = plain.to_vec();
    aes_gcm::AeadInPlace::encrypt_in_place(&cipher, aes_gcm::Nonce::from_slice(nonce), b"", &mut buffer)
        .unwrap();
    buffer
}

/// Relies on `aes_gcm::Aes256Gcm` (`decrypt_in_place`): verification of the
/// authentication tag succeeds on a genuine ciphertext of the same key and
/// nonce and then returns its plaintext; and whatever it returns, the input
/// was the genuine ciphertext of that result. Nothing is promised of inputs
/// that are no encryption under this key and nonce: on those the tag check
/// fails but for a chance bounded by the tag length.
#[verifier::external_body]
pub(crate) fn aead_decrypt(key: &[u8; 32], nonce: &[u8], ct: &[u8]) -> (r: Option<Vec<u8>>)
    requires
        nonce@.len() == 12,
    ensures
        r matches Some(p) ==> ct@ == gcm_seal(key@, nonce@, p@),
        r is None ==> forall|p: Seq<u8>|
            p.len() <= MAX_PLAINTEXT_BYTES ==> ct@ != gcm_seal(key@, nonce@, p),
        r matches Some(q) ==> forall|p: Seq<u8>|
            p.len() <= MAX_PLAINTEXT_BYTES && ct@ == gcm_seal(key@, nonce@, p) ==> q@ == p,
{
    let cipher = <aes_gcm::Aes256Gcm as aes_gcm::KeyInit>::new_from_slice(key).unwrap();
    let mut buffer = ct.to_vec();
    match aes_gcm::AeadInPlace::decrypt_in_place(&cipher, aes_gcm::Nonce::from_slice(nonce), b"", &mut buffer) {
        Ok(()) => Some(buffer),
        Err(_) => None,
    }
}

/// Relies on `base64::engine::general_purpose::STANDARD` (`encode`): the text
/// is a function of the input bytes alone, named [`b64_of`].
#[verifier::external_body]
pub(crate) fn b64_encode(data: &[u8]) -> (r: String)
    requires
        data@.len() <= MAX_PLAINTEXT_BYTES + 64,
    ensures
        r@ == b64_of(data@),
{
    base64::Engine::encode(&base64::engine::general_purpose::STANDARD, data)
}

/// Relies on `base64::engine::general_purpose::STANDARD` (`decode`): decoding
/// the standard encoding of any byte sequence succeeds and returns that
/// sequence; and since this engine rejects non-canonical padding and trailing
/// bits, whatever it accepts is the standard encoding of its result.
#[verifier::external_body]
pub(crate) fn b64_decode(s: &str) -> (r: Option<Vec<u8>>)
    ensures
        r matches Some(v) ==> s@ == b64_of(v@),
        r is None ==> forall|b: Seq<u8>| s@ != b64_of(b),
        r matches Some(v) ==> forall|b: Seq<u8>| s@ == b64_of(b) ==> v@ == b,
{
    base64::Engine::decode(&base64::engine::general_purpose::STANDARD, s).ok()
}

/// Relies on `String::from_utf8` (std): succeeds exactly on valid UTF-8, and
/// returns the text whose UTF-8 encoding is the input.
#[verifier::external_body]
pub(crate) fn bytes_to_string(v: Vec<u8>) -> (r: Option<String>)
    ensures
        r matches Some(s) ==> v@ == encode_utf8(s@),
        valid_utf8(v@) ==> r is Some,
{
    String::from_utf8(v).ok()
}

} // verus!
