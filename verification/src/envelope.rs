//! The authenticated-encryption envelope.
//!
//! An encoded envelope is the base64 text of `salt(16) ‖ nonce(12) ‖
//! ciphertext‖tag`, sealed under a key derived freshly from the master
//! password and the embedded salt. The envelope is self-describing: salt and
//! nonce travel with the ciphertext, so the master password is the only
//! secret needed to open it.

use vstd::prelude::*;
use vstd::string::StringSliceAdditionalSpecFns;
use vstd::utf8::{encode_utf8, valid_utf8};

use crate::crypto::{
    aead_decrypt, aead_encrypt, b64_decode, b64_encode, b64_of, bytes_to_string,
    derive_key_from_password, gcm_seal, pbkdf2_key, random_bytes, MAX_PLAINTEXT_BYTES,
};
use crate::errors::VaultError;

verus! {

/// The wire bytes of one envelope: `salt ‖ nonce ‖ ciphertext‖tag`, where the
/// ciphertext is the AES-256-GCM sealing of `plain` under the key that PBKDF2
/// derives from `password` and `salt`.
pub open spec fn seal_bytes(password: Seq<u8>, plain: Seq<u8>, salt: Seq<u8>, nonce: Seq<u8>) -> Seq<u8> {
    salt + nonce + gcm_seal(pbkdf2_key(password, salt), nonce, plain)
}

/// The encoded envelope text that sealing `plain` under `password` with a
/// given salt and nonce produces.
pub open spec fn seal_encoding(password: Seq<u8>, plain: Seq<u8>, salt: Seq<u8>, nonce: Seq<u8>) -> Seq<char> {
    b64_of(seal_bytes(password, plain, salt, nonce))
}

/// `encoded` is a genuine envelope of `plain` under `password`: for some
/// 16-byte salt and 12-byte nonce it is exactly what sealing produces.
pub open spec fn opens_to(password: Seq<u8>, encoded: Seq<char>, plain: Seq<u8>) -> bool {
    exists|salt: Seq<u8>, nonce: Seq<u8>|
        salt.len() == 16 && nonce.len() == 12 && encoded == #[trigger] seal_encoding(
            password,
            plain,
            salt,
            nonce,
        )
}

/// Every envelope opens, under the password that sealed it, to the plaintext
/// it was sealed over: sealing with any 16-byte salt and 12-byte nonce yields
/// an encoding that [`opens_to`] that plaintext, and [`decrypt`]'s contract
/// returns exactly the plaintexts related by [`opens_to`].
pub proof fn lemma_seal_round_trip(password: Seq<u8>, plain: Seq<u8>, salt: Seq<u8>, nonce: Seq<u8>)
    requires
        salt.len() == 16,
        nonce.len() == 12,
    ensures
        opens_to(password, seal_encoding(password, plain, salt, nonce), plain),
{
}

/// Seals `data` under `password`: draws a fresh random 16-byte salt and
/// 12-byte nonce, derives the key, encrypts with AES-256-GCM, and returns the
/// base64 text of `salt ‖ nonce ‖ ciphertext‖tag`.
pub fn encrypt(password: &str, data: &str) -> (r: Result<String, VaultError>)
    requires
        data.spec_bytes().len() <= MAX_PLAINTEXT_BYTES,
    ensures
        r is Ok,
        r matches Ok(e) ==> opens_to(password.spec_bytes(), e@, data.spec_bytes()),
{
    let salt = random_bytes(16);
    let mut nonce = random_bytes(12);
    let key = derive_key_from_password(password, salt.as_slice());
    let mut ct = aead_encrypt(&key, nonce.as_slice(), data.as_bytes());
    let ghost salt_seq = salt@;
    let ghost nonce_seq = nonce@;
    let mut raw = salt;
    raw.append(&mut nonce);
    raw.append(&mut ct);
    proof {
        assert(raw@ == seal_bytes(password.spec_bytes(), data.spec_bytes(), salt_seq, nonce_seq));
    }
    let encoded = b64_encode(raw.as_slice());
    proof {
        assert(encoded@ == seal_encoding(password.spec_bytes(), data.spec_bytes(), salt_seq, nonce_seq));
    }
    Ok(encoded)
}

/// What the decoded bytes of a genuine envelope look like: if `encoded` opens
/// to `plain` and decodes to `raw`, then `raw` splits at 16 and 28 into the
/// salt, the nonce, and the sealing of `plain` under the key derived from
/// that salt.
proof fn lemma_parse_genuine(password: Seq<u8>, encoded: Seq<char>, raw: Seq<u8>, plain: Seq<u8>)
    requires
        opens_to(password, encoded, plain),
        forall|b: Seq<u8>| encoded == b64_of(b) ==> raw == b,
    ensures
        raw.len() >= 28,
        raw.subrange(28, raw.len() as int) == gcm_seal(
            pbkdf2_key(password, raw.subrange(0, 16)),
            raw.subrange(16, 28),
            plain,
        ),
{
    let (salt, nonce) = choose|salt: Seq<u8>, nonce: Seq<u8>|
        salt.len() == 16 && nonce.len() == 12 && encoded == #[trigger] seal_encoding(
            password,
            plain,
            salt,
            nonce,
        );
    let ct = gcm_seal(pbkdf2_key(password, salt), nonce, plain);
    assert(raw == salt + nonce + ct);
    assert(raw.subrange(0, 16) =~= salt);
    assert(raw.subrange(16, 28) =~= nonce);
    assert(raw.subrange(28, raw.len() as int) =~= ct);
}

/// Opens an encoded envelope: base64-decodes, splits off the 16-byte salt and
/// 12-byte nonce, re-derives the key from `password` and the salt, and
/// decrypts with tag verification.
///
/// `Ok` is returned exactly for the text of genuine envelopes of `password`
/// whose plaintext is valid text within the size limit, and then holds that
/// plaintext; corrupted or foreign ciphertext fails the tag check but for a
/// chance bounded by the tag length. `MalformedEnvelope` covers text that is
/// not canonical base64 or too short for salt and nonce;
/// `AuthenticationFailure` a failed tag check — the only signal
/// distinguishing a wrong master password from a corrupted envelope; and
/// `EncodingFailure` a decrypted plaintext that is not valid text.
pub fn decrypt(password: &str, encrypted_data: &str) -> (r: Result<String, VaultError>)
    ensures
        r matches Ok(p) ==> opens_to(password.spec_bytes(), encrypted_data@, encode_utf8(p@)),
        forall|p: Seq<u8>|
            p.len() <= MAX_PLAINTEXT_BYTES && valid_utf8(p) && #[trigger] opens_to(
                password.spec_bytes(),
                encrypted_data@,
                p,
            ) ==> (r matches Ok(q) && encode_utf8(q@) == p),
        r matches Err(e) ==> (e == VaultError::MalformedEnvelope || e
            == VaultError::AuthenticationFailure || e == VaultError::EncodingFailure),
{
    let ghost pw = password.spec_bytes();
    let ghost enc = encrypted_data@;
    let decoded = b64_decode(encrypted_data);
    if decoded.is_none() {
        proof {
            assert forall|p: Seq<u8>| !opens_to(pw, enc, p) by {
                if opens_to(pw, enc, p) {
                    let (salt, nonce) = choose|salt: Seq<u8>, nonce: Seq<u8>|
                        salt.len() == 16 && nonce.len() == 12 && enc == #[trigger] seal_encoding(
                            pw,
                            p,
                            salt,
                            nonce,
                        );
                    assert(enc == b64_of(seal_bytes(pw, p, salt, nonce)));
                }
            }
        }
        return Err(VaultError::MalformedEnvelope);
    }
    let raw = decoded.unwrap();
    proof {
        assert(forall|b: Seq<u8>| enc == b64_of(b) ==> raw@ == b);
    }
    if raw.len() < 28 {
        proof {
            assert forall|p: Seq<u8>| !opens_to(pw, enc, p) by {
                if opens_to(pw, enc, p) {
                    lemma_parse_genuine(pw, enc, raw@, p);
                }
            }
        }
        return Err(VaultError::MalformedEnvelope);
    }
    let raw_len = raw.len();
    let salt = vstd::slice::slice_subrange(raw.as_slice(), 0, 16);
    let nonce = vstd::slice::slice_subrange(raw.as_slice(), 16, 28);
    let ct = vstd::slice::slice_subrange(raw.as_slice(), 28, raw_len);
    let key = derive_key_from_password(password, salt);
    let plain_opt = aead_decrypt(&key, nonce, ct);
    if plain_opt.is_none() {
        proof {
            assert forall|p: Seq<u8>|
                !(p.len() <= MAX_PLAINTEXT_BYTES && valid_utf8(p) && opens_to(pw, enc, p)) by {
                if p.len() <= MAX_PLAINTEXT_BYTES && opens_to(pw, enc, p) {
                    lemma_parse_genuine(pw, enc, raw@, p);
                }
            }
        }
        return Err(VaultError::AuthenticationFailure);
    }
    let plain = plain_opt.unwrap();
    let ghost plain_bytes = plain@;
    proof {
        assert forall|p: Seq<u8>|
            p.len() <= MAX_PLAINTEXT_BYTES && valid_utf8(p) && opens_to(pw, enc, p) implies p
            == plain_bytes by {
            lemma_parse_genuine(pw, enc, raw@, p);
        }
    }
    let text_opt = bytes_to_string(plain);
    if text_opt.is_none() {
        proof {
            assert forall|p: Seq<u8>|
                !(p.len() <= MAX_PLAINTEXT_BYTES && valid_utf8(p) && opens_to(pw, enc, p)) by {
                if p.len() <= MAX_PLAINTEXT_BYTES && valid_utf8(p) && opens_to(pw, enc, p) {
                    assert(p == plain_bytes);
                }
            }
        }
        return Err(VaultError::EncodingFailure);
    }
    let text = text_opt.unwrap();
    proof {
        assert(raw@ =~= raw@.subrange(0, 16) + raw@.subrange(16, 28) + raw@.subrange(
            28,
            raw@.len() as int,
        ));
        assert(raw@ == seal_bytes(pw, encode_utf8(text@), salt@, nonce@));
        assert(enc == seal_encoding(pw, encode_utf8(text@), salt@, nonce@));
        assert(opens_to(pw, enc, encode_utf8(text@)));
    }
    Ok(text)
}

} // verus!
