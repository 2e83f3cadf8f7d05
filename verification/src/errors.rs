//! Failure taxonomy of the vault.

use vstd::prelude::*;

verus! {

/// Every way a vault operation can fail.
///
/// Cryptographic failures (`MalformedEnvelope`, `AuthenticationFailure`) are
/// terminal for the attempt: they require a corrected master password or a
/// restored file, never an automatic retry.
#[derive(Clone, Copy, Debug, PartialEq, Eq, Structural)]
pub enum VaultError {
    /// The encoded envelope is not base64, or decodes to fewer bytes than a
    /// salt and a nonce occupy.
    MalformedEnvelope,
    /// The authentication tag did not verify: wrong master password or a
    /// corrupted ciphertext. The AEAD gives no finer diagnosis.
    AuthenticationFailure,
    /// The decrypted bytes are not valid text; does not occur for envelopes
    /// produced by sealing text.
    EncodingFailure,
    /// The persistence layer failed; the logical mutation may still have been
    /// applied in memory.
    StoreIOFailure,
    /// No entry with the requested id exists.
    NotFound,
}

} // verus!
