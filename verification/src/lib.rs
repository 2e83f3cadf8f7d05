//! A local credential vault: master-password-based key derivation,
//! per-record authenticated encryption, and the CRUD lifecycle of
//! credential entries.

pub mod crypto;
pub mod envelope;
pub mod errors;
pub mod passwordmanager;
pub mod session;
