//! Signing and verification errors.

use vstd::prelude::*;

verus! {

/// Errors that can occur while parsing or verifying a signed envelope.
#[derive(Debug, Clone, Copy, PartialEq, Eq, Structural)]
pub enum SigningError {
    /// Invalid magic bytes in the envelope header.
    InvalidMagic,
    /// Unsupported envelope format version.
    UnsupportedVersion(u8),
    /// The envelope is too short.
    DataTooShort { expected: usize, actual: usize },
    /// The body hash does not match: the data was tampered with.
    HashMismatch,
    /// Signature verification failed.
    InvalidSignature,
    /// The signer is not in the trusted key registry.
    UntrustedSigner,
    /// The envelope's signature has expired.
    SignatureExpired,
    /// Invalid public key format.
    InvalidPublicKey,
    /// No trusted keys registered.
    NoTrustedKeys,
    /// The trusted key registry is full.
    TooManyKeys,
    /// The program requires capabilities that are not available.
    MissingCapabilities,
}

/// Result type for signing operations.
pub type SigningResult<T> = Result<T, SigningError>;

} // verus!
