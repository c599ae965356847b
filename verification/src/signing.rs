//! Integrity and origin authentication for loaded objects: a 120-byte signed
//! envelope carrying a SHA3-256 body hash and an Ed25519 signature checked
//! against a bounded registry of trusted keys.

use vstd::prelude::*;

pub mod error;
pub mod hash;
pub mod signature;
pub mod registry;

verus! {

/// Current envelope format version.
pub const SIGNING_VERSION: u8 = 1;

/// The flag bits of the envelope header.
#[derive(Debug, Clone, Copy, PartialEq, Eq, Structural)]
pub struct SignatureFlags(pub u8);

impl SignatureFlags {
    /// No special flags.
    pub fn none() -> (r: Self)
        ensures
            r.0 == 0,
    {
        SignatureFlags(0)
    }

    /// The program requires specific capabilities.
    pub fn requires_cap() -> (r: Self)
        ensures
            r.0 == 1,
    {
        SignatureFlags(1)
    }

    /// The program is a debug or development build.
    pub fn debug_build() -> (r: Self)
        ensures
            r.0 == 2,
    {
        SignatureFlags(2)
    }

    /// The program carries an expiration time.
    pub fn has_expiry() -> (r: Self)
        ensures
            r.0 == 4,
    {
        SignatureFlags(4)
    }

    /// Builds flags from their raw byte.
    pub fn from_byte(b: u8) -> (r: Self)
        ensures
            r.0 == b,
    {
        SignatureFlags(b)
    }

    /// The raw byte of the flag set.
    pub fn as_byte(self) -> (r: u8)
        ensures
            r == self.0,
    {
        self.0
    }

    /// Whether every bit of `flag` is present.
    pub fn contains(self, flag: Self) -> (r: bool)
        ensures
            r == ((self.0 & flag.0) != 0),
    {
        (self.0 & flag.0) != 0
    }
}

} // verus!
