//! The trusted-key registry and the envelope verification procedure.

use vstd::prelude::*;
use crate::signing::error::{SigningError, SigningResult};
use crate::signing::hash::spec_sha3_256;
use crate::signing::signature::{SignedProgram, SignedProgramHeader};

verus! {

/// Length of an Ed25519 public key in bytes.
pub const PUBLIC_KEY_LEN: usize = 32;

/// The registry holds at most this many trusted keys.
pub const MAX_TRUSTED_KEYS: usize = 16;

/// How long a signature stays fresh when the envelope carries an expiry.
pub const DEFAULT_MAX_AGE_SECS: u64 = 31536000;

/// A trusted Ed25519 public key.
#[derive(Clone, Copy, PartialEq, Eq, Debug)]
pub struct TrustedKey(pub [u8; 32]);

impl View for TrustedKey {
    type V = Seq<u8>;

    open spec fn view(&self) -> Seq<u8> {
        self.0@
    }
}

impl TrustedKey {
    /// Wraps raw public-key bytes.
    pub fn from_bytes(bytes: [u8; 32]) -> (r: Self)
        ensures
            r@ == bytes@,
    {
        TrustedKey(bytes)
    }

    /// Wraps a byte slice; fails unless it holds exactly 32 bytes.
    pub fn from_slice(slice: &[u8]) -> (r: Option<Self>)
        ensures
            slice@.len() == 32 ==> r is Some && r->Some_0@ == slice@,
            slice@.len() != 32 ==> r is None,
    {
        if slice.len() != 32 {
            return None;
        }
        let mut bytes = [0u8; 32];
        let mut i: usize = 0;
        while i < 32
            invariant
                i <= 32,
                slice@.len() == 32,
                bytes@.len() == 32,
                forall|j: int| 0 <= j < i ==> #[trigger] bytes@[j] == slice@[j],
            decreases 32 - i,
        {
            bytes[i] = slice[i];
            i = i + 1;
        }
        proof {
            assert(bytes@ =~= slice@);
        }
        Some(TrustedKey(bytes))
    }

    /// The key bytes.
    pub fn as_bytes(&self) -> (r: &[u8; 32])
        ensures
            r@ == self@,
    {
        &self.0
    }
}

/// Whether `sig` is a valid Ed25519 signature by the public key `key` over
/// `msg`. The verdict depends on the three byte strings alone.
pub uninterp spec fn ed25519_valid(key: Seq<u8>, msg: Seq<u8>, sig: Seq<u8>) -> bool;

/// Relies on `ed25519_dalek::VerifyingKey::from_bytes` and `verify_strict`:
/// signature verification is a deterministic function of the key, message and
/// signature bytes; a key that fails point decompression validates nothing.
#[verifier::external_body]
fn ed25519_verify(key: &[u8; 32], msg: &[u8], sig: &[u8; 64]) -> (r: bool)
    ensures
        r == ed25519_valid(key@, msg@, sig@),
{
    match ed25519_dalek::VerifyingKey::from_bytes(key) {
        Ok(vk) => vk.verify_strict(msg, &ed25519_dalek::Signature::from_bytes(sig)).is_ok(),
        Err(_) => false,
    }
}

/// Whether the first 8 bytes of `key` equal the signer id `id`.
pub open spec fn spec_prefix_match(key: TrustedKey, id: Seq<u8>) -> bool {
    key@.subrange(0, 8) == id
}

/// The index of the first key at or after `i` whose prefix matches `id`.
pub open spec fn spec_find_key(keys: Seq<TrustedKey>, id: Seq<u8>, i: int) -> Option<int>
    decreases keys.len() - i,
{
    if i < 0 || i >= keys.len() {
        None
    } else if spec_prefix_match(keys[i], id) {
        Some(i)
    } else {
        spec_find_key(keys, id, i + 1)
    }
}

/// The exact verdict of the verification procedure, in order: an empty
/// registry, then the recomputed body hash, then the signer-id prefix filter,
/// then the Ed25519 signature over the 32-byte hash, then expiry when the
/// has-expiry flag is set, then the capability requirement.
pub open spec fn spec_verdict(
    keys: Seq<TrustedKey>,
    max_age: u64,
    h: SignedProgramHeader,
    body: Seq<u8>,
    now: u64,
    caps_available: bool,
) -> SigningResult<()> {
    if keys.len() == 0 {
        Err(SigningError::NoTrustedKeys)
    } else if spec_sha3_256(body) != h.program_hash@ {
        Err(SigningError::HashMismatch)
    } else {
        match spec_find_key(keys, h.signer_id@, 0) {
            None => Err(SigningError::UntrustedSigner),
            Some(i) => if !ed25519_valid(keys[i]@, h.program_hash@, h.signature@) {
                Err(SigningError::InvalidSignature)
            } else if (h.flags.0 & 4) != 0 && now > h.timestamp + max_age {
                Err(SigningError::SignatureExpired)
            } else if (h.flags.0 & 1) != 0 && !caps_available {
                Err(SigningError::MissingCapabilities)
            } else {
                Ok(())
            },
        }
    }
}

/// The process-wide registry of trusted signing keys.
pub struct SignatureVerifier {
    keys: Vec<TrustedKey>,
    max_age_secs: u64,
}

impl SignatureVerifier {
    /// The registered keys.
    pub closed spec fn spec_keys(&self) -> Seq<TrustedKey> {
        self.keys@
    }

    /// The configured maximum signature age.
    pub closed spec fn spec_max_age(&self) -> u64 {
        self.max_age_secs
    }

    /// An empty registry with the default expiry policy.
    pub fn new() -> (r: Self)
        ensures
            r.spec_keys().len() == 0,
            r.spec_max_age() == DEFAULT_MAX_AGE_SECS,
    {
        SignatureVerifier { keys: Vec::new(), max_age_secs: DEFAULT_MAX_AGE_SECS }
    }

    /// Sets the maximum accepted signature age.
    pub fn set_max_age(&mut self, secs: u64)
        ensures
            final(self).spec_keys() == old(self).spec_keys(),
            final(self).spec_max_age() == secs,
    {
        self.max_age_secs = secs;
    }

    /// Registers a trusted key; fails when the registry is full.
    pub fn add_trusted_key(&mut self, key: TrustedKey) -> (r: SigningResult<()>)
        ensures
            old(self).spec_keys().len() >= MAX_TRUSTED_KEYS ==> r == Err::<(), SigningError>(
                SigningError::TooManyKeys,
            ) && *final(self) == *old(self),
            old(self).spec_keys().len() < MAX_TRUSTED_KEYS ==> r == Ok::<(), SigningError>(())
                && final(self).spec_keys() == old(self).spec_keys().push(key)
                && final(self).spec_max_age() == old(self).spec_max_age(),
    {
        if self.keys.len() >= MAX_TRUSTED_KEYS {
            return Err(SigningError::TooManyKeys);
        }
        self.keys.push(key);
        Ok(())
    }

    /// Number of registered keys.
    pub fn key_count(&self) -> (r: usize)
        ensures
            r == self.spec_keys().len(),
    {
        self.keys.len()
    }

    /// Whether the first 8 key bytes equal the signer id.
    fn prefix_matches(key: &TrustedKey, id: &[u8; 8]) -> (r: bool)
        ensures
            r == spec_prefix_match(*key, id@),
    {
        let mut i: usize = 0;
        while i < 8
            invariant
                i <= 8,
                forall|j: int| 0 <= j < i ==> key@[j] == #[trigger] id@[j],
            decreases 8 - i,
        {
            if key.0[i] != id[i] {
                proof {
                    assert(key@.subrange(0, 8)[i as int] == key@[i as int]);
                }
                return false;
            }
            i = i + 1;
        }
        proof {
            assert(key@.subrange(0, 8) =~= id@);
        }
        true
    }

    /// The first registered key whose 8-byte prefix equals `id`.
    fn find_key_index(&self, id: &[u8; 8]) -> (r: Option<usize>)
        ensures
            match r {
                Some(k) => k < self.spec_keys().len() && spec_find_key(
                    self.spec_keys(),
                    id@,
                    0,
                ) == Some(k as int),
                None => spec_find_key(self.spec_keys(), id@, 0) is None,
            },
    {
        let nkeys = self.keys.len();
        let mut i: usize = 0;
        while i < nkeys
            invariant
                i <= nkeys,
                nkeys == self.spec_keys().len(),
                spec_find_key(self.spec_keys(), id@, 0) == spec_find_key(
                    self.spec_keys(),
                    id@,
                    i as int,
                ),
            decreases nkeys - i,
        {
            if Self::prefix_matches(&self.keys[i], id) {
                return Some(i);
            }
            i = i + 1;
        }
        None
    }

    /// Runs the full verification procedure against a signed program, given
    /// the current unix time and whether the required capabilities are
    /// available. Succeeds exactly when every step of the procedure accepts.
    pub fn verify(&self, signed: &SignedProgram, now: u64, caps_available: bool) -> (r:
        SigningResult<()>)
        ensures
            r == spec_verdict(
                self.spec_keys(),
                self.spec_max_age(),
                signed.spec_header(),
                signed.spec_data(),
                now,
                caps_available,
            ),
    {
        if self.keys.len() == 0 {
            return Err(SigningError::NoTrustedKeys);
        }
        match signed.verify_hash() {
            Ok(()) => {},
            Err(_) => {
                return Err(SigningError::HashMismatch);
            },
        }
        let id = signed.signer_id();
        let ki = match self.find_key_index(id) {
            Some(k) => k,
            None => {
                return Err(SigningError::UntrustedSigner);
            },
        };
        let key = &self.keys[ki];
        let sig = signed.signature();
        let header_hash = signed.header().program_hash;
        if !ed25519_verify(&key.0, header_hash.as_bytes().as_slice(), &sig.0) {
            return Err(SigningError::InvalidSignature);
        }
        let flags = signed.flags();
        if (flags.0 & 4) != 0 {
            let ts = signed.timestamp();
            if now > self.max_age_secs && now - self.max_age_secs > ts {
                return Err(SigningError::SignatureExpired);
            }
        }
        if (flags.0 & 1) != 0 && !caps_available {
            return Err(SigningError::MissingCapabilities);
        }
        Ok(())
    }
}

} // verus!
