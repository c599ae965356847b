use ed25519_dalek::Signer;
use rkbpf::signing::hash::ProgramHash;
use rkbpf::signing::registry::{SignatureVerifier, TrustedKey};
use rkbpf::signing::signature::{Signature, SignedProgram, SignedProgramHeader};
use rkbpf::signing::error::SigningError;
use rkbpf::signing::{SignatureFlags, SIGNING_VERSION};

#[test]
fn empty_hash() {
    // SHA3-256("") = a7ffc6f8bf1ed76651c14756a061d662f580ff4de43b49fa82d80a4b80f8434a
    let hash = ProgramHash::compute(b"");
    let expected: [u8; 32] = [
        0xa7, 0xff, 0xc6, 0xf8, 0xbf, 0x1e, 0xd7, 0x66, 0x51, 0xc1, 0x47, 0x56, 0xa0, 0x61, 0xd6,
        0x62, 0xf5, 0x80, 0xff, 0x4d, 0xe4, 0x3b, 0x49, 0xfa, 0x82, 0xd8, 0x0a, 0x4b, 0x80, 0xf8,
        0x43, 0x4a,
    ];
    assert_eq!(hash.as_bytes(), &expected);
}

#[test]
fn known_hash() {
    // SHA3-256("abc") = 3a985da74fe225b2045c172d6bd390bd855f086e3e9d525b46bfe24511431532
    let hash = ProgramHash::compute(b"abc");
    let expected: [u8; 32] = [
        0x3a, 0x98, 0x5d, 0xa7, 0x4f, 0xe2, 0x25, 0xb2, 0x04, 0x5c, 0x17, 0x2d, 0x6b, 0xd3, 0x90,
        0xbd, 0x85, 0x5f, 0x08, 0x6e, 0x3e, 0x9d, 0x52, 0x5b, 0x46, 0xbf, 0xe2, 0x45, 0x11, 0x43,
        0x15, 0x32,
    ];
    assert_eq!(hash.as_bytes(), &expected);
}

#[test]
fn multiblock_hash() {
    // an input longer than one 136-byte rate block
    let data = [0x61u8; 200];
    let hash = ProgramHash::compute(&data);
    // SHA3-256 of 200 'a' bytes
    let expected_hex = "cce34485baf2bf2aca99b94833892a4f52896d3d153f7b840cc4f9fe695f1387";
    let hex: String = hash.as_bytes().iter().map(|b| format!("{:02x}", b)).collect();
    assert_eq!(hex, expected_hex);
}

#[test]
fn hash_matches() {
    let hash1 = ProgramHash::compute(b"test data");
    let hash2 = ProgramHash::compute(b"test data");
    let hash3 = ProgramHash::compute(b"other data");

    assert!(hash1.matches(&hash2));
    assert!(!hash1.matches(&hash3));
}

#[test]
fn from_slice() {
    let bytes = [0u8; 32];
    assert!(ProgramHash::from_slice(&bytes).is_some());
    assert!(ProgramHash::from_slice(&bytes[..31]).is_none());
    assert!(ProgramHash::from_slice(&[]).is_none());
}

#[test]
fn signature_flags() {
    let flags = SignatureFlags::from_byte(0b00000011);
    assert!(flags.contains(SignatureFlags::requires_cap()));
    assert!(flags.contains(SignatureFlags::debug_build()));
    assert!(!flags.contains(SignatureFlags::has_expiry()));
}

#[test]
fn magic_and_version() {
    let header = test_header(ProgramHash::compute(b""));
    let bytes = header.to_bytes();
    assert_eq!(&bytes[0..4], b"RBPF");
    assert_eq!(SIGNING_VERSION, 1);
}

fn test_header(hash: ProgramHash) -> SignedProgramHeader {
    SignedProgramHeader {
        version: SIGNING_VERSION,
        flags: SignatureFlags::none(),
        program_hash: hash,
        signature: Signature::from_bytes([0u8; 64]),
        signer_id: [1, 2, 3, 4, 5, 6, 7, 8],
        timestamp: 1700000000,
    }
}

fn make_test_signed_program() -> Vec<u8> {
    let program_data = b"test program bytecode";
    let hash = ProgramHash::compute(program_data);
    let header = test_header(hash);
    let mut data = header.to_bytes();
    data.extend_from_slice(program_data);
    data
}

#[test]
fn parse_signed_program() {
    let data = make_test_signed_program();
    let signed = SignedProgram::from_bytes(&data).unwrap();

    assert_eq!(signed.header().version, SIGNING_VERSION);
    assert_eq!(signed.program_data().as_slice(), b"test program bytecode");
}

#[test]
fn verify_hash_success() {
    let data = make_test_signed_program();
    let signed = SignedProgram::from_bytes(&data).unwrap();
    assert!(signed.verify_hash().is_ok());
}

#[test]
fn verify_hash_failure() {
    let mut data = make_test_signed_program();
    if let Some(last) = data.last_mut() {
        *last ^= 0xFF;
    }

    let signed = SignedProgram::from_bytes(&data).unwrap();
    assert_eq!(signed.verify_hash(), Err(SigningError::HashMismatch));
}

#[test]
fn header_roundtrip() {
    let hash = ProgramHash::compute(b"test");
    let header = SignedProgramHeader {
        version: SIGNING_VERSION,
        flags: SignatureFlags::debug_build(),
        program_hash: hash,
        signature: Signature::from_bytes([42u8; 64]),
        signer_id: [1, 2, 3, 4, 5, 6, 7, 8],
        timestamp: 1234567890,
    };

    let bytes = header.to_bytes();
    let parsed = SignedProgramHeader::from_bytes(&bytes).unwrap();

    assert_eq!(parsed.version, header.version);
    assert_eq!(parsed.flags, header.flags);
    assert!(parsed.program_hash.matches(&header.program_hash));
    assert_eq!(parsed.signer_id, header.signer_id);
    assert_eq!(parsed.timestamp, header.timestamp);
}

#[test]
fn invalid_magic() {
    let mut data = make_test_signed_program();
    data[0] = b'X';

    assert_eq!(
        SignedProgram::from_bytes(&data).unwrap_err(),
        SigningError::InvalidMagic
    );
}

#[test]
fn unsupported_version() {
    let mut data = make_test_signed_program();
    data[4] = 255;

    assert_eq!(
        SignedProgram::from_bytes(&data).unwrap_err(),
        SigningError::UnsupportedVersion(255)
    );
}

#[test]
fn data_too_short() {
    let data = [0u8; 10];
    assert_eq!(
        SignedProgram::from_bytes(&data).unwrap_err(),
        SigningError::DataTooShort { expected: 120, actual: 10 }
    );
}

fn signed_envelope(body: &[u8], key: &ed25519_dalek::SigningKey, flags: SignatureFlags) -> Vec<u8> {
    let hash = ProgramHash::compute(body);
    let sig = key.sign(hash.as_bytes());
    let vk = key.verifying_key();
    let mut signer_id = [0u8; 8];
    signer_id.copy_from_slice(&vk.to_bytes()[0..8]);
    let header = SignedProgramHeader {
        version: SIGNING_VERSION,
        flags,
        program_hash: hash,
        signature: Signature::from_bytes(sig.to_bytes()),
        signer_id,
        timestamp: 1700000000,
    };
    let mut data = header.to_bytes();
    data.extend_from_slice(body);
    data
}

#[test]
fn envelope_accept() {
    let key = ed25519_dalek::SigningKey::from_bytes(&[7u8; 32]);
    let data = signed_envelope(b"test program bytecode", &key, SignatureFlags::none());

    let signed = SignedProgram::from_bytes(&data).unwrap();
    assert!(signed.verify_hash().is_ok());

    let mut reg = SignatureVerifier::new();
    reg.add_trusted_key(TrustedKey::from_bytes(key.verifying_key().to_bytes()))
        .unwrap();
    assert!(reg.verify(&signed, 1700000001, false).is_ok());
}

#[test]
fn envelope_tamper_detect() {
    let key = ed25519_dalek::SigningKey::from_bytes(&[7u8; 32]);
    let mut data = signed_envelope(b"test program bytecode", &key, SignatureFlags::none());
    let last = data.len() - 1;
    data[last] ^= 0x01;

    let signed = SignedProgram::from_bytes(&data).unwrap();
    let mut reg = SignatureVerifier::new();
    reg.add_trusted_key(TrustedKey::from_bytes(key.verifying_key().to_bytes()))
        .unwrap();
    assert_eq!(reg.verify(&signed, 1700000001, false), Err(SigningError::HashMismatch));
}

#[test]
fn untrusted_signer_rejected() {
    let key = ed25519_dalek::SigningKey::from_bytes(&[7u8; 32]);
    let other = ed25519_dalek::SigningKey::from_bytes(&[9u8; 32]);
    let data = signed_envelope(b"test program bytecode", &key, SignatureFlags::none());

    let signed = SignedProgram::from_bytes(&data).unwrap();
    let mut reg = SignatureVerifier::new();
    reg.add_trusted_key(TrustedKey::from_bytes(other.verifying_key().to_bytes()))
        .unwrap();
    assert_eq!(reg.verify(&signed, 1700000001, false), Err(SigningError::UntrustedSigner));
}

#[test]
fn bad_signature_rejected() {
    let key = ed25519_dalek::SigningKey::from_bytes(&[7u8; 32]);
    let mut data = signed_envelope(b"test program bytecode", &key, SignatureFlags::none());
    // corrupt one signature byte; the hash still matches
    data[40] ^= 0x01;

    let signed = SignedProgram::from_bytes(&data).unwrap();
    let mut reg = SignatureVerifier::new();
    reg.add_trusted_key(TrustedKey::from_bytes(key.verifying_key().to_bytes()))
        .unwrap();
    assert_eq!(reg.verify(&signed, 1700000001, false), Err(SigningError::InvalidSignature));
}

#[test]
fn expired_envelope_rejected() {
    let key = ed25519_dalek::SigningKey::from_bytes(&[7u8; 32]);
    let data = signed_envelope(b"test program bytecode", &key, SignatureFlags::has_expiry());

    let signed = SignedProgram::from_bytes(&data).unwrap();
    let mut reg = SignatureVerifier::new();
    reg.set_max_age(100);
    reg.add_trusted_key(TrustedKey::from_bytes(key.verifying_key().to_bytes()))
        .unwrap();
    // far past the timestamp plus the maximum age
    assert_eq!(reg.verify(&signed, 1800000000, false), Err(SigningError::SignatureExpired));
    // still fresh
    assert!(reg.verify(&signed, 1700000050, false).is_ok());
}

#[test]
fn missing_capabilities_rejected() {
    let key = ed25519_dalek::SigningKey::from_bytes(&[7u8; 32]);
    let data = signed_envelope(b"test program bytecode", &key, SignatureFlags::requires_cap());

    let signed = SignedProgram::from_bytes(&data).unwrap();
    let mut reg = SignatureVerifier::new();
    reg.add_trusted_key(TrustedKey::from_bytes(key.verifying_key().to_bytes()))
        .unwrap();
    assert_eq!(
        reg.verify(&signed, 1700000001, false),
        Err(SigningError::MissingCapabilities)
    );
    assert!(reg.verify(&signed, 1700000001, true).is_ok());
}

#[test]
fn empty_registry_rejects() {
    let key = ed25519_dalek::SigningKey::from_bytes(&[7u8; 32]);
    let data = signed_envelope(b"test program bytecode", &key, SignatureFlags::none());
    let signed = SignedProgram::from_bytes(&data).unwrap();
    let reg = SignatureVerifier::new();
    assert_eq!(reg.verify(&signed, 1700000001, false), Err(SigningError::NoTrustedKeys));
}

#[test]
fn registry_capacity() {
    let mut reg = SignatureVerifier::new();
    for i in 0..16u8 {
        assert!(reg.add_trusted_key(TrustedKey::from_bytes([i; 32])).is_ok());
    }
    assert_eq!(
        reg.add_trusted_key(TrustedKey::from_bytes([99; 32])),
        Err(SigningError::TooManyKeys)
    );
    assert_eq!(reg.key_count(), 16);
}
