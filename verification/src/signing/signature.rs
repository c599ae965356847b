//! The signed-envelope header and the signed program it fronts.
//!
//! Wire layout, little-endian, 120 bytes before the body: 4-byte magic
//! `RBPF`, 1-byte version, 1-byte flags, 2 reserved bytes, the 32-byte
//! SHA3-256 body hash, the 64-byte Ed25519 signature over that hash, the
//! 8-byte signer-id prefix, and an 8-byte unix timestamp.

use vstd::prelude::*;
use crate::signing::error::{SigningError, SigningResult};
use crate::signing::hash::{spec_byte_of, spec_le64, spec_sha3_256, ProgramHash};
use crate::signing::{SignatureFlags, SIGNING_VERSION};

verus! {

/// Length of an Ed25519 signature in bytes.
pub const SIGNATURE_LEN: usize = 64;

/// Length of the signer-id prefix in bytes.
pub const SIGNER_ID_LEN: usize = 8;

/// Total header size before the program data.
pub const HEADER_SIZE: usize = 120;

/// An Ed25519 signature.
#[derive(Clone, Copy, PartialEq, Eq, Debug)]
pub struct Signature(pub [u8; 64]);

impl View for Signature {
    type V = Seq<u8>;

    open spec fn view(&self) -> Seq<u8> {
        self.0@
    }
}

impl Signature {
    /// Wraps raw signature bytes.
    pub fn from_bytes(bytes: [u8; 64]) -> (r: Self)
        ensures
            r@ == bytes@,
    {
        Signature(bytes)
    }

    /// Wraps a byte slice; fails unless it holds exactly 64 bytes.
    pub fn from_slice(slice: &[u8]) -> (r: Option<Self>)
        ensures
            slice@.len() == 64 ==> r is Some && r->Some_0@ == slice@,
            slice@.len() != 64 ==> r is None,
    {
        if slice.len() != 64 {
            return None;
        }
        let mut bytes = [0u8; 64];
        let mut i: usize = 0;
        while i < 64
            invariant
                i <= 64,
                slice@.len() == 64,
                bytes@.len() == 64,
                forall|j: int| 0 <= j < i ==> #[trigger] bytes@[j] == slice@[j],
            decreases 64 - i,
        {
            bytes[i] = slice[i];
            i = i + 1;
        }
        proof {
            assert(bytes@ =~= slice@);
        }
        Some(Signature(bytes))
    }

    /// The signature bytes.
    pub fn as_bytes(&self) -> (r: &[u8; 64])
        ensures
            r@ == self@,
    {
        &self.0
    }
}

/// The parsed envelope header.
#[derive(Debug, Clone, Copy)]
pub struct SignedProgramHeader {
    /// Format version.
    pub version: u8,
    /// Flag bits.
    pub flags: SignatureFlags,
    /// SHA3-256 hash of the program data.
    pub program_hash: ProgramHash,
    /// Ed25519 signature over the hash.
    pub signature: Signature,
    /// First 8 bytes of the signer's public key.
    pub signer_id: [u8; 8],
    /// Unix timestamp of signing.
    pub timestamp: u64,
}

/// Whether `data` starts with the envelope magic `RBPF`.
pub open spec fn spec_magic_ok(data: Seq<u8>) -> bool {
    data[0] == 0x52u8 && data[1] == 0x42u8 && data[2] == 0x50u8 && data[3] == 0x46u8
}

/// Byte `i` of the serialized header.
pub open spec fn spec_header_byte(h: SignedProgramHeader, i: int) -> u8 {
    if i == 0 {
        0x52u8
    } else if i == 1 {
        0x42u8
    } else if i == 2 {
        0x50u8
    } else if i == 3 {
        0x46u8
    } else if i == 4 {
        h.version
    } else if i == 5 {
        h.flags.0
    } else if i < 8 {
        0u8
    } else if i < 40 {
        h.program_hash@[i - 8]
    } else if i < 104 {
        h.signature@[i - 40]
    } else if i < 112 {
        h.signer_id@[i - 104]
    } else {
        spec_byte_of(h.timestamp, i - 112)
    }
}

/// The 120 serialized header bytes.
pub open spec fn spec_header_bytes(h: SignedProgramHeader) -> Seq<u8> {
    Seq::new(120, |i: int| spec_header_byte(h, i))
}

/// What a successful header parse extracts from `data`.
pub open spec fn spec_header_parsed(h: SignedProgramHeader, data: Seq<u8>) -> bool {
    &&& h.version == data[4]
    &&& h.flags.0 == data[5]
    &&& h.program_hash@ == data.subrange(8, 40)
    &&& h.signature@ == data.subrange(40, 104)
    &&& h.signer_id@ == data.subrange(104, 112)
    &&& h.timestamp == spec_le64(data, 112)
}

/// A 64-bit value equals the little-endian reading of its own bytes.
pub proof fn lemma_le64_of_bytes(x: u64, b: Seq<u8>, off: int)
    requires
        0 <= off,
        off + 8 <= b.len(),
        forall|k: int| 0 <= k < 8 ==> #[trigger] b[off + k] == spec_byte_of(x, k),
    ensures
        spec_le64(b, off) == x,
{
    let x0 = x as int;
    let x1 = x0 / 256;
    let x2 = x1 / 256;
    let x3 = x2 / 256;
    let x4 = x3 / 256;
    let x5 = x4 / 256;
    let x6 = x5 / 256;
    let x7 = x6 / 256;
    assert(b[off + 0] == spec_byte_of(x, 0) && b[off + 1] == spec_byte_of(x, 1) && b[off + 2]
        == spec_byte_of(x, 2) && b[off + 3] == spec_byte_of(x, 3) && b[off + 4] == spec_byte_of(
        x,
        4,
    ) && b[off + 5] == spec_byte_of(x, 5) && b[off + 6] == spec_byte_of(x, 6) && b[off + 7]
        == spec_byte_of(x, 7));
    assert(spec_byte_of(x, 0) == (x0 % 256) as u8);
    assert(spec_byte_of(x, 1) == ((x1 as u64) % 256) as u8 && spec_byte_of(x, 2) == ((
    x2 as u64) % 256) as u8 && spec_byte_of(x, 3) == ((x3 as u64) % 256) as u8 && spec_byte_of(
        x,
        4,
    ) == ((x4 as u64) % 256) as u8 && spec_byte_of(x, 5) == ((x5 as u64) % 256) as u8
        && spec_byte_of(x, 6) == ((x6 as u64) % 256) as u8 && spec_byte_of(x, 7) == ((
    x7 as u64) % 256) as u8) by {
        assert(spec_byte_of(x, 1) == spec_byte_of((x1 as u64), 0));
        assert(spec_byte_of(x, 2) == spec_byte_of((x1 as u64), 1) && spec_byte_of((x1 as u64), 1)
            == spec_byte_of((x2 as u64), 0));
        assert(spec_byte_of(x, 3) == spec_byte_of((x1 as u64), 2) && spec_byte_of((x1 as u64), 2)
            == spec_byte_of((x2 as u64), 1) && spec_byte_of((x2 as u64), 1) == spec_byte_of(
            (x3 as u64),
            0,
        ));
        assert(x1 == (x / 256) as u64 && x2 == ((x / 256) as u64 / 256) as u64) by {
        }
        assert(spec_byte_of(x, 4) == spec_byte_of((x4 as u64), 0) && spec_byte_of(x, 5)
            == spec_byte_of((x5 as u64), 0) && spec_byte_of(x, 6) == spec_byte_of((x6 as u64), 0)
            && spec_byte_of(x, 7) == spec_byte_of((x7 as u64), 0)) by {
            assert(spec_byte_of(x, 4) == spec_byte_of((x1 as u64), 3) && spec_byte_of(
                (x1 as u64),
                3,
            ) == spec_byte_of((x2 as u64), 2) && spec_byte_of((x2 as u64), 2) == spec_byte_of(
                (x3 as u64),
                1,
            ) && spec_byte_of((x3 as u64), 1) == spec_byte_of((x4 as u64), 0));
            assert(spec_byte_of(x, 5) == spec_byte_of((x1 as u64), 4) && spec_byte_of(
                (x1 as u64),
                4,
            ) == spec_byte_of((x2 as u64), 3) && spec_byte_of((x2 as u64), 3) == spec_byte_of(
                (x3 as u64),
                2,
            ) && spec_byte_of((x3 as u64), 2) == spec_byte_of((x4 as u64), 1) && spec_byte_of(
                (x4 as u64),
                1,
            ) == spec_byte_of((x5 as u64), 0));
            assert(spec_byte_of(x, 6) == spec_byte_of((x1 as u64), 5) && spec_byte_of(
                (x1 as u64),
                5,
            ) == spec_byte_of((x2 as u64), 4) && spec_byte_of((x2 as u64), 4) == spec_byte_of(
                (x3 as u64),
                3,
            ) && spec_byte_of((x3 as u64), 3) == spec_byte_of((x4 as u64), 2) && spec_byte_of(
                (x4 as u64),
                2,
            ) == spec_byte_of((x5 as u64), 1) && spec_byte_of((x5 as u64), 1) == spec_byte_of(
                (x6 as u64),
                0,
            ));
            assert(spec_byte_of(x, 7) == spec_byte_of((x1 as u64), 6) && spec_byte_of(
                (x1 as u64),
                6,
            ) == spec_byte_of((x2 as u64), 5) && spec_byte_of((x2 as u64), 5) == spec_byte_of(
                (x3 as u64),
                4,
            ) && spec_byte_of((x3 as u64), 4) == spec_byte_of((x4 as u64), 3) && spec_byte_of(
                (x4 as u64),
                3,
            ) == spec_byte_of((x5 as u64), 2) && spec_byte_of((x5 as u64), 2) == spec_byte_of(
                (x6 as u64),
                1,
            ) && spec_byte_of((x6 as u64), 1) == spec_byte_of((x7 as u64), 0));
        }
    }
    vstd::arithmetic::div_mod::lemma_fundamental_div_mod(x0, 256);
    vstd::arithmetic::div_mod::lemma_fundamental_div_mod(x1, 256);
    vstd::arithmetic::div_mod::lemma_fundamental_div_mod(x2, 256);
    vstd::arithmetic::div_mod::lemma_fundamental_div_mod(x3, 256);
    vstd::arithmetic::div_mod::lemma_fundamental_div_mod(x4, 256);
    vstd::arithmetic::div_mod::lemma_fundamental_div_mod(x5, 256);
    vstd::arithmetic::div_mod::lemma_fundamental_div_mod(x6, 256);
    assert(0 <= x1 < 0x100000000000000) by (nonlinear_arith)
        requires
            0 <= x0 < 0x10000000000000000,
            x1 == x0 / 256,
    ;
    assert(0 <= x2 < 0x1000000000000) by (nonlinear_arith)
        requires
            0 <= x1 < 0x100000000000000,
            x2 == x1 / 256,
    ;
    assert(0 <= x3 < 0x10000000000) by (nonlinear_arith)
        requires
            0 <= x2 < 0x1000000000000,
            x3 == x2 / 256,
    ;
    assert(0 <= x4 < 0x100000000) by (nonlinear_arith)
        requires
            0 <= x3 < 0x10000000000,
            x4 == x3 / 256,
    ;
    assert(0 <= x5 < 0x1000000) by (nonlinear_arith)
        requires
            0 <= x4 < 0x100000000,
            x5 == x4 / 256,
    ;
    assert(0 <= x6 < 0x10000) by (nonlinear_arith)
        requires
            0 <= x5 < 0x1000000,
            x6 == x5 / 256,
    ;
    assert(0 <= x7 < 0x100) by (nonlinear_arith)
        requires
            0 <= x6 < 0x10000,
            x7 == x6 / 256,
    ;

    assert(0 <= x1 && 0 <= x2 && 0 <= x3 && 0 <= x4 && 0 <= x5 && 0 <= x6) by (nonlinear_arith)
        requires
            0 <= x0,
            x1 == x0 / 256,
            x2 == x1 / 256,
            x3 == x2 / 256,
            x4 == x3 / 256,
            x5 == x4 / 256,
            x6 == x5 / 256,
    ;
}

impl SignedProgramHeader {
    /// Parses a header from the first 120 bytes of `data`, failing on short
    /// input, a wrong magic, or an unsupported version — in that order.
    pub fn from_bytes(data: &[u8]) -> (r: SigningResult<Self>)
        ensures
            data@.len() < 120 ==> r == Err::<Self, SigningError>(
                SigningError::DataTooShort { expected: 120, actual: data@.len() as usize },
            ),
            data@.len() >= 120 && !spec_magic_ok(data@) ==> r == Err::<Self, SigningError>(
                SigningError::InvalidMagic,
            ),
            data@.len() >= 120 && spec_magic_ok(data@) && data@[4] != SIGNING_VERSION ==> r
                == Err::<Self, SigningError>(SigningError::UnsupportedVersion(data@[4])),
            data@.len() >= 120 && spec_magic_ok(data@) && data@[4] == SIGNING_VERSION ==> r is Ok
                && spec_header_parsed(r->Ok_0, data@),
    {
        let dlen = data.len();
        if dlen < 120 {
            return Err(SigningError::DataTooShort { expected: 120, actual: dlen });
        }
        if !(data[0] == 0x52 && data[1] == 0x42 && data[2] == 0x50 && data[3] == 0x46) {
            return Err(SigningError::InvalidMagic);
        }
        let version = data[4];
        if version != SIGNING_VERSION {
            return Err(SigningError::UnsupportedVersion(version));
        }
        let flags = SignatureFlags::from_byte(data[5]);
        let mut hash_bytes = [0u8; 32];
        let mut i: usize = 0;
        while i < 32
            invariant
                i <= 32,
                data@.len() >= 120,
                hash_bytes@.len() == 32,
                forall|j: int| 0 <= j < i ==> #[trigger] hash_bytes@[j] == data@[8 + j],
            decreases 32 - i,
        {
            hash_bytes[i] = data[8 + i];
            i = i + 1;
        }
        let mut sig_bytes = [0u8; 64];
        let mut i2: usize = 0;
        while i2 < 64
            invariant
                i2 <= 64,
                data@.len() >= 120,
                sig_bytes@.len() == 64,
                forall|j: int| 0 <= j < i2 ==> #[trigger] sig_bytes@[j] == data@[40 + j],
            decreases 64 - i2,
        {
            sig_bytes[i2] = data[40 + i2];
            i2 = i2 + 1;
        }
        let mut signer_id = [0u8; 8];
        let mut i3: usize = 0;
        while i3 < 8
            invariant
                i3 <= 8,
                data@.len() >= 120,
                signer_id@.len() == 8,
                forall|j: int| 0 <= j < i3 ==> #[trigger] signer_id@[j] == data@[104 + j],
            decreases 8 - i3,
        {
            signer_id[i3] = data[104 + i3];
            i3 = i3 + 1;
        }
        let t0 = data[112] as u64;
        let t1 = data[113] as u64;
        let t2 = data[114] as u64;
        let t3 = data[115] as u64;
        let t4 = data[116] as u64;
        let t5 = data[117] as u64;
        let t6 = data[118] as u64;
        let t7 = data[119] as u64;
        let timestamp = t0 + 256 * (t1 + 256 * (t2 + 256 * (t3 + 256 * (t4 + 256 * (t5 + 256 * (t6
            + 256 * t7))))));
        let h = SignedProgramHeader {
            version,
            flags,
            program_hash: ProgramHash(hash_bytes),
            signature: Signature(sig_bytes),
            signer_id,
            timestamp,
        };
        proof {
            assert(h.program_hash@ =~= data@.subrange(8, 40));
            assert(h.signature@ =~= data@.subrange(40, 104));
            assert(h.signer_id@ =~= data@.subrange(104, 112));
        }
        Ok(h)
    }

    /// Serializes the header to its 120-byte wire form.
    pub fn to_bytes(&self) -> (r: Vec<u8>)
        ensures
            r@ == spec_header_bytes(*self),
            r@.len() == 120,
    {
        let mut out: Vec<u8> = Vec::new();
        out.push(0x52);
        out.push(0x42);
        out.push(0x50);
        out.push(0x46);
        out.push(self.version);
        out.push(self.flags.as_byte());
        out.push(0);
        out.push(0);
        let mut i: usize = 0;
        while i < 32
            invariant
                i <= 32,
                out@.len() == 8 + i,
                forall|j: int| 0 <= j < 8 + i ==> #[trigger] out@[j] == spec_header_byte(*self, j),
            decreases 32 - i,
        {
            out.push(self.program_hash.0[i]);
            i = i + 1;
        }
        let mut i2: usize = 0;
        while i2 < 64
            invariant
                i2 <= 64,
                out@.len() == 40 + i2,
                forall|j: int| 0 <= j < 40 + i2 ==> #[trigger] out@[j] == spec_header_byte(*self, j),
            decreases 64 - i2,
        {
            out.push(self.signature.0[i2]);
            i2 = i2 + 1;
        }
        let mut i3: usize = 0;
        while i3 < 8
            invariant
                i3 <= 8,
                out@.len() == 104 + i3,
                forall|j: int| 0 <= j < 104 + i3 ==> #[trigger] out@[j] == spec_header_byte(*self, j),
            decreases 8 - i3,
        {
            out.push(self.signer_id[i3]);
            i3 = i3 + 1;
        }
        let mut v = self.timestamp;
        let ghost tv = v;
        let mut k: usize = 0;
        while k < 8
            invariant
                k <= 8,
                tv == self.timestamp,
                out@.len() == 112 + k,
                forall|m: int| 0 <= m ==> #[trigger] spec_byte_of(v, m) == spec_byte_of(tv, k + m),
                forall|j: int| 0 <= j < 112 + k ==> #[trigger] out@[j] == spec_header_byte(*self, j),
            decreases 8 - k,
        {
            out.push((v % 256) as u8);
            proof {
                assert(spec_byte_of(v, 0) == spec_byte_of(tv, k as int));
                assert forall|m: int| 0 <= m implies #[trigger] spec_byte_of(v / 256, m)
                    == spec_byte_of(tv, k + 1 + m) by {
                    assert(spec_byte_of(v, m + 1) == spec_byte_of(v / 256, m));
                    assert(spec_byte_of(v, m + 1) == spec_byte_of(tv, k + (m + 1)));
                }
            }
            v = v / 256;
            k = k + 1;
        }
        proof {
            assert(out@ =~= spec_header_bytes(*self));
        }
        out
    }
}

/// Law: serializing a header and parsing the result reproduces every field,
/// including the flags, whenever the version is the supported one.
pub proof fn lemma_header_round_trip(h: SignedProgramHeader)
    requires
        h.version == SIGNING_VERSION,
    ensures
        spec_header_bytes(h).len() == 120,
        spec_magic_ok(spec_header_bytes(h)),
        spec_header_bytes(h)[4] == SIGNING_VERSION,
        forall|h2: SignedProgramHeader|
            #[trigger] spec_header_parsed(h2, spec_header_bytes(h)) ==> h2.version == h.version
                && h2.flags == h.flags && h2.program_hash@ == h.program_hash@ && h2.signature@
                == h.signature@ && h2.signer_id@ == h.signer_id@ && h2.timestamp == h.timestamp,
{
    let bytes = spec_header_bytes(h);
    assert forall|h2: SignedProgramHeader| #[trigger] spec_header_parsed(h2, bytes)
        implies h2.version == h.version && h2.flags == h.flags && h2.program_hash@
        == h.program_hash@ && h2.signature@ == h.signature@ && h2.signer_id@ == h.signer_id@
        && h2.timestamp == h.timestamp by {
        assert(h2.flags.0 == h.flags.0);
        assert(h2.program_hash@ =~= h.program_hash@) by {
            assert(forall|j: int|
                0 <= j < 32 ==> bytes.subrange(8, 40)[j] == #[trigger] h.program_hash@[j]);
        }
        assert(h2.signature@ =~= h.signature@) by {
            assert(forall|j: int|
                0 <= j < 64 ==> bytes.subrange(40, 104)[j] == #[trigger] h.signature@[j]);
        }
        assert(h2.signer_id@ =~= h.signer_id@) by {
            assert(forall|j: int|
                0 <= j < 8 ==> bytes.subrange(104, 112)[j] == #[trigger] h.signer_id@[j]);
        }
        assert(h2.timestamp == h.timestamp) by {
            assert(forall|k: int|
                0 <= k < 8 ==> #[trigger] bytes[112 + k] == spec_byte_of(h.timestamp, k));
            lemma_le64_of_bytes(h.timestamp, bytes, 112);
        }
    }
}

/// A parsed signed program: the envelope header plus the raw body bytes.
#[derive(Debug, Clone)]
pub struct SignedProgram {
    header: SignedProgramHeader,
    program_data: Vec<u8>,
}

impl SignedProgram {
    /// The header view.
    pub closed spec fn spec_header(&self) -> SignedProgramHeader {
        self.header
    }

    /// The body view.
    pub closed spec fn spec_data(&self) -> Seq<u8> {
        self.program_data@
    }

    /// Parses a signed program: the 120-byte header followed by the body.
    pub fn from_bytes(data: &[u8]) -> (r: SigningResult<Self>)
        ensures
            data@.len() < 120 ==> r == Err::<Self, SigningError>(
                SigningError::DataTooShort { expected: 120, actual: data@.len() as usize },
            ),
            data@.len() >= 120 && !spec_magic_ok(data@) ==> r == Err::<Self, SigningError>(
                SigningError::InvalidMagic,
            ),
            data@.len() >= 120 && spec_magic_ok(data@) && data@[4] != SIGNING_VERSION ==> r
                == Err::<Self, SigningError>(SigningError::UnsupportedVersion(data@[4])),
            data@.len() >= 120 && spec_magic_ok(data@) && data@[4] == SIGNING_VERSION ==> r is Ok
                && spec_header_parsed(r->Ok_0.spec_header(), data@) && r->Ok_0.spec_data()
                == data@.subrange(120, data@.len() as int),
    {
        let header = match SignedProgramHeader::from_bytes(data) {
            Ok(h) => h,
            Err(e) => {
                return Err(e);
            },
        };
        let dlen = data.len();
        let mut body: Vec<u8> = Vec::new();
        let mut i: usize = 120;
        while i < dlen
            invariant
                120 <= i <= dlen,
                dlen == data@.len(),
                body@ == data@.subrange(120, i as int),
            decreases dlen - i,
        {
            body.push(data[i]);
            proof {
                assert(body@ =~= data@.subrange(120, i as int + 1));
            }
            i = i + 1;
        }
        Ok(SignedProgram { header, program_data: body })
    }

    /// The parsed header.
    pub fn header(&self) -> (r: &SignedProgramHeader)
        ensures
            *r == self.spec_header(),
    {
        &self.header
    }

    /// The raw program body.
    pub fn program_data(&self) -> (r: &Vec<u8>)
        ensures
            r@ == self.spec_data(),
    {
        &self.program_data
    }

    /// Recomputes the body hash and compares it, in constant time, against
    /// the header's hash. Succeeds exactly when they agree.
    pub fn verify_hash(&self) -> (r: SigningResult<()>)
        ensures
            r is Ok <==> spec_sha3_256(self.spec_data()) == self.spec_header().program_hash@,
            r is Err ==> r == Err::<(), SigningError>(SigningError::HashMismatch),
    {
        let computed = ProgramHash::compute(self.program_data.as_slice());
        if computed.matches(&self.header.program_hash) {
            Ok(())
        } else {
            Err(SigningError::HashMismatch)
        }
    }

    /// The signer-id prefix.
    pub fn signer_id(&self) -> (r: &[u8; 8])
        ensures
            r@ == self.spec_header().signer_id@,
    {
        &self.header.signer_id
    }

    /// The signature.
    pub fn signature(&self) -> (r: &Signature)
        ensures
            *r == self.spec_header().signature,
    {
        &self.header.signature
    }

    /// The signing timestamp.
    pub fn timestamp(&self) -> (r: u64)
        ensures
            r == self.spec_header().timestamp,
    {
        self.header.timestamp
    }

    /// The flag bits.
    pub fn flags(&self) -> (r: SignatureFlags)
        ensures
            r == self.spec_header().flags,
    {
        self.header.flags
    }
}

} // verus!
