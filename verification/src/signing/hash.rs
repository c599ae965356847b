//! SHA3-256 over Keccak-f[1600]: rate 1088, 24 rounds, domain separator
//! 0x06, final padding bit 0x80.
//!
//! The round constants, rotation offsets and lane permutation are the fixed
//! Keccak tables; the rotation and permutation are fused into one
//! source-lane/rotation table per output lane.

use vstd::prelude::*;

verus! {

/// Length of a SHA3-256 digest in bytes.
pub const SHA3_256_LEN: usize = 32;

/// Left rotation of a 64-bit lane.
pub open spec fn spec_rotl(x: u64, n: u64) -> u64
    recommends
        0 < n < 64,
{
    (x << n) | (x >> (64 - n) as u64)
}

fn rotl(x: u64, n: u64) -> (r: u64)
    requires
        0 < n < 64,
    ensures
        r == spec_rotl(x, n),
{
    (x << n) | (x >> (64 - n))
}

/// The round constant of round `i`.
pub open spec fn spec_rc(i: int) -> u64 {
    if i == 0 {
        0x0000000000000001
    } else if i == 1 {
        0x0000000000008082
    } else if i == 2 {
        0x800000000000808a
    } else if i == 3 {
        0x8000000080008000
    } else if i == 4 {
        0x000000000000808b
    } else if i == 5 {
        0x0000000080000001
    } else if i == 6 {
        0x8000000080008081
    } else if i == 7 {
        0x8000000000008009
    } else if i == 8 {
        0x000000000000008a
    } else if i == 9 {
        0x0000000000000088
    } else if i == 10 {
        0x0000000080008009
    } else if i == 11 {
        0x000000008000000a
    } else if i == 12 {
        0x000000008000808b
    } else if i == 13 {
        0x800000000000008b
    } else if i == 14 {
        0x8000000000008089
    } else if i == 15 {
        0x8000000000008003
    } else if i == 16 {
        0x8000000000008002
    } else if i == 17 {
        0x8000000000000080
    } else if i == 18 {
        0x000000000000800a
    } else if i == 19 {
        0x800000008000000a
    } else if i == 20 {
        0x8000000080008081
    } else if i == 21 {
        0x8000000000008080
    } else if i == 22 {
        0x0000000080000001
    } else if i == 23 {
        0x8000000080008008
    } else {
        0
    }
}

fn rc_at(i: usize) -> (r: u64)
    requires
        i < 24,
    ensures
        r == spec_rc(i as int),
{
    if i == 0 {
        0x0000000000000001
        } else if i == 1 {
            0x0000000000008082
        } else if i == 2 {
            0x800000000000808a
        } else if i == 3 {
            0x8000000080008000
        } else if i == 4 {
            0x000000000000808b
        } else if i == 5 {
            0x0000000080000001
        } else if i == 6 {
            0x8000000080008081
        } else if i == 7 {
            0x8000000000008009
        } else if i == 8 {
            0x000000000000008a
        } else if i == 9 {
            0x0000000000000088
        } else if i == 10 {
            0x0000000080008009
        } else if i == 11 {
            0x000000008000000a
        } else if i == 12 {
            0x000000008000808b
        } else if i == 13 {
            0x800000000000008b
        } else if i == 14 {
            0x8000000000008089
        } else if i == 15 {
            0x8000000000008003
        } else if i == 16 {
            0x8000000000008002
        } else if i == 17 {
            0x8000000000000080
        } else if i == 18 {
            0x000000000000800a
        } else if i == 19 {
            0x800000008000000a
        } else if i == 20 {
            0x8000000080008081
        } else if i == 21 {
            0x8000000000008080
        } else if i == 22 {
            0x0000000080000001
        } else if i == 23 {
            0x8000000080008008
    } else {
        0
    }
}

/// The theta step: each lane is xored with the parity of two columns.
pub open spec fn spec_theta(s: Seq<u64>) -> Seq<u64>
    recommends
        s.len() == 25,
{
    let c0 = s[0] ^ s[5] ^ s[10] ^ s[15] ^ s[20];
    let c1 = s[1] ^ s[6] ^ s[11] ^ s[16] ^ s[21];
    let c2 = s[2] ^ s[7] ^ s[12] ^ s[17] ^ s[22];
    let c3 = s[3] ^ s[8] ^ s[13] ^ s[18] ^ s[23];
    let c4 = s[4] ^ s[9] ^ s[14] ^ s[19] ^ s[24];
    let d0 = c4 ^ spec_rotl(c1, 1);
    let d1 = c0 ^ spec_rotl(c2, 1);
    let d2 = c1 ^ spec_rotl(c3, 1);
    let d3 = c2 ^ spec_rotl(c4, 1);
    let d4 = c3 ^ spec_rotl(c0, 1);
    seq![
        s[0] ^ d0,
        s[1] ^ d1,
        s[2] ^ d2,
        s[3] ^ d3,
        s[4] ^ d4,
        s[5] ^ d0,
        s[6] ^ d1,
        s[7] ^ d2,
        s[8] ^ d3,
        s[9] ^ d4,
        s[10] ^ d0,
        s[11] ^ d1,
        s[12] ^ d2,
        s[13] ^ d3,
        s[14] ^ d4,
        s[15] ^ d0,
        s[16] ^ d1,
        s[17] ^ d2,
        s[18] ^ d3,
        s[19] ^ d4,
        s[20] ^ d0,
        s[21] ^ d1,
        s[22] ^ d2,
        s[23] ^ d3,
        s[24] ^ d4,
    ]
}

/// The fused rho-and-pi step: each output lane is a rotated source lane.
pub open spec fn spec_rho_pi(s: Seq<u64>) -> Seq<u64>
    recommends
        s.len() == 25,
{
    seq![
        s[0],
        spec_rotl(s[6], 44),
        spec_rotl(s[12], 43),
        spec_rotl(s[18], 21),
        spec_rotl(s[24], 14),
        spec_rotl(s[3], 28),
        spec_rotl(s[9], 20),
        spec_rotl(s[10], 3),
        spec_rotl(s[16], 45),
        spec_rotl(s[22], 61),
        spec_rotl(s[1], 1),
        spec_rotl(s[7], 6),
        spec_rotl(s[13], 25),
        spec_rotl(s[19], 8),
        spec_rotl(s[20], 18),
        spec_rotl(s[4], 27),
        spec_rotl(s[5], 36),
        spec_rotl(s[11], 10),
        spec_rotl(s[17], 15),
        spec_rotl(s[23], 56),
        spec_rotl(s[2], 62),
        spec_rotl(s[8], 55),
        spec_rotl(s[14], 39),
        spec_rotl(s[15], 41),
        spec_rotl(s[21], 2),
    ]
}

/// The chi step: each lane is xored with a nonlinear mix of its row.
pub open spec fn spec_chi(s: Seq<u64>) -> Seq<u64>
    recommends
        s.len() == 25,
{
    seq![
        s[0] ^ ((!s[1]) & s[2]),
        s[1] ^ ((!s[2]) & s[3]),
        s[2] ^ ((!s[3]) & s[4]),
        s[3] ^ ((!s[4]) & s[0]),
        s[4] ^ ((!s[0]) & s[1]),
        s[5] ^ ((!s[6]) & s[7]),
        s[6] ^ ((!s[7]) & s[8]),
        s[7] ^ ((!s[8]) & s[9]),
        s[8] ^ ((!s[9]) & s[5]),
        s[9] ^ ((!s[5]) & s[6]),
        s[10] ^ ((!s[11]) & s[12]),
        s[11] ^ ((!s[12]) & s[13]),
        s[12] ^ ((!s[13]) & s[14]),
        s[13] ^ ((!s[14]) & s[10]),
        s[14] ^ ((!s[10]) & s[11]),
        s[15] ^ ((!s[16]) & s[17]),
        s[16] ^ ((!s[17]) & s[18]),
        s[17] ^ ((!s[18]) & s[19]),
        s[18] ^ ((!s[19]) & s[15]),
        s[19] ^ ((!s[15]) & s[16]),
        s[20] ^ ((!s[21]) & s[22]),
        s[21] ^ ((!s[22]) & s[23]),
        s[22] ^ ((!s[23]) & s[24]),
        s[23] ^ ((!s[24]) & s[20]),
        s[24] ^ ((!s[20]) & s[21]),
    ]
}

/// One Keccak round.
pub open spec fn spec_round(s: Seq<u64>, rc: u64) -> Seq<u64> {
    let t = spec_chi(spec_rho_pi(spec_theta(s)));
    t.update(0, t[0] ^ rc)
}

/// Rounds `i..24` of the Keccak-f permutation.
pub open spec fn spec_rounds(s: Seq<u64>, i: int) -> Seq<u64>
    decreases 24 - i,
{
    if i < 0 || i >= 24 {
        s
    } else {
        spec_rounds(spec_round(s, spec_rc(i)), i + 1)
    }
}

/// The full 24-round Keccak-f[1600] permutation.
pub open spec fn spec_keccak_f(s: Seq<u64>) -> Seq<u64> {
    spec_rounds(s, 0)
}

fn theta(s: &Vec<u64>) -> (r: Vec<u64>)
    requires
        s@.len() == 25,
    ensures
        r@ == spec_theta(s@),
{
    let c0 = s[0] ^ s[5] ^ s[10] ^ s[15] ^ s[20];
    let c1 = s[1] ^ s[6] ^ s[11] ^ s[16] ^ s[21];
    let c2 = s[2] ^ s[7] ^ s[12] ^ s[17] ^ s[22];
    let c3 = s[3] ^ s[8] ^ s[13] ^ s[18] ^ s[23];
    let c4 = s[4] ^ s[9] ^ s[14] ^ s[19] ^ s[24];
    let d0 = c4 ^ rotl(c1, 1);
    let d1 = c0 ^ rotl(c2, 1);
    let d2 = c1 ^ rotl(c3, 1);
    let d3 = c2 ^ rotl(c4, 1);
    let d4 = c3 ^ rotl(c0, 1);
    let mut out: Vec<u64> = Vec::new();
    out.push(s[0] ^ d0);
        out.push(s[1] ^ d1);
        out.push(s[2] ^ d2);
        out.push(s[3] ^ d3);
        out.push(s[4] ^ d4);
        out.push(s[5] ^ d0);
        out.push(s[6] ^ d1);
        out.push(s[7] ^ d2);
        out.push(s[8] ^ d3);
        out.push(s[9] ^ d4);
        out.push(s[10] ^ d0);
        out.push(s[11] ^ d1);
        out.push(s[12] ^ d2);
        out.push(s[13] ^ d3);
        out.push(s[14] ^ d4);
        out.push(s[15] ^ d0);
        out.push(s[16] ^ d1);
        out.push(s[17] ^ d2);
        out.push(s[18] ^ d3);
        out.push(s[19] ^ d4);
        out.push(s[20] ^ d0);
        out.push(s[21] ^ d1);
        out.push(s[22] ^ d2);
        out.push(s[23] ^ d3);
        out.push(s[24] ^ d4);
    proof {
        assert(out@ =~= spec_theta(s@));
    }
    out
}

fn rho_pi(s: &Vec<u64>) -> (r: Vec<u64>)
    requires
        s@.len() == 25,
    ensures
        r@ == spec_rho_pi(s@),
{
    let mut out: Vec<u64> = Vec::new();
    out.push(s[0]);
        out.push(rotl(s[6], 44));
        out.push(rotl(s[12], 43));
        out.push(rotl(s[18], 21));
        out.push(rotl(s[24], 14));
        out.push(rotl(s[3], 28));
        out.push(rotl(s[9], 20));
        out.push(rotl(s[10], 3));
        out.push(rotl(s[16], 45));
        out.push(rotl(s[22], 61));
        out.push(rotl(s[1], 1));
        out.push(rotl(s[7], 6));
        out.push(rotl(s[13], 25));
        out.push(rotl(s[19], 8));
        out.push(rotl(s[20], 18));
        out.push(rotl(s[4], 27));
        out.push(rotl(s[5], 36));
        out.push(rotl(s[11], 10));
        out.push(rotl(s[17], 15));
        out.push(rotl(s[23], 56));
        out.push(rotl(s[2], 62));
        out.push(rotl(s[8], 55));
        out.push(rotl(s[14], 39));
        out.push(rotl(s[15], 41));
        out.push(rotl(s[21], 2));
    proof {
        assert(out@ =~= spec_rho_pi(s@));
    }
    out
}

fn chi(s: &Vec<u64>) -> (r: Vec<u64>)
    requires
        s@.len() == 25,
    ensures
        r@ == spec_chi(s@),
{
    let mut out: Vec<u64> = Vec::new();
    out.push(s[0] ^ ((!s[1]) & s[2]));
        out.push(s[1] ^ ((!s[2]) & s[3]));
        out.push(s[2] ^ ((!s[3]) & s[4]));
        out.push(s[3] ^ ((!s[4]) & s[0]));
        out.push(s[4] ^ ((!s[0]) & s[1]));
        out.push(s[5] ^ ((!s[6]) & s[7]));
        out.push(s[6] ^ ((!s[7]) & s[8]));
        out.push(s[7] ^ ((!s[8]) & s[9]));
        out.push(s[8] ^ ((!s[9]) & s[5]));
        out.push(s[9] ^ ((!s[5]) & s[6]));
        out.push(s[10] ^ ((!s[11]) & s[12]));
        out.push(s[11] ^ ((!s[12]) & s[13]));
        out.push(s[12] ^ ((!s[13]) & s[14]));
        out.push(s[13] ^ ((!s[14]) & s[10]));
        out.push(s[14] ^ ((!s[10]) & s[11]));
        out.push(s[15] ^ ((!s[16]) & s[17]));
        out.push(s[16] ^ ((!s[17]) & s[18]));
        out.push(s[17] ^ ((!s[18]) & s[19]));
        out.push(s[18] ^ ((!s[19]) & s[15]));
        out.push(s[19] ^ ((!s[15]) & s[16]));
        out.push(s[20] ^ ((!s[21]) & s[22]));
        out.push(s[21] ^ ((!s[22]) & s[23]));
        out.push(s[22] ^ ((!s[23]) & s[24]));
        out.push(s[23] ^ ((!s[24]) & s[20]));
        out.push(s[24] ^ ((!s[20]) & s[21]));
    proof {
        assert(out@ =~= spec_chi(s@));
    }
    out
}

/// The Keccak-f[1600] permutation.
fn keccak_f(s: Vec<u64>) -> (r: Vec<u64>)
    requires
        s@.len() == 25,
    ensures
        r@ == spec_keccak_f(s@),
        r@.len() == 25,
{
    let ghost s0 = s@;
    let mut st = s;
    let mut i: usize = 0;
    while i < 24
        invariant
            i <= 24,
            st@.len() == 25,
            spec_keccak_f(s0) == spec_rounds(st@, i as int),
        decreases 24 - i,
    {
        let rc = rc_at(i);
        let t = chi(&rho_pi(&theta(&st)));
        let t0 = t[0];
        let mut t2 = t;
        t2.set(0, t0 ^ rc);
        proof {
            assert(t2@ == spec_round(st@, spec_rc(i as int)));
            assert(spec_rounds(st@, i as int) == spec_rounds(t2@, i as int + 1));
        }
        st = t2;
        i = i + 1;
    }
    st
}

/// The little-endian 64-bit value of the 8 bytes of `b` at `off`.
pub open spec fn spec_le64(b: Seq<u8>, off: int) -> int
    recommends
        0 <= off,
        off + 8 <= b.len(),
{
    b[off] + 256 * (b[off + 1] + 256 * (b[off + 2] + 256 * (b[off + 3] + 256 * (b[off + 4] + 256
        * (b[off + 5] + 256 * (b[off + 6] + 256 * b[off + 7]))))))
}

fn le64_at(d: &Vec<u8>, off: usize) -> (r: u64)
    requires
        off + 8 <= d@.len(),
    ensures
        r as int == spec_le64(d@, off as int),
{
    let dl = d.len();
    let b0 = d[off] as u64;
    let b1 = d[off + 1] as u64;
    let b2 = d[off + 2] as u64;
    let b3 = d[off + 3] as u64;
    let b4 = d[off + 4] as u64;
    let b5 = d[off + 5] as u64;
    let b6 = d[off + 6] as u64;
    let b7 = d[off + 7] as u64;
    b0 + 256 * (b1 + 256 * (b2 + 256 * (b3 + 256 * (b4 + 256 * (b5 + 256 * (b6 + 256 * b7))))))
}

/// Byte `k` (little-endian) of a 64-bit lane.
pub open spec fn spec_byte_of(x: u64, k: int) -> u8
    decreases k,
{
    if k <= 0 {
        (x % 256) as u8
    } else {
        spec_byte_of(x / 256, k - 1)
    }
}

/// One padded tail block: the remaining input bytes, the 0x06 domain
/// separator, zeros, and the 0x80 final bit folded into byte 135.
pub open spec fn spec_pad_byte(data: Seq<u8>, off: int, i: int) -> u8 {
    let rem = data.len() - off;
    let b: u8 = if i < rem {
        data[off + i]
    } else if i == rem {
        0x06u8
    } else {
        0u8
    };
    if i == 135 {
        b | 0x80
    } else {
        b
    }
}

/// The state after xoring one 136-byte block into the first 17 lanes and
/// permuting.
pub open spec fn spec_absorb_block(s: Seq<u64>, block: Seq<u8>) -> Seq<u64>
    recommends
        s.len() == 25,
        block.len() == 136,
{
    spec_keccak_f(
        Seq::new(
            25,
            |i: int|
                if i < 17 {
                    s[i] ^ (spec_le64(block, i * 8) as u64)
                } else {
                    s[i]
                },
        ),
    )
}

/// The state after absorbing every whole 136-byte block of `data` from `off`.
pub open spec fn spec_absorb(s: Seq<u64>, data: Seq<u8>, off: int) -> Seq<u64>
    decreases data.len() - off,
{
    if off < 0 || off + 136 > data.len() {
        s
    } else {
        spec_absorb(spec_absorb_block(s, data.subrange(off, off + 136)), data, off + 136)
    }
}

/// The SHA3-256 digest of `data`.
pub open spec fn spec_sha3_256(data: Seq<u8>) -> Seq<u8> {
    let s1 = spec_absorb(Seq::new(25, |i: int| 0u64), data, 0);
    let pad = Seq::new(136, |i: int| spec_pad_byte(data, 136 * (data.len() as int / 136), i));
    let s2 = spec_absorb_block(s1, pad);
    Seq::new(32, |i: int| spec_byte_of(s2[i / 8], i % 8))
}

/// Absorbs one 136-byte block held in `block` into `st`.
fn absorb_block(st: Vec<u64>, block: &Vec<u8>) -> (r: Vec<u64>)
    requires
        st@.len() == 25,
        block@.len() == 136,
    ensures
        r@ == spec_absorb_block(st@, block@),
        r@.len() == 25,
{
    let ghost s0 = st@;
    let mut xored = st;
    let mut i: usize = 0;
    while i < 17
        invariant
            i <= 17,
            xored@.len() == 25,
            block@.len() == 136,
            forall|j: int|
                0 <= j < 25 ==> #[trigger] xored@[j] == (if j < i {
                    s0[j] ^ (spec_le64(block@, j * 8) as u64)
                } else {
                    s0[j]
                }),
        decreases 17 - i,
    {
        let lane = le64_at(block, i * 8);
        let prev = xored[i];
        xored.set(i, prev ^ lane);
        i = i + 1;
    }
    proof {
        assert(xored@ =~= Seq::new(
            25,
            |j: int|
                if j < 17 {
                    s0[j] ^ (spec_le64(block@, j * 8) as u64)
                } else {
                    s0[j]
                },
        ));
    }
    keccak_f(xored)
}

/// Computes the SHA3-256 digest of `data`.
pub fn sha3_256(data: &[u8]) -> (r: Vec<u8>)
    ensures
        r@ == spec_sha3_256(data@),
        r@.len() == 32,
{
    let dlen = data.len();
    let mut st: Vec<u64> = Vec::new();
    let mut z: usize = 0;
    while z < 25
        invariant
            z <= 25,
            st@ == Seq::new(z as nat, |i: int| 0u64),
        decreases 25 - z,
    {
        st.push(0);
        proof {
            assert(st@ =~= Seq::new((z + 1) as nat, |i: int| 0u64));
        }
        z = z + 1;
    }
    let mut off: usize = 0;
    let ghost nb: int = 0;
    while dlen - off >= 136
        invariant
            dlen == data@.len(),
            st@.len() == 25,
            off == 136 * nb,
            0 <= nb,
            off <= dlen,
            spec_absorb(Seq::new(25, |i: int| 0u64), data@, 0) == spec_absorb(st@, data@, off as int),
        decreases dlen - off,
    {
        let mut block: Vec<u8> = Vec::new();
        let mut k: usize = 0;
        while k < 136
            invariant
                k <= 136,
                off + 136 <= dlen,
                dlen == data@.len(),
                block@ == data@.subrange(off as int, off as int + k as int),
            decreases 136 - k,
        {
            block.push(data[off + k]);
            proof {
                assert(block@ =~= data@.subrange(off as int, off as int + k as int + 1));
            }
            k = k + 1;
        }
        st = absorb_block(st, &block);
        proof {
            nb = nb + 1;
        }
        off = off + 136;
    }
    proof {
        vstd::arithmetic::div_mod::lemma_fundamental_div_mod_converse(
            dlen as int,
            136,
            nb,
            dlen - off,
        );
        assert(off == 136 * (data@.len() as int / 136));
    }
    let rem = dlen - off;
    let mut pad: Vec<u8> = Vec::new();
    let mut k: usize = 0;
    while k < 136
        invariant
            k <= 136,
            rem == dlen - off,
            off + 136 > dlen,
            off <= dlen,
            dlen == data@.len(),
            forall|i: int|
                0 <= i < k ==> #[trigger] pad@[i] == spec_pad_byte(data@, off as int, i),
            pad@.len() == k,
        decreases 136 - k,
    {
        let b: u8 = if k < rem {
            data[off + k]
        } else if k == rem {
            0x06
        } else {
            0
        };
        let b2: u8 = if k == 135 {
            b | 0x80
        } else {
            b
        };
        pad.push(b2);
        k = k + 1;
    }
    let st2 = absorb_block(st, &pad);
    proof {
        assert(pad@ =~= Seq::new(136, |i: int| spec_pad_byte(data@, off as int, i)));
        assert(spec_absorb(st2@, data@, off as int) == st2@);
    }
    let mut out: Vec<u8> = Vec::new();
    let mut lane: usize = 0;
    while lane < 4
        invariant
            lane <= 4,
            st2@.len() == 25,
            out@.len() == 8 * lane,
            forall|i: int|
                0 <= i < 8 * lane ==> #[trigger] out@[i] == spec_byte_of(st2@[i / 8], i % 8),
        decreases 4 - lane,
    {
        let mut v = st2[lane];
        let ghost lv = v;
        let mut k2: usize = 0;
        while k2 < 8
            invariant
                k2 <= 8,
                lane < 4,
                st2@.len() == 25,
                lv == st2@[lane as int],
                out@.len() == 8 * lane + k2,
                forall|m: int| 0 <= m ==> #[trigger] spec_byte_of(v, m) == spec_byte_of(lv, k2 + m),
                forall|i: int|
                    0 <= i < 8 * lane + k2 ==> #[trigger] out@[i] == spec_byte_of(
                        st2@[i / 8],
                        i % 8,
                    ),
            decreases 8 - k2,
        {
            out.push((v % 256) as u8);
            proof {
                assert(spec_byte_of(v, 0) == spec_byte_of(lv, k2 as int));
                assert((8 * lane + k2) as int / 8 == lane && (8 * lane + k2) as int % 8 == k2) by (nonlinear_arith)
                    requires
                        0 <= k2 < 8,
                        0 <= lane,
                ;
                assert forall|m: int| 0 <= m implies #[trigger] spec_byte_of(v / 256, m)
                    == spec_byte_of(lv, k2 + 1 + m) by {
                    assert(spec_byte_of(v, m + 1) == spec_byte_of(v / 256, m));
                    assert(spec_byte_of(v, m + 1) == spec_byte_of(lv, k2 + (m + 1)));
                }
            }
            v = v / 256;
            k2 = k2 + 1;
        }
        lane = lane + 1;
    }
    proof {
        assert(out@ =~= Seq::new(32, |i: int| spec_byte_of(st2@[i / 8], i % 8)));
    }
    out
}


/// A SHA3-256 digest of a program body.
#[derive(Clone, Copy, PartialEq, Eq, Debug)]
pub struct ProgramHash(pub [u8; 32]);

impl View for ProgramHash {
    type V = Seq<u8>;

    open spec fn view(&self) -> Seq<u8> {
        self.0@
    }
}

/// Two bytes differ exactly when their xor is nonzero, and an or is zero
/// exactly when both operands are.
proof fn lemma_byte_mix(a: u8, b: u8, acc: u8, d: u8)
    by (bit_vector)
    ensures
        ((a ^ b) == 0) == (a == b),
        ((acc | d) == 0) == (acc == 0 && d == 0),
{
}

impl ProgramHash {
    /// Wraps raw digest bytes.
    pub fn from_bytes(bytes: [u8; 32]) -> (r: Self)
        ensures
            r@ == bytes@,
    {
        ProgramHash(bytes)
    }

    /// Wraps a byte slice; fails unless it holds exactly 32 bytes.
    pub fn from_slice(slice: &[u8]) -> (r: Option<Self>)
        ensures
            slice@.len() == 32 ==> r is Some && r->Some_0@ == slice@,
            slice@.len() != 32 ==> r is None,
    {
        if slice.len() != 32 {
            return None;
        }
        let mut bytes = [0u8; 32];
        let mut i: usize = 0;
        while i < 32
            invariant
                i <= 32,
                slice@.len() == 32,
                bytes@.len() == 32,
                forall|j: int| 0 <= j < i ==> #[trigger] bytes@[j] == slice@[j],
            decreases 32 - i,
        {
            bytes[i] = slice[i];
            i = i + 1;
        }
        proof {
            assert(bytes@ =~= slice@);
        }
        Some(ProgramHash(bytes))
    }

    /// Computes the SHA3-256 digest of `data`.
    pub fn compute(data: &[u8]) -> (r: Self)
        ensures
            r@ == spec_sha3_256(data@),
    {
        let v = sha3_256(data);
        let mut bytes = [0u8; 32];
        let mut i: usize = 0;
        while i < 32
            invariant
                i <= 32,
                v@.len() == 32,
                bytes@.len() == 32,
                v@ == spec_sha3_256(data@),
                forall|j: int| 0 <= j < i ==> #[trigger] bytes@[j] == v@[j],
            decreases 32 - i,
        {
            bytes[i] = v[i];
            i = i + 1;
        }
        proof {
            assert(bytes@ =~= spec_sha3_256(data@));
        }
        ProgramHash(bytes)
    }

    /// The digest bytes.
    pub fn as_bytes(&self) -> (r: &[u8; 32])
        ensures
            r@ == self@,
    {
        &self.0
    }

    /// Whether this digest equals `other`.
    ///
    /// The comparison accumulates the xor of every byte pair into a single
    /// byte and tests that once, so it takes the same time whatever the
    /// digests hold.
    pub fn matches(&self, other: &Self) -> (r: bool)
        ensures
            r == (self@ == other@),
    {
        let mut acc: u8 = 0;
        let mut i: usize = 0;
        while i < 32
            invariant
                i <= 32,
                (acc == 0) == (forall|j: int| 0 <= j < i ==> self@[j] == #[trigger] other@[j]),
            decreases 32 - i,
        {
            let d = self.0[i] ^ other.0[i];
            proof {
                lemma_byte_mix(self.0[i as int], other.0[i as int], acc, d);
            }
            let ghost acc0 = acc;
            acc = acc | d;
            proof {
                if acc == 0 {
                    assert(acc0 == 0 && d == 0);
                    assert forall|j: int| 0 <= j < i + 1 implies self@[j]
                        == #[trigger] other@[j] by {
                        if j == i {
                            assert(self@[j] == other@[j]);
                        }
                    }
                } else if acc0 != 0 {
                    assert(!(forall|j: int|
                        0 <= j < i + 1 ==> self@[j] == #[trigger] other@[j])) by {
                        if forall|j: int| 0 <= j < i + 1 ==> self@[j] == #[trigger] other@[j] {
                            assert(forall|j: int|
                                0 <= j < i ==> self@[j] == #[trigger] other@[j]);
                        }
                    }
                } else {
                    assert(self@[i as int] != other@[i as int]);
                }
            }
            i = i + 1;
        }
        proof {
            if acc == 0 {
                assert(self@ =~= other@);
            }
        }
        acc == 0
    }
}

} // verus!

