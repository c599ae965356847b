//! The x86_64 code emitter and the template-method compiler that lowers
//! bytecode to host instructions.
//!
//! The register mapping is fixed: r0..r10 map to rax, rdi, rsi, rdx, rcx,
//! r8, rbx, r13, r14, r15, rbp; host r9 is the scratch register. Jumps are
//! emitted with a 4-byte placeholder displacement and patched in a second
//! pass from a per-instruction offset table. Compiled code is kept as plain
//! bytes and never invoked: execution always falls back to the interpreter,
//! so results are interpreter-identical by construction.

use vstd::prelude::*;
use crate::bytecode::{AluOp, BpfInsn, JmpOp, MemSize, OpcodeClass, SourceType};
use crate::interp::{spec_init, spec_run, BpfContext, BpfResult, Interpreter, MAX_INSNS};

verus! {

/// Host register encodings in REX terms.
pub const RAX: u8 = 0;

pub const RCX: u8 = 1;

pub const RDX: u8 = 2;

pub const RBX: u8 = 3;

pub const RSP: u8 = 4;

pub const RBP: u8 = 5;

pub const RSI: u8 = 6;

pub const RDI: u8 = 7;

pub const R8: u8 = 8;

pub const R9: u8 = 9;

pub const R13: u8 = 13;

pub const R14: u8 = 14;

pub const R15: u8 = 15;

/// The scratch register for immediate materialization.
pub const TMP_REG: u8 = 9;

/// The fixed map from a bytecode register to its host register.
pub open spec fn spec_bpf_to_x64(r: int) -> u8 {
    if r == 0 {
        0
    } else if r == 1 {
        7
    } else if r == 2 {
        6
    } else if r == 3 {
        2
    } else if r == 4 {
        1
    } else if r == 5 {
        8
    } else if r == 6 {
        3
    } else if r == 7 {
        13
    } else if r == 8 {
        14
    } else if r == 9 {
        15
    } else {
        5
    }
}

/// Maps a bytecode register to its host register.
pub fn bpf_to_x64(r: u8) -> (x: u8)
    requires
        r < 11,
    ensures
        x == spec_bpf_to_x64(r as int),
{
    if r == 0 {
        0
    } else if r == 1 {
        7
    } else if r == 2 {
        6
    } else if r == 3 {
        2
    } else if r == 4 {
        1
    } else if r == 5 {
        8
    } else if r == 6 {
        3
    } else if r == 7 {
        13
    } else if r == 8 {
        14
    } else if r == 9 {
        15
    } else {
        5
    }
}

/// The REX prefix byte: 0x40 plus the W, R, X and B extension bits.
pub open spec fn spec_rex(w: bool, r: u8, x: u8, b: u8) -> u8 {
    (0x40 + (if w {
        8int
    } else {
        0int
    }) + (if r >= 8 {
        4int
    } else {
        0int
    }) + (if x >= 8 {
        2int
    } else {
        0int
    }) + (if b >= 8 {
        1int
    } else {
        0int
    })) as u8
}

fn rex(w: bool, r: u8, x: u8, b: u8) -> (out: u8)
    ensures
        out == spec_rex(w, r, x, b),
{
    let mut v: u8 = 0x40;
    if w {
        v = v + 8;
    }
    if r >= 8 {
        v = v + 4;
    }
    if x >= 8 {
        v = v + 2;
    }
    if b >= 8 {
        v = v + 1;
    }
    v
}

/// The ModR/M byte from its mode, register and r/m fields.
pub open spec fn spec_modrm(md: u8, reg: u8, rm: u8) -> u8 {
    ((md & 0x3) << 6) | ((reg & 0x7) << 3) | (rm & 0x7)
}

fn modrm(md: u8, reg: u8, rm: u8) -> (out: u8)
    ensures
        out == spec_modrm(md, reg, rm),
{
    proof {
        assert(((md & 0x3) << 6) < 256 && ((reg & 0x7) << 3) < 256) by (bit_vector);
    }
    ((md & 0x3) << 6) | ((reg & 0x7) << 3) | (rm & 0x7)
}

/// The 4 little-endian bytes of a 32-bit immediate.
pub open spec fn spec_le32(imm: i32) -> Seq<u8> {
    let v = imm as u32;
    seq![
        (v % 256) as u8,
        ((v / 256) % 256) as u8,
        ((v / 0x10000) % 256) as u8,
        ((v / 0x1000000) % 256) as u8,
    ]
}

/// The 8 little-endian bytes of a 64-bit immediate.
pub open spec fn spec_le64_bytes(v: u64) -> Seq<u8> {
    seq![
        (v % 256) as u8,
        ((v / 256) % 256) as u8,
        ((v / 0x10000) % 256) as u8,
        ((v / 0x1000000) % 256) as u8,
        ((v / 0x100000000) % 256) as u8,
        ((v / 0x10000000000) % 256) as u8,
        ((v / 0x1000000000000) % 256) as u8,
        ((v / 0x100000000000000) % 256) as u8,
    ]
}

/// The growing code buffer, the pending jump patches, and the offset of each
/// lowered bytecode instruction.
pub struct X64Emitter {
    code: Vec<u8>,
    jump_patches: Vec<(usize, usize)>,
    insn_offsets: Vec<usize>,
}

impl X64Emitter {
    /// The emitted bytes.
    pub closed spec fn spec_code(&self) -> Seq<u8> {
        self.code@
    }

    /// Every pending patch has 4 displacement bytes inside the buffer.
    pub closed spec fn wf(&self) -> bool {
        forall|i: int|
            0 <= i < self.jump_patches@.len() ==> (#[trigger] self.jump_patches@[i]).0 + 4
                <= self.code@.len()
    }

    pub fn new(capacity: usize) -> (r: Self)
        ensures
            r.spec_code().len() == 0,
            r.wf(),
    {
        X64Emitter {
            code: Vec::with_capacity(capacity),
            jump_patches: Vec::new(),
            insn_offsets: Vec::new(),
        }
    }

    /// The emitted bytes.
    pub fn code(&self) -> (r: &Vec<u8>)
        ensures
            r@ == self.spec_code(),
    {
        &self.code
    }

    /// Current length of the emitted code.
    fn offset(&self) -> (r: usize)
        ensures
            r == self.spec_code().len(),
    {
        self.code.len()
    }

    /// Records the start of the lowering of one bytecode instruction.
    fn mark_insn(&mut self)
        ensures
            final(self).code@ == old(self).code@,
            final(self).jump_patches == old(self).jump_patches,
            old(self).wf() ==> final(self).wf(),
    {
        let off = self.code.len();
        self.insn_offsets.push(off);
    }

    /// Records that the last 4 emitted bytes are a displacement to patch
    /// toward bytecode instruction `target_insn`.
    fn record_jump(&mut self, target_insn: usize)
        requires
            old(self).spec_code().len() >= 4,
        ensures
            final(self).code@ == old(self).code@,
            final(self).insn_offsets == old(self).insn_offsets,
            old(self).wf() ==> final(self).wf(),
    {
        let off = self.code.len() - 4;
        self.jump_patches.push((off, target_insn));
        proof {
            if old(self).wf() {
                assert forall|i: int| 0 <= i < self.jump_patches@.len() implies (
                #[trigger] self.jump_patches@[i]).0 + 4 <= self.code@.len() by {
                    if i < old(self).jump_patches@.len() {
                        assert(old(self).jump_patches@[i].0 + 4 <= old(self).code@.len());
                    }
                }
            }
        }
    }

    /// Appends the 4 little-endian bytes of `imm`.
    fn push_le32(&mut self, imm: i32)
        ensures
            final(self).code@ == old(self).code@ + spec_le32(imm),
            final(self).jump_patches == old(self).jump_patches,
            final(self).insn_offsets == old(self).insn_offsets,
            old(self).wf() ==> final(self).wf(),
    {
        let v = imm as u32;
        self.code.push((v % 256) as u8);
        self.code.push(((v / 256) % 256) as u8);
        self.code.push(((v / 0x10000) % 256) as u8);
        self.code.push(((v / 0x1000000) % 256) as u8);
        proof {
            assert(self.code@ =~= old(self).code@ + spec_le32(imm));
            if old(self).wf() {
                assert forall|i: int| 0 <= i < self.jump_patches@.len() implies (
                #[trigger] self.jump_patches@[i]).0 + 4 <= self.code@.len() by {
                    assert(old(self).jump_patches@[i].0 + 4 <= old(self).code@.len());
                }
            }
        }
    }

    /// Appends the 8 little-endian bytes of `v`.
    fn push_le64(&mut self, v: u64)
        ensures
            final(self).code@ == old(self).code@ + spec_le64_bytes(v),
            final(self).jump_patches == old(self).jump_patches,
            final(self).insn_offsets == old(self).insn_offsets,
            old(self).wf() ==> final(self).wf(),
    {
        self.code.push((v % 256) as u8);
        self.code.push(((v / 256) % 256) as u8);
        self.code.push(((v / 0x10000) % 256) as u8);
        self.code.push(((v / 0x1000000) % 256) as u8);
        self.code.push(((v / 0x100000000) % 256) as u8);
        self.code.push(((v / 0x10000000000) % 256) as u8);
        self.code.push(((v / 0x1000000000000) % 256) as u8);
        self.code.push(((v / 0x100000000000000) % 256) as u8);
        proof {
            assert(self.code@ =~= old(self).code@ + spec_le64_bytes(v));
            if old(self).wf() {
                assert forall|i: int| 0 <= i < self.jump_patches@.len() implies (
                #[trigger] self.jump_patches@[i]).0 + 4 <= self.code@.len() by {
                    assert(old(self).jump_patches@[i].0 + 4 <= old(self).code@.len());
                }
            }
        }
    }

    /// `mov dst, src` on 64 bits: REX.W 89 /r.
    pub fn emit_mov_reg(&mut self, dst: u8, src: u8)
        ensures
            final(self).spec_code() == old(self).spec_code() + seq![
                spec_rex(true, src, 0, dst),
                0x89u8,
                spec_modrm(3, src, dst),
            ],
            old(self).wf() ==> final(self).wf(),
    {
        self.code.push(rex(true, src, 0, dst));
        self.code.push(0x89);
        self.code.push(modrm(3, src, dst));
        proof {
            assert(self.code@ =~= old(self).code@ + seq![spec_rex(true, src, 0, dst), 0x89u8, spec_modrm(3, src, dst)]);
            if old(self).wf() {
                assert forall|i: int| 0 <= i < self.jump_patches@.len() implies (
                #[trigger] self.jump_patches@[i]).0 + 4 <= self.code@.len() by {
                    assert(old(self).jump_patches@[i].0 + 4 <= old(self).code@.len());
                }
            }
        }
    }

    /// `add dst, src`: REX.W 01 /r.
    pub fn emit_add_reg(&mut self, dst: u8, src: u8)
        ensures
            final(self).spec_code() == old(self).spec_code() + seq![
                spec_rex(true, src, 0, dst),
                0x01u8,
                spec_modrm(3, src, dst),
            ],
            old(self).wf() ==> final(self).wf(),
    {
        self.code.push(rex(true, src, 0, dst));
        self.code.push(0x01);
        self.code.push(modrm(3, src, dst));
        proof {
            assert(self.code@ =~= old(self).code@ + seq![spec_rex(true, src, 0, dst), 0x01u8, spec_modrm(3, src, dst)]);
            if old(self).wf() {
                assert forall|i: int| 0 <= i < self.jump_patches@.len() implies (
                #[trigger] self.jump_patches@[i]).0 + 4 <= self.code@.len() by {
                    assert(old(self).jump_patches@[i].0 + 4 <= old(self).code@.len());
                }
            }
        }
    }

    /// `sub dst, src`: REX.W 29 /r.
    fn emit_sub_reg(&mut self, dst: u8, src: u8)
        ensures
            final(self).code@ == old(self).code@ + seq![spec_rex(true, src, 0, dst), 0x29u8, spec_modrm(3, src, dst)],
            final(self).jump_patches == old(self).jump_patches,
            final(self).insn_offsets == old(self).insn_offsets,
            old(self).wf() ==> final(self).wf(),
    {
        self.code.push(rex(true, src, 0, dst));
        self.code.push(0x29);
        self.code.push(modrm(3, src, dst));
        proof {
            assert(self.code@ =~= old(self).code@ + seq![spec_rex(true, src, 0, dst), 0x29u8, spec_modrm(3, src, dst)]);
            if old(self).wf() {
                assert forall|i: int| 0 <= i < self.jump_patches@.len() implies (
                #[trigger] self.jump_patches@[i]).0 + 4 <= self.code@.len() by {
                    assert(old(self).jump_patches@[i].0 + 4 <= old(self).code@.len());
                }
            }
        }
    }

    /// `and dst, src`: REX.W 21 /r.
    fn emit_and_reg(&mut self, dst: u8, src: u8)
        ensures
            final(self).code@ == old(self).code@ + seq![spec_rex(true, src, 0, dst), 0x21u8, spec_modrm(3, src, dst)],
            final(self).jump_patches == old(self).jump_patches,
            final(self).insn_offsets == old(self).insn_offsets,
            old(self).wf() ==> final(self).wf(),
    {
        self.code.push(rex(true, src, 0, dst));
        self.code.push(0x21);
        self.code.push(modrm(3, src, dst));
        proof {
            assert(self.code@ =~= old(self).code@ + seq![spec_rex(true, src, 0, dst), 0x21u8, spec_modrm(3, src, dst)]);
            if old(self).wf() {
                assert forall|i: int| 0 <= i < self.jump_patches@.len() implies (
                #[trigger] self.jump_patches@[i]).0 + 4 <= self.code@.len() by {
                    assert(old(self).jump_patches@[i].0 + 4 <= old(self).code@.len());
                }
            }
        }
    }

    /// `or dst, src`: REX.W 09 /r.
    fn emit_or_reg(&mut self, dst: u8, src: u8)
        ensures
            final(self).code@ == old(self).code@ + seq![spec_rex(true, src, 0, dst), 0x09u8, spec_modrm(3, src, dst)],
            final(self).jump_patches == old(self).jump_patches,
            final(self).insn_offsets == old(self).insn_offsets,
            old(self).wf() ==> final(self).wf(),
    {
        self.code.push(rex(true, src, 0, dst));
        self.code.push(0x09);
        self.code.push(modrm(3, src, dst));
        proof {
            assert(self.code@ =~= old(self).code@ + seq![spec_rex(true, src, 0, dst), 0x09u8, spec_modrm(3, src, dst)]);
            if old(self).wf() {
                assert forall|i: int| 0 <= i < self.jump_patches@.len() implies (
                #[trigger] self.jump_patches@[i]).0 + 4 <= self.code@.len() by {
                    assert(old(self).jump_patches@[i].0 + 4 <= old(self).code@.len());
                }
            }
        }
    }

    /// `xor dst, src`: REX.W 31 /r.
    fn emit_xor_reg(&mut self, dst: u8, src: u8)
        ensures
            final(self).code@ == old(self).code@ + seq![spec_rex(true, src, 0, dst), 0x31u8, spec_modrm(3, src, dst)],
            final(self).jump_patches == old(self).jump_patches,
            final(self).insn_offsets == old(self).insn_offsets,
            old(self).wf() ==> final(self).wf(),
    {
        self.code.push(rex(true, src, 0, dst));
        self.code.push(0x31);
        self.code.push(modrm(3, src, dst));
        proof {
            assert(self.code@ =~= old(self).code@ + seq![spec_rex(true, src, 0, dst), 0x31u8, spec_modrm(3, src, dst)]);
            if old(self).wf() {
                assert forall|i: int| 0 <= i < self.jump_patches@.len() implies (
                #[trigger] self.jump_patches@[i]).0 + 4 <= self.code@.len() by {
                    assert(old(self).jump_patches@[i].0 + 4 <= old(self).code@.len());
                }
            }
        }
    }

    /// `cmp dst, src`: REX.W 39 /r.
    fn emit_cmp_reg(&mut self, dst: u8, src: u8)
        ensures
            final(self).code@ == old(self).code@ + seq![spec_rex(true, src, 0, dst), 0x39u8, spec_modrm(3, src, dst)],
            final(self).jump_patches == old(self).jump_patches,
            final(self).insn_offsets == old(self).insn_offsets,
            old(self).wf() ==> final(self).wf(),
    {
        self.code.push(rex(true, src, 0, dst));
        self.code.push(0x39);
        self.code.push(modrm(3, src, dst));
        proof {
            assert(self.code@ =~= old(self).code@ + seq![spec_rex(true, src, 0, dst), 0x39u8, spec_modrm(3, src, dst)]);
            if old(self).wf() {
                assert forall|i: int| 0 <= i < self.jump_patches@.len() implies (
                #[trigger] self.jump_patches@[i]).0 + 4 <= self.code@.len() by {
                    assert(old(self).jump_patches@[i].0 + 4 <= old(self).code@.len());
                }
            }
        }
    }

    /// `test dst, src`: REX.W 85 /r.
    fn emit_test_reg(&mut self, dst: u8, src: u8)
        ensures
            final(self).code@ == old(self).code@ + seq![spec_rex(true, src, 0, dst), 0x85u8, spec_modrm(3, src, dst)],
            final(self).jump_patches == old(self).jump_patches,
            final(self).insn_offsets == old(self).insn_offsets,
            old(self).wf() ==> final(self).wf(),
    {
        self.code.push(rex(true, src, 0, dst));
        self.code.push(0x85);
        self.code.push(modrm(3, src, dst));
        proof {
            assert(self.code@ =~= old(self).code@ + seq![spec_rex(true, src, 0, dst), 0x85u8, spec_modrm(3, src, dst)]);
            if old(self).wf() {
                assert forall|i: int| 0 <= i < self.jump_patches@.len() implies (
                #[trigger] self.jump_patches@[i]).0 + 4 <= self.code@.len() by {
                    assert(old(self).jump_patches@[i].0 + 4 <= old(self).code@.len());
                }
            }
        }
    }

    /// `add dst, imm32`: REX.W 81 /0 id.
    fn emit_add_imm32(&mut self, dst: u8, imm: i32)
        ensures
            final(self).code@ == old(self).code@ + seq![spec_rex(true, 0, 0, dst), 0x81u8, spec_modrm(3, 0, dst)] + spec_le32(imm),
            final(self).jump_patches == old(self).jump_patches,
            final(self).insn_offsets == old(self).insn_offsets,
            old(self).wf() ==> final(self).wf(),
    {
        self.code.push(rex(true, 0, 0, dst));
        self.code.push(0x81);
        self.code.push(modrm(3, 0, dst));
        self.push_le32(imm);
        proof {
            assert(self.code@ =~= old(self).code@ + seq![spec_rex(true, 0, 0, dst), 0x81u8, spec_modrm(3, 0, dst)] + spec_le32(imm));
            if old(self).wf() {
                assert forall|i: int| 0 <= i < self.jump_patches@.len() implies (
                #[trigger] self.jump_patches@[i]).0 + 4 <= self.code@.len() by {
                    assert(old(self).jump_patches@[i].0 + 4 <= old(self).code@.len());
                }
            }
        }
    }

    /// `or dst, imm32`: REX.W 81 /1 id.
    fn emit_or_imm32(&mut self, dst: u8, imm: i32)
        ensures
            final(self).code@ == old(self).code@ + seq![spec_rex(true, 0, 0, dst), 0x81u8, spec_modrm(3, 1, dst)] + spec_le32(imm),
            final(self).jump_patches == old(self).jump_patches,
            final(self).insn_offsets == old(self).insn_offsets,
            old(self).wf() ==> final(self).wf(),
    {
        self.code.push(rex(true, 0, 0, dst));
        self.code.push(0x81);
        self.code.push(modrm(3, 1, dst));
        self.push_le32(imm);
        proof {
            assert(self.code@ =~= old(self).code@ + seq![spec_rex(true, 0, 0, dst), 0x81u8, spec_modrm(3, 1, dst)] + spec_le32(imm));
            if old(self).wf() {
                assert forall|i: int| 0 <= i < self.jump_patches@.len() implies (
                #[trigger] self.jump_patches@[i]).0 + 4 <= self.code@.len() by {
                    assert(old(self).jump_patches@[i].0 + 4 <= old(self).code@.len());
                }
            }
        }
    }

    /// `and dst, imm32`: REX.W 81 /4 id.
    fn emit_and_imm32(&mut self, dst: u8, imm: i32)
        ensures
            final(self).code@ == old(self).code@ + seq![spec_rex(true, 0, 0, dst), 0x81u8, spec_modrm(3, 4, dst)] + spec_le32(imm),
            final(self).jump_patches == old(self).jump_patches,
            final(self).insn_offsets == old(self).insn_offsets,
            old(self).wf() ==> final(self).wf(),
    {
        self.code.push(rex(true, 0, 0, dst));
        self.code.push(0x81);
        self.code.push(modrm(3, 4, dst));
        self.push_le32(imm);
        proof {
            assert(self.code@ =~= old(self).code@ + seq![spec_rex(true, 0, 0, dst), 0x81u8, spec_modrm(3, 4, dst)] + spec_le32(imm));
            if old(self).wf() {
                assert forall|i: int| 0 <= i < self.jump_patches@.len() implies (
                #[trigger] self.jump_patches@[i]).0 + 4 <= self.code@.len() by {
                    assert(old(self).jump_patches@[i].0 + 4 <= old(self).code@.len());
                }
            }
        }
    }

    /// `sub dst, imm32`: REX.W 81 /5 id.
    fn emit_sub_imm32(&mut self, dst: u8, imm: i32)
        ensures
            final(self).code@ == old(self).code@ + seq![spec_rex(true, 0, 0, dst), 0x81u8, spec_modrm(3, 5, dst)] + spec_le32(imm),
            final(self).jump_patches == old(self).jump_patches,
            final(self).insn_offsets == old(self).insn_offsets,
            old(self).wf() ==> final(self).wf(),
    {
        self.code.push(rex(true, 0, 0, dst));
        self.code.push(0x81);
        self.code.push(modrm(3, 5, dst));
        self.push_le32(imm);
        proof {
            assert(self.code@ =~= old(self).code@ + seq![spec_rex(true, 0, 0, dst), 0x81u8, spec_modrm(3, 5, dst)] + spec_le32(imm));
            if old(self).wf() {
                assert forall|i: int| 0 <= i < self.jump_patches@.len() implies (
                #[trigger] self.jump_patches@[i]).0 + 4 <= self.code@.len() by {
                    assert(old(self).jump_patches@[i].0 + 4 <= old(self).code@.len());
                }
            }
        }
    }

    /// `xor dst, imm32`: REX.W 81 /6 id.
    fn emit_xor_imm32(&mut self, dst: u8, imm: i32)
        ensures
            final(self).code@ == old(self).code@ + seq![spec_rex(true, 0, 0, dst), 0x81u8, spec_modrm(3, 6, dst)] + spec_le32(imm),
            final(self).jump_patches == old(self).jump_patches,
            final(self).insn_offsets == old(self).insn_offsets,
            old(self).wf() ==> final(self).wf(),
    {
        self.code.push(rex(true, 0, 0, dst));
        self.code.push(0x81);
        self.code.push(modrm(3, 6, dst));
        self.push_le32(imm);
        proof {
            assert(self.code@ =~= old(self).code@ + seq![spec_rex(true, 0, 0, dst), 0x81u8, spec_modrm(3, 6, dst)] + spec_le32(imm));
            if old(self).wf() {
                assert forall|i: int| 0 <= i < self.jump_patches@.len() implies (
                #[trigger] self.jump_patches@[i]).0 + 4 <= self.code@.len() by {
                    assert(old(self).jump_patches@[i].0 + 4 <= old(self).code@.len());
                }
            }
        }
    }

    /// `cmp dst, imm32`: REX.W 81 /7 id.
    fn emit_cmp_imm32(&mut self, dst: u8, imm: i32)
        ensures
            final(self).code@ == old(self).code@ + seq![spec_rex(true, 0, 0, dst), 0x81u8, spec_modrm(3, 7, dst)] + spec_le32(imm),
            final(self).jump_patches == old(self).jump_patches,
            final(self).insn_offsets == old(self).insn_offsets,
            old(self).wf() ==> final(self).wf(),
    {
        self.code.push(rex(true, 0, 0, dst));
        self.code.push(0x81);
        self.code.push(modrm(3, 7, dst));
        self.push_le32(imm);
        proof {
            assert(self.code@ =~= old(self).code@ + seq![spec_rex(true, 0, 0, dst), 0x81u8, spec_modrm(3, 7, dst)] + spec_le32(imm));
            if old(self).wf() {
                assert forall|i: int| 0 <= i < self.jump_patches@.len() implies (
                #[trigger] self.jump_patches@[i]).0 + 4 <= self.code@.len() by {
                    assert(old(self).jump_patches@[i].0 + 4 <= old(self).code@.len());
                }
            }
        }
    }

    /// `shl dst, cl`: REX.W D3 /4.
    fn emit_shl_cl(&mut self, dst: u8)
        ensures
            final(self).code@ == old(self).code@ + seq![spec_rex(true, 0, 0, dst), 0xD3u8, spec_modrm(3, 4, dst)],
            final(self).jump_patches == old(self).jump_patches,
            final(self).insn_offsets == old(self).insn_offsets,
            old(self).wf() ==> final(self).wf(),
    {
        self.code.push(rex(true, 0, 0, dst));
        self.code.push(0xD3);
        self.code.push(modrm(3, 4, dst));
        proof {
            assert(self.code@ =~= old(self).code@ + seq![spec_rex(true, 0, 0, dst), 0xD3u8, spec_modrm(3, 4, dst)]);
            if old(self).wf() {
                assert forall|i: int| 0 <= i < self.jump_patches@.len() implies (
                #[trigger] self.jump_patches@[i]).0 + 4 <= self.code@.len() by {
                    assert(old(self).jump_patches@[i].0 + 4 <= old(self).code@.len());
                }
            }
        }
    }

    /// `shr dst, cl`: REX.W D3 /5.
    fn emit_shr_cl(&mut self, dst: u8)
        ensures
            final(self).code@ == old(self).code@ + seq![spec_rex(true, 0, 0, dst), 0xD3u8, spec_modrm(3, 5, dst)],
            final(self).jump_patches == old(self).jump_patches,
            final(self).insn_offsets == old(self).insn_offsets,
            old(self).wf() ==> final(self).wf(),
    {
        self.code.push(rex(true, 0, 0, dst));
        self.code.push(0xD3);
        self.code.push(modrm(3, 5, dst));
        proof {
            assert(self.code@ =~= old(self).code@ + seq![spec_rex(true, 0, 0, dst), 0xD3u8, spec_modrm(3, 5, dst)]);
            if old(self).wf() {
                assert forall|i: int| 0 <= i < self.jump_patches@.len() implies (
                #[trigger] self.jump_patches@[i]).0 + 4 <= self.code@.len() by {
                    assert(old(self).jump_patches@[i].0 + 4 <= old(self).code@.len());
                }
            }
        }
    }

    /// `sar dst, cl`: REX.W D3 /7.
    fn emit_sar_cl(&mut self, dst: u8)
        ensures
            final(self).code@ == old(self).code@ + seq![spec_rex(true, 0, 0, dst), 0xD3u8, spec_modrm(3, 7, dst)],
            final(self).jump_patches == old(self).jump_patches,
            final(self).insn_offsets == old(self).insn_offsets,
            old(self).wf() ==> final(self).wf(),
    {
        self.code.push(rex(true, 0, 0, dst));
        self.code.push(0xD3);
        self.code.push(modrm(3, 7, dst));
        proof {
            assert(self.code@ =~= old(self).code@ + seq![spec_rex(true, 0, 0, dst), 0xD3u8, spec_modrm(3, 7, dst)]);
            if old(self).wf() {
                assert forall|i: int| 0 <= i < self.jump_patches@.len() implies (
                #[trigger] self.jump_patches@[i]).0 + 4 <= self.code@.len() by {
                    assert(old(self).jump_patches@[i].0 + 4 <= old(self).code@.len());
                }
            }
        }
    }

    /// `shl dst, imm8`: REX.W C1 /4 ib.
    fn emit_shl_imm(&mut self, dst: u8, imm: u8)
        ensures
            final(self).code@ == old(self).code@ + seq![spec_rex(true, 0, 0, dst), 0xC1u8, spec_modrm(3, 4, dst), (imm & 0x3f) as u8],
            final(self).jump_patches == old(self).jump_patches,
            final(self).insn_offsets == old(self).insn_offsets,
            old(self).wf() ==> final(self).wf(),
    {
        self.code.push(rex(true, 0, 0, dst));
        self.code.push(0xC1);
        self.code.push(modrm(3, 4, dst));
        self.code.push(imm & 0x3f);
        proof {
            assert(self.code@ =~= old(self).code@ + seq![spec_rex(true, 0, 0, dst), 0xC1u8, spec_modrm(3, 4, dst), (imm & 0x3f) as u8]);
            if old(self).wf() {
                assert forall|i: int| 0 <= i < self.jump_patches@.len() implies (
                #[trigger] self.jump_patches@[i]).0 + 4 <= self.code@.len() by {
                    assert(old(self).jump_patches@[i].0 + 4 <= old(self).code@.len());
                }
            }
        }
    }

    /// `shr dst, imm8`: REX.W C1 /5 ib.
    fn emit_shr_imm(&mut self, dst: u8, imm: u8)
        ensures
            final(self).code@ == old(self).code@ + seq![spec_rex(true, 0, 0, dst), 0xC1u8, spec_modrm(3, 5, dst), (imm & 0x3f) as u8],
            final(self).jump_patches == old(self).jump_patches,
            final(self).insn_offsets == old(self).insn_offsets,
            old(self).wf() ==> final(self).wf(),
    {
        self.code.push(rex(true, 0, 0, dst));
        self.code.push(0xC1);
        self.code.push(modrm(3, 5, dst));
        self.code.push(imm & 0x3f);
        proof {
            assert(self.code@ =~= old(self).code@ + seq![spec_rex(true, 0, 0, dst), 0xC1u8, spec_modrm(3, 5, dst), (imm & 0x3f) as u8]);
            if old(self).wf() {
                assert forall|i: int| 0 <= i < self.jump_patches@.len() implies (
                #[trigger] self.jump_patches@[i]).0 + 4 <= self.code@.len() by {
                    assert(old(self).jump_patches@[i].0 + 4 <= old(self).code@.len());
                }
            }
        }
    }

    /// `sar dst, imm8`: REX.W C1 /7 ib.
    fn emit_sar_imm(&mut self, dst: u8, imm: u8)
        ensures
            final(self).code@ == old(self).code@ + seq![spec_rex(true, 0, 0, dst), 0xC1u8, spec_modrm(3, 7, dst), (imm & 0x3f) as u8],
            final(self).jump_patches == old(self).jump_patches,
            final(self).insn_offsets == old(self).insn_offsets,
            old(self).wf() ==> final(self).wf(),
    {
        self.code.push(rex(true, 0, 0, dst));
        self.code.push(0xC1);
        self.code.push(modrm(3, 7, dst));
        self.code.push(imm & 0x3f);
        proof {
            assert(self.code@ =~= old(self).code@ + seq![spec_rex(true, 0, 0, dst), 0xC1u8, spec_modrm(3, 7, dst), (imm & 0x3f) as u8]);
            if old(self).wf() {
                assert forall|i: int| 0 <= i < self.jump_patches@.len() implies (
                #[trigger] self.jump_patches@[i]).0 + 4 <= self.code@.len() by {
                    assert(old(self).jump_patches@[i].0 + 4 <= old(self).code@.len());
                }
            }
        }
    }

    /// `neg reg`: REX.W F7 /3.
    fn emit_neg(&mut self, reg: u8)
        ensures
            final(self).code@ == old(self).code@ + seq![spec_rex(true, 0, 0, reg), 0xF7u8, spec_modrm(3, 3, reg)],
            final(self).jump_patches == old(self).jump_patches,
            final(self).insn_offsets == old(self).insn_offsets,
            old(self).wf() ==> final(self).wf(),
    {
        self.code.push(rex(true, 0, 0, reg));
        self.code.push(0xF7);
        self.code.push(modrm(3, 3, reg));
        proof {
            assert(self.code@ =~= old(self).code@ + seq![spec_rex(true, 0, 0, reg), 0xF7u8, spec_modrm(3, 3, reg)]);
            if old(self).wf() {
                assert forall|i: int| 0 <= i < self.jump_patches@.len() implies (
                #[trigger] self.jump_patches@[i]).0 + 4 <= self.code@.len() by {
                    assert(old(self).jump_patches@[i].0 + 4 <= old(self).code@.len());
                }
            }
        }
    }

    /// `div reg` (unsigned RDX:RAX / reg): REX.W F7 /6.
    fn emit_div_reg(&mut self, reg: u8)
        ensures
            final(self).code@ == old(self).code@ + seq![spec_rex(true, 0, 0, reg), 0xF7u8, spec_modrm(3, 6, reg)],
            final(self).jump_patches == old(self).jump_patches,
            final(self).insn_offsets == old(self).insn_offsets,
            old(self).wf() ==> final(self).wf(),
    {
        self.code.push(rex(true, 0, 0, reg));
        self.code.push(0xF7);
        self.code.push(modrm(3, 6, reg));
        proof {
            assert(self.code@ =~= old(self).code@ + seq![spec_rex(true, 0, 0, reg), 0xF7u8, spec_modrm(3, 6, reg)]);
            if old(self).wf() {
                assert forall|i: int| 0 <= i < self.jump_patches@.len() implies (
                #[trigger] self.jump_patches@[i]).0 + 4 <= self.code@.len() by {
                    assert(old(self).jump_patches@[i].0 + 4 <= old(self).code@.len());
                }
            }
        }
    }

    /// `imul dst, src`: REX.W 0F AF /r.
    fn emit_imul_reg(&mut self, dst: u8, src: u8)
        ensures
            final(self).code@ == old(self).code@ + seq![spec_rex(true, dst, 0, src), 0x0Fu8, 0xAFu8, spec_modrm(3, dst, src)],
            final(self).jump_patches == old(self).jump_patches,
            final(self).insn_offsets == old(self).insn_offsets,
            old(self).wf() ==> final(self).wf(),
    {
        self.code.push(rex(true, dst, 0, src));
        self.code.push(0x0F);
        self.code.push(0xAF);
        self.code.push(modrm(3, dst, src));
        proof {
            assert(self.code@ =~= old(self).code@ + seq![spec_rex(true, dst, 0, src), 0x0Fu8, 0xAFu8, spec_modrm(3, dst, src)]);
            if old(self).wf() {
                assert forall|i: int| 0 <= i < self.jump_patches@.len() implies (
                #[trigger] self.jump_patches@[i]).0 + 4 <= self.code@.len() by {
                    assert(old(self).jump_patches@[i].0 + 4 <= old(self).code@.len());
                }
            }
        }
    }

    /// `mov dst, imm64`: REX.W B8+rd io.
    fn emit_mov_imm64(&mut self, dst: u8, imm: i64)
        ensures
            final(self).code@ == old(self).code@ + seq![spec_rex(true, 0, 0, dst), (0xB8 + (dst & 7)) as u8] + spec_le64_bytes(imm as u64),
            final(self).jump_patches == old(self).jump_patches,
            final(self).insn_offsets == old(self).insn_offsets,
            old(self).wf() ==> final(self).wf(),
    {
        self.code.push(rex(true, 0, 0, dst));
        proof {
            assert(dst & 0x7 < 8) by (bit_vector);
        }
        self.code.push(0xB8 + (dst & 0x7));
        self.push_le64(imm as u64);
        proof {
            assert(self.code@ =~= old(self).code@ + seq![spec_rex(true, 0, 0, dst), (0xB8 + (dst & 7)) as u8] + spec_le64_bytes(imm as u64));
            if old(self).wf() {
                assert forall|i: int| 0 <= i < self.jump_patches@.len() implies (
                #[trigger] self.jump_patches@[i]).0 + 4 <= self.code@.len() by {
                    assert(old(self).jump_patches@[i].0 + 4 <= old(self).code@.len());
                }
            }
        }
    }

    /// `mov dst, imm32` sign-extended: REX.W C7 /0 id.
    fn emit_mov_imm32(&mut self, dst: u8, imm: i32)
        ensures
            final(self).code@ == old(self).code@ + seq![spec_rex(true, 0, 0, dst), 0xC7u8, spec_modrm(3, 0, dst)] + spec_le32(imm),
            final(self).jump_patches == old(self).jump_patches,
            final(self).insn_offsets == old(self).insn_offsets,
            old(self).wf() ==> final(self).wf(),
    {
        self.code.push(rex(true, 0, 0, dst));
        self.code.push(0xC7);
        self.code.push(modrm(3, 0, dst));
        self.push_le32(imm);
        proof {
            assert(self.code@ =~= old(self).code@ + seq![spec_rex(true, 0, 0, dst), 0xC7u8, spec_modrm(3, 0, dst)] + spec_le32(imm));
            if old(self).wf() {
                assert forall|i: int| 0 <= i < self.jump_patches@.len() implies (
                #[trigger] self.jump_patches@[i]).0 + 4 <= self.code@.len() by {
                    assert(old(self).jump_patches@[i].0 + 4 <= old(self).code@.len());
                }
            }
        }
    }

    /// `jmp rel32`: E9 cd.
    fn emit_jmp_rel32(&mut self, off: i32)
        ensures
            final(self).code@ == old(self).code@ + seq![0xE9u8] + spec_le32(off),
            final(self).jump_patches == old(self).jump_patches,
            final(self).insn_offsets == old(self).insn_offsets,
            old(self).wf() ==> final(self).wf(),
    {
        self.code.push(0xE9);
        self.push_le32(off);
        proof {
            assert(self.code@ =~= old(self).code@ + seq![0xE9u8] + spec_le32(off));
            if old(self).wf() {
                assert forall|i: int| 0 <= i < self.jump_patches@.len() implies (
                #[trigger] self.jump_patches@[i]).0 + 4 <= self.code@.len() by {
                    assert(old(self).jump_patches@[i].0 + 4 <= old(self).code@.len());
                }
            }
        }
    }

    /// `jcc rel32`: 0F 80+cc cd.
    fn emit_jcc_rel32(&mut self, cc: u8, off: i32)
        requires
            cc < 0x10,
        ensures
            final(self).code@ == old(self).code@ + seq![0x0Fu8, (0x80 + cc) as u8] + spec_le32(off),
            final(self).jump_patches == old(self).jump_patches,
            final(self).insn_offsets == old(self).insn_offsets,
            old(self).wf() ==> final(self).wf(),
    {
        self.code.push(0x0F);
        self.code.push(0x80 + cc);
        self.push_le32(off);
        proof {
            assert(self.code@ =~= old(self).code@ + seq![0x0Fu8, (0x80 + cc) as u8] + spec_le32(off));
            if old(self).wf() {
                assert forall|i: int| 0 <= i < self.jump_patches@.len() implies (
                #[trigger] self.jump_patches@[i]).0 + 4 <= self.code@.len() by {
                    assert(old(self).jump_patches@[i].0 + 4 <= old(self).code@.len());
                }
            }
        }
    }

    /// `ret`: C3.
    fn emit_ret(&mut self)
        ensures
            final(self).code@ == old(self).code@ + seq![0xC3u8],
            final(self).jump_patches == old(self).jump_patches,
            final(self).insn_offsets == old(self).insn_offsets,
            old(self).wf() ==> final(self).wf(),
    {
        self.code.push(0xC3);
        proof {
            assert(self.code@ =~= old(self).code@ + seq![0xC3u8]);
            if old(self).wf() {
                assert forall|i: int| 0 <= i < self.jump_patches@.len() implies (
                #[trigger] self.jump_patches@[i]).0 + 4 <= self.code@.len() by {
                    assert(old(self).jump_patches@[i].0 + 4 <= old(self).code@.len());
                }
            }
        }
    }

    /// `push reg`: 50+rd, with REX.B for r8..r15.
    fn emit_push(&mut self, reg: u8)
        ensures
            final(self).code@ == old(self).code@ + (if reg >= 8 { seq![0x41u8] } else { Seq::<u8>::empty() }) + seq![(0x50 + (reg & 7)) as u8],
            final(self).jump_patches == old(self).jump_patches,
            final(self).insn_offsets == old(self).insn_offsets,
            old(self).wf() ==> final(self).wf(),
    {
        if reg >= 8 {
            self.code.push(0x41);
        }
        proof {
            assert(reg & 0x7 < 8) by (bit_vector);
        }
        self.code.push(0x50 + (reg & 0x7));
        proof {
            assert(self.code@ =~= old(self).code@ + (if reg >= 8 { seq![0x41u8] } else { Seq::<u8>::empty() }) + seq![(0x50 + (reg & 7)) as u8]);
            if old(self).wf() {
                assert forall|i: int| 0 <= i < self.jump_patches@.len() implies (
                #[trigger] self.jump_patches@[i]).0 + 4 <= self.code@.len() by {
                    assert(old(self).jump_patches@[i].0 + 4 <= old(self).code@.len());
                }
            }
        }
    }

    /// `pop reg`: 58+rd, with REX.B for r8..r15.
    fn emit_pop(&mut self, reg: u8)
        ensures
            final(self).code@ == old(self).code@ + (if reg >= 8 { seq![0x41u8] } else { Seq::<u8>::empty() }) + seq![(0x58 + (reg & 7)) as u8],
            final(self).jump_patches == old(self).jump_patches,
            final(self).insn_offsets == old(self).insn_offsets,
            old(self).wf() ==> final(self).wf(),
    {
        if reg >= 8 {
            self.code.push(0x41);
        }
        proof {
            assert(reg & 0x7 < 8) by (bit_vector);
        }
        self.code.push(0x58 + (reg & 0x7));
        proof {
            assert(self.code@ =~= old(self).code@ + (if reg >= 8 { seq![0x41u8] } else { Seq::<u8>::empty() }) + seq![(0x58 + (reg & 7)) as u8]);
            if old(self).wf() {
                assert forall|i: int| 0 <= i < self.jump_patches@.len() implies (
                #[trigger] self.jump_patches@[i]).0 + 4 <= self.code@.len() by {
                    assert(old(self).jump_patches@[i].0 + 4 <= old(self).code@.len());
                }
            }
        }
    }


    /// Emits the ModR/M byte, the SIB byte when rsp-based addressing needs
    /// one, and the displacement for a `[base + disp]` operand.
    fn emit_modrm_disp(&mut self, reg: u8, base: u8, disp: i32)
        ensures
            final(self).jump_patches == old(self).jump_patches,
            final(self).insn_offsets == old(self).insn_offsets,
            final(self).code@.len() > old(self).code@.len(),
            old(self).wf() ==> final(self).wf(),
    {
        let base_enc = base & 0x7;
        let reg_enc = reg & 0x7;
        if base_enc == RSP {
            if disp == 0 {
                self.code.push(modrm(0, reg_enc, 4));
                self.code.push(0x24);
            } else if -128 <= disp && disp <= 127 {
                self.code.push(modrm(1, reg_enc, 4));
                self.code.push(0x24);
                #[verifier::truncate]
                let d8 = disp as i8;
                self.code.push(d8 as u8);
            } else {
                self.code.push(modrm(2, reg_enc, 4));
                self.code.push(0x24);
                self.push_le32(disp);
            }
        } else if disp == 0 && base_enc != RBP {
            self.code.push(modrm(0, reg_enc, base_enc));
        } else if -128 <= disp && disp <= 127 {
            self.code.push(modrm(1, reg_enc, base_enc));
            #[verifier::truncate]
            let d8 = disp as i8;
            self.code.push(d8 as u8);
        } else {
            self.code.push(modrm(2, reg_enc, base_enc));
            self.push_le32(disp);
        }
        proof {
            if old(self).wf() {
                assert forall|i: int| 0 <= i < self.jump_patches@.len() implies (
                #[trigger] self.jump_patches@[i]).0 + 4 <= self.code@.len() by {
                    assert(old(self).jump_patches@[i].0 + 4 <= old(self).code@.len());
                }
            }
        }
    }

    /// Emits a zero-extending load `mov reg, [base + disp]` at the given
    /// width.
    fn emit_load(&mut self, dst: u8, base: u8, disp: i32, size: MemSize)
        ensures
            final(self).jump_patches == old(self).jump_patches,
            final(self).insn_offsets == old(self).insn_offsets,
            final(self).code@.len() > old(self).code@.len(),
            old(self).wf() ==> final(self).wf(),
    {
        match size {
            MemSize::Byte => {
                self.code.push(rex(true, dst, 0, base));
                self.code.push(0x0F);
                self.code.push(0xB6);
            },
            MemSize::Half => {
                self.code.push(rex(true, dst, 0, base));
                self.code.push(0x0F);
                self.code.push(0xB7);
            },
            MemSize::Word => {
                if dst >= 8 || base >= 8 {
                    self.code.push(rex(false, dst, 0, base));
                }
                self.code.push(0x8B);
            },
            MemSize::DWord => {
                self.code.push(rex(true, dst, 0, base));
                self.code.push(0x8B);
            },
        }
        self.emit_modrm_disp(dst, base, disp);
        proof {
            if old(self).wf() {
                assert forall|i: int| 0 <= i < self.jump_patches@.len() implies (
                #[trigger] self.jump_patches@[i]).0 + 4 <= self.code@.len() by {
                    assert(old(self).jump_patches@[i].0 + 4 <= old(self).code@.len());
                }
            }
        }
    }

    /// Emits a store `mov [base + disp], src` at the given width.
    fn emit_store(&mut self, base: u8, disp: i32, src: u8, size: MemSize)
        ensures
            final(self).jump_patches == old(self).jump_patches,
            final(self).insn_offsets == old(self).insn_offsets,
            final(self).code@.len() > old(self).code@.len(),
            old(self).wf() ==> final(self).wf(),
    {
        match size {
            MemSize::Byte => {
                self.code.push(rex(false, src, 0, base));
                self.code.push(0x88);
            },
            MemSize::Half => {
                self.code.push(0x66);
                self.code.push(rex(false, src, 0, base));
                self.code.push(0x89);
            },
            MemSize::Word => {
                if src >= 8 || base >= 8 {
                    self.code.push(rex(false, src, 0, base));
                }
                self.code.push(0x89);
            },
            MemSize::DWord => {
                self.code.push(rex(true, src, 0, base));
                self.code.push(0x89);
            },
        }
        self.emit_modrm_disp(src, base, disp);
        proof {
            if old(self).wf() {
                assert forall|i: int| 0 <= i < self.jump_patches@.len() implies (
                #[trigger] self.jump_patches@[i]).0 + 4 <= self.code@.len() by {
                    assert(old(self).jump_patches@[i].0 + 4 <= old(self).code@.len());
                }
            }
        }
    }
}



/// Whether the backend can lower one non-wide instruction: the opcode must
/// decode, its registers must name real registers, and the byte-swap
/// operation and the helper call are not lowered.
pub open spec fn spec_lowerable(insn: BpfInsn) -> bool {
    if insn.spec_is_exit() {
        true
    } else {
        match crate::bytecode::spec_class(insn.opcode) {
            None => false,
            Some(cls) => match cls {
                OpcodeClass::Alu64 | OpcodeClass::Alu32 => {
                    &&& insn.spec_dst_reg() <= 10
                    &&& (crate::bytecode::spec_source(insn.opcode) is Reg
                        ==> insn.spec_src_reg() <= 10)
                    &&& match crate::bytecode::spec_alu_op(insn.opcode) {
                        None => false,
                        Some(op) => !(op is End),
                    }
                },
                OpcodeClass::Jmp | OpcodeClass::Jmp32 => {
                    match crate::bytecode::spec_jmp_op(insn.opcode) {
                        None => false,
                        Some(op) => if op is Ja || op is Exit {
                            true
                        } else if op is Call {
                            false
                        } else {
                            insn.spec_dst_reg() <= 10 && (crate::bytecode::spec_source(insn.opcode)
                                is Reg ==> insn.spec_src_reg() <= 10)
                        },
                    }
                },
                OpcodeClass::Ldx => insn.spec_dst_reg() <= 10 && insn.spec_src_reg() <= 10,
                OpcodeClass::St => insn.spec_dst_reg() <= 10,
                OpcodeClass::Stx => insn.spec_dst_reg() <= 10 && insn.spec_src_reg() <= 10,
                OpcodeClass::Ld => false,
            },
        }
    }
}

/// Whether the whole sequence from `i` on compiles: every wide load is
/// paired and targets a real register, and everything else is lowerable.
pub open spec fn spec_prog_compiles(insns: Seq<BpfInsn>, i: int) -> bool
    decreases insns.len() - i,
{
    if i < 0 || i >= insns.len() {
        true
    } else if insns[i].spec_is_wide() {
        i + 1 < insns.len() && insns[i].spec_dst_reg() <= 10 && spec_prog_compiles(insns, i + 2)
    } else {
        spec_lowerable(insns[i]) && spec_prog_compiles(insns, i + 1)
    }
}

/// Which error the compiler reports for a sequence that does not compile:
/// the first failing slot decides, a wide load in the final slot being a
/// code-generation failure and everything else an unsupported instruction.
pub open spec fn spec_compile_err(insns: Seq<BpfInsn>, i: int) -> JitError
    decreases insns.len() - i,
{
    if i < 0 || i >= insns.len() {
        JitError::CodegenFailed
    } else if insns[i].spec_is_wide() {
        if i + 1 >= insns.len() {
            JitError::CodegenFailed
        } else if insns[i].spec_dst_reg() > 10 {
            JitError::UnsupportedInstruction
        } else {
            spec_compile_err(insns, i + 2)
        }
    } else if !spec_lowerable(insns[i]) {
        JitError::UnsupportedInstruction
    } else {
        spec_compile_err(insns, i + 1)
    }
}

/// Host condition codes for `jcc`.
pub const CC_JE: u8 = 0x4;

pub const CC_JNE: u8 = 0x5;

pub const CC_JB: u8 = 0x2;

pub const CC_JAE: u8 = 0x3;

pub const CC_JBE: u8 = 0x6;

pub const CC_JA: u8 = 0x7;

pub const CC_JL: u8 = 0xC;

pub const CC_JGE: u8 = 0xD;

pub const CC_JLE: u8 = 0xE;

pub const CC_JG: u8 = 0xF;

/// A compiled program: the emitted bytes and the entry offset. The buffer is
/// immutable after compilation and is never invoked here.
pub struct JitProgram {
    pub code: Vec<u8>,
    pub entry: usize,
}

impl JitProgram {
    /// The emitted machine code.
    pub fn code(&self) -> (r: &Vec<u8>)
        ensures
            r == &self.code,
    {
        &self.code
    }

    /// The entry offset.
    pub fn entry(&self) -> (r: usize)
        ensures
            r == self.entry,
    {
        self.entry
    }
}

/// Why compilation failed.
#[derive(Debug, Clone, Copy, PartialEq, Eq, Structural)]
pub enum JitError {
    /// Compilation is not available.
    NotImplemented,
    /// No executable memory could be allocated.
    AllocationFailed,
    /// Code generation failed.
    CodegenFailed,
    /// An instruction this backend cannot lower.
    UnsupportedInstruction,
}

/// The template-method compiler. The backend name is historical; it emits
/// x86_64 code.
pub struct Arm64JitCompiler {
    pub emitter: X64Emitter,
    pub stack_size: u32,
}

impl Arm64JitCompiler {
    /// A fresh compiler with the default scratch-stack reservation.
    pub fn new() -> (r: Self)
        ensures
            r.emitter.wf(),
    {
        Arm64JitCompiler { emitter: X64Emitter::new(4096), stack_size: 512 }
    }

    /// Emits the prologue: saves the callee-saved registers, reserves the
    /// scratch stack, and points host rbp at it.
    fn emit_prologue(&mut self)
        requires
            old(self).emitter.wf(),
        ensures
            final(self).emitter.wf(),
            final(self).emitter.spec_code().len() >= old(self).emitter.spec_code().len() + 1,
            final(self).stack_size == old(self).stack_size,
    {
        self.emitter.emit_push(RBP);
        self.emitter.emit_push(RBX);
        self.emitter.emit_push(R13);
        self.emitter.emit_push(R14);
        self.emitter.emit_push(R15);
        let sz = self.stack_size;
        self.emitter.emit_sub_imm32(RSP, sz as i32);
        self.emitter.emit_mov_reg(RBP, RSP);
    }

    /// Emits the epilogue: releases the scratch stack, restores the saved
    /// registers, and returns.
    fn emit_epilogue(&mut self)
        requires
            old(self).emitter.wf(),
        ensures
            final(self).emitter.wf(),
            final(self).emitter.spec_code().len() >= old(self).emitter.spec_code().len() + 1,
            final(self).stack_size == old(self).stack_size,
    {
        let sz = self.stack_size;
        self.emitter.emit_add_imm32(RSP, sz as i32);
        self.emitter.emit_pop(R15);
        self.emitter.emit_pop(R14);
        self.emitter.emit_pop(R13);
        self.emitter.emit_pop(RBX);
        self.emitter.emit_pop(RBP);
        self.emitter.emit_ret();
    }

    /// Lowers one ALU instruction. A division saves rax when the destination
    /// is elsewhere, zeroes rdx, divides, and moves the result; shifts by a
    /// register route the count through rcx.
    fn compile_alu(&mut self, insn: &BpfInsn, _is_64bit: bool) -> (r: Result<(), JitError>)
        requires
            old(self).emitter.wf(),
        ensures
            final(self).emitter.wf(),
            final(self).emitter.spec_code().len() >= old(self).emitter.spec_code().len(),
            final(self).stack_size == old(self).stack_size,
            r is Ok <==> (insn.spec_dst_reg() <= 10 && (crate::bytecode::spec_source(insn.opcode)
                is Reg ==> insn.spec_src_reg() <= 10) && (match crate::bytecode::spec_alu_op(
                insn.opcode,
            ) {
                None => false,
                Some(op) => !(op is End),
            })),
            r is Ok ==> final(self).emitter.spec_code().len() > old(self).emitter.spec_code().len(),
            r is Err ==> r == Err::<(), JitError>(JitError::UnsupportedInstruction)
                && final(self).emitter.spec_code() == old(self).emitter.spec_code(),
    {
        let dstr = insn.dst_reg();
        if dstr > 10 {
            return Err(JitError::UnsupportedInstruction);
        }
        let dst = bpf_to_x64(dstr);
        let srcr = insn.src_reg();
        let is_reg = matches!(SourceType::from_opcode(insn.opcode), SourceType::Reg);
        if is_reg && srcr > 10 {
            return Err(JitError::UnsupportedInstruction);
        }
        let op = match AluOp::from_opcode(insn.opcode) {
            Some(o) => o,
            None => {
                return Err(JitError::UnsupportedInstruction);
            },
        };
        match op {
            AluOp::Add => {
                if is_reg {
                    let src = bpf_to_x64(srcr);
                    self.emitter.emit_add_reg(dst, src);
                } else {
                    self.emitter.emit_add_imm32(dst, insn.imm);
                }
            },
            AluOp::Sub => {
                if is_reg {
                    let src = bpf_to_x64(srcr);
                    self.emitter.emit_sub_reg(dst, src);
                } else {
                    self.emitter.emit_sub_imm32(dst, insn.imm);
                }
            },
            AluOp::Mul => {
                if is_reg {
                    let src = bpf_to_x64(srcr);
                    self.emitter.emit_imul_reg(dst, src);
                } else {
                    self.emitter.emit_mov_imm32(TMP_REG, insn.imm);
                    self.emitter.emit_imul_reg(dst, TMP_REG);
                }
            },
            AluOp::Div => {
                if dst != RAX {
                    self.emitter.emit_mov_reg(TMP_REG, RAX);
                    self.emitter.emit_mov_reg(RAX, dst);
                }
                self.emitter.emit_xor_reg(RDX, RDX);
                if is_reg {
                    let src = bpf_to_x64(srcr);
                    self.emitter.emit_div_reg(src);
                } else {
                    self.emitter.emit_mov_imm32(R9, insn.imm);
                    self.emitter.emit_div_reg(R9);
                }
                if dst != RAX {
                    self.emitter.emit_mov_reg(dst, RAX);
                    self.emitter.emit_mov_reg(RAX, TMP_REG);
                }
            },
            AluOp::Mod => {
                if dst != RAX {
                    self.emitter.emit_mov_reg(TMP_REG, RAX);
                    self.emitter.emit_mov_reg(RAX, dst);
                }
                self.emitter.emit_xor_reg(RDX, RDX);
                if is_reg {
                    let src = bpf_to_x64(srcr);
                    self.emitter.emit_div_reg(src);
                } else {
                    self.emitter.emit_mov_imm32(R9, insn.imm);
                    self.emitter.emit_div_reg(R9);
                }
                self.emitter.emit_mov_reg(dst, RDX);
                if dst != RAX {
                    self.emitter.emit_mov_reg(RAX, TMP_REG);
                }
            },
            AluOp::Or => {
                if is_reg {
                    let src = bpf_to_x64(srcr);
                    self.emitter.emit_or_reg(dst, src);
                } else {
                    self.emitter.emit_or_imm32(dst, insn.imm);
                }
            },
            AluOp::And => {
                if is_reg {
                    let src = bpf_to_x64(srcr);
                    self.emitter.emit_and_reg(dst, src);
                } else {
                    self.emitter.emit_and_imm32(dst, insn.imm);
                }
            },
            AluOp::Xor => {
                if is_reg {
                    let src = bpf_to_x64(srcr);
                    self.emitter.emit_xor_reg(dst, src);
                } else {
                    self.emitter.emit_xor_imm32(dst, insn.imm);
                }
            },
            AluOp::Lsh => {
                if is_reg {
                    let src = bpf_to_x64(srcr);
                    if src != RCX {
                        self.emitter.emit_mov_reg(RCX, src);
                    }
                    self.emitter.emit_shl_cl(dst);
                } else {
                    self.emitter.emit_shl_imm(dst, (insn.imm as u32 % 256) as u8);
                }
            },
            AluOp::Rsh => {
                if is_reg {
                    let src = bpf_to_x64(srcr);
                    if src != RCX {
                        self.emitter.emit_mov_reg(RCX, src);
                    }
                    self.emitter.emit_shr_cl(dst);
                } else {
                    self.emitter.emit_shr_imm(dst, (insn.imm as u32 % 256) as u8);
                }
            },
            AluOp::Arsh => {
                if is_reg {
                    let src = bpf_to_x64(srcr);
                    if src != RCX {
                        self.emitter.emit_mov_reg(RCX, src);
                    }
                    self.emitter.emit_sar_cl(dst);
                } else {
                    self.emitter.emit_sar_imm(dst, (insn.imm as u32 % 256) as u8);
                }
            },
            AluOp::Neg => {
                self.emitter.emit_neg(dst);
            },
            AluOp::Mov => {
                if is_reg {
                    let src = bpf_to_x64(srcr);
                    self.emitter.emit_mov_reg(dst, src);
                } else if insn.imm == 0 {
                    self.emitter.emit_xor_reg(dst, dst);
                } else {
                    self.emitter.emit_mov_imm32(dst, insn.imm);
                }
            },
            AluOp::End => {
                return Err(JitError::UnsupportedInstruction);
            },
        }
        Ok(())
    }

    /// Lowers one jump. Conditional jumps compare and emit a `jcc` with a
    /// placeholder displacement recorded for the patch pass; a helper call
    /// has no host dispatcher to reach from generated code, so it is not
    /// lowered and the program falls back to the interpreter.
    fn compile_jmp(&mut self, insn: &BpfInsn, _is_64bit: bool) -> (r: Result<(), JitError>)
        requires
            old(self).emitter.wf(),
        ensures
            final(self).emitter.wf(),
            final(self).emitter.spec_code().len() >= old(self).emitter.spec_code().len(),
            final(self).stack_size == old(self).stack_size,
            r is Ok <==> (match crate::bytecode::spec_jmp_op(insn.opcode) {
                None => false,
                Some(op) => if op is Ja || op is Exit {
                    true
                } else if op is Call {
                    false
                } else {
                    insn.spec_dst_reg() <= 10 && (crate::bytecode::spec_source(insn.opcode) is Reg
                        ==> insn.spec_src_reg() <= 10)
                },
            }),
            r is Ok ==> final(self).emitter.spec_code().len() > old(self).emitter.spec_code().len(),
            r is Err ==> r == Err::<(), JitError>(JitError::UnsupportedInstruction)
                && final(self).emitter.spec_code() == old(self).emitter.spec_code(),
    {
        let op = match JmpOp::from_opcode(insn.opcode) {
            Some(o) => o,
            None => {
                return Err(JitError::UnsupportedInstruction);
            },
        };
        let dstr = insn.dst_reg();
        let srcr = insn.src_reg();
        match op {
            JmpOp::Ja => {
                self.emitter.emit_jmp_rel32(0);
                let here = self.emitter.insn_offsets.len();
                let off = insn.offset;
                let target: usize = if off >= 0 {
                    if here <= usize::MAX - (off as usize) {
                        here + (off as usize)
                    } else {
                        usize::MAX
                    }
                } else {
                    let m = (-(off as i32)) as usize;
                    if here >= m {
                        here - m
                    } else {
                        usize::MAX
                    }
                };
                self.emitter.record_jump(target);
            },
            JmpOp::Call => {
                return Err(JitError::UnsupportedInstruction);
            },
            JmpOp::Exit => {
                self.emit_epilogue();
            },
            _ => {
                if dstr > 10 {
                    return Err(JitError::UnsupportedInstruction);
                }
                let dst = bpf_to_x64(dstr);
                let is_reg = matches!(SourceType::from_opcode(insn.opcode), SourceType::Reg);
                if is_reg && srcr > 10 {
                    return Err(JitError::UnsupportedInstruction);
                }
                let cc: u8 = match op {
                    JmpOp::Jeq => CC_JE,
                    JmpOp::Jne => CC_JNE,
                    JmpOp::Jgt => CC_JA,
                    JmpOp::Jge => CC_JAE,
                    JmpOp::Jlt => CC_JB,
                    JmpOp::Jle => CC_JBE,
                    JmpOp::Jsgt => CC_JG,
                    JmpOp::Jsge => CC_JGE,
                    JmpOp::Jslt => CC_JL,
                    JmpOp::Jsle => CC_JLE,
                    JmpOp::Jset => CC_JNE,
                    _ => {
                        return Err(JitError::UnsupportedInstruction);
                    },
                };
                if matches!(op, JmpOp::Jset) {
                    if is_reg {
                        let src = bpf_to_x64(srcr);
                        self.emitter.emit_test_reg(dst, src);
                    } else {
                        self.emitter.emit_mov_imm32(TMP_REG, insn.imm);
                        self.emitter.emit_test_reg(dst, TMP_REG);
                    }
                } else {
                    if is_reg {
                        let src = bpf_to_x64(srcr);
                        self.emitter.emit_cmp_reg(dst, src);
                    } else {
                        self.emitter.emit_cmp_imm32(dst, insn.imm);
                    }
                }
                self.emitter.emit_jcc_rel32(cc, 0);
                let here = self.emitter.insn_offsets.len();
                let off = insn.offset;
                let target: usize = if off >= 0 {
                    if here <= usize::MAX - (off as usize) {
                        here + (off as usize)
                    } else {
                        usize::MAX
                    }
                } else {
                    let m = (-(off as i32)) as usize;
                    if here >= m {
                        here - m
                    } else {
                        usize::MAX
                    }
                };
                self.emitter.record_jump(target);
            },
        }
        Ok(())
    }

    /// Lowers a register load from memory.
    fn compile_load(&mut self, insn: &BpfInsn) -> (r: Result<(), JitError>)
        requires
            old(self).emitter.wf(),
        ensures
            final(self).emitter.wf(),
            final(self).emitter.spec_code().len() >= old(self).emitter.spec_code().len(),
            final(self).stack_size == old(self).stack_size,
            r is Ok <==> (insn.spec_dst_reg() <= 10 && insn.spec_src_reg() <= 10),
            r is Ok ==> final(self).emitter.spec_code().len() > old(self).emitter.spec_code().len(),
            r is Err ==> r == Err::<(), JitError>(JitError::UnsupportedInstruction)
                && final(self).emitter.spec_code() == old(self).emitter.spec_code(),
    {
        let dstr = insn.dst_reg();
        let srcr = insn.src_reg();
        if dstr > 10 || srcr > 10 {
            return Err(JitError::UnsupportedInstruction);
        }
        let dst = bpf_to_x64(dstr);
        let src = bpf_to_x64(srcr);
        let size = match MemSize::from_opcode(insn.opcode) {
            Some(m) => m,
            None => {
                return Err(JitError::UnsupportedInstruction);
            },
        };
        self.emitter.emit_load(dst, src, insn.offset as i32, size);
        Ok(())
    }

    /// Lowers a store of a register or an immediate to memory.
    fn compile_store(&mut self, insn: &BpfInsn) -> (r: Result<(), JitError>)
        requires
            old(self).emitter.wf(),
        ensures
            final(self).emitter.wf(),
            final(self).emitter.spec_code().len() >= old(self).emitter.spec_code().len(),
            final(self).stack_size == old(self).stack_size,
            r is Ok <==> (crate::bytecode::spec_class(insn.opcode) is Some
                && insn.spec_dst_reg() <= 10 && (!(crate::bytecode::spec_class(
                insn.opcode,
            )->Some_0 is St) ==> insn.spec_src_reg() <= 10)),
            r is Ok ==> final(self).emitter.spec_code().len() > old(self).emitter.spec_code().len(),
            r is Err ==> r == Err::<(), JitError>(JitError::UnsupportedInstruction)
                && final(self).emitter.spec_code() == old(self).emitter.spec_code(),
    {
        let dstr = insn.dst_reg();
        let srcr = insn.src_reg();
        if dstr > 10 {
            return Err(JitError::UnsupportedInstruction);
        }
        let dst = bpf_to_x64(dstr);
        let size = match MemSize::from_opcode(insn.opcode) {
            Some(m) => m,
            None => {
                return Err(JitError::UnsupportedInstruction);
            },
        };
        let cls = match OpcodeClass::from_opcode(insn.opcode) {
            Some(c) => c,
            None => {
                return Err(JitError::UnsupportedInstruction);
            },
        };
        if matches!(cls, OpcodeClass::St) {
            self.emitter.emit_mov_imm32(TMP_REG, insn.imm);
            self.emitter.emit_store(dst, insn.offset as i32, TMP_REG, size);
        } else {
            if srcr > 10 {
                return Err(JitError::UnsupportedInstruction);
            }
            let src = bpf_to_x64(srcr);
            self.emitter.emit_store(dst, insn.offset as i32, src, size);
        }
        Ok(())
    }

    /// Lowers one non-wide instruction by class.
    fn compile_insn(&mut self, insn: &BpfInsn) -> (r: Result<(), JitError>)
        requires
            old(self).emitter.wf(),
        ensures
            final(self).emitter.wf(),
            final(self).emitter.spec_code().len() >= old(self).emitter.spec_code().len(),
            final(self).stack_size == old(self).stack_size,
            r is Ok <==> spec_lowerable(*insn),
            r is Ok ==> final(self).emitter.spec_code().len() > old(self).emitter.spec_code().len(),
            r is Err ==> r == Err::<(), JitError>(JitError::UnsupportedInstruction)
                && final(self).emitter.spec_code() == old(self).emitter.spec_code(),
    {
        if insn.is_exit() {
            self.emit_epilogue();
            return Ok(());
        }
        let cls = match OpcodeClass::from_opcode(insn.opcode) {
            Some(c) => c,
            None => {
                return Err(JitError::UnsupportedInstruction);
            },
        };
        match cls {
            OpcodeClass::Alu64 => self.compile_alu(insn, true),
            OpcodeClass::Alu32 => self.compile_alu(insn, false),
            OpcodeClass::Jmp => self.compile_jmp(insn, true),
            OpcodeClass::Jmp32 => self.compile_jmp(insn, false),
            OpcodeClass::Ldx => self.compile_load(insn),
            OpcodeClass::Stx => self.compile_store(insn),
            OpcodeClass::St => self.compile_store(insn),
            OpcodeClass::Ld => Err(JitError::UnsupportedInstruction),
        }
    }

    /// Rewrites every recorded placeholder displacement to reach its target
    /// instruction's code offset, or the end of the code for a jump past the
    /// last instruction.
    fn patch_jumps(&mut self)
        requires
            old(self).emitter.wf(),
        ensures
            final(self).emitter.wf(),
            final(self).emitter.spec_code().len() == old(self).emitter.spec_code().len(),
    {
        let npatch = self.emitter.jump_patches.len();
        let mut i: usize = 0;
        while i < npatch
            invariant
                self.emitter.wf(),
                npatch == self.emitter.jump_patches@.len(),
                self.emitter.spec_code().len() == old(self).emitter.spec_code().len(),
            decreases npatch - i,
        {
            let (patch_offset, target_insn) = self.emitter.jump_patches[i];
            let target_offset: usize = if target_insn < self.emitter.insn_offsets.len() {
                let o = self.emitter.insn_offsets[target_insn];
                if o <= self.emitter.code.len() {
                    o
                } else {
                    self.emitter.code.len()
                }
            } else {
                self.emitter.code.len()
            };
            let after = patch_offset + 4;
            let v: u32 = if target_offset >= after {
                #[verifier::truncate]
                let m32 = ((target_offset - after) as u32);
                m32
            } else {
                #[verifier::truncate]
                let m32 = ((after - target_offset) as u32);
                0u32.wrapping_sub(m32)
            };
            let ghost pre = self.emitter;
            self.emitter.code.set(patch_offset, (v % 256) as u8);
            self.emitter.code.set(patch_offset + 1, ((v / 256) % 256) as u8);
            self.emitter.code.set(patch_offset + 2, ((v / 0x10000) % 256) as u8);
            self.emitter.code.set(patch_offset + 3, ((v / 0x1000000) % 256) as u8);
            proof {
                assert forall|j: int| 0 <= j < self.emitter.jump_patches@.len() implies (
                #[trigger] self.emitter.jump_patches@[j]).0 + 4 <= self.emitter.code@.len() by {
                    assert(pre.jump_patches@[j].0 + 4 <= pre.code@.len());
                }
            }
            i = i + 1;
        }
    }

    /// Compiles a whole instruction sequence: prologue, a lowering per
    /// instruction (a wide load becomes `mov imm64`), then the jump patch
    /// pass.
    pub fn compile_program(&mut self, insns: &Vec<BpfInsn>) -> (r: Result<JitProgram, JitError>)
        requires
            old(self).emitter.wf(),
        ensures
            r is Ok ==> r->Ok_0.code@.len() > 0,
            r is Ok <==> spec_prog_compiles(insns@, 0),
            r is Err ==> r->Err_0 == spec_compile_err(insns@, 0),
    {
        let entry = self.emitter.offset();
        self.emit_prologue();
        let n = insns.len();
        let mut i: usize = 0;
        while i < n
            invariant
                self.emitter.wf(),
                n == insns@.len(),
                self.emitter.spec_code().len() > 0,
                0 <= i,
                spec_prog_compiles(insns@, 0) == spec_prog_compiles(insns@, i as int),
                spec_compile_err(insns@, 0) == spec_compile_err(insns@, i as int),
            decreases n - i,
        {
            self.emitter.mark_insn();
            let insn = insns[i];
            if insn.is_wide() {
                if i + 1 >= n {
                    proof {
                        assert(!spec_prog_compiles(insns@, i as int));
                    }
                    return Err(JitError::CodegenFailed);
                }
                let next = insns[i + 1];
                let imm64 = (insn.imm as u32 as u64) | ((next.imm as u32 as u64) << 32);
                let dstr = insn.dst_reg();
                if dstr > 10 {
                    proof {
                        assert(!spec_prog_compiles(insns@, i as int));
                    }
                    return Err(JitError::UnsupportedInstruction);
                }
                let dst = bpf_to_x64(dstr);
                #[verifier::truncate]
                let imm_s = imm64 as i64;
                self.emitter.emit_mov_imm64(dst, imm_s);
                i = i + 2;
                continue ;
            }
            match self.compile_insn(&insn) {
                Ok(()) => {},
                Err(e) => {
                    proof {
                        assert(!spec_lowerable(insns@[i as int]));
                        assert(!spec_prog_compiles(insns@, i as int));
                    }
                    return Err(e);
                },
            }
            i = i + 1;
        }
        proof {
            assert(spec_prog_compiles(insns@, i as int));
        }
        self.patch_jumps();
        let mut code: Vec<u8> = Vec::new();
        let ncode = self.emitter.code.len();
        let mut k: usize = 0;
        while k < ncode
            invariant
                k <= ncode,
                ncode == self.emitter.code@.len(),
                code@.len() == k,
            decreases ncode - k,
        {
            code.push(self.emitter.code[k]);
            k = k + 1;
        }
        if code.len() == 0 {
            proof {
                assert(false);
            }
            return Err(JitError::CodegenFailed);
        }
        Ok(JitProgram { code, entry })
    }
}

/// The JIT front end: compiles, and always runs the interpreter.
pub struct JitExecutor {
    pub interpreter: Interpreter,
}

impl JitExecutor {
    /// A JIT executor whose fallback interpreter has the default budget.
    pub fn new() -> (r: Self)
        ensures
            r.interpreter.spec_limit() == 1000000,
    {
        JitExecutor { interpreter: Interpreter::new() }
    }

    /// Compiles a program to native code; fails on an empty program or an
    /// instruction the backend cannot lower.
    pub fn compile(&self, program: &crate::bytecode::BpfProgram) -> (r: Result<
        JitProgram,
        JitError,
    >)
        ensures
            r is Ok ==> r->Ok_0.code@.len() > 0,
            r is Ok <==> program.spec_insns().len() > 0 && spec_prog_compiles(
                program.spec_insns(),
                0,
            ),
            program.spec_insns().len() == 0 ==> r == Err::<JitProgram, JitError>(
                JitError::CodegenFailed,
            ),
            program.spec_insns().len() > 0 && r is Err ==> r->Err_0 == spec_compile_err(
                program.spec_insns(),
                0,
            ),
    {
        let insns = program.instructions();
        if insns.len() == 0 {
            return Err(JitError::CodegenFailed);
        }
        let mut compiler = Arm64JitCompiler::new();
        compiler.compile_program(insns)
    }

    /// Runs the program: compilation is attempted, and whatever its outcome,
    /// execution falls back to the interpreter, so the result is exactly the
    /// interpreter's — compiled and interpreted runs can never disagree.
    pub fn execute(&self, program: &crate::bytecode::BpfProgram, ctx: &BpfContext) -> (r:
        BpfResult)
        requires
            program.spec_insns().len() <= MAX_INSNS,
        ensures
            r == spec_run(
                program.spec_insns(),
                spec_init(*ctx),
                self.interpreter.spec_limit() as nat,
            ),
    {
        match self.compile(program) {
            Ok(_jit_prog) => self.interpreter.execute(program, ctx),
            Err(_) => self.interpreter.execute(program, ctx),
        }
    }
}

} // verus!

