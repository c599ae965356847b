//! The bytecode data model: 8-byte instruction records, opcode decoding, and
//! validated programs.

use vstd::prelude::*;

verus! {

/// One fixed 8-byte bytecode record: opcode, packed destination/source
/// register selectors, a signed 16-bit offset, and a signed 32-bit immediate.
#[derive(Debug, Clone, Copy, PartialEq, Eq, Structural)]
pub struct BpfInsn {
    pub opcode: u8,
    pub regs: u8,
    pub offset: i16,
    pub imm: i32,
}

/// The instruction class held in the low 3 opcode bits.
#[derive(Debug, Clone, Copy, PartialEq, Eq, Structural)]
pub enum OpcodeClass {
    Ld,
    Ldx,
    St,
    Stx,
    Alu32,
    Jmp,
    Jmp32,
    Alu64,
}

/// Whether the second operand is the immediate or a register.
#[derive(Debug, Clone, Copy, PartialEq, Eq, Structural)]
pub enum SourceType {
    Imm,
    Reg,
}

/// The ALU operation held in the high 4 opcode bits.
#[derive(Debug, Clone, Copy, PartialEq, Eq, Structural)]
pub enum AluOp {
    Add,
    Sub,
    Mul,
    Div,
    Or,
    And,
    Lsh,
    Rsh,
    Neg,
    Mod,
    Xor,
    Mov,
    Arsh,
    End,
}

/// The jump operation held in the high 4 opcode bits.
#[derive(Debug, Clone, Copy, PartialEq, Eq, Structural)]
pub enum JmpOp {
    Ja,
    Jeq,
    Jgt,
    Jge,
    Jset,
    Jne,
    Jsgt,
    Jsge,
    Call,
    Exit,
    Jlt,
    Jle,
    Jslt,
    Jsle,
}

/// The memory access width held in opcode bits 3 and 4.
#[derive(Debug, Clone, Copy, PartialEq, Eq, Structural)]
pub enum MemSize {
    Word,
    Half,
    Byte,
    DWord,
}

/// The class of an opcode, or `None` for the reserved low-bit pattern that
/// no class uses.
pub open spec fn spec_class(opcode: u8) -> Option<OpcodeClass> {
    let c = opcode & 0x07;
    if c == 0 {
        Some(OpcodeClass::Ld)
    } else if c == 1 {
        Some(OpcodeClass::Ldx)
    } else if c == 2 {
        Some(OpcodeClass::St)
    } else if c == 3 {
        Some(OpcodeClass::Stx)
    } else if c == 4 {
        Some(OpcodeClass::Alu32)
    } else if c == 5 {
        Some(OpcodeClass::Jmp)
    } else if c == 6 {
        Some(OpcodeClass::Jmp32)
    } else {
        Some(OpcodeClass::Alu64)
    }
}

/// The source type of an ALU or jump opcode.
pub open spec fn spec_source(opcode: u8) -> SourceType {
    if opcode & 0x08 == 0 {
        SourceType::Imm
    } else {
        SourceType::Reg
    }
}

/// The ALU operation of an opcode, or `None` for an unassigned pattern.
pub open spec fn spec_alu_op(opcode: u8) -> Option<AluOp> {
    let op = opcode & 0xf0;
    if op == 0x00 {
        Some(AluOp::Add)
    } else if op == 0x10 {
        Some(AluOp::Sub)
    } else if op == 0x20 {
        Some(AluOp::Mul)
    } else if op == 0x30 {
        Some(AluOp::Div)
    } else if op == 0x40 {
        Some(AluOp::Or)
    } else if op == 0x50 {
        Some(AluOp::And)
    } else if op == 0x60 {
        Some(AluOp::Lsh)
    } else if op == 0x70 {
        Some(AluOp::Rsh)
    } else if op == 0x80 {
        Some(AluOp::Neg)
    } else if op == 0x90 {
        Some(AluOp::Mod)
    } else if op == 0xa0 {
        Some(AluOp::Xor)
    } else if op == 0xb0 {
        Some(AluOp::Mov)
    } else if op == 0xc0 {
        Some(AluOp::Arsh)
    } else if op == 0xd0 {
        Some(AluOp::End)
    } else {
        None
    }
}

/// The jump operation of an opcode, or `None` for an unassigned pattern.
pub open spec fn spec_jmp_op(opcode: u8) -> Option<JmpOp> {
    let op = opcode & 0xf0;
    if op == 0x00 {
        Some(JmpOp::Ja)
    } else if op == 0x10 {
        Some(JmpOp::Jeq)
    } else if op == 0x20 {
        Some(JmpOp::Jgt)
    } else if op == 0x30 {
        Some(JmpOp::Jge)
    } else if op == 0x40 {
        Some(JmpOp::Jset)
    } else if op == 0x50 {
        Some(JmpOp::Jne)
    } else if op == 0x60 {
        Some(JmpOp::Jsgt)
    } else if op == 0x70 {
        Some(JmpOp::Jsge)
    } else if op == 0x80 {
        Some(JmpOp::Call)
    } else if op == 0x90 {
        Some(JmpOp::Exit)
    } else if op == 0xa0 {
        Some(JmpOp::Jlt)
    } else if op == 0xb0 {
        Some(JmpOp::Jle)
    } else if op == 0xc0 {
        Some(JmpOp::Jslt)
    } else {
        Some(JmpOp::Jsle)
    }
}

/// The memory width of a load or store opcode.
pub open spec fn spec_mem_size(opcode: u8) -> MemSize {
    let m = opcode & 0x18;
    if m == 0x00 {
        MemSize::Word
    } else if m == 0x08 {
        MemSize::Half
    } else if m == 0x10 {
        MemSize::Byte
    } else {
        MemSize::DWord
    }
}

impl OpcodeClass {
    /// Decodes the class of an opcode.
    pub fn from_opcode(opcode: u8) -> (r: Option<OpcodeClass>)
        ensures
            r == spec_class(opcode),
    {
        let c = opcode & 0x07;
        proof {
            assert(opcode & 0x07 < 8) by (bit_vector);
        }
        if c == 0 {
            Some(OpcodeClass::Ld)
        } else if c == 1 {
            Some(OpcodeClass::Ldx)
        } else if c == 2 {
            Some(OpcodeClass::St)
        } else if c == 3 {
            Some(OpcodeClass::Stx)
        } else if c == 4 {
            Some(OpcodeClass::Alu32)
        } else if c == 5 {
            Some(OpcodeClass::Jmp)
        } else if c == 6 {
            Some(OpcodeClass::Jmp32)
        } else {
            Some(OpcodeClass::Alu64)
        }
    }
}

impl SourceType {
    /// Decodes the source type of an opcode.
    pub fn from_opcode(opcode: u8) -> (r: SourceType)
        ensures
            r == spec_source(opcode),
    {
        if opcode & 0x08 == 0 {
            SourceType::Imm
        } else {
            SourceType::Reg
        }
    }
}

impl AluOp {
    /// Decodes the ALU operation of an opcode.
    pub fn from_opcode(opcode: u8) -> (r: Option<AluOp>)
        ensures
            r == spec_alu_op(opcode),
    {
        let op = opcode & 0xf0;
        if op == 0x00 {
            Some(AluOp::Add)
        } else if op == 0x10 {
            Some(AluOp::Sub)
        } else if op == 0x20 {
            Some(AluOp::Mul)
        } else if op == 0x30 {
            Some(AluOp::Div)
        } else if op == 0x40 {
            Some(AluOp::Or)
        } else if op == 0x50 {
            Some(AluOp::And)
        } else if op == 0x60 {
            Some(AluOp::Lsh)
        } else if op == 0x70 {
            Some(AluOp::Rsh)
        } else if op == 0x80 {
            Some(AluOp::Neg)
        } else if op == 0x90 {
            Some(AluOp::Mod)
        } else if op == 0xa0 {
            Some(AluOp::Xor)
        } else if op == 0xb0 {
            Some(AluOp::Mov)
        } else if op == 0xc0 {
            Some(AluOp::Arsh)
        } else if op == 0xd0 {
            Some(AluOp::End)
        } else {
            None
        }
    }
}

impl JmpOp {
    /// Decodes the jump operation of an opcode.
    pub fn from_opcode(opcode: u8) -> (r: Option<JmpOp>)
        ensures
            r == spec_jmp_op(opcode),
    {
        let op = opcode & 0xf0;
        if op == 0x00 {
            Some(JmpOp::Ja)
        } else if op == 0x10 {
            Some(JmpOp::Jeq)
        } else if op == 0x20 {
            Some(JmpOp::Jgt)
        } else if op == 0x30 {
            Some(JmpOp::Jge)
        } else if op == 0x40 {
            Some(JmpOp::Jset)
        } else if op == 0x50 {
            Some(JmpOp::Jne)
        } else if op == 0x60 {
            Some(JmpOp::Jsgt)
        } else if op == 0x70 {
            Some(JmpOp::Jsge)
        } else if op == 0x80 {
            Some(JmpOp::Call)
        } else if op == 0x90 {
            Some(JmpOp::Exit)
        } else if op == 0xa0 {
            Some(JmpOp::Jlt)
        } else if op == 0xb0 {
            Some(JmpOp::Jle)
        } else if op == 0xc0 {
            Some(JmpOp::Jslt)
        } else {
            Some(JmpOp::Jsle)
        }
    }
}

impl MemSize {
    /// Decodes the memory width of an opcode.
    pub fn from_opcode(opcode: u8) -> (r: Option<MemSize>)
        ensures
            r == Some(spec_mem_size(opcode)),
    {
        let m = opcode & 0x18;
        if m == 0x00 {
            Some(MemSize::Word)
        } else if m == 0x08 {
            Some(MemSize::Half)
        } else if m == 0x10 {
            Some(MemSize::Byte)
        } else {
            Some(MemSize::DWord)
        }
    }

    /// The access width in bytes.
    pub fn bytes(self) -> (r: u64)
        ensures
            r == (match self {
                MemSize::Byte => 1u64,
                MemSize::Half => 2u64,
                MemSize::Word => 4u64,
                MemSize::DWord => 8u64,
            }),
    {
        match self {
            MemSize::Byte => 1,
            MemSize::Half => 2,
            MemSize::Word => 4,
            MemSize::DWord => 8,
        }
    }
}

impl BpfInsn {
    /// Builds an instruction from its four fields, packing the destination
    /// into the low and the source into the high register nibble.
    pub fn new(opcode: u8, dst: u8, src: u8, offset: i16, imm: i32) -> (r: Self)
        requires
            dst < 16,
            src < 16,
        ensures
            r.opcode == opcode,
            r.regs == (dst | (src << 4)) as u8,
            r.offset == offset,
            r.imm == imm,
    {
        BpfInsn { opcode, regs: dst | (src << 4), offset, imm }
    }

    /// The destination register selector.
    pub open spec fn spec_dst_reg(self) -> u8 {
        self.regs & 0x0f
    }

    /// The source register selector.
    pub open spec fn spec_src_reg(self) -> u8 {
        self.regs >> 4
    }

    pub fn dst_reg(&self) -> (r: u8)
        ensures
            r == self.spec_dst_reg(),
            r < 16,
    {
        let rg = self.regs;
        proof {
            assert(rg & 0x0f < 16) by (bit_vector);
        }
        rg & 0x0f
    }

    pub fn src_reg(&self) -> (r: u8)
        ensures
            r == self.spec_src_reg(),
            r < 16,
    {
        let rg = self.regs;
        proof {
            assert(rg >> 4 < 16) by (bit_vector);
        }
        rg >> 4
    }

    /// Whether this is a wide (two-slot, 64-bit immediate) load.
    pub open spec fn spec_is_wide(self) -> bool {
        self.opcode == 0x18
    }

    pub fn is_wide(&self) -> (r: bool)
        ensures
            r == self.spec_is_wide(),
    {
        self.opcode == 0x18
    }

    /// Whether this is the exit instruction.
    pub open spec fn spec_is_exit(self) -> bool {
        self.opcode == 0x95
    }

    pub fn is_exit(&self) -> (r: bool)
        ensures
            r == self.spec_is_exit(),
    {
        self.opcode == 0x95
    }

    /// The instruction class.
    pub fn class(&self) -> (r: Option<OpcodeClass>)
        ensures
            r == spec_class(self.opcode),
    {
        OpcodeClass::from_opcode(self.opcode)
    }

    /// `mov dst, imm` on 64 bits.
    pub fn mov64_imm(dst: u8, imm: i32) -> (r: Self)
        requires
            dst < 16,
        ensures
            r == (BpfInsn { opcode: 0xb7u8, regs: dst, offset: 0i16, imm }),
    {
        proof {
            assert(dst | (0u8 << 4) == dst) by (bit_vector);
        }
        Self::new(0xb7, dst, 0, 0, imm)
    }

    /// `mov dst, src` on 64 bits.
    pub fn mov64_reg(dst: u8, src: u8) -> (r: Self)
        requires
            dst < 16,
            src < 16,
        ensures
            r.opcode == 0xbf,
            r.spec_dst_reg() == dst,
            r.spec_src_reg() == src,
            r.offset == 0,
            r.imm == 0,
    {
        proof {
            assert(dst < 16 && src < 16 ==> ((dst | (src << 4)) & 0x0f == dst && (dst | (src << 4))
                >> 4 == src)) by (bit_vector);
        }
        Self::new(0xbf, dst, src, 0, 0)
    }

    /// `add dst, imm` on 64 bits.
    pub fn add64_imm(dst: u8, imm: i32) -> (r: Self)
        requires
            dst < 16,
        ensures
            r == (BpfInsn { opcode: 0x07u8, regs: dst, offset: 0i16, imm }),
    {
        proof {
            assert(dst | (0u8 << 4) == dst) by (bit_vector);
        }
        Self::new(0x07, dst, 0, 0, imm)
    }

    /// `add dst, src` on 64 bits.
    pub fn add64_reg(dst: u8, src: u8) -> (r: Self)
        requires
            dst < 16,
            src < 16,
        ensures
            r.opcode == 0x0f,
            r.spec_dst_reg() == dst,
            r.spec_src_reg() == src,
            r.offset == 0,
            r.imm == 0,
    {
        proof {
            assert(dst < 16 && src < 16 ==> ((dst | (src << 4)) & 0x0f == dst && (dst | (src << 4))
                >> 4 == src)) by (bit_vector);
        }
        Self::new(0x0f, dst, src, 0, 0)
    }

    /// The exit instruction.
    pub fn exit() -> (r: Self)
        ensures
            r == (BpfInsn { opcode: 0x95u8, regs: 0u8, offset: 0i16, imm: 0i32 }),
    {
        proof {
            assert(0u8 | (0u8 << 4) == 0u8) by (bit_vector);
        }
        Self::new(0x95, 0, 0, 0, 0)
    }

    /// A helper call by numeric id.
    pub fn call(helper_id: i32) -> (r: Self)
        ensures
            r == (BpfInsn { opcode: 0x85u8, regs: 0u8, offset: 0i16, imm: helper_id }),
    {
        proof {
            assert(0u8 | (0u8 << 4) == 0u8) by (bit_vector);
        }
        Self::new(0x85, 0, 0, 0, helper_id)
    }

    /// The 8 wire bytes of the record: opcode, registers, little-endian
    /// offset, little-endian immediate.
    pub open spec fn spec_bytes(self) -> Seq<u8> {
        let u = self.offset as u16;
        let v = self.imm as u32;
        seq![
            self.opcode,
            self.regs,
            (u % 256) as u8,
            ((u / 256) % 256) as u8,
            (v % 256) as u8,
            ((v / 256) % 256) as u8,
            ((v / 0x10000) % 256) as u8,
            ((v / 0x1000000) % 256) as u8,
        ]
    }

    /// Serializes the record to its 8 wire bytes.
    pub fn to_bytes(&self) -> (r: Vec<u8>)
        ensures
            r@ == self.spec_bytes(),
    {
        let mut out: Vec<u8> = Vec::new();
        out.push(self.opcode);
        out.push(self.regs);
        let u = self.offset as u16;
        out.push((u % 256) as u8);
        out.push(((u / 256) % 256) as u8);
        let v = self.imm as u32;
        out.push((v % 256) as u8);
        out.push(((v / 256) % 256) as u8);
        out.push(((v / 0x10000) % 256) as u8);
        out.push(((v / 0x1000000) % 256) as u8);
        proof {
            assert(out@ =~= self.spec_bytes());
        }
        out
    }

    /// Parses one record from 8 wire bytes.
    pub fn from_bytes(b: &[u8]) -> (r: Option<Self>)
        ensures
            b@.len() == 8 ==> r is Some && r->Some_0.spec_bytes() == b@,
            b@.len() != 8 ==> r is None,
    {
        if b.len() != 8 {
            return None;
        }
        let u: u16 = b[2] as u16 + 256 * (b[3] as u16);
        let v: u32 = b[4] as u32 + 256 * (b[5] as u32 + 256 * (b[6] as u32 + 256 * (b[7] as u32)));
        let insn = BpfInsn { opcode: b[0], regs: b[1], offset: u as i16, imm: v as i32 };
        proof {
            let bb = b@;
            let io = insn.offset;
            let im = insn.imm;
            assert(u == bb[2] + 256 * bb[3]);
            assert(io == u as i16 ==> (io as u16) == u) by (bit_vector);
            assert(im == v as i32 ==> (im as u32) == v) by (bit_vector);
            assert((u % 256) as u8 == bb[2] && ((u / 256) % 256) as u8 == bb[3]) by (nonlinear_arith)
                requires
                    u == bb[2] + 256 * bb[3],
                    bb[2] < 256,
                    bb[3] < 256,
            ;
            assert((v % 256) as u8 == bb[4] && ((v / 256) % 256) as u8 == bb[5] && ((v / 0x10000)
                % 256) as u8 == bb[6] && ((v / 0x1000000) % 256) as u8 == bb[7])
                by (nonlinear_arith)
                requires
                    v == bb[4] + 256 * (bb[5] + 256 * (bb[6] + 256 * bb[7])),
                    bb[4] < 256,
                    bb[5] < 256,
                    bb[6] < 256,
                    bb[7] < 256,
            ;
            assert(insn.spec_bytes() =~= b@);
        }
        Some(insn)
    }
}

/// The program type vocabulary that the loader recognizes.
#[derive(Debug, Clone, Copy, PartialEq, Eq, Structural)]
pub enum BpfProgType {
    Unspec,
    SocketFilter,
    Kprobe,
    SchedCls,
    SchedAct,
    Tracepoint,
    Xdp,
    PerfEvent,
    RawTracepoint,
}

/// A structural validation failure of an instruction sequence.
#[derive(Debug, Clone, Copy, PartialEq, Eq, Structural)]
pub enum ProgramError {
    /// The program holds no instructions.
    Empty,
    /// A wide load occupies the final slot with no second half.
    UnpairedWide,
}

/// Every wide load starting at or after `i` has its second slot inside the
/// program.
pub open spec fn spec_wide_ok(insns: Seq<BpfInsn>, i: int) -> bool
    decreases insns.len() - i,
{
    if i < 0 || i >= insns.len() {
        true
    } else if insns[i].spec_is_wide() {
        i + 1 < insns.len() && spec_wide_ok(insns, i + 2)
    } else {
        spec_wide_ok(insns, i + 1)
    }
}

/// A validated, immutable program: a type and an instruction sequence whose
/// wide loads are all paired.
#[derive(Debug, Clone)]
pub struct BpfProgram {
    prog_type: BpfProgType,
    insns: Vec<BpfInsn>,
}

impl BpfProgram {
    /// The program type.
    pub closed spec fn spec_prog_type(&self) -> BpfProgType {
        self.prog_type
    }

    /// The instruction sequence.
    pub closed spec fn spec_insns(&self) -> Seq<BpfInsn> {
        self.insns@
    }

    /// The structural facts that `build` establishes.
    pub open spec fn wf(&self) -> bool {
        self.spec_insns().len() > 0 && spec_wide_ok(self.spec_insns(), 0)
    }

    pub fn prog_type(&self) -> (r: BpfProgType)
        ensures
            r == self.spec_prog_type(),
    {
        self.prog_type
    }

    /// The instructions.
    pub fn instructions(&self) -> (r: &Vec<BpfInsn>)
        ensures
            r@ == self.spec_insns(),
    {
        &self.insns
    }

    /// Number of instruction slots.
    pub fn insn_count(&self) -> (r: usize)
        ensures
            r == self.spec_insns().len(),
    {
        self.insns.len()
    }
}

/// Accumulates instructions and validates them into a program.
pub struct ProgramBuilder {
    prog_type: BpfProgType,
    insns: Vec<BpfInsn>,
}

impl ProgramBuilder {
    /// The instructions accumulated so far.
    pub closed spec fn spec_insns(&self) -> Seq<BpfInsn> {
        self.insns@
    }

    /// The program type chosen at creation.
    pub closed spec fn spec_prog_type(&self) -> BpfProgType {
        self.prog_type
    }

    /// An empty builder for a program of type `prog_type`.
    pub fn new(prog_type: BpfProgType) -> (r: Self)
        ensures
            r.spec_prog_type() == prog_type,
            r.spec_insns().len() == 0,
    {
        ProgramBuilder { prog_type, insns: Vec::new() }
    }

    /// Appends one instruction.
    pub fn insn(self, insn: BpfInsn) -> (r: Self)
        ensures
            r.spec_prog_type() == self.spec_prog_type(),
            r.spec_insns() == self.spec_insns().push(insn),
    {
        let mut s = self;
        s.insns.push(insn);
        s
    }

    /// Validates the accumulated instructions: the program must be non-empty
    /// and every wide load must have its second slot.
    pub fn build(self) -> (r: Result<BpfProgram, ProgramError>)
        ensures
            self.spec_insns().len() == 0 ==> r == Err::<BpfProgram, ProgramError>(
                ProgramError::Empty,
            ),
            self.spec_insns().len() > 0 && !spec_wide_ok(self.spec_insns(), 0) ==> r == Err::<
                BpfProgram,
                ProgramError,
            >(ProgramError::UnpairedWide),
            self.spec_insns().len() > 0 && spec_wide_ok(self.spec_insns(), 0) ==> r is Ok
                && r->Ok_0.spec_insns() == self.spec_insns() && r->Ok_0.spec_prog_type()
                == self.spec_prog_type() && r->Ok_0.wf(),
    {
        if self.insns.len() == 0 {
            return Err(ProgramError::Empty);
        }
        let n = self.insns.len();
        let mut i: usize = 0;
        while i < n
            invariant
                n == self.spec_insns().len(),
                0 <= i,
                spec_wide_ok(self.spec_insns(), 0) == spec_wide_ok(self.spec_insns(), i as int),
            decreases n - i,
        {
            if self.insns[i].is_wide() {
                if i + 1 >= n {
                    proof {
                        assert(!spec_wide_ok(self.spec_insns(), i as int));
                    }
                    return Err(ProgramError::UnpairedWide);
                }
                i = i + 2;
            } else {
                i = i + 1;
            }
        }
        proof {
            assert(spec_wide_ok(self.spec_insns(), i as int));
        }
        Ok(BpfProgram { prog_type: self.prog_type, insns: self.insns })
    }
}

} // verus!
