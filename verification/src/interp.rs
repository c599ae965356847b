//! The bytecode interpreter: a fetch-decode-dispatch loop over the
//! instruction array, specified by a small-step machine.
//!
//! Eleven 64-bit registers r0..r10; r10 points one past a 512-byte scratch
//! stack that occupies model addresses 0..512. Division by zero produces
//! zero. 32-bit operations zero-extend their result. Loads and stores are
//! valid only inside the scratch stack. Helper calls dispatch to the helper
//! table, whose state the machine carries alongside registers and stack.

use vstd::prelude::*;
use crate::helpers::{spec_dispatch, HelperModel, HelperTable};
use crate::bytecode::{
    spec_alu_op, spec_class, spec_jmp_op, spec_mem_size, spec_source, AluOp, BpfInsn, BpfProgram,
    JmpOp, MemSize, OpcodeClass, SourceType,
};

verus! {

/// Size of the per-program scratch stack in bytes.
pub const STACK_SIZE: usize = 512;

/// The largest program the interpreter accepts, in instruction slots.
pub const MAX_INSNS: usize = 0x100000;

/// Why execution stopped without a result.
#[derive(Debug, Clone, Copy, PartialEq, Eq, Structural)]
pub enum ExecError {
    /// The program counter left the instruction array.
    PcOutOfBounds,
    /// An instruction could not be decoded, or a wide load lacked its pair.
    BadInstruction,
    /// A write to a read-only or nonexistent register.
    BadRegister,
    /// A load or store outside the scratch stack.
    MemoryOutOfBounds,
    /// The step budget ran out.
    StepLimit,
}

/// Execution result: the final r0, or the error that stopped the program.
pub type BpfResult = Result<u64, ExecError>;

/// The event context handed to a program in r1.
#[derive(Debug, Clone, Copy, PartialEq, Eq, Structural)]
pub struct BpfContext {
    pub arg: u64,
}

impl BpfContext {
    /// A context whose argument is zero.
    pub fn empty() -> (r: Self)
        ensures
            r.arg == 0,
    {
        BpfContext { arg: 0 }
    }

    /// A context carrying `arg`.
    pub fn with_arg(arg: u64) -> (r: Self)
        ensures
            r.arg == arg,
    {
        BpfContext { arg }
    }
}

/// The machine state between steps.
pub struct MachState {
    pub regs: Seq<u64>,
    pub stack: Seq<u8>,
    pub pc: int,
    pub helpers: HelperModel,
}

/// What one step does.
pub enum SpecStep {
    Cont(MachState),
    Done(u64),
    Fail(ExecError),
}

/// The 64-bit result of an ALU operation, or `None` when the operation is
/// not defined for these operands.
pub open spec fn spec_alu(op: AluOp, is64: bool, a: u64, b: u64, src_reg_bit: bool, imm: i32) ->
    Option<u64> {
    match op {
        AluOp::Add => Some(
            if is64 {
                vstd::wrapping::u64_specs::wrapping_add(a, b)
            } else {
                vstd::wrapping::u32_specs::wrapping_add(a as u32, b as u32) as u64
            },
        ),
        AluOp::Sub => Some(
            if is64 {
                vstd::wrapping::u64_specs::wrapping_sub(a, b)
            } else {
                vstd::wrapping::u32_specs::wrapping_sub(a as u32, b as u32) as u64
            },
        ),
        AluOp::Mul => Some(
            if is64 {
                vstd::wrapping::u64_specs::wrapping_mul(a, b)
            } else {
                vstd::wrapping::u32_specs::wrapping_mul(a as u32, b as u32) as u64
            },
        ),
        AluOp::Div => Some(
            if is64 {
                if b == 0 {
                    0u64
                } else {
                    a / b
                }
            } else {
                if b as u32 == 0 {
                    0u64
                } else {
                    ((a as u32) / (b as u32)) as u64
                }
            },
        ),
        AluOp::Mod => Some(
            if is64 {
                if b == 0 {
                    0u64
                } else {
                    a % b
                }
            } else {
                if b as u32 == 0 {
                    0u64
                } else {
                    ((a as u32) % (b as u32)) as u64
                }
            },
        ),
        AluOp::Or => Some(
            if is64 {
                a | b
            } else {
                ((a as u32) | (b as u32)) as u64
            },
        ),
        AluOp::And => Some(
            if is64 {
                a & b
            } else {
                ((a as u32) & (b as u32)) as u64
            },
        ),
        AluOp::Xor => Some(
            if is64 {
                a ^ b
            } else {
                ((a as u32) ^ (b as u32)) as u64
            },
        ),
        AluOp::Lsh => Some(
            if is64 {
                a << (b & 63)
            } else {
                ((a as u32) << ((b as u32) & 31)) as u64
            },
        ),
        AluOp::Rsh => Some(
            if is64 {
                a >> (b & 63)
            } else {
                ((a as u32) >> ((b as u32) & 31)) as u64
            },
        ),
        AluOp::Arsh => Some(
            if is64 {
                ((a as i64) >> (b & 63)) as u64
            } else {
                (((a as u32) as i32) >> ((b as u32) & 31)) as u32 as u64
            },
        ),
        AluOp::Neg => Some(
            if is64 {
                vstd::wrapping::u64_specs::wrapping_sub(0u64, a)
            } else {
                vstd::wrapping::u32_specs::wrapping_sub(0u32, a as u32) as u64
            },
        ),
        AluOp::Mov => Some(
            if is64 {
                b
            } else {
                (b as u32) as u64
            },
        ),
        AluOp::End => {
            if imm == 16 {
                if src_reg_bit {
                    Some(((a % 256) * 256 + (a / 256) % 256) as u64)
                } else {
                    Some((a % 0x10000) as u64)
                }
            } else if imm == 32 {
                if src_reg_bit {
                    Some(
                        ((a % 256) * 0x1000000 + ((a / 256) % 256) * 0x10000 + ((a / 0x10000) % 256)
                            * 256 + (a / 0x1000000) % 256) as u64,
                    )
                } else {
                    Some((a % 0x100000000) as u64)
                }
            } else if imm == 64 {
                if src_reg_bit {
                    Some(
                        ((a % 256) * 0x100000000000000 + ((a / 256) % 256) * 0x1000000000000 + ((a
                            / 0x10000) % 256) * 0x10000000000 + ((a / 0x1000000) % 256) * 0x100000000
                            + ((a / 0x100000000) % 256) * 0x1000000 + ((a / 0x10000000000) % 256)
                            * 0x10000 + ((a / 0x1000000000000) % 256) * 256 + (a
                            / 0x100000000000000) % 256) as u64,
                    )
                } else {
                    Some(a)
                }
            } else {
                None
            }
        },
    }
}

/// The verdict of a conditional jump, or `None` for the non-conditional
/// members of the jump class.
pub open spec fn spec_cond(op: JmpOp, is64: bool, a: u64, b: u64) -> Option<bool> {
    match op {
        JmpOp::Jeq => Some(
            if is64 {
                a == b
            } else {
                a as u32 == b as u32
            },
        ),
        JmpOp::Jne => Some(
            if is64 {
                a != b
            } else {
                a as u32 != b as u32
            },
        ),
        JmpOp::Jgt => Some(
            if is64 {
                a > b
            } else {
                a as u32 > b as u32
            },
        ),
        JmpOp::Jge => Some(
            if is64 {
                a >= b
            } else {
                a as u32 >= b as u32
            },
        ),
        JmpOp::Jlt => Some(
            if is64 {
                a < b
            } else {
                (a as u32) < (b as u32)
            },
        ),
        JmpOp::Jle => Some(
            if is64 {
                a <= b
            } else {
                a as u32 <= b as u32
            },
        ),
        JmpOp::Jset => Some(
            if is64 {
                (a & b) != 0
            } else {
                ((a as u32) & (b as u32)) != 0
            },
        ),
        JmpOp::Jsgt => Some(
            if is64 {
                (a as i64) > (b as i64)
            } else {
                ((a as u32) as i32) > ((b as u32) as i32)
            },
        ),
        JmpOp::Jsge => Some(
            if is64 {
                (a as i64) >= (b as i64)
            } else {
                ((a as u32) as i32) >= ((b as u32) as i32)
            },
        ),
        JmpOp::Jslt => Some(
            if is64 {
                (a as i64) < (b as i64)
            } else {
                ((a as u32) as i32) < ((b as u32) as i32)
            },
        ),
        JmpOp::Jsle => Some(
            if is64 {
                (a as i64) <= (b as i64)
            } else {
                ((a as u32) as i32) <= ((b as u32) as i32)
            },
        ),
        JmpOp::Ja => None,
        JmpOp::Call => None,
        JmpOp::Exit => None,
    }
}

/// The little-endian value of `n` stack bytes at `addr`.
pub open spec fn spec_load(stack: Seq<u8>, addr: int, n: int) -> int
    decreases n,
{
    if n <= 0 {
        0
    } else {
        stack[addr] + 256 * spec_load(stack, addr + 1, n - 1)
    }
}

/// The stack after storing the `n` low-order bytes of `v`, little-endian,
/// at `addr`.
pub open spec fn spec_store(stack: Seq<u8>, addr: int, v: u64, n: int) -> Seq<u8> {
    Seq::new(
        stack.len(),
        |i: int|
            if addr <= i < addr + n {
                crate::signing::hash::spec_byte_of(v, i - addr)
            } else {
                stack[i]
            },
    )
}

/// The second operand of an ALU or jump instruction: the source register, or
/// the sign-extended immediate.
pub open spec fn spec_operand(st: MachState, insn: BpfInsn) -> u64 {
    if spec_source(insn.opcode) is Reg {
        st.regs[insn.spec_src_reg() as int]
    } else {
        insn.imm as i64 as u64
    }
}

/// One machine step over the instruction array `p`.
pub open spec fn spec_step(p: Seq<BpfInsn>, st: MachState) -> SpecStep {
    if st.pc < 0 || st.pc >= p.len() {
        SpecStep::Fail(ExecError::PcOutOfBounds)
    } else {
        let insn = p[st.pc];
        let dst = insn.spec_dst_reg() as int;
        let src = insn.spec_src_reg() as int;
        if insn.spec_is_wide() {
            if st.pc + 1 >= p.len() {
                SpecStep::Fail(ExecError::BadInstruction)
            } else if dst > 9 {
                SpecStep::Fail(ExecError::BadRegister)
            } else {
                let lo = insn.imm as u32 as u64;
                let hi = p[st.pc + 1].imm as u32 as u64;
                let v = lo | (hi << 32);
                SpecStep::Cont(
                    MachState {
                        regs: st.regs.update(dst, v),
                        stack: st.stack,
                        pc: st.pc + 2,
                        helpers: st.helpers,
                    },
                )
            }
        } else {
            match spec_class(insn.opcode) {
                None => SpecStep::Fail(ExecError::BadInstruction),
                Some(cls) => match cls {
                    OpcodeClass::Alu64 | OpcodeClass::Alu32 => {
                        let is64 = cls is Alu64;
                        match spec_alu_op(insn.opcode) {
                            None => SpecStep::Fail(ExecError::BadInstruction),
                            Some(op) => if dst > 9 {
                                SpecStep::Fail(ExecError::BadRegister)
                            } else if spec_source(insn.opcode) is Reg && src > 10 {
                                SpecStep::Fail(ExecError::BadRegister)
                            } else {
                                let a = st.regs[dst];
                                let b = spec_operand(st, insn);
                                match spec_alu(
                                    op,
                                    is64,
                                    a,
                                    b,
                                    spec_source(insn.opcode) is Reg,
                                    insn.imm,
                                ) {
                                    None => SpecStep::Fail(ExecError::BadInstruction),
                                    Some(v) => SpecStep::Cont(
                                        MachState {
                                            regs: st.regs.update(dst, v),
                                            stack: st.stack,
                                            pc: st.pc + 1,
                                            helpers: st.helpers,
                                        },
                                    ),
                                }
                            },
                        }
                    },
                    OpcodeClass::Jmp | OpcodeClass::Jmp32 => {
                        let is64 = cls is Jmp;
                        match spec_jmp_op(insn.opcode) {
                            None => SpecStep::Fail(ExecError::BadInstruction),
                            Some(JmpOp::Exit) => SpecStep::Done(st.regs[0]),
                            Some(JmpOp::Call) => {
                                let dr = spec_dispatch(
                                    st.helpers,
                                    insn.imm as u32,
                                    st.regs[1],
                                    st.regs[2],
                                    st.regs[3],
                                    st.regs[4],
                                    st.regs[5],
                                    st.stack,
                                );
                                SpecStep::Cont(
                                    MachState {
                                        regs: st.regs.update(0, dr.1),
                                        stack: st.stack,
                                        pc: st.pc + 1,
                                        helpers: dr.0,
                                    },
                                )
                            },
                            Some(JmpOp::Ja) => SpecStep::Cont(
                                MachState {
                                    regs: st.regs,
                                    stack: st.stack,
                                    pc: st.pc + 1 + insn.offset,
                                    helpers: st.helpers,
                                },
                            ),
                            Some(op) => if dst > 10 || (spec_source(insn.opcode) is Reg && src
                                > 10) {
                                SpecStep::Fail(ExecError::BadRegister)
                            } else {
                                let a = st.regs[dst];
                                let b = spec_operand(st, insn);
                                match spec_cond(op, is64, a, b) {
                                    None => SpecStep::Fail(ExecError::BadInstruction),
                                    Some(taken) => SpecStep::Cont(
                                        MachState {
                                            regs: st.regs,
                                            stack: st.stack,
                                            pc: if taken {
                                                st.pc + 1 + insn.offset
                                            } else {
                                                st.pc + 1
                                            },
                                            helpers: st.helpers,
                                        },
                                    ),
                                }
                            },
                        }
                    },
                    OpcodeClass::Ldx => {
                        let n = (match spec_mem_size(insn.opcode) {
                            MemSize::Byte => 1int,
                            MemSize::Half => 2int,
                            MemSize::Word => 4int,
                            MemSize::DWord => 8int,
                        });
                        if dst > 9 || src > 10 {
                            SpecStep::Fail(ExecError::BadRegister)
                        } else {
                            let addr = vstd::wrapping::u64_specs::wrapping_add_signed(
                                st.regs[src],
                                insn.offset as i64,
                            ) as int;
                            if addr + n <= STACK_SIZE {
                                let v = spec_load(st.stack, addr, n) as u64;
                                SpecStep::Cont(
                                    MachState {
                                        regs: st.regs.update(dst, v),
                                        stack: st.stack,
                                        pc: st.pc + 1,
                                        helpers: st.helpers,
                                    },
                                )
                            } else {
                                SpecStep::Fail(ExecError::MemoryOutOfBounds)
                            }
                        }
                    },
                    OpcodeClass::St | OpcodeClass::Stx => {
                        let n = (match spec_mem_size(insn.opcode) {
                            MemSize::Byte => 1int,
                            MemSize::Half => 2int,
                            MemSize::Word => 4int,
                            MemSize::DWord => 8int,
                        });
                        if dst > 10 || (cls is Stx && src > 10) {
                            SpecStep::Fail(ExecError::BadRegister)
                        } else {
                            let v = if cls is Stx {
                                st.regs[src]
                            } else {
                                insn.imm as i64 as u64
                            };
                            let addr = vstd::wrapping::u64_specs::wrapping_add_signed(
                                st.regs[dst],
                                insn.offset as i64,
                            ) as int;
                            if addr + n <= STACK_SIZE {
                                SpecStep::Cont(
                                    MachState {
                                        regs: st.regs,
                                        stack: spec_store(st.stack, addr, v, n),
                                        pc: st.pc + 1,
                                        helpers: st.helpers,
                                    },
                                )
                            } else {
                                SpecStep::Fail(ExecError::MemoryOutOfBounds)
                            }
                        }
                    },
                    OpcodeClass::Ld => SpecStep::Fail(ExecError::BadInstruction),
                },
            }
        }
    }
}

/// Runs at most `fuel` machine steps.
pub open spec fn spec_run(p: Seq<BpfInsn>, st: MachState, fuel: nat) -> BpfResult
    decreases fuel,
{
    if fuel == 0 {
        Err(ExecError::StepLimit)
    } else {
        match spec_step(p, st) {
            SpecStep::Done(v) => Ok(v),
            SpecStep::Fail(e) => Err(e),
            SpecStep::Cont(st2) => spec_run(p, st2, (fuel - 1) as nat),
        }
    }
}

/// The helper state the machine holds when it stops, within `fuel` steps.
pub open spec fn spec_run_model(p: Seq<BpfInsn>, st: MachState, fuel: nat) -> HelperModel
    decreases fuel,
{
    if fuel == 0 {
        st.helpers
    } else {
        match spec_step(p, st) {
            SpecStep::Cont(st2) => spec_run_model(p, st2, (fuel - 1) as nat),
            _ => st.helpers,
        }
    }
}

/// The initial machine over a given helper state: r1 carries the context
/// argument, r10 points one past the zeroed scratch stack, and execution
/// starts at instruction 0.
pub open spec fn spec_init_with(ctx: BpfContext, m: HelperModel) -> MachState {
    MachState {
        regs: Seq::new(
            11,
            |i: int|
                if i == 1 {
                    ctx.arg
                } else if i == 10 {
                    STACK_SIZE as u64
                } else {
                    0u64
                },
        ),
        stack: Seq::new(STACK_SIZE as nat, |i: int| 0u8),
        pc: 0,
        helpers: m,
    }
}

/// The initial machine over the default helper state.
pub open spec fn spec_init(ctx: BpfContext) -> MachState {
    spec_init_with(ctx, HelperModel::default_model())
}


/// Computes one ALU result; agrees exactly with `spec_alu`.
fn alu_compute(op: AluOp, is64: bool, a: u64, b: u64, src_reg_bit: bool, imm: i32) -> (r: Option<
    u64,
>)
    ensures
        r == spec_alu(op, is64, a, b, src_reg_bit, imm),
{
    proof {
        assert((b & 63) < 64 && ((b as u32) & 31) < 32) by (bit_vector);
    }
    match op {
        AluOp::Add => Some(
            if is64 {
                a.wrapping_add(b)
            } else {
                (a as u32).wrapping_add(b as u32) as u64
            },
        ),
        AluOp::Sub => Some(
            if is64 {
                a.wrapping_sub(b)
            } else {
                (a as u32).wrapping_sub(b as u32) as u64
            },
        ),
        AluOp::Mul => Some(
            if is64 {
                a.wrapping_mul(b)
            } else {
                (a as u32).wrapping_mul(b as u32) as u64
            },
        ),
        AluOp::Div => Some(
            if is64 {
                if b == 0 {
                    0
                } else {
                    a / b
                }
            } else {
                if b as u32 == 0 {
                    0
                } else {
                    ((a as u32) / (b as u32)) as u64
                }
            },
        ),
        AluOp::Mod => Some(
            if is64 {
                if b == 0 {
                    0
                } else {
                    a % b
                }
            } else {
                if b as u32 == 0 {
                    0
                } else {
                    ((a as u32) % (b as u32)) as u64
                }
            },
        ),
        AluOp::Or => Some(
            if is64 {
                a | b
            } else {
                ((a as u32) | (b as u32)) as u64
            },
        ),
        AluOp::And => Some(
            if is64 {
                a & b
            } else {
                ((a as u32) & (b as u32)) as u64
            },
        ),
        AluOp::Xor => Some(
            if is64 {
                a ^ b
            } else {
                ((a as u32) ^ (b as u32)) as u64
            },
        ),
        AluOp::Lsh => Some(
            if is64 {
                a << (b & 63)
            } else {
                ((a as u32) << ((b as u32) & 31)) as u64
            },
        ),
        AluOp::Rsh => Some(
            if is64 {
                a >> (b & 63)
            } else {
                ((a as u32) >> ((b as u32) & 31)) as u64
            },
        ),
        AluOp::Arsh => Some(
            if is64 {
                ((a as i64) >> (b & 63)) as u64
            } else {
                (((a as u32) as i32) >> ((b as u32) & 31)) as u32 as u64
            },
        ),
        AluOp::Neg => Some(
            if is64 {
                0u64.wrapping_sub(a)
            } else {
                0u32.wrapping_sub(a as u32) as u64
            },
        ),
        AluOp::Mov => Some(
            if is64 {
                b
            } else {
                (b as u32) as u64
            },
        ),
        AluOp::End => {
            if imm == 16 {
                if src_reg_bit {
                    Some((a % 256) * 256 + (a / 256) % 256)
                } else {
                    Some(a % 0x10000)
                }
            } else if imm == 32 {
                if src_reg_bit {
                    Some(
                        (a % 256) * 0x1000000 + ((a / 256) % 256) * 0x10000 + ((a / 0x10000) % 256)
                            * 256 + (a / 0x1000000) % 256,
                    )
                } else {
                    Some(a % 0x100000000)
                }
            } else if imm == 64 {
                if src_reg_bit {
                    Some(
                        (a % 256) * 0x100000000000000 + ((a / 256) % 256) * 0x1000000000000 + ((a
                            / 0x10000) % 256) * 0x10000000000 + ((a / 0x1000000) % 256) * 0x100000000
                            + ((a / 0x100000000) % 256) * 0x1000000 + ((a / 0x10000000000) % 256)
                            * 0x10000 + ((a / 0x1000000000000) % 256) * 256 + (a
                            / 0x100000000000000) % 256,
                    )
                } else {
                    Some(a)
                }
            } else {
                None
            }
        },
    }
}

/// Evaluates one conditional jump; agrees exactly with `spec_cond`.
fn cond_compute(op: JmpOp, is64: bool, a: u64, b: u64) -> (r: Option<bool>)
    ensures
        r == spec_cond(op, is64, a, b),
{
    match op {
        JmpOp::Jeq => Some(
            if is64 {
                a == b
            } else {
                a as u32 == b as u32
            },
        ),
        JmpOp::Jne => Some(
            if is64 {
                a != b
            } else {
                a as u32 != b as u32
            },
        ),
        JmpOp::Jgt => Some(
            if is64 {
                a > b
            } else {
                a as u32 > b as u32
            },
        ),
        JmpOp::Jge => Some(
            if is64 {
                a >= b
            } else {
                a as u32 >= b as u32
            },
        ),
        JmpOp::Jlt => Some(
            if is64 {
                a < b
            } else {
                (a as u32) < (b as u32)
            },
        ),
        JmpOp::Jle => Some(
            if is64 {
                a <= b
            } else {
                a as u32 <= b as u32
            },
        ),
        JmpOp::Jset => Some(
            if is64 {
                (a & b) != 0
            } else {
                ((a as u32) & (b as u32)) != 0
            },
        ),
        JmpOp::Jsgt => Some(
            if is64 {
                (a as i64) > (b as i64)
            } else {
                ((a as u32) as i32) > ((b as u32) as i32)
            },
        ),
        JmpOp::Jsge => Some(
            if is64 {
                (a as i64) >= (b as i64)
            } else {
                ((a as u32) as i32) >= ((b as u32) as i32)
            },
        ),
        JmpOp::Jslt => Some(
            if is64 {
                (a as i64) < (b as i64)
            } else {
                ((a as u32) as i32) < ((b as u32) as i32)
            },
        ),
        JmpOp::Jsle => Some(
            if is64 {
                (a as i64) <= (b as i64)
            } else {
                ((a as u32) as i32) <= ((b as u32) as i32)
            },
        ),
        JmpOp::Ja => None,
        JmpOp::Call => None,
        JmpOp::Exit => None,
    }
}

/// Reads `n` little-endian bytes from the scratch stack.
fn mem_load(stack: &Vec<u8>, addr: usize, n: usize) -> (r: u64)
    requires
        addr + n <= stack@.len(),
        stack@.len() == STACK_SIZE,
        n == 1 || n == 2 || n == 4 || n == 8,
    ensures
        r as int == spec_load(stack@, addr as int, n as int),
{
    proof {
        reveal_with_fuel(spec_load, 10);
    }
    if n == 1 {
        stack[addr] as u64
    } else if n == 2 {
        stack[addr] as u64 + 256 * (stack[addr + 1] as u64)
    } else if n == 4 {
        stack[addr] as u64 + 256 * (stack[addr + 1] as u64 + 256 * (stack[addr + 2] as u64 + 256 * (
        stack[addr + 3] as u64)))
    } else {
        stack[addr] as u64 + 256 * (stack[addr + 1] as u64 + 256 * (stack[addr + 2] as u64 + 256 * (
        stack[addr + 3] as u64 + 256 * (stack[addr + 4] as u64 + 256 * (stack[addr + 5] as u64 + 256
            * (stack[addr + 6] as u64 + 256 * (stack[addr + 7] as u64)))))))
    }
}

/// Writes the `n` low-order bytes of `v`, little-endian, into the scratch
/// stack.
fn mem_store(stack: &mut Vec<u8>, addr: usize, v: u64, n: usize)
    requires
        addr + n <= old(stack)@.len(),
        old(stack)@.len() == STACK_SIZE,
        n <= 8,
    ensures
        final(stack)@ == spec_store(old(stack)@, addr as int, v, n as int),
{
    let ghost s0 = stack@;
    let mut w = v;
    let ghost wv = v;
    let mut k: usize = 0;
    while k < n
        invariant
            k <= n,
            addr + n <= s0.len(),
            s0.len() == STACK_SIZE,
            stack@.len() == s0.len(),
            forall|m: int| 0 <= m ==> #[trigger] crate::signing::hash::spec_byte_of(w, m)
                == crate::signing::hash::spec_byte_of(wv, k + m),
            forall|i: int|
                0 <= i < s0.len() ==> #[trigger] stack@[i] == (if addr <= i < addr + k {
                    crate::signing::hash::spec_byte_of(wv, i - addr)
                } else {
                    s0[i]
                }),
        decreases n - k,
    {
        stack.set(addr + k, (w % 256) as u8);
        proof {
            assert(crate::signing::hash::spec_byte_of(w, 0) == crate::signing::hash::spec_byte_of(
                wv,
                k as int,
            ));
            assert forall|m: int| 0 <= m implies #[trigger] crate::signing::hash::spec_byte_of(
                w / 256,
                m,
            ) == crate::signing::hash::spec_byte_of(wv, k + 1 + m) by {
                assert(crate::signing::hash::spec_byte_of(w, m + 1)
                    == crate::signing::hash::spec_byte_of(w / 256, m));
                assert(crate::signing::hash::spec_byte_of(w, m + 1)
                    == crate::signing::hash::spec_byte_of(wv, k + (m + 1)));
            }
        }
        w = w / 256;
        k = k + 1;
    }
    proof {
        assert(stack@ =~= spec_store(s0, addr as int, wv, n as int));
    }
}

/// The fetch-decode-dispatch interpreter.
pub struct Interpreter {
    step_limit: u64,
}

impl Interpreter {
    /// The step budget.
    pub closed spec fn spec_limit(&self) -> u64 {
        self.step_limit
    }

    /// An interpreter with the default step budget.
    pub fn new() -> (r: Self)
        ensures
            r.spec_limit() == 1000000,
    {
        Interpreter { step_limit: 1000000 }
    }

    /// An interpreter with an explicit step budget.
    pub fn with_limit(step_limit: u64) -> (r: Self)
        ensures
            r.spec_limit() == step_limit,
    {
        Interpreter { step_limit }
    }

    /// Runs the program on the context over a fresh helper table: a zero
    /// clock, an empty ring, the latch released. The result is exactly what
    /// the small-step machine produces within the step budget: the final r0
    /// on exit, or the error that stopped execution.
    pub fn execute(&self, program: &BpfProgram, ctx: &BpfContext) -> (r: BpfResult)
        requires
            program.spec_insns().len() <= MAX_INSNS,
        ensures
            r == spec_run(program.spec_insns(), spec_init(*ctx), self.spec_limit() as nat),
    {
        let mut ht = HelperTable::new();
        self.execute_with(program, ctx, &mut ht)
    }

    /// Runs the program on the context over the given helper table. The
    /// result is exactly what the small-step machine produces within the
    /// step budget from the table's current helper state, and the table
    /// afterwards holds exactly the helper state the machine stopped in.
    pub fn execute_with(&self, program: &BpfProgram, ctx: &BpfContext, ht: &mut HelperTable) -> (r:
        BpfResult)
        requires
            program.spec_insns().len() <= MAX_INSNS,
            old(ht).wf(),
        ensures
            final(ht).wf(),
            r == spec_run(
                program.spec_insns(),
                spec_init_with(*ctx, old(ht).spec_model()),
                self.spec_limit() as nat,
            ),
            final(ht).spec_model() == spec_run_model(
                program.spec_insns(),
                spec_init_with(*ctx, old(ht).spec_model()),
                self.spec_limit() as nat,
            ),
    {
        let ghost st0 = spec_init_with(*ctx, old(ht).spec_model());
        let insns = program.instructions();
        let n = insns.len();
        let ghost p = program.spec_insns();
        let mut regs: Vec<u64> = Vec::new();
        regs.push(0);
        regs.push(ctx.arg);
        regs.push(0);
        regs.push(0);
        regs.push(0);
        regs.push(0);
        regs.push(0);
        regs.push(0);
        regs.push(0);
        regs.push(0);
        regs.push(STACK_SIZE as u64);
        let mut stack: Vec<u8> = Vec::new();
        let mut z: usize = 0;
        while z < STACK_SIZE
            invariant
                z <= STACK_SIZE,
                stack@ == Seq::new(z as nat, |i: int| 0u8),
            decreases STACK_SIZE - z,
        {
            stack.push(0);
            proof {
                assert(stack@ =~= Seq::new((z + 1) as nat, |i: int| 0u8));
            }
            z = z + 1;
        }
        proof {
            assert(regs@ =~= st0.regs);
            assert(stack@ =~= st0.stack);
        }
        let mut pc: i64 = 0;
        let mut steps: u64 = 0;
        let limit = self.step_limit;
        loop
            invariant
                p == program.spec_insns(),
                insns@ == p,
                p.len() == n,
                n <= MAX_INSNS,
                limit == self.spec_limit(),
                regs@.len() == 11,
                stack@.len() == STACK_SIZE,
                steps <= limit,
                -0x7000_0000_0000_0000 < pc < 0x7000_0000_0000_0000,
                ht.wf(),
                st0 == spec_init_with(*ctx, old(ht).spec_model()),
                spec_run(p, st0, limit as nat) == spec_run(
                    p,
                    MachState { regs: regs@, stack: stack@, pc: pc as int, helpers: ht.spec_model() },
                    (limit - steps) as nat,
                ),
                spec_run_model(p, st0, limit as nat) == spec_run_model(
                    p,
                    MachState { regs: regs@, stack: stack@, pc: pc as int, helpers: ht.spec_model() },
                    (limit - steps) as nat,
                ),
            decreases limit - steps,
        {
            let ghost cur = MachState {
                regs: regs@,
                stack: stack@,
                pc: pc as int,
                helpers: ht.spec_model(),
            };
            if steps >= limit {
                return Err(ExecError::StepLimit);
            }
            if pc < 0 || pc >= n as i64 {
                proof {
                    assert(spec_step(p, cur) == SpecStep::Fail(ExecError::PcOutOfBounds));
                }
                return Err(ExecError::PcOutOfBounds);
            }
            let insn = insns[pc as usize];
            let dst = insn.dst_reg();
            let src = insn.src_reg();
            if insn.is_wide() {
                if pc + 1 >= n as i64 {
                    proof {
                        assert(spec_step(p, cur) == SpecStep::Fail(ExecError::BadInstruction));
                    }
                    return Err(ExecError::BadInstruction);
                }
                if dst > 9 {
                    proof {
                        assert(spec_step(p, cur) == SpecStep::Fail(ExecError::BadRegister));
                    }
                    return Err(ExecError::BadRegister);
                }
                let lo = insn.imm as u32 as u64;
                let hi = insns[(pc + 1) as usize].imm as u32 as u64;
                let v = lo | (hi << 32);
                regs.set(dst as usize, v);
                pc = pc + 2;
                proof {
                    assert(spec_step(p, cur) == SpecStep::Cont(
                        MachState {
                            regs: regs@,
                            stack: stack@,
                            pc: pc as int,
                            helpers: ht.spec_model(),
                        },
                    ));
                }
            } else {
                let cls = match OpcodeClass::from_opcode(insn.opcode) {
                    Some(c) => c,
                    None => {
                        proof {
                            assert(spec_step(p, cur) == SpecStep::Fail(ExecError::BadInstruction));
                        }
                        return Err(ExecError::BadInstruction);
                    },
                };
                match cls {
                    OpcodeClass::Alu64 | OpcodeClass::Alu32 => {
                        let is64 = matches!(cls, OpcodeClass::Alu64);
                        let op = match AluOp::from_opcode(insn.opcode) {
                            Some(o) => o,
                            None => {
                                proof {
                                    assert(spec_step(p, cur) == SpecStep::Fail(
                                        ExecError::BadInstruction,
                                    ));
                                }
                                return Err(ExecError::BadInstruction);
                            },
                        };
                        let src_is_reg = matches!(
                            SourceType::from_opcode(insn.opcode),
                            SourceType::Reg
                        );
                        if dst > 9 || (src_is_reg && src > 10) {
                            proof {
                                assert(spec_step(p, cur) == SpecStep::Fail(ExecError::BadRegister));
                            }
                            return Err(ExecError::BadRegister);
                        }
                        let a = regs[dst as usize];
                        let b: u64 = if src_is_reg {
                            regs[src as usize]
                        } else {
                            insn.imm as i64 as u64
                        };
                        match alu_compute(op, is64, a, b, src_is_reg, insn.imm) {
                            Some(v) => {
                                regs.set(dst as usize, v);
                                pc = pc + 1;
                                proof {
                                    assert(spec_step(p, cur) == SpecStep::Cont(
                                        MachState {
                                            regs: regs@,
                                            stack: stack@,
                                            pc: pc as int,
                                            helpers: ht.spec_model(),
                                        },
                                    ));
                                }
                            },
                            None => {
                                proof {
                                    assert(spec_step(p, cur) == SpecStep::Fail(
                                        ExecError::BadInstruction,
                                    ));
                                }
                                return Err(ExecError::BadInstruction);
                            },
                        }
                    },
                    OpcodeClass::Jmp | OpcodeClass::Jmp32 => {
                        let is64 = matches!(cls, OpcodeClass::Jmp);
                        let op = match JmpOp::from_opcode(insn.opcode) {
                            Some(o) => o,
                            None => {
                                proof {
                                    assert(spec_step(p, cur) == SpecStep::Fail(
                                        ExecError::BadInstruction,
                                    ));
                                }
                                return Err(ExecError::BadInstruction);
                            },
                        };
                        match op {
                            JmpOp::Exit => {
                                let r0 = regs[0];
                                proof {
                                    assert(spec_step(p, cur) == SpecStep::Done(r0));
                                }
                                return Ok(r0);
                            },
                            JmpOp::Call => {
                                let a1 = regs[1];
                                let a2 = regs[2];
                                let a3 = regs[3];
                                let a4 = regs[4];
                                let a5 = regs[5];
                                let r0 = ht.dispatch(insn.imm as u32, a1, a2, a3, a4, a5, &stack);
                                regs.set(0, r0);
                                pc = pc + 1;
                                proof {
                                    assert(spec_step(p, cur) == SpecStep::Cont(
                                        MachState {
                                            regs: regs@,
                                            stack: stack@,
                                            pc: pc as int,
                                            helpers: ht.spec_model(),
                                        },
                                    ));
                                }
                            },
                            JmpOp::Ja => {
                                pc = pc + 1 + insn.offset as i64;
                                proof {
                                    assert(spec_step(p, cur) == SpecStep::Cont(
                                        MachState {
                                            regs: regs@,
                                            stack: stack@,
                                            pc: pc as int,
                                            helpers: ht.spec_model(),
                                        },
                                    ));
                                }
                            },
                            _ => {
                                let src_is_reg = matches!(
                                    SourceType::from_opcode(insn.opcode),
                                    SourceType::Reg
                                );
                                if dst > 10 || (src_is_reg && src > 10) {
                                    proof {
                                        assert(spec_step(p, cur) == SpecStep::Fail(
                                            ExecError::BadRegister,
                                        ));
                                    }
                                    return Err(ExecError::BadRegister);
                                }
                                let a = regs[dst as usize];
                                let b: u64 = if src_is_reg {
                                    regs[src as usize]
                                } else {
                                    insn.imm as i64 as u64
                                };
                                match cond_compute(op, is64, a, b) {
                                    Some(taken) => {
                                        if taken {
                                            pc = pc + 1 + insn.offset as i64;
                                        } else {
                                            pc = pc + 1;
                                        }
                                        proof {
                                            assert(spec_step(p, cur) == SpecStep::Cont(
                                                MachState {
                                                    regs: regs@,
                                                    stack: stack@,
                                                    pc: pc as int,
                                                    helpers: ht.spec_model(),
                                                },
                                            ));
                                        }
                                    },
                                    None => {
                                        proof {
                                            assert(spec_step(p, cur) == SpecStep::Fail(
                                                ExecError::BadInstruction,
                                            ));
                                        }
                                        return Err(ExecError::BadInstruction);
                                    },
                                }
                            },
                        }
                    },
                    OpcodeClass::Ldx => {
                        let nb = match MemSize::from_opcode(insn.opcode) {
                            Some(m) => m.bytes(),
                            None => 0,
                        };
                        if dst > 9 || src > 10 {
                            proof {
                                assert(spec_step(p, cur) == SpecStep::Fail(ExecError::BadRegister));
                            }
                            return Err(ExecError::BadRegister);
                        }
                        let addr = regs[src as usize].wrapping_add_signed(insn.offset as i64);
                        if addr <= (STACK_SIZE as u64) - nb {
                            let v = mem_load(&stack, addr as usize, nb as usize);
                            regs.set(dst as usize, v);
                            pc = pc + 1;
                            proof {
                                assert(spec_step(p, cur) == SpecStep::Cont(
                                    MachState {
                                        regs: regs@,
                                        stack: stack@,
                                        pc: pc as int,
                                        helpers: ht.spec_model(),
                                    },
                                ));
                            }
                        } else {
                            proof {
                                assert(spec_step(p, cur) == SpecStep::Fail(
                                    ExecError::MemoryOutOfBounds,
                                ));
                            }
                            return Err(ExecError::MemoryOutOfBounds);
                        }
                    },
                    OpcodeClass::St | OpcodeClass::Stx => {
                        let is_stx = matches!(cls, OpcodeClass::Stx);
                        let nb = match MemSize::from_opcode(insn.opcode) {
                            Some(m) => m.bytes(),
                            None => 0,
                        };
                        if dst > 10 || (is_stx && src > 10) {
                            proof {
                                assert(spec_step(p, cur) == SpecStep::Fail(ExecError::BadRegister));
                            }
                            return Err(ExecError::BadRegister);
                        }
                        let v: u64 = if is_stx {
                            regs[src as usize]
                        } else {
                            insn.imm as i64 as u64
                        };
                        let addr = regs[dst as usize].wrapping_add_signed(insn.offset as i64);
                        if addr <= (STACK_SIZE as u64) - nb {
                            mem_store(&mut stack, addr as usize, v, nb as usize);
                            pc = pc + 1;
                            proof {
                                assert(spec_step(p, cur) == SpecStep::Cont(
                                    MachState {
                                        regs: regs@,
                                        stack: stack@,
                                        pc: pc as int,
                                        helpers: ht.spec_model(),
                                    },
                                ));
                            }
                        } else {
                            proof {
                                assert(spec_step(p, cur) == SpecStep::Fail(
                                    ExecError::MemoryOutOfBounds,
                                ));
                            }
                            return Err(ExecError::MemoryOutOfBounds);
                        }
                    },
                    OpcodeClass::Ld => {
                        proof {
                            assert(spec_step(p, cur) == SpecStep::Fail(ExecError::BadInstruction));
                        }
                        return Err(ExecError::BadInstruction);
                    },
                }
            }
            steps = steps + 1;
        }
    }
}


/// Law: division or remainder by zero produces zero and does not fault, at
/// either width.
pub proof fn lemma_div_by_zero_yields_zero(is64: bool, a: u64, src_reg_bit: bool, imm: i32)
    ensures
        spec_alu(AluOp::Div, is64, a, 0, src_reg_bit, imm) == Some(0u64),
        spec_alu(AluOp::Mod, is64, a, 0, src_reg_bit, imm) == Some(0u64),
{
}

/// Law: every 32-bit ALU result other than a byte swap is zero-extended into
/// the 64-bit register: its upper 32 bits are zero. (A byte swap may produce
/// a full 64-bit value when its immediate selects the 64-bit width.)
pub proof fn lemma_alu32_zero_extends(op: AluOp, a: u64, b: u64, src_reg_bit: bool, imm: i32)
    requires
        !(op is End),
    ensures
        spec_alu(op, false, a, b, src_reg_bit, imm) is Some,
        spec_alu(op, false, a, b, src_reg_bit, imm)->Some_0 < 0x100000000,
{
}

} // verus!


