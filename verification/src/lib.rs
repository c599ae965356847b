//! An in-kernel eBPF runtime core for a robotics-oriented operating system:
//! a physical frame allocator, a signed-object loader (ELF64/BPF with a
//! SHA3-256 + Ed25519 envelope), a bytecode interpreter with an x86_64 JIT
//! that always falls back to interpretation, attach-point registries, and an
//! SPSC ring-buffer event path.

pub mod abi;
pub mod addr;
pub mod attach;
pub mod bytecode;
pub mod event;
pub mod frames;
pub mod heapsize;
pub mod helpers;
pub mod interp;
pub mod jit;
pub mod loader;
pub mod maps;
pub mod path;
pub mod pmm;
pub mod publish;
pub mod region;
pub mod ringbuf;
pub mod signing;
pub mod syscall;
