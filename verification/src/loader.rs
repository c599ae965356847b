//! The signed-object loader: a constrained ELF64 parser for the BPF machine,
//! instruction extraction, and relocation resolution.

pub mod elf;
pub mod error;
pub mod object;
pub mod reloc;
