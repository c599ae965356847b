//! The decision core of the `sys_bpf` entry point: command decoding over
//! the attribute block, with the negative-integer return conventions.
//!
//! The raw pointer reads and the manager locking stay at the kernel
//! boundary; this code takes the attribute fields as plain values and says
//! exactly which operation they request, or which error code to return.

use vstd::prelude::*;
use crate::abi::{
    BpfAttr, BPF_MAP_CREATE, BPF_MAP_DELETE_ELEM, BPF_MAP_LOOKUP_ELEM, BPF_MAP_UPDATE_ELEM,
    BPF_PROG_ATTACH, BPF_PROG_LOAD,
};

verus! {

/// The generic failure return.
pub const SYS_ERR: i64 = -1;

/// The key-not-found return.
pub const SYS_ENOENT: i64 = -2;

/// The largest instruction count a program load accepts.
pub const SYS_MAX_INSNS: u32 = 4096;

/// A decoded syscall request, with every repurposed attribute field
/// unpacked.
#[derive(Debug, Clone, Copy, PartialEq, Eq, Structural)]
pub enum BpfCommand {
    /// Create a map of the given type and dimensions.
    MapCreate { map_type: u32, key_size: u32, value_size: u32, max_entries: u32 },
    /// Look a key up; key and value buffers are userspace addresses.
    MapLookup { map_id: u32, key_ptr: u64, value_ptr: u64 },
    /// Insert or update an element.
    MapUpdate { map_id: u32, key_ptr: u64, value_ptr: u64, flags: u64 },
    /// Delete an element.
    MapDelete { map_id: u32, key_ptr: u64 },
    /// Load a raw program of `insn_cnt` instruction slots at `insns_ptr`.
    ProgLoad { insns_ptr: u64, insn_cnt: u32 },
    /// Attach a loaded program to an attach type.
    ProgAttach { attach_type: u32, prog_id: u32 },
}

/// The exact decoding of a command word and attribute block: which
/// operation is requested, or the error code the syscall returns without
/// doing anything. A null attribute pointer is rejected before this
/// decoding; null key, value or instruction pointers and out-of-range
/// instruction counts are rejected here.
pub open spec fn spec_decode(cmd: u32, attr: BpfAttr) -> Result<BpfCommand, i64> {
    if cmd == 0 {
        Ok(
            BpfCommand::MapCreate {
                map_type: attr.prog_type,
                key_size: attr.insn_cnt,
                value_size: (attr.insns & 0xffffffff) as u32,
                max_entries: ((attr.insns >> 32) & 0xffffffff) as u32,
            },
        )
    } else if cmd == 1 {
        if attr.key == 0 || attr.value == 0 {
            Err(-1int as i64)
        } else {
            Ok(
                BpfCommand::MapLookup {
                    map_id: attr.map_fd,
                    key_ptr: attr.key,
                    value_ptr: attr.value,
                },
            )
        }
    } else if cmd == 2 {
        if attr.key == 0 || attr.value == 0 {
            Err(-1int as i64)
        } else {
            Ok(
                BpfCommand::MapUpdate {
                    map_id: attr.map_fd,
                    key_ptr: attr.key,
                    value_ptr: attr.value,
                    flags: attr.flags,
                },
            )
        }
    } else if cmd == 3 {
        if attr.key == 0 {
            Err(-1int as i64)
        } else {
            Ok(BpfCommand::MapDelete { map_id: attr.map_fd, key_ptr: attr.key })
        }
    } else if cmd == 5 {
        if attr.insns == 0 || attr.insn_cnt == 0 || attr.insn_cnt > 4096 {
            Err(-1int as i64)
        } else {
            Ok(BpfCommand::ProgLoad { insns_ptr: attr.insns, insn_cnt: attr.insn_cnt })
        }
    } else if cmd == 8 {
        Ok(BpfCommand::ProgAttach { attach_type: attr.attach_btf_id, prog_id: attr.attach_prog_fd })
    } else {
        Err(-1int as i64)
    }
}

/// Decodes one syscall request. Agrees exactly with `spec_decode`: every
/// recognized command yields its unpacked operation, and every malformed or
/// unknown request yields the generic failure code.
pub fn decode_bpf_command(cmd: u32, attr: &BpfAttr) -> (r: Result<BpfCommand, i64>)
    ensures
        r == spec_decode(cmd, *attr),
{
    if cmd == BPF_MAP_CREATE {
        Ok(
            BpfCommand::MapCreate {
                map_type: attr.prog_type,
                key_size: attr.insn_cnt,
                value_size: (attr.insns & 0xffffffff) as u32,
                max_entries: ((attr.insns >> 32) & 0xffffffff) as u32,
            },
        )
    } else if cmd == BPF_MAP_LOOKUP_ELEM {
        if attr.key == 0 || attr.value == 0 {
            Err(SYS_ERR)
        } else {
            Ok(
                BpfCommand::MapLookup {
                    map_id: attr.map_fd,
                    key_ptr: attr.key,
                    value_ptr: attr.value,
                },
            )
        }
    } else if cmd == BPF_MAP_UPDATE_ELEM {
        if attr.key == 0 || attr.value == 0 {
            Err(SYS_ERR)
        } else {
            Ok(
                BpfCommand::MapUpdate {
                    map_id: attr.map_fd,
                    key_ptr: attr.key,
                    value_ptr: attr.value,
                    flags: attr.flags,
                },
            )
        }
    } else if cmd == BPF_MAP_DELETE_ELEM {
        if attr.key == 0 {
            Err(SYS_ERR)
        } else {
            Ok(BpfCommand::MapDelete { map_id: attr.map_fd, key_ptr: attr.key })
        }
    } else if cmd == BPF_PROG_LOAD {
        if attr.insns == 0 || attr.insn_cnt == 0 || attr.insn_cnt > SYS_MAX_INSNS {
            Err(SYS_ERR)
        } else {
            Ok(BpfCommand::ProgLoad { insns_ptr: attr.insns, insn_cnt: attr.insn_cnt })
        }
    } else if cmd == BPF_PROG_ATTACH {
        Ok(BpfCommand::ProgAttach { attach_type: attr.attach_btf_id, prog_id: attr.attach_prog_fd })
    } else {
        Err(SYS_ERR)
    }
}

/// Folds an operation outcome into the syscall return convention: a
/// non-negative id on success, the generic failure otherwise, with
/// key-not-found kept distinct.
pub fn syscall_return(outcome: Result<u32, i64>) -> (r: i64)
    ensures
        outcome is Ok ==> r == outcome->Ok_0 && r >= 0,
        outcome is Err ==> r == outcome->Err_0,
{
    match outcome {
        Ok(id) => id as i64,
        Err(e) => e,
    }
}

} // verus!
