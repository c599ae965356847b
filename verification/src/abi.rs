//! The stable numeric ABI: syscall commands, the attribute block whose
//! fields are repurposed per command, and the map-type tag bits.

use vstd::prelude::*;

verus! {

pub const BPF_MAP_CREATE: u32 = 0;

pub const BPF_MAP_LOOKUP_ELEM: u32 = 1;

pub const BPF_MAP_UPDATE_ELEM: u32 = 2;

pub const BPF_MAP_DELETE_ELEM: u32 = 3;

pub const BPF_MAP_GET_NEXT_KEY: u32 = 4;

pub const BPF_PROG_LOAD: u32 = 5;

pub const BPF_OBJ_PIN: u32 = 6;

pub const BPF_OBJ_GET: u32 = 7;

pub const BPF_PROG_ATTACH: u32 = 8;

pub const BPF_PROG_DETACH: u32 = 9;

pub const BPF_PROG_TEST_RUN: u32 = 10;

/// The syscall attribute block. The same fields are repurposed per
/// command: for a map create, `prog_type` carries the map type,
/// `insn_cnt` the key size, and the `insns` word packs value size and
/// maximum entries.
#[derive(Debug, Clone, Copy, PartialEq, Eq, Structural)]
pub struct BpfAttr {
    pub prog_type: u32,
    pub insn_cnt: u32,
    pub insns: u64,
    pub map_fd: u32,
    pub key: u64,
    pub value: u64,
    pub flags: u64,
    pub attach_btf_id: u32,
    pub attach_prog_fd: u32,
}

impl BpfAttr {
    /// An attribute block with every field zero.
    pub fn new_zeroed() -> (r: BpfAttr)
        ensures
            r == (BpfAttr {
                prog_type: 0u32,
                insn_cnt: 0u32,
                insns: 0u64,
                map_fd: 0u32,
                key: 0u64,
                value: 0u64,
                flags: 0u64,
                attach_btf_id: 0u32,
                attach_prog_fd: 0u32,
            }),
    {
        BpfAttr {
            prog_type: 0,
            insn_cnt: 0,
            insns: 0,
            map_fd: 0,
            key: 0,
            value: 0,
            flags: 0,
            attach_btf_id: 0,
            attach_prog_fd: 0,
        }
    }
}

/// A set of map-type tag bits.
#[derive(Debug, Clone, Copy, PartialEq, Eq, Structural)]
pub struct BpfMapTags(pub u32);

impl BpfMapTags {
    /// Builds a tag set from raw bits.
    pub fn from_bits(bits: u32) -> (r: BpfMapTags)
        ensures
            r.0 == bits,
    {
        BpfMapTags(bits)
    }

    /// The raw bits.
    pub fn bits(self) -> (r: u32)
        ensures
            r == self.0,
    {
        self.0
    }

    /// Whether every bit of `other` is present.
    pub fn contains(self, other: BpfMapTags) -> (r: bool)
        ensures
            r == ((self.0 & other.0) == other.0),
    {
        (self.0 & other.0) == other.0
    }
}

} // verus!
