//! Runtime heap sizing from available physical memory.

use vstd::prelude::*;

verus! {

/// Two megabytes, the heap alignment unit.
pub const MIB_2: u64 = 0x200000;

/// Clamps `v` into `[lo, hi]`.
pub open spec fn spec_clamp(v: int, lo: int, hi: int) -> int {
    if v < lo {
        lo
    } else if v > hi {
        hi
    } else {
        v
    }
}

/// Rounds up to the next 2 MiB boundary.
pub open spec fn spec_round_2m(v: int) -> int {
    (v + 0x1fffff) / 0x200000 * 0x200000
}

/// The two heap sizes derived from the usable physical memory: the initial
/// stage heap is a 1/1024 share clamped between 2 MiB and 128 MiB, the
/// total heap a 1/256 share clamped between the initial plus 2 MiB and 512
/// MiB; both are rounded up to whole 2 MiB units.
#[derive(Debug, Clone, Copy, PartialEq, Eq, Structural)]
pub struct HeapSizes {
    pub initial: u64,
    pub total: u64,
}

impl HeapSizes {
    /// Derives the sizes from the usable RAM in bytes.
    pub fn from_physical_memory(usable_ram_bytes: u64) -> (r: HeapSizes)
        requires
            usable_ram_bytes < 0x1000_0000_0000_0000,
        ensures
            r.initial == spec_round_2m(spec_clamp(usable_ram_bytes as int / 1024, 0x200000, 0x8000000)),
            r.total == spec_round_2m(
                spec_clamp(usable_ram_bytes as int / 256, r.initial + 0x200000, 0x20000000),
            ),
            r.initial % 0x200000 == 0,
            r.total % 0x200000 == 0,
            0x200000 <= r.initial <= 0x8000000,
            r.total >= r.initial + 0x200000,
    {
        let calculated = usable_ram_bytes / 1024;
        let clamped: u64 = if calculated < 0x200000 {
            0x200000
        } else if calculated > 0x8000000 {
            0x8000000
        } else {
            calculated
        };
        let initial = (clamped + 0x1fffff) / 0x200000 * 0x200000;
        proof {
            lemma_round_2m(clamped as int);
        }
        let calculated2 = usable_ram_bytes / 256;
        let lo2 = initial + 0x200000;
        let clamped2: u64 = if calculated2 < lo2 {
            lo2
        } else if calculated2 > 0x20000000 {
            0x20000000
        } else {
            calculated2
        };
        let total = (clamped2 + 0x1fffff) / 0x200000 * 0x200000;
        proof {
            lemma_round_2m(clamped2 as int);
        }
        HeapSizes { initial, total }
    }

    /// The stage-one heap size.
    pub fn initial(&self) -> (r: u64)
        ensures
            r == self.initial,
    {
        self.initial
    }

    /// The full heap size after stage two.
    pub fn total(&self) -> (r: u64)
        ensures
            r == self.total,
    {
        self.total
    }
}

/// Rounding to 2 MiB moves a value up by less than one unit and lands on a
/// multiple.
proof fn lemma_round_2m(v: int)
    requires
        v >= 0,
    ensures
        v <= spec_round_2m(v) < v + 0x200000,
        spec_round_2m(v) % 0x200000 == 0,
{
    vstd::arithmetic::div_mod::lemma_fundamental_div_mod(v + 0x1fffff, 0x200000);
    let q = (v + 0x1fffff) / 0x200000;
    assert(q * 0x200000 == 0x200000 * q) by (nonlinear_arith);
    vstd::arithmetic::div_mod::lemma_mod_multiples_basic(q, 0x200000);
}

} // verus!
