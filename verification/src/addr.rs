//! Physical and virtual address types with alignment arithmetic.

use vstd::prelude::*;

verus! {

/// Largest multiple of `align` that is at most `addr`.
pub open spec fn spec_align_down(addr: u64, align: u64) -> int
    recommends
        align >= 1,
{
    addr - (addr as int % align as int)
}

/// Smallest multiple of `align` that is at least `addr`.
pub open spec fn spec_align_up(addr: u64, align: u64) -> int
    recommends
        align >= 1,
{
    if addr as int % align as int == 0 {
        addr as int
    } else {
        addr + align - (addr as int % align as int)
    }
}

/// Rounding an address down to a multiple of `align` never underflows and
/// lands on a multiple of `align`; rounding up lands on a multiple as well.
pub proof fn lemma_align_props(x: int, a: int)
    by (nonlinear_arith)
    requires
        a >= 1,
        x >= 0,
    ensures
        0 <= x % a <= x,
        (x - x % a) % a == 0,
        x % a != 0 ==> (x + (a - x % a)) % a == 0,
{
}

/// A physical memory address.
#[derive(Clone, Copy, Debug, PartialEq, Eq, Structural)]
pub struct PhysAddr(pub u64);

impl PhysAddr {
    pub fn new(addr: u64) -> (r: Self)
        ensures
            r.0 == addr,
    {
        PhysAddr(addr)
    }

    pub fn as_u64(self) -> (r: u64)
        ensures
            r == self.0,
    {
        self.0
    }

    /// Whether the address is a multiple of `align`.
    pub fn is_aligned(self, align: u64) -> (r: bool)
        requires
            align >= 1,
        ensures
            r == (self.0 as int % align as int == 0),
    {
        self.0 % align == 0
    }

    /// Rounds the address down to a multiple of `align`.
    pub fn align_down(self, align: u64) -> (r: Self)
        requires
            align >= 1,
        ensures
            r.0 == spec_align_down(self.0, align),
    {
        proof {
            lemma_align_props(self.0 as int, align as int);
        }
        PhysAddr(self.0 - self.0 % align)
    }

    /// Rounds the address up to a multiple of `align`; the result must fit in `u64`.
    pub fn align_up(self, align: u64) -> (r: Self)
        requires
            align >= 1,
            spec_align_up(self.0, align) <= u64::MAX,
        ensures
            r.0 == spec_align_up(self.0, align),
    {
        let rem = self.0 % align;
        if rem == 0 {
            self
        } else {
            PhysAddr(self.0 + (align - rem))
        }
    }
}

/// A virtual memory address.
#[derive(Clone, Copy, Debug, PartialEq, Eq, Structural)]
pub struct VirtAddr(pub u64);

impl VirtAddr {
    pub fn new(addr: u64) -> (r: Self)
        ensures
            r.0 == addr,
    {
        VirtAddr(addr)
    }

    /// Canonicality is not checked on this architecture; every address is accepted.
    pub fn try_new(addr: u64) -> (r: Result<Self, ()>)
        ensures
            r == Ok::<VirtAddr, ()>(VirtAddr(addr)),
    {
        Ok(VirtAddr(addr))
    }

    pub fn as_u64(self) -> (r: u64)
        ensures
            r == self.0,
    {
        self.0
    }

    pub fn as_usize(self) -> (r: usize)
        requires
            self.0 <= usize::MAX,
        ensures
            r == self.0,
    {
        self.0 as usize
    }

    /// Whether the address is a multiple of `align`.
    pub fn is_aligned(self, align: u64) -> (r: bool)
        requires
            align >= 1,
        ensures
            r == (self.0 as int % align as int == 0),
    {
        self.0 % align == 0
    }

    /// Rounds the address down to a multiple of `align`.
    pub fn align_down(self, align: u64) -> (r: Self)
        requires
            align >= 1,
        ensures
            r.0 == spec_align_down(self.0, align),
    {
        proof {
            lemma_align_props(self.0 as int, align as int);
        }
        VirtAddr(self.0 - self.0 % align)
    }

    /// Rounds the address up to a multiple of `align`; the result must fit in `u64`.
    pub fn align_up(self, align: u64) -> (r: Self)
        requires
            align >= 1,
            spec_align_up(self.0, align) <= u64::MAX,
        ensures
            r.0 == spec_align_up(self.0, align),
    {
        let rem = self.0 % align;
        if rem == 0 {
            self
        } else {
            VirtAddr(self.0 + (align - rem))
        }
    }
}

} // verus!
