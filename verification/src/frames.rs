//! Frame sizes, frame handles, and frame ranges.

use vstd::prelude::*;
use crate::addr::PhysAddr;

verus! {

/// The three page sizes the allocator hands out.
pub trait PageSize: Copy {
    /// The frame size in bytes, as seen by specifications.
    spec fn spec_size() -> u64;

    /// The frame size in bytes.
    fn size() -> (r: u64)
        ensures
            r == Self::spec_size(),
    ;

    /// Every supported frame size is a positive multiple of 4 KiB, and at
    /// most 1 GiB.
    proof fn size_properties()
        ensures
            Self::spec_size() >= 4096,
            Self::spec_size() % 4096 == 0,
            Self::spec_size() <= 0x40000000,
    ;
}

#[derive(Clone, Copy, Debug, PartialEq, Eq, Structural)]
pub struct Size4KiB;

impl PageSize for Size4KiB {
    open spec fn spec_size() -> u64 {
        4096
    }

    fn size() -> u64 {
        4096
    }

    proof fn size_properties() {
    }
}

#[derive(Clone, Copy, Debug, PartialEq, Eq, Structural)]
pub struct Size2MiB;

impl PageSize for Size2MiB {
    open spec fn spec_size() -> u64 {
        0x200000
    }

    fn size() -> u64 {
        0x200000
    }

    proof fn size_properties() {
    }
}

#[derive(Clone, Copy, Debug, PartialEq, Eq, Structural)]
pub struct Size1GiB;

impl PageSize for Size1GiB {
    open spec fn spec_size() -> u64 {
        0x40000000
    }

    fn size() -> u64 {
        0x40000000
    }

    proof fn size_properties() {
    }
}

/// A frame of size `S`, identified by its size-aligned start address.
#[derive(Copy, Debug, PartialEq, Eq)]
pub struct PhysFrame<S: PageSize> {
    pub start_address: PhysAddr,
    pub size: core::marker::PhantomData<S>,
}

impl<S: PageSize> Clone for PhysFrame<S> {
    fn clone(&self) -> (r: Self)
        ensures
            r == *self,
    {
        PhysFrame { start_address: self.start_address, size: core::marker::PhantomData }
    }
}

impl<S: PageSize> PhysFrame<S> {
    /// Whether `addr` could be the start address of a frame of this size.
    pub open spec fn spec_aligned(addr: u64) -> bool {
        addr as int % S::spec_size() as int == 0
    }

    /// The frame that contains `address`.
    pub fn containing_address(address: PhysAddr) -> (r: Self)
        ensures
            r.start_address.0 == crate::addr::spec_align_down(address.0, S::spec_size()),
            Self::spec_aligned(r.start_address.0),
    {
        proof {
            S::size_properties();
            crate::addr::lemma_align_props(address.0 as int, S::spec_size() as int);
        }
        let size = S::size();
        PhysFrame { start_address: address.align_down(size), size: core::marker::PhantomData }
    }

    /// The frame starting exactly at `address`; fails if the address is not aligned.
    pub fn from_start_address(address: PhysAddr) -> (r: Result<Self, ()>)
        ensures
            Self::spec_aligned(address.0) ==> r == Ok::<Self, ()>(
                PhysFrame { start_address: address, size: core::marker::PhantomData },
            ),
            !Self::spec_aligned(address.0) ==> r == Err::<Self, ()>(()),
    {
        proof {
            S::size_properties();
        }
        let size = S::size();
        if address.as_u64() % size != 0 {
            Err(())
        } else {
            Ok(PhysFrame { start_address: address, size: core::marker::PhantomData })
        }
    }

    pub fn start_address(self) -> (r: PhysAddr)
        ensures
            r == self.start_address,
    {
        self.start_address
    }

    pub fn addr(self) -> (r: u64)
        ensures
            r == self.start_address.0,
    {
        self.start_address.0
    }

    /// The frame number: the start address divided by the frame size.
    pub fn number(self) -> (r: u64)
        ensures
            r == self.start_address.0 as int / S::spec_size() as int,
    {
        proof {
            S::size_properties();
        }
        self.start_address.0 / S::size()
    }
}

/// An inclusive range of frames, from `start` to `end`.
#[derive(Copy, Debug, PartialEq, Eq)]
pub struct PhysFrameRangeInclusive<S: PageSize> {
    pub start: PhysFrame<S>,
    pub end: PhysFrame<S>,
}

impl<S: PageSize> Clone for PhysFrameRangeInclusive<S> {
    fn clone(&self) -> (r: Self)
        ensures
            r == *self,
    {
        PhysFrameRangeInclusive { start: self.start, end: self.end }
    }
}

impl<S: PageSize> PhysFrameRangeInclusive<S> {
    /// Takes the first frame out of the range and advances the range past it,
    /// or reports that the range is exhausted.
    pub fn next(&mut self) -> (r: Option<PhysFrame<S>>)
        requires
            old(self).start.start_address.0 + S::spec_size() <= u64::MAX,
        ensures
            old(self).start.start_address.0 > old(self).end.start_address.0 ==> r is None
                && *final(self) == *old(self),
            old(self).start.start_address.0 <= old(self).end.start_address.0 ==> r == Some(
                old(self).start,
            ) && final(self).end == old(self).end && final(self).start.start_address.0
                == crate::addr::spec_align_down(
                (old(self).start.start_address.0 + S::spec_size()) as u64,
                S::spec_size(),
            ),
    {
        if self.start.addr() > self.end.addr() {
            return None;
        }
        let frame = self.start;
        self.start = PhysFrame::containing_address(PhysAddr::new(self.start.addr() + S::size()));
        Some(frame)
    }
}

} // verus!
