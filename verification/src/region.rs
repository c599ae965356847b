//! A contiguous run of physical frames with a per-frame state array.

use vstd::prelude::*;

verus! {

/// The state of one 4 KiB physical frame.
#[derive(Debug, Copy, Clone, Eq, PartialEq, Structural)]
pub enum FrameState {
    Unusable,
    Allocated,
    Free,
}

impl FrameState {
    /// Whether the frame may ever be handed out.
    pub fn is_usable(self) -> (r: bool)
        ensures
            r == (self != FrameState::Unusable),
    {
        !matches!(self, FrameState::Unusable)
    }
}

/// A contiguous region of physical memory, tracked frame by frame.
/// `base` is the physical address of frame 0 of the region.
pub struct MemoryRegion {
    pub base: u64,
    pub frames: Vec<FrameState>,
}

impl MemoryRegion {
    /// Creates a region of `count` frames, all in state `state`.
    pub fn new(base: u64, count: usize, state: FrameState) -> (r: Self)
        ensures
            r.base == base,
            r.frames@ == Seq::new(count as nat, |i: int| state),
    {
        let mut frames: Vec<FrameState> = Vec::new();
        let mut i: usize = 0;
        while i < count
            invariant
                i <= count,
                frames@ == Seq::new(i as nat, |j: int| state),
            decreases count - i,
        {
            frames.push(state);
            proof {
                assert(frames@ =~= Seq::new((i + 1) as nat, |j: int| state));
            }
            i = i + 1;
        }
        MemoryRegion { base, frames }
    }

    /// Creates a region from an explicit per-frame state array.
    pub fn with_frames(base: u64, frames: Vec<FrameState>) -> (r: Self)
        ensures
            r.base == base,
            r.frames == frames,
    {
        MemoryRegion { base, frames }
    }

    /// Number of 4 KiB frames in the region.
    pub fn len(&self) -> (r: usize)
        ensures
            r == self.frames@.len(),
    {
        self.frames.len()
    }

    /// Physical address of the region's first frame.
    pub fn base_addr(&self) -> (r: u64)
        ensures
            r == self.base,
    {
        self.base
    }

    /// The per-frame state array.
    pub fn frames(&self) -> (r: &Vec<FrameState>)
        ensures
            r == &self.frames,
    {
        &self.frames
    }

    /// Sets the state of one frame.
    pub fn set_frame(&mut self, idx: usize, state: FrameState)
        requires
            idx < old(self).frames@.len(),
        ensures
            final(self).base == old(self).base,
            final(self).frames@ == old(self).frames@.update(idx as int, state),
    {
        self.frames.set(idx, state);
    }

    /// Whether `addr` lies inside this region, as seen by specifications.
    pub open spec fn spec_contains(&self, addr: u64) -> bool {
        self.base <= addr < self.base + self.frames@.len() * 4096
    }

    /// The frame index of `addr` within the region, or `None` if the address
    /// is outside the region.
    pub fn frame_index(&self, addr: u64) -> (r: Option<usize>)
        requires
            self.base + self.frames@.len() * 4096 <= u64::MAX,
            self.frames@.len() <= 0x1000_0000,
        ensures
            self.spec_contains(addr) ==> r == Some::<usize>(
                ((addr - self.base) as int / 4096) as usize,
            ),
            !self.spec_contains(addr) ==> r is None,
    {
        if addr < self.base {
            return None;
        }
        let off = addr - self.base;
        let idx = off / 4096;
        if idx < self.frames.len() as u64 {
            proof {
                assert(off == 4096 * (off as int / 4096) + off as int % 4096) by (nonlinear_arith);
            }
            Some(idx as usize)
        } else {
            proof {
                assert(off as int / 4096 >= self.frames@.len() ==> off >= self.frames@.len() * 4096)
                    by (nonlinear_arith);
            }
            None
        }
    }

    /// The physical address of frame `idx`, or `None` if `idx` is out of
    /// bounds.
    pub fn frame_address(&self, idx: usize) -> (r: Option<u64>)
        requires
            self.base + self.frames@.len() * 4096 <= u64::MAX,
            self.frames@.len() <= 0x1000_0000,
        ensures
            idx < self.frames@.len() ==> r == Some::<u64>(
                (self.base + idx * 4096) as u64,
            ),
            idx >= self.frames@.len() ==> r is None,
    {
        if idx < self.frames.len() {
            proof {
                assert(idx * 4096 < self.frames@.len() * 4096) by (nonlinear_arith)
                    requires
                        idx < self.frames@.len(),
                ;
            }
            Some(self.base + (idx as u64) * 4096)
        } else {
            None
        }
    }
}

} // verus!
