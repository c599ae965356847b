//! The sparse physical frame allocator.
//!
//! A `PhysicalMemoryManager` owns a sorted list of non-overlapping regions,
//! each with a dense per-frame state array, plus a cached first-free cursor.
//! The cursor, when present, points to a Free frame, and no Free frame lies
//! strictly earlier (lower region, or same region with lower index).

use vstd::prelude::*;
use crate::region::{FrameState, MemoryRegion};

verus! {

/// A position in the sparse memory manager: a region index and a frame index
/// within that region.
#[derive(Debug, Copy, Clone, PartialEq, Eq, Structural)]
pub struct RegionFrameIndex {
    pub region_idx: usize,
    pub frame_idx: usize,
}

/// Whether position `(r1, i1)` comes strictly before `(r2, i2)`.
pub open spec fn pos_before(r1: int, i1: int, r2: int, i2: int) -> bool {
    r1 < r2 || (r1 == r2 && i1 < i2)
}

/// A physical memory manager over a sparse set of regions.
pub struct PhysicalMemoryManager {
    pub regions: Vec<MemoryRegion>,
    pub first_free: Option<RegionFrameIndex>,
}

impl PhysicalMemoryManager {
    /// Number of regions.
    pub open spec fn n_regions(self) -> int {
        self.regions@.len() as int
    }

    /// Number of frames in region `r`.
    pub open spec fn rlen(self, r: int) -> int {
        self.regions@[r].frames@.len() as int
    }

    /// Base address of region `r`.
    pub open spec fn rbase(self, r: int) -> int {
        self.regions@[r].base as int
    }

    /// Whether `(r, i)` names a frame of some region.
    pub open spec fn valid_pos(self, r: int, i: int) -> bool {
        0 <= r < self.n_regions() && 0 <= i < self.rlen(r)
    }

    /// The state of the frame at position `(r, i)`.
    pub open spec fn state_at(self, r: int, i: int) -> FrameState {
        self.regions@[r].frames@[i]
    }

    /// The regions are 4 KiB based, bounded, sorted by base, and disjoint.
    pub open spec fn regions_wf(self) -> bool {
        &&& self.n_regions() <= 0x1000_0000
        &&& forall|r: int|
            0 <= r < self.n_regions() ==> #[trigger] self.rlen(r) <= 0x1000_0000
        &&& forall|r: int|
            0 <= r < self.n_regions() ==> #[trigger] self.rbase(r) % 4096 == 0
        &&& forall|r: int|
            0 <= r < self.n_regions() ==> #[trigger] self.rbase(r) + self.rlen(r) * 4096
                <= u64::MAX
        &&& forall|r1: int, r2: int|
            0 <= r1 < r2 < self.n_regions() ==> #[trigger] self.rbase(r1) + self.rlen(r1) * 4096
                <= #[trigger] self.rbase(r2)
    }

    /// The first-free cursor points to a Free frame and no Free frame lies
    /// strictly before it; an absent cursor means no frame is Free at all.
    pub open spec fn cursor_wf(self) -> bool {
        match self.first_free {
            None => forall|r: int, i: int|
                self.valid_pos(r, i) ==> #[trigger] self.state_at(r, i) != FrameState::Free,
            Some(ff) => {
                &&& self.valid_pos(ff.region_idx as int, ff.frame_idx as int)
                &&& self.state_at(ff.region_idx as int, ff.frame_idx as int) == FrameState::Free
                &&& forall|r: int, i: int|
                    self.valid_pos(r, i) && pos_before(
                        r,
                        i,
                        ff.region_idx as int,
                        ff.frame_idx as int,
                    ) ==> #[trigger] self.state_at(r, i) != FrameState::Free
            },
        }
    }

    /// The allocator's full well-formedness.
    pub open spec fn wf(self) -> bool {
        self.regions_wf() && self.cursor_wf()
    }

    /// Two managers with the same region layout (bases and lengths).
    pub open spec fn same_shape(self, other: Self) -> bool {
        &&& self.n_regions() == other.n_regions()
        &&& forall|r: int|
            #![trigger other.rbase(r)]
            #![trigger self.rbase(r)]
            0 <= r < self.n_regions() ==> self.rbase(r) == other.rbase(r)
        &&& forall|r: int|
            #![trigger other.rlen(r)]
            #![trigger self.rlen(r)]
            0 <= r < self.n_regions() ==> self.rlen(r) == other.rlen(r)
    }

    /// Whether `addr` lies inside region `r`.
    pub open spec fn addr_in_region(self, r: int, addr: u64) -> bool {
        self.rbase(r) <= addr < self.rbase(r) + self.rlen(r) * 4096
    }

    /// Whether some region contains `addr`.
    pub open spec fn has_location(self, addr: u64) -> bool {
        exists|r: int| 0 <= r < self.n_regions() && self.addr_in_region(r, addr)
    }

    /// The region containing `addr` (meaningful only when `has_location`).
    pub open spec fn loc_region(self, addr: u64) -> int {
        choose|r: int| 0 <= r < self.n_regions() && self.addr_in_region(r, addr)
    }

    /// The frame index of `addr` within its region.
    pub open spec fn loc_index(self, addr: u64) -> int {
        (addr - self.rbase(self.loc_region(addr))) / 4096
    }

    /// At most one region contains any given address.
    pub proof fn lemma_location_unique(self, addr: u64, r1: int, r2: int)
        requires
            self.regions_wf(),
            0 <= r1 < self.n_regions(),
            0 <= r2 < self.n_regions(),
            self.addr_in_region(r1, addr),
            self.addr_in_region(r2, addr),
        ensures
            r1 == r2,
    {
        if r1 < r2 {
            assert(self.rbase(r1) + self.rlen(r1) * 4096 <= self.rbase(r2));
        }
        if r2 < r1 {
            assert(self.rbase(r2) + self.rlen(r2) * 4096 <= self.rbase(r1));
        }
    }

    /// Two managers with equal region lists agree on every region fact.
    pub proof fn lemma_same_regions(s1: Self, s2: Self)
        requires
            s1.regions == s2.regions,
        ensures
            s1.n_regions() == s2.n_regions(),
            forall|r: int| #![trigger s2.rlen(r)] s1.rlen(r) == s2.rlen(r),
            forall|r: int| #![trigger s2.rbase(r)] s1.rbase(r) == s2.rbase(r),
            forall|r: int, i: int|
                #![trigger s2.state_at(r, i)]
                s1.state_at(r, i) == s2.state_at(r, i),
            s1.regions_wf() ==> s2.regions_wf(),
    {
        assert forall|r: int| #![trigger s2.rlen(r)] s1.rlen(r) == s2.rlen(r) by {}
        assert forall|r: int| #![trigger s2.rbase(r)] s1.rbase(r) == s2.rbase(r) by {}
        assert forall|r: int, i: int|
            #![trigger s2.state_at(r, i)]
            s1.state_at(r, i) == s2.state_at(r, i) by {}
        if s1.regions_wf() {
            assert forall|r: int| 0 <= r < s2.n_regions() implies #[trigger] s2.rlen(r)
                <= 0x1000_0000 by {
                assert(s1.rlen(r) <= 0x1000_0000);
            }
            assert forall|r: int| 0 <= r < s2.n_regions() implies #[trigger] s2.rbase(r) % 4096
                == 0 by {
                assert(s1.rbase(r) % 4096 == 0);
            }
            assert forall|r: int| 0 <= r < s2.n_regions() implies #[trigger] s2.rbase(r)
                + s2.rlen(r) * 4096 <= u64::MAX by {
                assert(s1.rbase(r) + s1.rlen(r) * 4096 <= u64::MAX);
            }
            assert forall|r1: int, r2: int| 0 <= r1 < r2 < s2.n_regions() implies #[trigger] s2.rbase(
                r1,
            ) + s2.rlen(r1) * 4096 <= #[trigger] s2.rbase(r2) by {
                assert(s1.rbase(r1) + s1.rlen(r1) * 4096 <= s1.rbase(r2));
            }
        }
    }

    /// Creates a manager from pre-marked regions and computes the initial
    /// first-free cursor.
    ///
    /// The regions must be sorted by base address, non-overlapping, 4 KiB
    /// based, and small enough that every frame address fits in `u64`.
    pub fn new(regions: Vec<MemoryRegion>) -> (r: Self)
        requires
            regions@.len() <= 0x1000_0000,
            forall|i: int|
                0 <= i < regions@.len() ==> (#[trigger] regions@[i]).frames@.len() <= 0x1000_0000,
            forall|i: int|
                0 <= i < regions@.len() ==> (#[trigger] regions@[i]).base % 4096 == 0,
            forall|i: int|
                0 <= i < regions@.len() ==> (#[trigger] regions@[i]).base
                    + regions@[i].frames@.len() * 4096 <= u64::MAX,
            forall|i: int, j: int|
                0 <= i < j < regions@.len() ==> (#[trigger] regions@[i]).base
                    + regions@[i].frames@.len() * 4096 <= (#[trigger] regions@[j]).base,
        ensures
            r.wf(),
            r.regions == regions,
    {
        let mut pmm = PhysicalMemoryManager { regions, first_free: None };
        if pmm.regions.len() > 0 {
            let ghost p0 = pmm;
            let nf = pmm.next_free_at_or_after(0, 0);
            pmm.first_free = nf;
            proof {
                Self::lemma_same_regions(p0, pmm);
            }
        }
        pmm
    }

    /// The current first-free cursor.
    pub fn first_free(&self) -> (r: Option<RegionFrameIndex>)
        ensures
            r == self.first_free,
    {
        self.first_free
    }

    /// The region list.
    pub fn region_list(&self) -> (r: &Vec<MemoryRegion>)
        ensures
            r == &self.regions,
    {
        &self.regions
    }

    /// Index of the first Free entry of `frames` at or after `start`.
    fn first_free_in(frames: &Vec<FrameState>, start: usize) -> (r: Option<usize>)
        ensures
            match r {
                Some(i) => start <= i < frames@.len() && frames@[i as int] == FrameState::Free
                    && forall|j: int|
                    start <= j < i ==> #[trigger] frames@[j] != FrameState::Free,
                None => forall|j: int|
                    start <= j < frames@.len() ==> #[trigger] frames@[j] != FrameState::Free,
            },
    {
        let mut i: usize = start;
        while i < frames.len()
            invariant
                start <= i,
                forall|j: int| start <= j < i ==> #[trigger] frames@[j] != FrameState::Free,
            decreases frames@.len() - i,
        {
            if matches!(frames[i], FrameState::Free) {
                return Some(i);
            }
            i = i + 1;
        }
        None
    }

    /// Finds the earliest Free frame at or after `(start_region, start_index)`.
    fn next_free_at_or_after(&self, start_region: usize, start_index: usize) -> (r: Option<
        RegionFrameIndex,
    >)
        requires
            self.regions_wf(),
            start_region < self.n_regions(),
        ensures
            match r {
                Some(ff) => {
                    &&& self.valid_pos(ff.region_idx as int, ff.frame_idx as int)
                    &&& self.state_at(ff.region_idx as int, ff.frame_idx as int)
                        == FrameState::Free
                    &&& !pos_before(
                        ff.region_idx as int,
                        ff.frame_idx as int,
                        start_region as int,
                        start_index as int,
                    )
                    &&& forall|a: int, b: int|
                        self.valid_pos(a, b) && !pos_before(
                            a,
                            b,
                            start_region as int,
                            start_index as int,
                        ) && pos_before(a, b, ff.region_idx as int, ff.frame_idx as int)
                            ==> #[trigger] self.state_at(a, b) != FrameState::Free
                },
                None => forall|a: int, b: int|
                    self.valid_pos(a, b) && !pos_before(
                        a,
                        b,
                        start_region as int,
                        start_index as int,
                    ) ==> #[trigger] self.state_at(a, b) != FrameState::Free,
            },
    {
        if start_index < self.regions[start_region].frames.len() {
            match Self::first_free_in(self.regions[start_region].frames(), start_index) {
                Some(idx) => {
                    return Some(RegionFrameIndex { region_idx: start_region, frame_idx: idx });
                },
                None => {},
            }
        }
        let mut ri: usize = start_region + 1;
        while ri < self.regions.len()
            invariant
                self.regions_wf(),
                start_region < ri <= self.n_regions(),
                forall|a: int, b: int|
                    self.valid_pos(a, b) && a < ri && (a > start_region || (a == start_region && b
                        >= start_index)) ==> #[trigger] self.state_at(a, b) != FrameState::Free,
            decreases self.n_regions() - ri,
        {
            match Self::first_free_in(self.regions[ri].frames(), 0) {
                Some(fi) => {
                    return Some(RegionFrameIndex { region_idx: ri, frame_idx: fi });
                },
                None => {},
            }
            ri = ri + 1;
        }
        None
    }

    /// Moves the cursor to the earliest Free frame at or after
    /// `(start_region, start_index)`.
    ///
    /// The caller guarantees that no Free frame lies before that position.
    fn update_first_free(&mut self, start_region: usize, start_index: usize)
        requires
            old(self).regions_wf(),
            start_region < old(self).n_regions(),
            forall|a: int, b: int|
                old(self).valid_pos(a, b) && pos_before(
                    a,
                    b,
                    start_region as int,
                    start_index as int,
                ) ==> #[trigger] old(self).state_at(a, b) != FrameState::Free,
        ensures
            final(self).regions == old(self).regions,
            final(self).wf(),
    {
        let nf = self.next_free_at_or_after(start_region, start_index);
        self.first_free = nf;
        proof {
            Self::lemma_same_regions(*old(self), *self);
            match self.first_free {
                None => {
                    assert forall|a: int, b: int| self.valid_pos(a, b) implies self.state_at(
                        a,
                        b,
                    ) != FrameState::Free by {
                        if pos_before(a, b, start_region as int, start_index as int) {
                            assert(old(self).state_at(a, b) != FrameState::Free);
                        } else {
                            assert(self.state_at(a, b) != FrameState::Free);
                        }
                    }
                },
                Some(ff) => {
                    assert forall|a: int, b: int|
                        self.valid_pos(a, b) && pos_before(
                            a,
                            b,
                            ff.region_idx as int,
                            ff.frame_idx as int,
                        ) implies self.state_at(a, b) != FrameState::Free by {
                        if pos_before(a, b, start_region as int, start_index as int) {
                            assert(old(self).state_at(a, b) != FrameState::Free);
                        } else {
                            assert(self.state_at(a, b) != FrameState::Free);
                        }
                    }
                },
            }
        }
    }


    /// A same-shaped manager inherits the region layout facts.
    pub proof fn lemma_shape_regions_wf(s1: Self, s2: Self)
        requires
            s1.regions_wf(),
            s1.same_shape(s2),
        ensures
            s2.regions_wf(),
    {
        assert forall|r: int| 0 <= r < s2.n_regions() implies #[trigger] s2.rlen(r)
            <= 0x1000_0000 by {
            assert(s1.rbase(r) == s2.rbase(r) && s1.rlen(r) == s2.rlen(r));
        }
        assert forall|r: int| 0 <= r < s2.n_regions() implies #[trigger] s2.rbase(r) % 4096
            == 0 by {
            assert(s1.rbase(r) == s2.rbase(r) && s1.rlen(r) == s2.rlen(r));
        }
        assert forall|r: int| 0 <= r < s2.n_regions() implies #[trigger] s2.rbase(r) + s2.rlen(r)
            * 4096 <= u64::MAX by {
            assert(s1.rbase(r) == s2.rbase(r) && s1.rlen(r) == s2.rlen(r));
        }
        assert forall|r1: int, r2: int| 0 <= r1 < r2 < s2.n_regions() implies #[trigger] s2.rbase(
            r1,
        ) + s2.rlen(r1) * 4096 <= #[trigger] s2.rbase(r2) by {
            assert(s1.rbase(r1) == s2.rbase(r1) && s1.rlen(r1) == s2.rlen(r1));
            assert(s1.rbase(r2) == s2.rbase(r2) && s1.rlen(r2) == s2.rlen(r2));
        }
    }

    /// The single-frame deallocation transition: frame `(r, i)` was Allocated
    /// in `s0` and is the one frame that `s1` marks Free; the cursor moves to
    /// `(r, i)` exactly when that position is earlier than the old cursor.
    pub open spec fn frame_freed(s0: Self, s1: Self, r: int, i: int) -> bool {
        &&& s0.valid_pos(r, i)
        &&& s0.state_at(r, i) == FrameState::Allocated
        &&& s0.same_shape(s1)
        &&& forall|a: int, b: int|
            s0.valid_pos(a, b) ==> #[trigger] s1.state_at(a, b) == (if a == r && b == i {
                FrameState::Free
            } else {
                s0.state_at(a, b)
            })
        &&& s1.first_free == (match s0.first_free {
            None => Some(RegionFrameIndex { region_idx: r as usize, frame_idx: i as usize }),
            Some(ff) => if pos_before(r, i, ff.region_idx as int, ff.frame_idx as int) {
                Some(RegionFrameIndex { region_idx: r as usize, frame_idx: i as usize })
            } else {
                Some(ff)
            },
        })
    }

    /// No region holds `addr` as an Allocated frame: the address is outside
    /// every region, or its frame is not in the Allocated state.
    pub open spec fn no_dealloc_target(s: Self, addr: u64) -> bool {
        forall|r: int|
            0 <= r < s.n_regions() && #[trigger] s.addr_in_region(r, addr) ==> s.state_at(
                r,
                (addr - s.rbase(r)) / 4096,
            ) != FrameState::Allocated
    }

    /// Marks the 4 KiB frame at `addr` Free if it is currently Allocated,
    /// relaxing the first-free cursor earlier when needed. Reports failure,
    /// with no state change, when `addr` is in no region or its frame is not
    /// Allocated (a double free).
    pub fn dealloc_at(&mut self, addr: u64) -> (ok: bool)
        requires
            old(self).wf(),
        ensures
            final(self).wf(),
            ok ==> old(self).has_location(addr) && Self::frame_freed(
                *old(self),
                *final(self),
                old(self).loc_region(addr),
                old(self).loc_index(addr),
            ),
            !ok ==> *final(self) == *old(self) && Self::no_dealloc_target(*old(self), addr),
    {
        let loc = match self.find_frame_location(addr) {
            Some(l) => l,
            None => {
                return false;
            },
        };
        let ghost lr = loc.region_idx as int;
        let ghost li = loc.frame_idx as int;
        proof {
            assert(self.addr_in_region(lr, addr));
            self.lemma_location_unique(addr, lr, self.loc_region(addr));
            assert(4096 * ((addr - self.rbase(lr)) / 4096) + (addr - self.rbase(lr)) % 4096 == addr
                - self.rbase(lr)) by (nonlinear_arith);
            assert((addr - self.rbase(lr)) / 4096 < self.rlen(lr)) by (nonlinear_arith)
                requires
                    self.rbase(lr) <= addr < self.rbase(lr) + self.rlen(lr) * 4096,
                    0 <= (addr - self.rbase(lr)) % 4096 < 4096,
                    4096 * ((addr - self.rbase(lr)) / 4096) + (addr - self.rbase(lr)) % 4096
                        == addr - self.rbase(lr),
            ;
        }
        if !matches!(self.regions[loc.region_idx].frames[loc.frame_idx], FrameState::Allocated) {
            proof {
                assert forall|r: int|
                    0 <= r < self.n_regions() && #[trigger] self.addr_in_region(r, addr)
                        implies self.state_at(r, (addr - self.rbase(r)) / 4096)
                    != FrameState::Allocated by {
                    self.lemma_location_unique(addr, r, lr);
                }
            }
            return false;
        }
        let ghost s0 = *self;
        self.regions[loc.region_idx].set_frame(loc.frame_idx, FrameState::Free);
        proof {
            assert(s0.same_shape(*self));
            Self::lemma_shape_regions_wf(s0, *self);
            assert forall|a: int, b: int| s0.valid_pos(a, b) implies #[trigger] self.state_at(a, b)
                == (if a == lr && b == li {
                FrameState::Free
            } else {
                s0.state_at(a, b)
            }) by {}
        }
        let is_before = match self.first_free {
            Some(ff) => loc.region_idx < ff.region_idx || (loc.region_idx == ff.region_idx
                && loc.frame_idx < ff.frame_idx),
            None => true,
        };
        if is_before {
            self.first_free = Some(loc);
        }
        proof {
            assert(Self::frame_freed(s0, *self, lr, li));
            match self.first_free {
                None => {},
                Some(ff) => {
                    if ff.region_idx as int == lr && ff.frame_idx as int == li {
                        assert(self.state_at(lr, li) == FrameState::Free);
                    } else {
                        assert(self.state_at(ff.region_idx as int, ff.frame_idx as int)
                            == s0.state_at(ff.region_idx as int, ff.frame_idx as int));
                    }
                    assert forall|a: int, b: int|
                        self.valid_pos(a, b) && pos_before(
                            a,
                            b,
                            ff.region_idx as int,
                            ff.frame_idx as int,
                        ) implies #[trigger] self.state_at(a, b) != FrameState::Free by {
                        assert(s0.valid_pos(a, b));
                        if !(a == lr && b == li) {
                            assert(self.state_at(a, b) == s0.state_at(a, b));
                            assert(s0.state_at(a, b) != FrameState::Free);
                        }
                    }
                },
            }
        }
        true
    }


    /// All `cnt` frames of region `r` starting at `start` are in state `st`.
    pub open spec fn window_is(s: Self, r: int, start: int, cnt: int, st: FrameState) -> bool {
        forall|b: int| start <= b < start + cnt ==> #[trigger] s.state_at(r, b) == st
    }

    /// The allocation transition: the window of `cnt` frames of region `r`
    /// starting at `start` was all Free in `s0`, and `s1` marks exactly that
    /// window Allocated.
    pub open spec fn alloc_marked(s0: Self, s1: Self, r: int, start: int, cnt: int) -> bool {
        &&& 0 <= r < s0.n_regions()
        &&& 0 <= start
        &&& start + cnt <= s0.rlen(r)
        &&& Self::window_is(s0, r, start, cnt, FrameState::Free)
        &&& s0.same_shape(s1)
        &&& forall|a: int, b: int|
            s0.valid_pos(a, b) ==> #[trigger] s1.state_at(a, b) == (if a == r && start <= b < start
                + cnt {
                FrameState::Allocated
            } else {
                s0.state_at(a, b)
            })
    }

    /// Frames of 4 KiB per frame of `size` bytes.
    pub open spec fn spec_fpf(size: u64) -> int {
        size as int / 4096
    }

    /// The first frame index at or after `lo` in region `r` whose address is a
    /// multiple of `size`: the local index where the aligned stride search of
    /// region `r` begins.
    pub open spec fn aligned_start(s: Self, r: int, lo: int, size: u64) -> int {
        let addr0 = s.rbase(r) + lo * 4096;
        if addr0 % (size as int) == 0 {
            lo
        } else {
            lo + (size - addr0 % (size as int)) / 4096
        }
    }

    /// The `k`-th size-aligned stride position of region `r`, searched from
    /// local index `lo`, holds an all-Free window of `cnt` frames.
    pub open spec fn candidate_at(s: Self, r: int, lo: int, size: u64, k: int, cnt: int) -> bool {
        &&& 0 <= k
        &&& Self::aligned_start(s, r, lo, size) + k * Self::spec_fpf(size) + cnt <= s.rlen(r)
        &&& Self::window_is(
            s,
            r,
            Self::aligned_start(s, r, lo, size) + k * Self::spec_fpf(size),
            cnt,
            FrameState::Free,
        )
    }

    /// Region `r`, searched from local index `lo`, holds an all-Free window of
    /// `cnt` frames at one of the size-aligned stride positions.
    pub open spec fn region_has_candidate(s: Self, r: int, lo: int, size: u64, cnt: int) -> bool {
        exists|k: int| #[trigger] Self::candidate_at(s, r, lo, size, k, cnt)
    }

    /// Where the search of region `r` starts: at the cursor's frame index in
    /// the cursor's own region, at frame 0 in every later region.
    pub open spec fn search_lo(ffr: int, ffi: int, r: int) -> int {
        if r == ffr {
            ffi
        } else {
            0
        }
    }

    /// Whether the aligned search that starts at the first-free cursor can
    /// find an all-Free window of `cnt` frames whose address is a multiple of
    /// `size`. When this is false, allocation is out of memory.
    pub open spec fn has_candidate(s: Self, size: u64, cnt: int) -> bool {
        match s.first_free {
            None => false,
            Some(ff) => exists|r: int|
                ff.region_idx <= r < s.n_regions() && #[trigger] Self::region_has_candidate(
                    s,
                    r,
                    Self::search_lo(ff.region_idx as int, ff.frame_idx as int, r),
                    size,
                    cnt,
                ),
        }
    }

    /// The window of `cnt` frames at `(rr, st)` is the one the
    /// cursor-forward aligned stride search finds first: no earlier searched
    /// region holds a candidate, and no earlier stride position of `rr` is
    /// one.
    pub open spec fn first_fit_at(s: Self, size: u64, cnt: int, rr: int, st: int) -> bool {
        match s.first_free {
            None => false,
            Some(ff) => {
                let lo = Self::search_lo(ff.region_idx as int, ff.frame_idx as int, rr);
                &&& ff.region_idx <= rr < s.n_regions()
                &&& (forall|rp: int|
                    ff.region_idx <= rp < rr ==> !(#[trigger] Self::region_has_candidate(
                        s,
                        rp,
                        Self::search_lo(ff.region_idx as int, ff.frame_idx as int, rp),
                        size,
                        cnt,
                    )))
                &&& (exists|k: int|
                    (#[trigger] Self::candidate_at(s, rr, lo, size, k, cnt)) && st
                        == Self::aligned_start(s, rr, lo, size) + k * Self::spec_fpf(size) && (
                    forall|k2: int|
                        k2 < k ==> !(#[trigger] Self::candidate_at(s, rr, lo, size, k2, cnt))))
            },
        }
    }

    /// Whether all `cnt` entries of `frames` starting at `start` are Free.
    fn window_free(frames: &Vec<FrameState>, start: usize, cnt: usize) -> (r: bool)
        requires
            start + cnt <= frames@.len(),
        ensures
            r == (forall|b: int|
                start <= b < start + cnt ==> #[trigger] frames@[b] == FrameState::Free),
    {
        let flen = frames.len();
        let mut j: usize = 0;
        while j < cnt
            invariant
                j <= cnt,
                start + cnt <= flen,
                flen == frames@.len(),
                forall|b: int| start <= b < start + j ==> #[trigger] frames@[b] == FrameState::Free,
            decreases cnt - j,
        {
            if !matches!(frames[start + j], FrameState::Free) {
                return false;
            }
            j = j + 1;
        }
        true
    }

    /// Marks the `cnt` frames of region `r` starting at `start` Allocated.
    fn mark_window(&mut self, r: usize, start: usize, cnt: usize)
        requires
            old(self).regions_wf(),
            r < old(self).n_regions(),
            start + cnt <= old(self).rlen(r as int),
        ensures
            final(self).first_free == old(self).first_free,
            old(self).same_shape(*final(self)),
            final(self).regions_wf(),
            forall|a: int, b: int|
                old(self).valid_pos(a, b) ==> #[trigger] final(self).state_at(a, b) == (if a == r
                    && start <= b < start + cnt {
                    FrameState::Allocated
                } else {
                    old(self).state_at(a, b)
                }),
    {
        let ghost s0 = *old(self);
        let mut j: usize = 0;
        while j < cnt
            invariant
                j <= cnt,
                s0.regions_wf(),
                r < s0.n_regions(),
                start + cnt <= s0.rlen(r as int),
                self.first_free == s0.first_free,
                s0.same_shape(*self),
                forall|a: int, b: int|
                    s0.valid_pos(a, b) ==> #[trigger] self.state_at(a, b) == (if a == r && start
                        <= b < start + j {
                        FrameState::Allocated
                    } else {
                        s0.state_at(a, b)
                    }),
            decreases cnt - j,
        {
            let ghost sp = *self;
            proof {
                assert(s0.rlen(r as int) <= 0x1000_0000);
            }
            self.regions[r].set_frame(start + j, FrameState::Allocated);
            proof {
                assert forall|a: int, b: int| s0.valid_pos(a, b) implies #[trigger] self.state_at(
                    a,
                    b,
                ) == (if a == r && start <= b < start + j + 1 {
                    FrameState::Allocated
                } else {
                    s0.state_at(a, b)
                }) by {
                    if a == r && b == start + j {
                    } else {
                        assert(self.state_at(a, b) == sp.state_at(a, b));
                    }
                }
            }
            j = j + 1;
        }
        proof {
            Self::lemma_shape_regions_wf(s0, *self);
        }
    }

    /// Multiplying by a positive stride keeps order.
    proof fn lemma_stride(k1: int, k2: int, m: int)
        by (nonlinear_arith)
        requires
            m >= 1,
            0 <= k1 <= k2,
        ensures
            k1 * m <= k2 * m,
    {
    }

    /// The byte misalignment of a 4 KiB-based address against a frame size of
    /// `f` 4 KiB frames is 4096 times the frame-unit misalignment.
    proof fn lemma_mis_frames(bq: int, lo: int, f: int)
        requires
            bq >= 0,
            lo >= 0,
            f >= 1,
        ensures
            0 <= (bq + lo) % f < f,
            (bq * 4096 + lo * 4096) % (f * 4096) == 4096 * ((bq + lo) % f),
    {
        vstd::arithmetic::div_mod::lemma_truncate_middle(bq + lo, 4096, f);
        assert(4096 * (bq + lo) == bq * 4096 + lo * 4096) by (nonlinear_arith);
        assert(4096 * f == f * 4096);
    }

    /// An address that is 4 KiB-based and frame-unit aligned stays aligned
    /// after adding any number of whole frames.
    proof fn lemma_aligned_step(bq: int, st: int, k: int, f: int)
        requires
            bq >= 0,
            st >= 0,
            k >= 0,
            f >= 1,
            (bq + st) % f == 0,
        ensures
            (bq * 4096 + (st + k * f) * 4096) % (f * 4096) == 0,
            (bq + st + k * f) % f == 0,
    {
        assert(k * f >= 0) by (nonlinear_arith)
            requires
                k >= 0,
                f >= 1,
        ;
        let q = (bq + st) / f;
        vstd::arithmetic::div_mod::lemma_fundamental_div_mod(bq + st, f);
        assert(bq + st + k * f == f * (q + k)) by (nonlinear_arith)
            requires
                bq + st == f * q + (bq + st) % f,
                (bq + st) % f == 0,
        ;
        vstd::arithmetic::div_mod::lemma_mod_multiples_basic(q + k, f);
        assert((q + k) * f == f * (q + k)) by (nonlinear_arith);
        Self::lemma_mis_frames(bq, st + k * f, f);
    }

    /// Allocates `n` contiguous frames of `S::spec_size()` bytes each,
    /// searching from the first-free cursor in size-aligned strides, never
    /// crossing a region boundary. The returned range starts at an address
    /// that is a multiple of the frame size; all its 4 KiB frames were Free
    /// and are now Allocated. A `None` reports out of memory: the aligned
    /// search space holds no all-Free window, and nothing changed.
    pub fn allocate_frames_impl<S: crate::frames::PageSize>(&mut self, n: usize) -> (r: Option<
        crate::frames::PhysFrameRangeInclusive<S>,
    >)
        requires
            old(self).wf(),
            1 <= n,
            n * Self::spec_fpf(S::spec_size()) <= 0x1000_0000,
        ensures
            final(self).wf(),
            r is None ==> *final(self) == *old(self) && !Self::has_candidate(
                *old(self),
                S::spec_size(),
                n * Self::spec_fpf(S::spec_size()),
            ),
            r is Some ==> (exists|rr: int, st: int|
                #![trigger Self::alloc_marked(
                    *old(self),
                    *final(self),
                    rr,
                    st,
                    n * Self::spec_fpf(S::spec_size()),
                )]
                Self::alloc_marked(
                    *old(self),
                    *final(self),
                    rr,
                    st,
                    n * Self::spec_fpf(S::spec_size()),
                ) && r->Some_0.start.start_address.0 == old(self).rbase(rr) + st * 4096
                    && r->Some_0.end.start_address.0 == old(self).rbase(rr) + (st + (n - 1)
                    * Self::spec_fpf(S::spec_size())) * 4096 && Self::first_fit_at(
                    *old(self),
                    S::spec_size(),
                    n * Self::spec_fpf(S::spec_size()),
                    rr,
                    st,
                )),
            r is Some ==> r->Some_0.start.start_address.0 as int % S::spec_size() as int == 0,
    {
        proof {
            S::size_properties();
        }
        let ff = match self.first_free {
            Some(f) => f,
            None => {
                return None;
            },
        };
        let size = S::size();
        let fpf = (size / 4096) as usize;
        let cnt = n * fpf;
        let ghost s0 = *old(self);
        let ghost gsize = S::spec_size();
        proof {
            assert(fpf == Self::spec_fpf(gsize));
            assert(1 <= fpf <= 0x100000);
            Self::lemma_stride(1, n as int, fpf as int);
            assert(cnt >= 1);
        }
        let mut ri: usize = ff.region_idx;
        while ri < self.regions.len()
            invariant
                s0 == *old(self),
                s0.wf(),
                *self == s0,
                self.first_free == Some(ff),
                ff.region_idx <= ri,
                fpf == Self::spec_fpf(gsize),
                1 <= fpf <= 0x100000,
                cnt == n * fpf,
                1 <= n,
                1 <= cnt <= 0x1000_0000,
                gsize == S::spec_size(),
                4096 <= gsize <= 0x40000000,
                gsize % 4096 == 0,
                gsize == fpf * 4096,
                size == gsize,
                forall|rp: int|
                    ff.region_idx <= rp < ri ==> !(#[trigger] Self::region_has_candidate(
                        s0,
                        rp,
                        Self::search_lo(ff.region_idx as int, ff.frame_idx as int, rp),
                        gsize,
                        cnt as int,
                    )),
            decreases self.n_regions() - ri,
        {
            let search_start: usize = if ri == ff.region_idx {
                ff.frame_idx
            } else {
                0
            };
            let ghost glo = search_start as int;
            let rlen = self.regions[ri].frames.len();
            proof {
                assert(self.rlen(ri as int) <= 0x1000_0000);
                assert(self.rbase(ri as int) % 4096 == 0);
                assert(self.rbase(ri as int) + self.rlen(ri as int) * 4096 <= u64::MAX);
            }
            if search_start < rlen {
                let base = self.regions[ri].base;
                let ghost bq = base as int / 4096;
                proof {
                    assert(bq * 4096 == base) by (nonlinear_arith)
                        requires
                            base as int % 4096 == 0,
                            bq == base as int / 4096,
                    ;
                    assert(glo * 4096 < self.rlen(ri as int) * 4096) by (nonlinear_arith)
                        requires
                            glo < self.rlen(ri as int),
                    ;
                    Self::lemma_mis_frames(bq, glo, fpf as int);
                }
                let start_addr = base + (search_start as u64) * 4096;
                let mis = start_addr % size;
                let ghost gu = (bq + glo) % (fpf as int);
                proof {
                    assert(mis == 4096 * gu);
                }
                let skip: usize = if mis == 0 {
                    0
                } else {
                    proof {
                        assert((gsize - 4096 * gu) == 4096 * (fpf - gu)) by (nonlinear_arith)
                            requires
                                gsize == fpf * 4096,
                        ;
                        assert((4096 * (fpf - gu)) / 4096 == fpf - gu) by (nonlinear_arith)
                            requires
                                0 <= fpf - gu,
                        ;
                    }
                    ((size - mis) / 4096) as usize
                };
                let aligned = search_start + skip;
                let ghost gal = Self::aligned_start(s0, ri as int, glo, gsize);
                proof {
                    assert(aligned == gal);
                    assert((bq + aligned) % (fpf as int) == 0) by (nonlinear_arith)
                        requires
                            fpf >= 1,
                            gu == (bq + glo) % (fpf as int),
                            0 <= gu < fpf,
                            aligned == (if gu == 0 {
                                glo
                            } else {
                                glo + (fpf - gu)
                            }),
                    ;
                    assert(aligned <= 0x1010_0000);
                }
                let mut cur: usize = aligned;
                let ghost mut kk: int = 0;
                while cur + cnt <= rlen
                    invariant
                        s0 == *old(self),
                        s0.wf(),
                        *self == s0,
                        fpf == Self::spec_fpf(gsize),
                        1 <= fpf <= 0x100000,
                        cnt == n * fpf,
                        1 <= n,
                        1 <= cnt <= 0x1000_0000,
                        s0.first_free == Some(ff),
                        rlen == s0.rlen(ri as int),
                        rlen <= 0x1000_0000,
                        ri < s0.n_regions(),
                        ff.region_idx <= ri,
                        forall|rp: int|
                            ff.region_idx <= rp < ri ==> !(#[trigger] Self::region_has_candidate(
                                s0,
                                rp,
                                Self::search_lo(ff.region_idx as int, ff.frame_idx as int, rp),
                                gsize,
                                cnt as int,
                            )),
                        aligned == gal,
                        gal == Self::aligned_start(s0, ri as int, glo, gsize),
                        aligned >= search_start,
                        glo == search_start,
                        ri == ff.region_idx ==> search_start == ff.frame_idx,
                        ri != ff.region_idx ==> search_start == 0,
                        aligned <= 0x1010_0000,
                        cur <= 0x1010_0000,
                        kk >= 0,
                        cur == aligned + kk * fpf,
                        gsize == S::spec_size(),
                        4096 <= gsize <= 0x40000000,
                        gsize == fpf * 4096,
                        size == gsize,
                        base == s0.rbase(ri as int),
                        base as int == bq * 4096,
                        bq >= 0,
                        (bq + aligned) % (fpf as int) == 0,
                        forall|k: int|
                            k < kk ==> !(#[trigger] Self::candidate_at(
                                s0,
                                ri as int,
                                glo,
                                gsize,
                                k,
                                cnt as int,
                            )),
                    decreases s0.rlen(ri as int) + fpf - cur,
                {
                    if Self::window_free(self.regions[ri].frames(), cur, cnt) {
                        proof {
                            Self::lemma_stride(n - 1, n as int, fpf as int);
                            assert(cur * 4096 <= s0.rlen(ri as int) * 4096 && (cur + (n - 1) * fpf)
                                * 4096 <= s0.rlen(ri as int) * 4096) by (nonlinear_arith)
                                requires
                                    cur + cnt <= s0.rlen(ri as int),
                                    cnt == n * fpf,
                                    1 <= n,
                                    fpf >= 1,
                                    cur >= 0,
                                    (n - 1) * fpf <= n * fpf,
                            ;
                            Self::lemma_aligned_step(bq, aligned as int, kk, fpf as int);
                            Self::lemma_aligned_step(bq, aligned as int, kk + n - 1, fpf as int);
                            assert(aligned + (kk + n - 1) * fpf == cur + (n - 1) * fpf)
                                by (nonlinear_arith)
                                requires
                                    cur == aligned + kk * fpf,
                            ;
                        }
                        let start_out = base + (cur as u64) * 4096;
                        let end_out = base + ((cur + (n - 1) * fpf) as u64) * 4096;
                        proof {
                            assert(start_out as int == bq * 4096 + (aligned + kk * fpf) * 4096);
                            assert(end_out as int == bq * 4096 + (aligned + (kk + n - 1) * fpf)
                                * 4096);
                            assert(start_out as int % gsize as int == 0);
                            assert(end_out as int % gsize as int == 0);
                        }
                        self.mark_window(ri, cur, cnt);
                        let ghost smark = *self;
                        proof {
                            assert(Self::alloc_marked(s0, *self, ri as int, cur as int, cnt as int));
                        }
                        if ri == ff.region_idx && cur <= ff.frame_idx {
                            proof {
                                assert(s0.valid_pos(ff.region_idx as int, ff.frame_idx as int));
                                Self::lemma_stride(0, kk, fpf as int);
                                assert(cur >= aligned);
                                assert(aligned >= search_start);
                                assert(cur == ff.frame_idx);
                                assert forall|a: int, b: int|
                                    self.valid_pos(a, b) && pos_before(
                                        a,
                                        b,
                                        ri as int,
                                        cur + cnt,
                                    ) implies #[trigger] self.state_at(a, b)
                                    != FrameState::Free by {
                                    assert(s0.valid_pos(a, b));
                                    if a == ri as int && cur <= b < cur + cnt {
                                    } else {
                                        assert(self.state_at(a, b) == s0.state_at(a, b));
                                        assert(pos_before(
                                            a,
                                            b,
                                            ff.region_idx as int,
                                            ff.frame_idx as int,
                                        ));
                                    }
                                }
                            }
                            self.update_first_free(ri, cur + cnt);
                        } else {
                            proof {
                                assert(s0.valid_pos(ff.region_idx as int, ff.frame_idx as int));
                                Self::lemma_stride(0, kk, fpf as int);
                                assert(cur >= aligned);
                                assert(aligned >= search_start);
                                assert(!(ri as int == ff.region_idx as int && cur <= ff.frame_idx
                                    < cur + cnt));
                                assert(self.state_at(ff.region_idx as int, ff.frame_idx as int)
                                    == s0.state_at(ff.region_idx as int, ff.frame_idx as int));
                                assert forall|a: int, b: int|
                                    self.valid_pos(a, b) && pos_before(
                                        a,
                                        b,
                                        ff.region_idx as int,
                                        ff.frame_idx as int,
                                    ) implies #[trigger] self.state_at(a, b)
                                    != FrameState::Free by {
                                    assert(s0.valid_pos(a, b));
                                    assert(self.state_at(a, b) == s0.state_at(a, b));
                                }
                            }
                        }
                        let start_frame = match crate::frames::PhysFrame::<S>::from_start_address(
                            crate::addr::PhysAddr::new(start_out),
                        ) {
                            Ok(fr) => fr,
                            Err(_) => {
                                proof {
                                    assert(false);
                                }
                                return None;
                            },
                        };
                        let end_frame = match crate::frames::PhysFrame::<S>::from_start_address(
                            crate::addr::PhysAddr::new(end_out),
                        ) {
                            Ok(fr) => fr,
                            Err(_) => {
                                proof {
                                    assert(false);
                                }
                                return None;
                            },
                        };
                        proof {
                            Self::lemma_same_regions(smark, *self);
                            assert(smark.same_shape(*self));
                            assert(start_out == s0.rbase(ri as int) + cur * 4096);
                            assert(end_out == s0.rbase(ri as int) + (cur + (n - 1) * fpf) * 4096);
                            assert(s0.state_at(ri as int, cur as int) == FrameState::Free);
                            assert(Self::alloc_marked(
                                s0,
                                *self,
                                ri as int,
                                cur as int,
                                n * Self::spec_fpf(S::spec_size()),
                            ));
                            assert(start_frame.start_address.0 == s0.rbase(ri as int) + cur * 4096);
                            assert(end_frame.start_address.0 == s0.rbase(ri as int) + (cur + (n - 1)
                                * Self::spec_fpf(S::spec_size())) * 4096);
                            assert(Self::candidate_at(
                                s0,
                                ri as int,
                                glo,
                                gsize,
                                kk,
                                cnt as int,
                            )) by {
                                assert forall|b: int| cur <= b < cur + cnt implies #[trigger] s0
                                    .state_at(ri as int, b) == FrameState::Free by {
                                    assert(self.regions@[ri as int].frames@[b]
                                        == s0.regions@[ri as int].frames@[b] || true);
                                }
                            }
                            assert(glo == Self::search_lo(
                                ff.region_idx as int,
                                ff.frame_idx as int,
                                ri as int,
                            ));
                            assert(Self::candidate_at(
                                s0,
                                ri as int,
                                Self::search_lo(ff.region_idx as int, ff.frame_idx as int, ri as int),
                                gsize,
                                kk,
                                cnt as int,
                            ));
                            assert forall|k2: int| k2 < kk implies !(
                            #[trigger] Self::candidate_at(
                                s0,
                                ri as int,
                                Self::search_lo(ff.region_idx as int, ff.frame_idx as int, ri as int),
                                gsize,
                                k2,
                                cnt as int,
                            )) by {
                                assert(!Self::candidate_at(s0, ri as int, glo, gsize, k2, cnt as int));
                            }
                            assert(Self::first_fit_at(
                                s0,
                                gsize,
                                cnt as int,
                                ri as int,
                                cur as int,
                            ));
                            assert(exists|rr: int, st: int|
                                #![trigger Self::alloc_marked(
                                    s0,
                                    *self,
                                    rr,
                                    st,
                                    n * Self::spec_fpf(S::spec_size()),
                                )]
                                Self::alloc_marked(
                                    s0,
                                    *self,
                                    rr,
                                    st,
                                    n * Self::spec_fpf(S::spec_size()),
                                ) && start_frame.start_address.0 == s0.rbase(rr) + st * 4096
                                    && end_frame.start_address.0 == s0.rbase(rr) + (st + (n - 1)
                                    * Self::spec_fpf(S::spec_size())) * 4096 && Self::first_fit_at(
                                    s0,
                                    S::spec_size(),
                                    n * Self::spec_fpf(S::spec_size()),
                                    rr,
                                    st,
                                )) by {
                                assert(s0.rbase(ri as int) == s0.rbase(ri as int));
                                assert(s0.state_at(ri as int, cur as int) == FrameState::Free);
                            }
                        }
                        return Some(
                            crate::frames::PhysFrameRangeInclusive {
                                start: start_frame,
                                end: end_frame,
                            },
                        );
                    }
                    proof {
                        Self::lemma_stride(kk, kk + 1, fpf as int);
                        assert forall|k: int| k < kk + 1 implies !(#[trigger] Self::candidate_at(
                            s0,
                            ri as int,
                            glo,
                            gsize,
                            k,
                            cnt as int,
                        )) by {
                            if k == kk {
                                assert(aligned + kk * fpf == cur);
                                if Self::window_is(
                                    s0,
                                    ri as int,
                                    cur as int,
                                    cnt as int,
                                    FrameState::Free,
                                ) {
                                    assert forall|b: int|
                                        cur <= b < cur + cnt implies #[trigger] self.regions@[
                                        ri as int].frames@[b] == FrameState::Free by {
                                        assert(s0.state_at(ri as int, b) == FrameState::Free);
                                    }
                                    assert(false);
                                }
                            }
                        }
                        assert((kk + 1) * fpf == kk * fpf + fpf) by (nonlinear_arith);
                        kk = kk + 1;
                    }
                    cur = cur + fpf;
                }
                proof {
                    assert forall|k: int| !(#[trigger] Self::candidate_at(
                        s0,
                        ri as int,
                        glo,
                        gsize,
                        k,
                        cnt as int,
                    )) by {
                        if k >= kk {
                            Self::lemma_stride(kk, k, fpf as int);
                            assert(aligned + k * fpf >= cur);
                        }
                    }
                    assert(!Self::region_has_candidate(s0, ri as int, glo, gsize, cnt as int));
                }
            } else {
                proof {
                    let bq2 = s0.rbase(ri as int) / 4096;
                    assert(bq2 * 4096 == s0.rbase(ri as int)) by (nonlinear_arith)
                        requires
                            s0.rbase(ri as int) % 4096 == 0,
                            bq2 == s0.rbase(ri as int) / 4096,
                            s0.rbase(ri as int) >= 0,
                    ;
                    Self::lemma_mis_frames(bq2, glo, fpf as int);
                    let gu2 = (bq2 + glo) % (fpf as int);
                    let al = Self::aligned_start(s0, ri as int, glo, gsize);
                    assert((gsize - 4096 * gu2) == 4096 * (fpf - gu2) && (4096 * (fpf - gu2))
                        / 4096 == fpf - gu2) by (nonlinear_arith)
                        requires
                            gsize == fpf * 4096,
                            0 <= gu2 < fpf,
                    ;
                    assert(al >= glo);
                    assert forall|k: int| !(#[trigger] Self::candidate_at(
                        s0,
                        ri as int,
                        glo,
                        gsize,
                        k,
                        cnt as int,
                    )) by {
                        if k >= 0 {
                            Self::lemma_stride(0, k, Self::spec_fpf(gsize));
                            assert(Self::spec_fpf(gsize) >= 1);
                        }
                    }
                    assert(!Self::region_has_candidate(s0, ri as int, glo, gsize, cnt as int));
                }
            }
            ri = ri + 1;
        }
        proof {
            assert(!Self::has_candidate(s0, gsize, cnt as int));
        }
        None
    }


    /// The physical byte address of position `(a, b)`.
    pub open spec fn pos_addr(s: Self, a: int, b: int) -> int {
        s.rbase(a) + b * 4096
    }

    /// Every 4 KiB slot of `[addr, addr + cnt * 4096)` lies in some region.
    pub open spec fn range_covered(s: Self, addr: u64, cnt: int) -> bool {
        forall|j: int| 0 <= j < cnt ==> #[trigger] s.has_location((addr + j * 4096) as u64)
    }

    /// Every frame whose address falls in `[addr, addr + cnt * 4096)` is in
    /// state `st`.
    pub open spec fn range_states(s: Self, addr: u64, cnt: int, st: FrameState) -> bool {
        forall|a: int, b: int|
            s.valid_pos(a, b) && addr <= #[trigger] Self::pos_addr(s, a, b) < addr + cnt * 4096
                ==> s.state_at(a, b) == st
    }

    /// The first `j` 4 KiB frames starting at `addr` were Allocated in `s0`
    /// and are exactly the frames that `s1` marks Free; when `j >= 1` the
    /// cursor is drawn back to the first freed frame if that is earlier.
    pub open spec fn freed_prefix(s0: Self, s1: Self, addr: u64, j: int) -> bool {
        &&& s0.same_shape(s1)
        &&& Self::range_covered(s0, addr, j)
        &&& Self::range_states(s0, addr, j, FrameState::Allocated)
        &&& forall|a: int, b: int|
            s0.valid_pos(a, b) ==> #[trigger] s1.state_at(a, b) == (if addr <= Self::pos_addr(
                s0,
                a,
                b,
            ) < addr + j * 4096 {
                FrameState::Free
            } else {
                s0.state_at(a, b)
            })
        &&& s1.first_free == (if j == 0 {
            s0.first_free
        } else {
            let r0 = s0.loc_region(addr);
            let i0 = s0.loc_index(addr);
            match s0.first_free {
                None => Some(RegionFrameIndex { region_idx: r0 as usize, frame_idx: i0 as usize }),
                Some(f0) => if pos_before(r0, i0, f0.region_idx as int, f0.frame_idx as int) {
                    Some(RegionFrameIndex { region_idx: r0 as usize, frame_idx: i0 as usize })
                } else {
                    Some(f0)
                },
            }
        })
    }

    /// Earlier addresses live at earlier positions.
    proof fn lemma_addr_pos_monotone(s: Self, a1: int, b1: int, a2: int, b2: int)
        requires
            s.regions_wf(),
            s.valid_pos(a1, b1),
            s.valid_pos(a2, b2),
            Self::pos_addr(s, a1, b1) < Self::pos_addr(s, a2, b2),
        ensures
            pos_before(a1, b1, a2, b2),
    {
        if a1 == a2 {
        } else if a1 > a2 {
            assert(s.rbase(a2) + s.rlen(a2) * 4096 <= s.rbase(a1));
            assert(b2 * 4096 < s.rlen(a2) * 4096) by (nonlinear_arith)
                requires
                    b2 < s.rlen(a2),
            ;
            assert(b1 * 4096 >= 0) by (nonlinear_arith)
                requires
                    b1 >= 0,
            ;
        }
    }

    /// A position whose address is 4 KiB aligned relative to its region is
    /// the location of its own address.
    proof fn lemma_pos_is_loc(s: Self, a: int, b: int)
        requires
            s.regions_wf(),
            s.valid_pos(a, b),
        ensures
            0 <= Self::pos_addr(s, a, b) <= u64::MAX,
            s.has_location(Self::pos_addr(s, a, b) as u64),
            s.loc_region(Self::pos_addr(s, a, b) as u64) == a,
            s.loc_index(Self::pos_addr(s, a, b) as u64) == b,
    {
        let ad = Self::pos_addr(s, a, b);
        assert(0 <= b * 4096 < s.rlen(a) * 4096) by (nonlinear_arith)
            requires
                0 <= b < s.rlen(a),
        ;
        assert(s.addr_in_region(a, ad as u64));
        let cr = s.loc_region(ad as u64);
        assert(0 <= cr < s.n_regions() && s.addr_in_region(cr, ad as u64));
        s.lemma_location_unique(ad as u64, a, cr);
        assert((s.rbase(a) + b * 4096 - s.rbase(a)) / 4096 == b) by (nonlinear_arith);
    }

    /// Frees the `cnt` consecutive 4 KiB frames starting at `addr`, front to
    /// back, stopping at the first frame that is not currently Allocated.
    /// On success all `cnt` frames were Allocated and are now Free; on
    /// failure the frames before the offending one stay freed.
    #[verifier::rlimit(100)]
    pub fn dealloc_many(&mut self, addr: u64, cnt: usize) -> (ok: bool)
        requires
            old(self).wf(),
            addr as int % 4096 == 0,
            addr + cnt * 4096 <= u64::MAX,
            1 <= cnt <= 0x1000_0000,
        ensures
            final(self).wf(),
            ok ==> Self::freed_prefix(*old(self), *final(self), addr, cnt as int),
            !ok ==> exists|j: int|
                #![trigger Self::freed_prefix(*old(self), *final(self), addr, j)]
                0 <= j < cnt && Self::freed_prefix(*old(self), *final(self), addr, j)
                    && Self::no_dealloc_target(*old(self), (addr + j * 4096) as u64),
    {
        let ghost s0 = *old(self);
        let mut j: usize = 0;
        while j < cnt
            invariant
                s0 == *old(self),
                s0.wf(),
                self.wf(),
                addr as int % 4096 == 0,
                addr + cnt * 4096 <= u64::MAX,
                1 <= cnt <= 0x1000_0000,
                j <= cnt,
                Self::freed_prefix(s0, *self, addr, j as int),
            decreases cnt - j,
        {
            let ghost sj = *self;
            proof {
                assert(j * 4096 <= cnt * 4096 && (j + 1) * 4096 <= cnt * 4096)
                    by (nonlinear_arith)
                    requires
                        j < cnt,
                ;
            }
            let a_j = addr + (j as u64) * 4096;
            let ok_j = self.dealloc_at(a_j);
            if !ok_j {
                proof {
                    assert(*self == sj);
                    assert(Self::no_dealloc_target(s0, a_j)) by {
                        assert forall|r: int|
                            0 <= r < s0.n_regions() && #[trigger] s0.addr_in_region(r, a_j)
                                implies s0.state_at(r, (a_j - s0.rbase(r)) / 4096)
                            != FrameState::Allocated by {
                            assert(sj.rbase(r) == s0.rbase(r) && sj.rlen(r) == s0.rlen(r));
                            assert(sj.addr_in_region(r, a_j));
                            let bb = (a_j - s0.rbase(r)) / 4096;
                            assert(0 <= bb < s0.rlen(r)) by (nonlinear_arith)
                                requires
                                    s0.rbase(r) <= a_j < s0.rbase(r) + s0.rlen(r) * 4096,
                                    bb == (a_j - s0.rbase(r)) / 4096,
                            ;
                            assert(sj.state_at(r, bb) != FrameState::Allocated);
                            if s0.state_at(r, bb) == FrameState::Allocated {
                                assert(Self::pos_addr(s0, r, bb) == a_j) by (nonlinear_arith)
                                    requires
                                        s0.rbase(r) as int % 4096 == 0,
                                        a_j as int % 4096 == 0,
                                        s0.rbase(r) <= a_j,
                                        bb == (a_j - s0.rbase(r)) / 4096,
                                        Self::pos_addr(s0, r, bb) == s0.rbase(r) + bb * 4096,
                                ;
                                assert(sj.state_at(r, bb) == (if addr <= Self::pos_addr(s0, r, bb)
                                    < addr + j * 4096 {
                                    FrameState::Free
                                } else {
                                    s0.state_at(r, bb)
                                }));
                                assert(a_j >= addr + j * 4096);
                                assert(false);
                            }
                        }
                    }
                    assert(0 <= j < cnt && Self::freed_prefix(s0, *self, addr, j as int)
                        && Self::no_dealloc_target(s0, (addr + j * 4096) as u64));
                }
                return false;
            }
            proof {
                let lr = sj.loc_region(a_j);
                let li = sj.loc_index(a_j);
                assert(Self::frame_freed(sj, *self, lr, li));
                assert(sj.valid_pos(lr, li));
                assert(s0.valid_pos(lr, li));
                Self::lemma_pos_is_loc(sj, lr, li);
                assert(Self::pos_addr(sj, lr, li) == a_j) by {
                    assert(sj.addr_in_region(sj.loc_region(a_j), a_j));
                    let bb = (a_j - sj.rbase(lr)) / 4096;
                    assert(Self::pos_addr(sj, lr, bb) == a_j) by (nonlinear_arith)
                        requires
                            sj.rbase(lr) as int % 4096 == 0,
                            a_j as int % 4096 == 0,
                            sj.rbase(lr) <= a_j,
                            bb == (a_j - sj.rbase(lr)) / 4096,
                            Self::pos_addr(sj, lr, bb) == sj.rbase(lr) + bb * 4096,
                    ;
                }
                assert(s0.same_shape(*self));
                assert(s0.rbase(lr) == sj.rbase(lr));
                assert(Self::pos_addr(s0, lr, li) == a_j);
                // the states now match the (j + 1)-prefix
                assert forall|a: int, b: int| s0.valid_pos(a, b) implies #[trigger] self.state_at(
                    a,
                    b,
                ) == (if addr <= Self::pos_addr(s0, a, b) < addr + (j + 1) * 4096 {
                    FrameState::Free
                } else {
                    s0.state_at(a, b)
                }) by {
                    assert(sj.valid_pos(a, b));
                    assert(Self::pos_addr(s0, a, b) == Self::pos_addr(sj, a, b));
                    if a == lr && b == li {
                        assert(addr <= Self::pos_addr(s0, a, b) < addr + (j + 1) * 4096);
                    } else {
                        assert(self.state_at(a, b) == sj.state_at(a, b));
                        if addr <= Self::pos_addr(s0, a, b) < addr + j * 4096 {
                        } else if addr <= Self::pos_addr(s0, a, b) < addr + (j + 1) * 4096 {
                            // the slot at a_j is the unique position in this band
                            assert(Self::pos_addr(s0, a, b) as int % 4096 == 0) by (nonlinear_arith)
                                requires
                                    s0.rbase(a) as int % 4096 == 0,
                                    Self::pos_addr(s0, a, b) == s0.rbase(a) + b * 4096,
                            ;
                            assert(Self::pos_addr(s0, a, b) == a_j) by (nonlinear_arith)
                                requires
                                    addr + j * 4096 <= Self::pos_addr(s0, a, b) < addr + (j + 1)
                                        * 4096,
                                    Self::pos_addr(s0, a, b) as int % 4096 == 0,
                                    addr as int % 4096 == 0,
                                    a_j == addr + j * 4096,
                            ;
                            Self::lemma_pos_is_loc(sj, a, b);
                            sj.lemma_location_unique(a_j, a, lr);
                            assert((a_j - sj.rbase(lr)) / 4096 == li);
                            assert(b == li) by (nonlinear_arith)
                                requires
                                    Self::pos_addr(sj, a, b) == sj.rbase(a) + b * 4096,
                                    Self::pos_addr(sj, a, b) == a_j,
                                    a == lr,
                                    (a_j - sj.rbase(lr)) / 4096 == li,
                            ;
                            assert(false);
                        }
                    }
                }
                // the prefix states of s0 extend by the new slot
                assert(Self::range_covered(s0, addr, (j + 1) as int)) by {
                    assert forall|jj: int| 0 <= jj < j + 1 implies #[trigger] s0.has_location(
                        (addr + jj * 4096) as u64,
                    ) by {
                        if jj == j {
                            assert(s0.rbase(lr) == sj.rbase(lr) && s0.rlen(lr) == sj.rlen(lr));
                            assert(sj.addr_in_region(lr, a_j));
                            assert(s0.addr_in_region(lr, a_j));
                        }
                    }
                }
                assert(Self::range_states(s0, addr, (j + 1) as int, FrameState::Allocated)) by {
                    assert forall|a: int, b: int|
                        s0.valid_pos(a, b) && addr <= #[trigger] Self::pos_addr(s0, a, b) < addr
                            + (j + 1) * 4096 implies s0.state_at(a, b)
                        == FrameState::Allocated by {
                        if Self::pos_addr(s0, a, b) < addr + j * 4096 {
                        } else {
                            assert(Self::pos_addr(s0, a, b) as int % 4096 == 0) by (nonlinear_arith)
                                requires
                                    s0.rbase(a) as int % 4096 == 0,
                                    Self::pos_addr(s0, a, b) == s0.rbase(a) + b * 4096,
                            ;
                            assert(Self::pos_addr(s0, a, b) == a_j) by (nonlinear_arith)
                                requires
                                    addr + j * 4096 <= Self::pos_addr(s0, a, b) < addr + (j + 1)
                                        * 4096,
                                    Self::pos_addr(s0, a, b) as int % 4096 == 0,
                                    addr as int % 4096 == 0,
                                    a_j == addr + j * 4096,
                            ;
                            assert(Self::pos_addr(sj, a, b) == a_j);
                            Self::lemma_pos_is_loc(sj, a, b);
                            sj.lemma_location_unique(a_j, a, lr);
                            assert(b == li) by (nonlinear_arith)
                                requires
                                    Self::pos_addr(sj, a, b) == sj.rbase(a) + b * 4096,
                                    Self::pos_addr(sj, a, b) == a_j,
                                    a == lr,
                                    Self::pos_addr(sj, lr, li) == a_j,
                            ;
                            assert(sj.state_at(lr, li) == FrameState::Allocated);
                            assert(sj.state_at(a, b) == (if addr <= Self::pos_addr(s0, a, b) < addr
                                + j * 4096 {
                                FrameState::Free
                            } else {
                                s0.state_at(a, b)
                            }));
                        }
                    }
                }
                // the cursor formula carries over
                if j == 0 {
                    assert(sj.first_free == s0.first_free);
                    assert(sj.loc_region(addr) == lr && sj.loc_index(addr) == li);
                    assert(s0.addr_in_region(lr, addr));
                    assert(s0.has_location(addr));
                    s0.lemma_location_unique(addr, lr, s0.loc_region(addr));
                    assert(s0.loc_region(addr) == lr);
                    assert(s0.loc_index(addr) == li) by {
                        assert(s0.rbase(lr) == sj.rbase(lr));
                    }
                } else {
                    let r0 = s0.loc_region(addr);
                    let i0 = s0.loc_index(addr);
                    assert(s0.has_location((addr + 0 * 4096) as u64));
                    assert(s0.has_location(addr));
                    assert(s0.addr_in_region(r0, addr));
                    assert(sj.rbase(r0) == s0.rbase(r0) && sj.rlen(r0) == s0.rlen(r0));
                    assert(sj.addr_in_region(r0, addr));
                    assert(0 <= i0 < s0.rlen(r0)) by (nonlinear_arith)
                        requires
                            s0.rbase(r0) <= addr < s0.rbase(r0) + s0.rlen(r0) * 4096,
                            i0 == (addr - s0.rbase(r0)) / 4096,
                    ;
                    assert(Self::pos_addr(s0, r0, i0) == addr) by (nonlinear_arith)
                        requires
                            s0.rbase(r0) as int % 4096 == 0,
                            addr as int % 4096 == 0,
                            s0.rbase(r0) <= addr,
                            i0 == (addr - s0.rbase(r0)) / 4096,
                            Self::pos_addr(s0, r0, i0) == s0.rbase(r0) + i0 * 4096,
                    ;
                    assert(Self::pos_addr(s0, r0, i0) < Self::pos_addr(s0, lr, li))
                        by (nonlinear_arith)
                        requires
                            Self::pos_addr(s0, r0, i0) == addr,
                            Self::pos_addr(s0, lr, li) == addr + j * 4096,
                            j >= 1,
                    ;
                    Self::lemma_addr_pos_monotone(s0, r0, i0, lr, li);
                    assert(pos_before(r0, i0, lr, li));
                }
            }
            j = j + 1;
        }
        true
    }

    /// Law: freeing every 4 KiB frame of a window that an allocation marked
    /// Allocated returns every frame of the allocator to its pre-allocation
    /// state.
    pub proof fn lemma_free_after_allocate_restores(
        s0: Self,
        s1: Self,
        s2: Self,
        rr: int,
        st: int,
        cnt: int,
        addr: u64,
    )
        requires
            s0.regions_wf(),
            cnt >= 1,
            Self::alloc_marked(s0, s1, rr, st, cnt),
            addr == s0.rbase(rr) + st * 4096,
            Self::freed_prefix(s1, s2, addr, cnt),
        ensures
            forall|a: int, b: int|
                s0.valid_pos(a, b) ==> #[trigger] s2.state_at(a, b) == s0.state_at(a, b),
    {
        Self::lemma_shape_regions_wf(s0, s1);
        assert forall|a: int, b: int| s0.valid_pos(a, b) implies #[trigger] s2.state_at(a, b)
            == s0.state_at(a, b) by {
            assert(s1.valid_pos(a, b));
            assert(s1.rbase(a) == s0.rbase(a) && s1.rlen(a) == s0.rlen(a));
            assert(s2.state_at(a, b) == (if addr <= Self::pos_addr(s1, a, b) < addr + cnt * 4096 {
                FrameState::Free
            } else {
                s1.state_at(a, b)
            }));
            assert(Self::pos_addr(s1, a, b) == Self::pos_addr(s0, a, b));
            if a == rr && st <= b < st + cnt {
                assert(addr <= Self::pos_addr(s0, a, b) < addr + cnt * 4096) by (nonlinear_arith)
                    requires
                        addr == s0.rbase(rr) + st * 4096,
                        Self::pos_addr(s0, a, b) == s0.rbase(a) + b * 4096,
                        a == rr,
                        st <= b < st + cnt,
                ;
                assert(s0.state_at(a, b) == FrameState::Free);
            } else {
                assert(s1.state_at(a, b) == s0.state_at(a, b));
                if addr <= Self::pos_addr(s0, a, b) < addr + cnt * 4096 {
                    // a distinct position cannot fall inside the window's span
                    assert(st + cnt <= s0.rlen(rr));
                    if a == rr {
                        assert(b < st || b >= st + cnt);
                        assert(!(addr <= s0.rbase(rr) + b * 4096 < addr + cnt * 4096))
                            by (nonlinear_arith)
                            requires
                                addr == s0.rbase(rr) + st * 4096,
                                b < st || b >= st + cnt,
                                0 <= b,
                        ;
                        assert(false);
                    } else {
                        let pa = Self::pos_addr(s0, a, b);
                        assert(s0.addr_in_region(a, pa as u64)) by (nonlinear_arith)
                            requires
                                0 <= b < s0.rlen(a),
                                pa == s0.rbase(a) + b * 4096,
                                s0.addr_in_region(a, pa as u64) == (s0.rbase(a) <= (pa as u64)
                                    && (pa as u64) < s0.rbase(a) + s0.rlen(a) * 4096),
                                0 <= pa <= u64::MAX,
                        ;
                        assert(s0.addr_in_region(rr, pa as u64)) by (nonlinear_arith)
                            requires
                                addr <= pa < addr + cnt * 4096,
                                addr == s0.rbase(rr) + st * 4096,
                                0 <= st,
                                st + cnt <= s0.rlen(rr),
                                s0.addr_in_region(rr, pa as u64) == (s0.rbase(rr) <= (pa as u64)
                                    && (pa as u64) < s0.rbase(rr) + s0.rlen(rr) * 4096),
                                0 <= pa <= u64::MAX,
                        ;
                        s0.lemma_location_unique(pa as u64, a, rr);
                        assert(false);
                    }
                }
            }
        }
    }

    /// Finds the region and local index of `addr`.
    fn find_frame_location(&self, addr: u64) -> (r: Option<RegionFrameIndex>)
        requires
            self.regions_wf(),
        ensures
            match r {
                Some(loc) => {
                    &&& self.valid_pos(loc.region_idx as int, loc.frame_idx as int)
                    &&& self.addr_in_region(loc.region_idx as int, addr)
                    &&& loc.frame_idx == (addr - self.rbase(loc.region_idx as int)) as int / 4096
                },
                None => forall|i: int|
                    0 <= i < self.n_regions() ==> !(#[trigger] self.addr_in_region(i, addr)),
            },
    {
        let mut ri: usize = 0;
        while ri < self.regions.len()
            invariant
                self.regions_wf(),
                ri <= self.n_regions(),
                forall|i: int| 0 <= i < ri ==> !(#[trigger] self.addr_in_region(i, addr)),
            decreases self.n_regions() - ri,
        {
            proof {
                assert(self.rbase(ri as int) + self.rlen(ri as int) * 4096 <= u64::MAX);
                assert(self.rlen(ri as int) <= 0x1000_0000);
            }
            match self.regions[ri].frame_index(addr) {
                Some(fi) => {
                    proof {
                        assert(self.addr_in_region(ri as int, addr));
                        assert((addr - self.rbase(ri as int)) / 4096 < self.rlen(ri as int))
                            by (nonlinear_arith)
                            requires
                                self.rbase(ri as int) <= addr < self.rbase(ri as int) + self.rlen(
                                    ri as int,
                                ) * 4096,
                        ;
                    }
                    return Some(RegionFrameIndex { region_idx: ri, frame_idx: fi });
                },
                None => {
                    proof {
                        assert(!self.addr_in_region(ri as int, addr));
                    }
                },
            }
            ri = ri + 1;
        }
        None
    }
}


/// An address aligned to a whole frame size is 4 KiB aligned.
proof fn lemma_aligned_to_4k(a: int, size: int)
    requires
        size >= 4096,
        size % 4096 == 0,
        a >= 0,
        a % size == 0,
    ensures
        a % 4096 == 0,
{
    let f = size / 4096;
    vstd::arithmetic::div_mod::lemma_fundamental_div_mod(size, 4096);
    vstd::arithmetic::div_mod::lemma_fundamental_div_mod(a, size);
    let q = a / size;
    assert(a == (f * q) * 4096) by (nonlinear_arith)
        requires
            a == size * q + a % size,
            a % size == 0,
            size == 4096 * f + size % 4096,
            size % 4096 == 0,
    ;
    vstd::arithmetic::div_mod::lemma_mod_multiples_basic(f * q, 4096);
}

/// The span of whole frames between two size-aligned addresses divides
/// exactly.
proof fn lemma_span_exact(start: int, end: int, size: int)
    requires
        size >= 1,
        start >= 0,
        start % size == 0,
        end % size == 0,
        start <= end,
    ensures
        ((end - start) / size) * size == end - start,
{
    let d = end - start;
    vstd::arithmetic::div_mod::lemma_fundamental_div_mod(start, size);
    vstd::arithmetic::div_mod::lemma_fundamental_div_mod(end, size);
    let qs = start / size;
    let qe = end / size;
    assert(d == size * (qe - qs)) by (nonlinear_arith)
        requires
            start == size * qs + start % size,
            end == size * qe + end % size,
            start % size == 0,
            end % size == 0,
            d == end - start,
    ;
    vstd::arithmetic::div_mod::lemma_mod_multiples_basic(qe - qs, size);
    assert((qe - qs) * size == size * (qe - qs)) by (nonlinear_arith);
    assert(d % size == 0);
    vstd::arithmetic::div_mod::lemma_fundamental_div_mod(d, size);
    assert((d / size) * size == size * (d / size)) by (nonlinear_arith);
}

/// What a frame-range allocation of `n` frames promises: well-formedness is
/// preserved; a returned range starts size-aligned at a window that was all
/// Free and is now Allocated; `None` means the aligned search space from the
/// cursor holds no such window and nothing changed.
pub open spec fn alloc_frames_post<S: crate::frames::PageSize>(
    s0: PhysicalMemoryManager,
    s1: PhysicalMemoryManager,
    n: int,
    r: Option<crate::frames::PhysFrameRangeInclusive<S>>,
) -> bool {
    &&& s1.wf()
    &&& r is None ==> s1 == s0 && !PhysicalMemoryManager::has_candidate(
        s0,
        S::spec_size(),
        n * PhysicalMemoryManager::spec_fpf(S::spec_size()),
    )
    &&& r is Some ==> (exists|rr: int, st: int|
        #![trigger PhysicalMemoryManager::alloc_marked(
            s0,
            s1,
            rr,
            st,
            n * PhysicalMemoryManager::spec_fpf(S::spec_size()),
        )]
        PhysicalMemoryManager::alloc_marked(
            s0,
            s1,
            rr,
            st,
            n * PhysicalMemoryManager::spec_fpf(S::spec_size()),
        ) && r->Some_0.start.start_address.0 == s0.rbase(rr) + st * 4096
            && r->Some_0.end.start_address.0 == s0.rbase(rr) + (st + (n - 1)
            * PhysicalMemoryManager::spec_fpf(S::spec_size())) * 4096
            && PhysicalMemoryManager::first_fit_at(
            s0,
            S::spec_size(),
            n * PhysicalMemoryManager::spec_fpf(S::spec_size()),
            rr,
            st,
        ))
    &&& r is Some ==> r->Some_0.start.start_address.0 as int % S::spec_size() as int == 0
}

/// What a single-frame allocation promises, in the same terms.
pub open spec fn alloc_frame_post<S: crate::frames::PageSize>(
    s0: PhysicalMemoryManager,
    s1: PhysicalMemoryManager,
    r: Option<crate::frames::PhysFrame<S>>,
) -> bool {
    &&& s1.wf()
    &&& r is None ==> s1 == s0 && !PhysicalMemoryManager::has_candidate(
        s0,
        S::spec_size(),
        PhysicalMemoryManager::spec_fpf(S::spec_size()),
    )
    &&& r is Some ==> (exists|rr: int, st: int|
        #![trigger PhysicalMemoryManager::alloc_marked(
            s0,
            s1,
            rr,
            st,
            PhysicalMemoryManager::spec_fpf(S::spec_size()),
        )]
        PhysicalMemoryManager::alloc_marked(
            s0,
            s1,
            rr,
            st,
            PhysicalMemoryManager::spec_fpf(S::spec_size()),
        ) && r->Some_0.start_address.0 == s0.rbase(rr) + st * 4096
            && PhysicalMemoryManager::first_fit_at(
            s0,
            S::spec_size(),
            PhysicalMemoryManager::spec_fpf(S::spec_size()),
            rr,
            st,
        ))
    &&& r is Some ==> r->Some_0.start_address.0 as int % S::spec_size() as int == 0
}

/// What a single-frame deallocation promises: on success the frame's 4 KiB
/// sub-frames, all previously Allocated, are exactly the frames now Free and
/// the cursor is relaxed to the first of them when earlier; on failure the
/// sub-frames before the first non-Allocated one stay freed and the result
/// reports the double free.
pub open spec fn dealloc_frame_post<S: crate::frames::PageSize>(
    s0: PhysicalMemoryManager,
    s1: PhysicalMemoryManager,
    frame: crate::frames::PhysFrame<S>,
    r: Option<crate::frames::PhysFrame<S>>,
) -> bool {
    let fpf = PhysicalMemoryManager::spec_fpf(S::spec_size());
    &&& s1.wf()
    &&& r is Some ==> r->Some_0 == frame && PhysicalMemoryManager::freed_prefix(
        s0,
        s1,
        frame.start_address.0,
        fpf,
    )
    &&& r is None ==> exists|j: int|
        #![trigger PhysicalMemoryManager::freed_prefix(s0, s1, frame.start_address.0, j)]
        0 <= j < fpf && PhysicalMemoryManager::freed_prefix(s0, s1, frame.start_address.0, j)
            && PhysicalMemoryManager::no_dealloc_target(
            s0,
            (frame.start_address.0 + j * 4096) as u64,
        )
}

/// What a frame-range deallocation promises, over the range's full 4 KiB
/// span. An inverted range frees nothing.
pub open spec fn dealloc_range_post<S: crate::frames::PageSize>(
    s0: PhysicalMemoryManager,
    s1: PhysicalMemoryManager,
    range: crate::frames::PhysFrameRangeInclusive<S>,
    r: Option<crate::frames::PhysFrameRangeInclusive<S>>,
) -> bool {
    let sa = range.start.start_address.0;
    let ea = range.end.start_address.0;
    let total = ((ea - sa) / S::spec_size() as int + 1) * PhysicalMemoryManager::spec_fpf(
        S::spec_size(),
    );
    &&& s1.wf()
    &&& sa > ea ==> r is None && s1 == s0
    &&& sa <= ea && r is Some ==> r->Some_0 == range && PhysicalMemoryManager::freed_prefix(
        s0,
        s1,
        sa,
        total,
    )
    &&& sa <= ea && r is None ==> exists|j: int|
        #![trigger PhysicalMemoryManager::freed_prefix(s0, s1, sa, j)]
        0 <= j < total && PhysicalMemoryManager::freed_prefix(s0, s1, sa, j)
            && PhysicalMemoryManager::no_dealloc_target(s0, (sa + j * 4096) as u64)
}

/// The allocator interface, offered at each of the three frame sizes.
pub trait PhysicalFrameAllocator<S: crate::frames::PageSize> where Self: Sized {
    /// The well-formedness that every operation requires and preserves.
    spec fn inv(&self) -> bool;

    /// Allocates `n` contiguous, size-aligned frames.
    fn allocate_frames(&mut self, n: usize) -> (r: Option<
        crate::frames::PhysFrameRangeInclusive<S>,
    >)
        requires
            old(self).inv(),
            1 <= n,
            n * (S::spec_size() as int / 4096) <= 0x1000_0000,
        ensures
            final(self).inv(),
    ;

    /// Allocates one size-aligned frame.
    fn allocate_frame(&mut self) -> (r: Option<crate::frames::PhysFrame<S>>)
        requires
            old(self).inv(),
        ensures
            final(self).inv(),
    ;

    /// Frees one frame; reports `None` on a double free.
    fn deallocate_frame(&mut self, frame: crate::frames::PhysFrame<S>) -> (r: Option<
        crate::frames::PhysFrame<S>,
    >)
        requires
            old(self).inv(),
            frame.start_address.0 as int % S::spec_size() as int == 0,
            frame.start_address.0 + S::spec_size() <= u64::MAX,
        ensures
            final(self).inv(),
    ;

    /// Frees every frame of an inclusive range, front to back.
    fn deallocate_frames(&mut self, range: crate::frames::PhysFrameRangeInclusive<S>) -> (r:
        Option<crate::frames::PhysFrameRangeInclusive<S>>)
        requires
            old(self).inv(),
            range.start.start_address.0 as int % S::spec_size() as int == 0,
            range.end.start_address.0 as int % S::spec_size() as int == 0,
            range.end.start_address.0 + S::spec_size() <= u64::MAX,
            ((range.end.start_address.0 - range.start.start_address.0) as int
                / S::spec_size() as int + 1) * (S::spec_size() as int / 4096) <= 0x1000_0000,
        ensures
            final(self).inv(),
    ;
}

impl PhysicalMemoryManager {
    /// Allocates one frame of size `S`: the first frame of an `n == 1` range
    /// allocation.
    pub fn allocate_one<S: crate::frames::PageSize>(&mut self) -> (r: Option<
        crate::frames::PhysFrame<S>,
    >)
        requires
            old(self).wf(),
        ensures
            alloc_frame_post::<S>(*old(self), *final(self), r),
    {
        proof {
            S::size_properties();
        }
        match self.allocate_frames_impl::<S>(1) {
            Some(range) => Some(range.start),
            None => None,
        }
    }

    /// Frees the frame of size `S` at `frame`, cascading through its 4 KiB
    /// sub-frames.
    pub fn deallocate_one<S: crate::frames::PageSize>(&mut self, frame: crate::frames::PhysFrame<
        S,
    >) -> (r: Option<crate::frames::PhysFrame<S>>)
        requires
            old(self).wf(),
            frame.start_address.0 as int % S::spec_size() as int == 0,
            frame.start_address.0 + S::spec_size() <= u64::MAX,
        ensures
            dealloc_frame_post::<S>(*old(self), *final(self), frame, r),
    {
        proof {
            S::size_properties();
            lemma_aligned_to_4k(frame.start_address.0 as int, S::spec_size() as int);
        }
        let size = S::size();
        let fpf = (size / 4096) as usize;
        proof {
            assert(fpf * 4096 == S::spec_size());
            assert(1 <= fpf <= 0x100000);
        }
        if self.dealloc_many(frame.addr(), fpf) {
            Some(frame)
        } else {
            None
        }
    }

    /// Frees every frame of the inclusive range, front to back.
    pub fn deallocate_range<S: crate::frames::PageSize>(
        &mut self,
        range: crate::frames::PhysFrameRangeInclusive<S>,
    ) -> (r: Option<crate::frames::PhysFrameRangeInclusive<S>>)
        requires
            old(self).wf(),
            range.start.start_address.0 as int % S::spec_size() as int == 0,
            range.end.start_address.0 as int % S::spec_size() as int == 0,
            range.end.start_address.0 + S::spec_size() <= u64::MAX,
            ((range.end.start_address.0 - range.start.start_address.0) as int
                / S::spec_size() as int + 1) * (S::spec_size() as int / 4096) <= 0x1000_0000,
        ensures
            dealloc_range_post::<S>(*old(self), *final(self), range, r),
    {
        proof {
            S::size_properties();
        }
        let sa = range.start.addr();
        let ea = range.end.addr();
        if sa > ea {
            return None;
        }
        proof {
            lemma_aligned_to_4k(sa as int, S::spec_size() as int);
            lemma_span_exact(sa as int, ea as int, S::spec_size() as int);
        }
        let size = S::size();
        let fpf = (size / 4096) as u64;
        let nf = (ea - sa) / size + 1;
        let ghost gtotal = ((ea - sa) as int / S::spec_size() as int + 1)
            * PhysicalMemoryManager::spec_fpf(S::spec_size());
        proof {
            assert(nf * fpf == gtotal) by (nonlinear_arith)
                requires
                    nf == (ea - sa) as int / S::spec_size() as int + 1,
                    fpf == S::spec_size() as int / 4096,
                    gtotal == ((ea - sa) as int / S::spec_size() as int + 1) * (
                    S::spec_size() as int / 4096),
                    0 <= nf,
                    0 <= fpf,
            ;
            assert(1 <= gtotal) by (nonlinear_arith)
                requires
                    gtotal == nf * fpf,
                    nf >= 1,
                    fpf >= 1,
            ;
            assert(gtotal * 4096 == (ea - sa) + S::spec_size()) by (nonlinear_arith)
                requires
                    gtotal == (((ea - sa) as int / S::spec_size() as int) + 1) * (
                    S::spec_size() as int / 4096),
                    ((ea - sa) as int / S::spec_size() as int) * S::spec_size() as int == (ea
                        - sa) as int,
                    S::spec_size() as int == (S::spec_size() as int / 4096) * 4096,
                    S::spec_size() >= 4096,
                    ea >= sa,
            ;
            assert(S::spec_size() as int == (S::spec_size() as int / 4096) * 4096)
                by (nonlinear_arith)
                requires
                    S::spec_size() % 4096 == 0,
                    S::spec_size() >= 4096,
            ;
        }
        let total = nf * fpf;
        if self.dealloc_many(sa, total as usize) {
            Some(range)
        } else {
            None
        }
    }
}

impl PhysicalFrameAllocator<crate::frames::Size4KiB> for PhysicalMemoryManager {
    open spec fn inv(&self) -> bool {
        self.wf()
    }

    fn allocate_frames(&mut self, n: usize) -> (r: Option<
        crate::frames::PhysFrameRangeInclusive<crate::frames::Size4KiB>,
    >)
        ensures
            alloc_frames_post::<crate::frames::Size4KiB>(*old(self), *final(self), n as int, r),
    {
        self.allocate_frames_impl(n)
    }

    fn allocate_frame(&mut self) -> (r: Option<crate::frames::PhysFrame<crate::frames::Size4KiB>>)
        ensures
            alloc_frame_post::<crate::frames::Size4KiB>(*old(self), *final(self), r),
    {
        self.allocate_one()
    }

    fn deallocate_frame(&mut self, frame: crate::frames::PhysFrame<crate::frames::Size4KiB>) -> (r:
        Option<crate::frames::PhysFrame<crate::frames::Size4KiB>>)
        ensures
            dealloc_frame_post::<crate::frames::Size4KiB>(*old(self), *final(self), frame, r),
    {
        self.deallocate_one(frame)
    }

    fn deallocate_frames(
        &mut self,
        range: crate::frames::PhysFrameRangeInclusive<crate::frames::Size4KiB>,
    ) -> (r: Option<crate::frames::PhysFrameRangeInclusive<crate::frames::Size4KiB>>)
        ensures
            dealloc_range_post::<crate::frames::Size4KiB>(*old(self), *final(self), range, r),
    {
        self.deallocate_range(range)
    }
}

impl PhysicalFrameAllocator<crate::frames::Size2MiB> for PhysicalMemoryManager {
    open spec fn inv(&self) -> bool {
        self.wf()
    }

    fn allocate_frames(&mut self, n: usize) -> (r: Option<
        crate::frames::PhysFrameRangeInclusive<crate::frames::Size2MiB>,
    >)
        ensures
            alloc_frames_post::<crate::frames::Size2MiB>(*old(self), *final(self), n as int, r),
    {
        self.allocate_frames_impl(n)
    }

    fn allocate_frame(&mut self) -> (r: Option<crate::frames::PhysFrame<crate::frames::Size2MiB>>)
        ensures
            alloc_frame_post::<crate::frames::Size2MiB>(*old(self), *final(self), r),
    {
        self.allocate_one()
    }

    fn deallocate_frame(&mut self, frame: crate::frames::PhysFrame<crate::frames::Size2MiB>) -> (r:
        Option<crate::frames::PhysFrame<crate::frames::Size2MiB>>)
        ensures
            dealloc_frame_post::<crate::frames::Size2MiB>(*old(self), *final(self), frame, r),
    {
        self.deallocate_one(frame)
    }

    fn deallocate_frames(
        &mut self,
        range: crate::frames::PhysFrameRangeInclusive<crate::frames::Size2MiB>,
    ) -> (r: Option<crate::frames::PhysFrameRangeInclusive<crate::frames::Size2MiB>>)
        ensures
            dealloc_range_post::<crate::frames::Size2MiB>(*old(self), *final(self), range, r),
    {
        self.deallocate_range(range)
    }
}

impl PhysicalFrameAllocator<crate::frames::Size1GiB> for PhysicalMemoryManager {
    open spec fn inv(&self) -> bool {
        self.wf()
    }

    fn allocate_frames(&mut self, n: usize) -> (r: Option<
        crate::frames::PhysFrameRangeInclusive<crate::frames::Size1GiB>,
    >)
        ensures
            alloc_frames_post::<crate::frames::Size1GiB>(*old(self), *final(self), n as int, r),
    {
        self.allocate_frames_impl(n)
    }

    fn allocate_frame(&mut self) -> (r: Option<crate::frames::PhysFrame<crate::frames::Size1GiB>>)
        ensures
            alloc_frame_post::<crate::frames::Size1GiB>(*old(self), *final(self), r),
    {
        self.allocate_one()
    }

    fn deallocate_frame(&mut self, frame: crate::frames::PhysFrame<crate::frames::Size1GiB>) -> (r:
        Option<crate::frames::PhysFrame<crate::frames::Size1GiB>>)
        ensures
            dealloc_frame_post::<crate::frames::Size1GiB>(*old(self), *final(self), frame, r),
    {
        self.deallocate_one(frame)
    }

    fn deallocate_frames(
        &mut self,
        range: crate::frames::PhysFrameRangeInclusive<crate::frames::Size1GiB>,
    ) -> (r: Option<crate::frames::PhysFrameRangeInclusive<crate::frames::Size1GiB>>)
        ensures
            dealloc_range_post::<crate::frames::Size1GiB>(*old(self), *final(self), range, r),
    {
        self.deallocate_range(range)
    }
}

} // verus!

