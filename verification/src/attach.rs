//! Attach points: bindings between programs and event sources, each with a
//! list of attached ids and a monotonic id counter.

use vstd::prelude::*;

pub mod gpio;
pub mod iio;
pub mod kprobe;
pub mod pwm;
pub mod tracepoint;

verus! {

/// A per-attach-point attachment id.
#[derive(Debug, Clone, Copy, PartialEq, Eq, Structural)]
pub struct AttachId(pub u32);

/// The kinds of attach points.
#[derive(Debug, Clone, Copy, PartialEq, Eq, Structural)]
pub enum AttachType {
    Kprobe,
    Kretprobe,
    Tracepoint,
    GpioEvent,
    IioSensor,
    PwmObserve,
}

/// Errors of the attach registry.
#[derive(Debug, Clone, PartialEq, Eq)]
pub enum AttachError {
    /// The target description is invalid (an empty name).
    InvalidTarget(String),
    /// No such attachment.
    ResourceNotFound,
}

/// Result type for attach operations.
pub type AttachResult<T> = Result<T, AttachError>;

/// The attachment state every attach point carries: the attached ids and
/// the next id to hand out. Ids are handed out strictly increasing, so no
/// id is ever attached twice.
pub struct AttachRegistry {
    attached: Vec<AttachId>,
    next_id: u32,
}

impl AttachRegistry {
    /// The attached ids, in attach order.
    pub closed spec fn spec_ids(&self) -> Seq<AttachId> {
        self.attached@
    }

    /// The next id to hand out.
    pub closed spec fn spec_next(&self) -> u32 {
        self.next_id
    }

    /// Every attached id is below the next id to hand out.
    pub open spec fn wf(&self) -> bool {
        forall|i: int|
            0 <= i < self.spec_ids().len() ==> (#[trigger] self.spec_ids()[i]).0 < self.spec_next()
    }

    /// An empty registry; the first id handed out is 1.
    pub fn new() -> (r: Self)
        ensures
            r.spec_ids().len() == 0,
            r.spec_next() == 1,
            r.wf(),
    {
        AttachRegistry { attached: Vec::new(), next_id: 1 }
    }

    /// Attaches: pushes and returns the fresh id and advances the counter.
    /// The same program may be attached any number of times; each
    /// attachment gets its own id.
    pub fn attach(&mut self) -> (id: AttachId)
        requires
            old(self).wf(),
            old(self).spec_next() < u32::MAX,
        ensures
            final(self).wf(),
            id.0 == old(self).spec_next(),
            final(self).spec_ids() == old(self).spec_ids().push(id),
            final(self).spec_next() == old(self).spec_next() + 1,
    {
        let id = AttachId(self.next_id);
        self.next_id = self.next_id + 1;
        self.attached.push(id);
        proof {
            assert forall|i: int| 0 <= i < self.spec_ids().len() implies (
            #[trigger] self.spec_ids()[i]).0 < self.spec_next() by {
                if i < old(self).spec_ids().len() {
                    assert(old(self).spec_ids()[i].0 < old(self).spec_next());
                }
            }
        }
        id
    }

    /// The first index holding `id`, when present.
    pub open spec fn spec_find(ids: Seq<AttachId>, id: AttachId, i: int) -> Option<int>
        decreases ids.len() - i,
    {
        if i < 0 || i >= ids.len() {
            None
        } else if ids[i] == id {
            Some(i)
        } else {
            Self::spec_find(ids, id, i + 1)
        }
    }

    /// Detaches: removes the first occurrence of `id`, or reports
    /// resource-not-found, with nothing changed, when it is not attached.
    pub fn detach(&mut self, id: AttachId) -> (r: AttachResult<()>)
        requires
            old(self).wf(),
        ensures
            final(self).wf(),
            final(self).spec_next() == old(self).spec_next(),
            match Self::spec_find(old(self).spec_ids(), id, 0) {
                Some(i) => r == Ok::<(), AttachError>(()) && final(self).spec_ids() == old(
                    self,
                ).spec_ids().remove(i),
                None => r == Err::<(), AttachError>(AttachError::ResourceNotFound) && *final(self)
                    == *old(self),
            },
    {
        let n = self.attached.len();
        let mut i: usize = 0;
        while i < n
            invariant
                i <= n,
                n == self.spec_ids().len(),
                *self == *old(self),
                self.wf(),
                Self::spec_find(self.spec_ids(), id, 0) == Self::spec_find(
                    self.spec_ids(),
                    id,
                    i as int,
                ),
            decreases n - i,
        {
            if self.attached[i].0 == id.0 {
                let ghost pre = self.spec_ids();
                let ghost nxt = self.spec_next();
                proof {
                    assert(forall|k: int|
                        0 <= k < pre.len() ==> (#[trigger] pre[k]).0 < nxt);
                }
                self.attached.remove(i);
                proof {
                    assert forall|j: int| 0 <= j < self.spec_ids().len() implies (
                    #[trigger] self.spec_ids()[j]).0 < self.spec_next() by {
                        if j < i {
                            assert(self.spec_ids()[j] == pre[j]);
                        } else {
                            assert(self.spec_ids()[j] == pre[j + 1]);
                        }
                    }
                }
                return Ok(());
            }
            i = i + 1;
        }
        Err(AttachError::ResourceNotFound)
    }

    /// Whether `id` is attached.
    pub fn is_attached(&self, id: AttachId) -> (r: bool)
        ensures
            r == self.spec_ids().contains(id),
    {
        let n = self.attached.len();
        let mut i: usize = 0;
        while i < n
            invariant
                i <= n,
                n == self.spec_ids().len(),
                forall|j: int| 0 <= j < i ==> self.spec_ids()[j] != id,
            decreases n - i,
        {
            if self.attached[i].0 == id.0 {
                proof {
                    assert(self.spec_ids()[i as int] == id);
                }
                return true;
            }
            i = i + 1;
        }
        proof {
            // a contained id would have an index, against the loop's sweep
            if self.spec_ids().contains(id) {
                let j = choose|j: int|
                    0 <= j < self.spec_ids().len() && self.spec_ids()[j] == id;
                assert(self.spec_ids()[j] == id);
            }
        }
        false
    }

    /// The attached ids, in attach order.
    pub fn attached_ids(&self) -> (r: Vec<AttachId>)
        ensures
            r@ == self.spec_ids(),
    {
        let n = self.attached.len();
        let mut out: Vec<AttachId> = Vec::new();
        let mut i: usize = 0;
        while i < n
            invariant
                i <= n,
                n == self.spec_ids().len(),
                out@ == self.spec_ids().subrange(0, i as int),
            decreases n - i,
        {
            out.push(self.attached[i]);
            proof {
                assert(out@ =~= self.spec_ids().subrange(0, i as int + 1));
            }
            i = i + 1;
        }
        proof {
            assert(out@ =~= self.spec_ids());
        }
        out
    }

    /// A fresh id is never among the already-attached ids.
    proof fn lemma_fresh_not_found(ids: Seq<AttachId>, id: AttachId, next: u32, i: int)
        requires
            id.0 >= next,
            forall|j: int| 0 <= j < ids.len() ==> (#[trigger] ids[j]).0 < next,
            0 <= i <= ids.len(),
        ensures
            Self::spec_find(ids.push(id), id, i) == Some(ids.len() as int),
        decreases ids.len() - i,
    {
        let p = ids.push(id);
        if i < ids.len() {
            assert(p[i] == ids[i]);
            assert(ids[i].0 < next);
            Self::lemma_fresh_not_found(ids, id, next, i + 1);
        } else {
            assert(p[i] == id);
        }
    }

    /// Law: attaching and then detaching the id just handed out leaves the
    /// attached list exactly as it was, and a second detach of that id
    /// reports resource-not-found.
    pub proof fn lemma_attach_detach_round_trip(s0: Self, s1: Self, s2: Self, id: AttachId)
        requires
            s0.wf(),
            // the attach step
            id.0 == s0.spec_next(),
            s1.spec_ids() == s0.spec_ids().push(id),
            s1.spec_next() == s0.spec_next() + 1,
            // the detach step
            s2.spec_next() == s1.spec_next(),
            match Self::spec_find(s1.spec_ids(), id, 0) {
                Some(i) => s2.spec_ids() == s1.spec_ids().remove(i),
                None => s2.spec_ids() == s1.spec_ids(),
            },
        ensures
            s2.spec_ids() == s0.spec_ids(),
            Self::spec_find(s2.spec_ids(), id, 0) is None,
    {
        Self::lemma_fresh_not_found(s0.spec_ids(), id, s0.spec_next(), 0);
        assert(Self::spec_find(s1.spec_ids(), id, 0) == Some(s0.spec_ids().len() as int));
        assert(s2.spec_ids() =~= s0.spec_ids());
        Self::lemma_find_absent(s0.spec_ids(), id, s0.spec_next(), 0);
    }

    /// An id at or above the counter is found nowhere.
    proof fn lemma_find_absent(ids: Seq<AttachId>, id: AttachId, next: u32, i: int)
        requires
            id.0 >= next,
            forall|j: int| 0 <= j < ids.len() ==> (#[trigger] ids[j]).0 < next,
            0 <= i,
        ensures
            Self::spec_find(ids, id, i) is None,
        decreases ids.len() - i,
    {
        if i < ids.len() {
            assert(ids[i].0 < next);
            Self::lemma_find_absent(ids, id, next, i + 1);
        }
    }
}

} // verus!
