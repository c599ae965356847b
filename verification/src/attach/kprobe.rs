//! Kernel probes: programs attached to kernel function entry or return.

use vstd::prelude::*;
use crate::attach::{AttachError, AttachId, AttachRegistry, AttachResult, AttachType};

verus! {

/// Whether the probe fires on function entry or return.
#[derive(Debug, Clone, Copy, PartialEq, Eq, Structural)]
pub enum KprobeType {
    Entry,
    Return,
}

/// A kernel probe attach point.
pub struct KprobeAttach {
    function: String,
    probe_kind: KprobeType,
    registry: AttachRegistry,
}

impl KprobeAttach {
    /// The probed function name.
    pub closed spec fn spec_function(&self) -> Seq<char> {
        self.function@
    }

    /// The probe kind.
    pub closed spec fn spec_probe_type(&self) -> KprobeType {
        self.probe_kind
    }

    /// The attachment registry.
    pub closed spec fn spec_registry(&self) -> &AttachRegistry {
        &self.registry
    }

    /// Creates a probe; the function name must be non-empty.
    pub fn new(function: &str, probe_type: KprobeType) -> (r: AttachResult<KprobeAttach>)
        ensures
            function@.len() == 0 <==> r is Err,
            r is Err ==> r->Err_0 is InvalidTarget && r->Err_0->InvalidTarget_0@ == function@,
            r is Ok ==> r->Ok_0.spec_function() == function@ && r->Ok_0.spec_probe_type() == probe_type
                && r->Ok_0.spec_registry().spec_ids().len() == 0 && r->Ok_0
                .spec_registry().spec_next() == 1 && r->Ok_0.spec_registry().wf(),
    {
        if function.is_empty() {
            return Err(AttachError::InvalidTarget(String::from_str(function)));
        }
        Ok(
            KprobeAttach {
                function: String::from_str(function),
                probe_kind: probe_type,
                registry: AttachRegistry::new(),
            },
        )
    }

    /// The probed function name.
    pub fn function(&self) -> (r: &str)
        ensures
            r@ == self.spec_function(),
    {
        self.function.as_str()
    }

    /// The probe kind.
    pub fn probe_type(&self) -> (r: KprobeType)
        ensures
            r == self.spec_probe_type(),
    {
        self.probe_kind
    }

    /// This attach point's kind: a kprobe fires on entry, a kretprobe on
    /// return.
    pub fn attach_type(&self) -> (r: AttachType)
        ensures
            self.spec_probe_type() == KprobeType::Entry ==> r == AttachType::Kprobe,
            self.spec_probe_type() == KprobeType::Return ==> r == AttachType::Kretprobe,
    {
        match self.probe_kind {
            KprobeType::Entry => AttachType::Kprobe,
            KprobeType::Return => AttachType::Kretprobe,
        }
    }

    /// The target description.
    pub fn target(&self) -> (r: &str)
        ensures
            r@ == self.spec_function(),
    {
        self.function.as_str()
    }

    /// Attaches a program and returns the fresh attachment id.
    pub fn attach(&mut self, _program: &crate::bytecode::BpfProgram) -> (r: AttachResult<AttachId>)
        requires
            old(self).spec_registry().wf(),
            old(self).spec_registry().spec_next() < u32::MAX,
        ensures
            final(self).spec_registry().wf(),
            r is Ok,
            r->Ok_0.0 == old(self).spec_registry().spec_next(),
            final(self).spec_registry().spec_ids() == old(self).spec_registry().spec_ids().push(
                r->Ok_0,
            ),
            final(self).spec_registry().spec_next() == old(self).spec_registry().spec_next() + 1,
            final(self).spec_function() == old(self).spec_function(),
            final(self).spec_probe_type() == old(self).spec_probe_type(),
    {
        Ok(self.registry.attach())
    }

    /// Detaches an id; reports resource-not-found when it is not attached.
    pub fn detach(&mut self, id: AttachId) -> (r: AttachResult<()>)
        requires
            old(self).spec_registry().wf(),
        ensures
            final(self).spec_registry().wf(),
            final(self).spec_registry().spec_next() == old(self).spec_registry().spec_next(),
            match AttachRegistry::spec_find(old(self).spec_registry().spec_ids(), id, 0) {
                Some(i) => r == Ok::<(), AttachError>(()) && final(self).spec_registry().spec_ids()
                    == old(self).spec_registry().spec_ids().remove(i),
                None => r == Err::<(), AttachError>(AttachError::ResourceNotFound)
                    && final(self).spec_registry().spec_ids() == old(
                    self,
                ).spec_registry().spec_ids(),
            },
            final(self).spec_function() == old(self).spec_function(),
            final(self).spec_probe_type() == old(self).spec_probe_type(),
    {
        self.registry.detach(id)
    }

    /// Whether `id` is attached.
    pub fn is_attached(&self, id: AttachId) -> (r: bool)
        ensures
            r == self.spec_registry().spec_ids().contains(id),
    {
        self.registry.is_attached(id)
    }

    /// The attached ids, in attach order.
    pub fn attached_ids(&self) -> (r: Vec<AttachId>)
        ensures
            r@ == self.spec_registry().spec_ids(),
    {
        self.registry.attached_ids()
    }

}

} // verus!
