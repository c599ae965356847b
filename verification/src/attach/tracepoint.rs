//! Static kernel tracepoints, named by category and name.

use vstd::prelude::*;
use crate::attach::{AttachError, AttachId, AttachRegistry, AttachResult, AttachType};

verus! {

/// A tracepoint attach point.
pub struct TracepointAttach {
    category: String,
    name: String,
    registry: AttachRegistry,
}

impl TracepointAttach {
    /// The tracepoint category.
    pub closed spec fn spec_category(&self) -> Seq<char> {
        self.category@
    }

    /// The tracepoint name.
    pub closed spec fn spec_name(&self) -> Seq<char> {
        self.name@
    }

    /// The attachment registry.
    pub closed spec fn spec_registry(&self) -> &AttachRegistry {
        &self.registry
    }

    /// Creates a tracepoint attach point; category and name must both be
    /// non-empty.
    pub fn new(category: &str, name: &str) -> (r: AttachResult<TracepointAttach>)
        ensures
            (category@.len() == 0 || name@.len() == 0) <==> r is Err,
            r is Err ==> r->Err_0 is InvalidTarget && r->Err_0->InvalidTarget_0@ == category@
                + ":"@ + name@,
            r is Ok ==> r->Ok_0.spec_category() == category@ && r->Ok_0.spec_name() == name@
                && r->Ok_0.spec_registry().spec_ids().len() == 0 && r->Ok_0
                .spec_registry().spec_next() == 1 && r->Ok_0.spec_registry().wf(),
    {
        if category.is_empty() || name.is_empty() {
            let mut t = String::from_str(category);
            t.append(":");
            t.append(name);
            return Err(AttachError::InvalidTarget(t));
        }
        Ok(
            TracepointAttach {
                category: String::from_str(category),
                name: String::from_str(name),
                registry: AttachRegistry::new(),
            },
        )
    }

    /// The category.
    pub fn category(&self) -> (r: &str)
        ensures
            r@ == self.spec_category(),
    {
        self.category.as_str()
    }

    /// The tracepoint name.
    pub fn name(&self) -> (r: &str)
        ensures
            r@ == self.spec_name(),
    {
        self.name.as_str()
    }

    /// This attach point's kind.
    pub fn attach_type(&self) -> (r: AttachType)
        ensures
            r == AttachType::Tracepoint,
    {
        AttachType::Tracepoint
    }

    /// The target description.
    pub fn target(&self) -> (r: &str)
        ensures
            r@ == self.spec_name(),
    {
        self.name.as_str()
    }

    /// Attaches a program and returns the fresh attachment id.
    pub fn attach(&mut self, _program: &crate::bytecode::BpfProgram) -> (r: AttachResult<AttachId>)
        requires
            old(self).spec_registry().wf(),
            old(self).spec_registry().spec_next() < u32::MAX,
        ensures
            final(self).spec_registry().wf(),
            r is Ok,
            r->Ok_0.0 == old(self).spec_registry().spec_next(),
            final(self).spec_registry().spec_ids() == old(self).spec_registry().spec_ids().push(
                r->Ok_0,
            ),
            final(self).spec_registry().spec_next() == old(self).spec_registry().spec_next() + 1,
            final(self).spec_category() == old(self).spec_category(),
            final(self).spec_name() == old(self).spec_name(),
    {
        Ok(self.registry.attach())
    }

    /// Detaches an id; reports resource-not-found when it is not attached.
    pub fn detach(&mut self, id: AttachId) -> (r: AttachResult<()>)
        requires
            old(self).spec_registry().wf(),
        ensures
            final(self).spec_registry().wf(),
            final(self).spec_registry().spec_next() == old(self).spec_registry().spec_next(),
            match AttachRegistry::spec_find(old(self).spec_registry().spec_ids(), id, 0) {
                Some(i) => r == Ok::<(), AttachError>(()) && final(self).spec_registry().spec_ids()
                    == old(self).spec_registry().spec_ids().remove(i),
                None => r == Err::<(), AttachError>(AttachError::ResourceNotFound)
                    && final(self).spec_registry().spec_ids() == old(
                    self,
                ).spec_registry().spec_ids(),
            },
            final(self).spec_category() == old(self).spec_category(),
            final(self).spec_name() == old(self).spec_name(),
    {
        self.registry.detach(id)
    }

    /// Whether `id` is attached.
    pub fn is_attached(&self, id: AttachId) -> (r: bool)
        ensures
            r == self.spec_registry().spec_ids().contains(id),
    {
        self.registry.is_attached(id)
    }

    /// The attached ids, in attach order.
    pub fn attached_ids(&self) -> (r: Vec<AttachId>)
        ensures
            r@ == self.spec_registry().spec_ids(),
    {
        self.registry.attached_ids()
    }

}

} // verus!
