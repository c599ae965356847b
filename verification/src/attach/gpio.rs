//! GPIO edge attach points: kernel response to hardware lines such as limit
//! switches and emergency-stop buttons.

use vstd::prelude::*;
use crate::attach::{AttachError, AttachId, AttachRegistry, AttachResult, AttachType};

verus! {

/// The edge selector of a GPIO attachment.
#[derive(Debug, Clone, Copy, PartialEq, Eq, Structural)]
pub enum GpioEdge {
    Rising,
    Falling,
    Both,
}

impl GpioEdge {
    /// Decodes the edge from the low bits of a flags word: 1 is rising, 2
    /// is falling, anything else is both.
    pub fn from_flags(flags: u32) -> (r: GpioEdge)
        ensures
            flags & 0x3 == 1 ==> r == GpioEdge::Rising,
            flags & 0x3 == 2 ==> r == GpioEdge::Falling,
            flags & 0x3 != 1 && flags & 0x3 != 2 ==> r == GpioEdge::Both,
    {
        let low = flags & 0x3;
        if low == 1 {
            GpioEdge::Rising
        } else if low == 2 {
            GpioEdge::Falling
        } else {
            GpioEdge::Both
        }
    }
}

/// The event payload a GPIO edge delivers to programs.
#[derive(Debug, Clone, Copy, PartialEq, Eq, Structural)]
pub struct GpioEvent {
    pub timestamp: u64,
    pub chip_id: u32,
    pub line: u32,
    pub edge: u32,
    pub value: u32,
}

impl GpioEvent {
    /// Whether the trigger was a rising edge.
    pub fn is_rising(&self) -> (r: bool)
        ensures
            r == (self.edge == 1),
    {
        self.edge == 1
    }

    /// Whether the trigger was a falling edge.
    pub fn is_falling(&self) -> (r: bool)
        ensures
            r == (self.edge == 2),
    {
        self.edge == 2
    }

    /// The line value as a boolean.
    pub fn value_bool(&self) -> (r: bool)
        ensures
            r == (self.value != 0),
    {
        self.value != 0
    }
}

/// A GPIO edge attach point.
pub struct GpioAttach {
    chip: String,
    line: u32,
    edge: GpioEdge,
    registry: AttachRegistry,
}

impl GpioAttach {
    /// The chip name.
    pub closed spec fn spec_chip(&self) -> Seq<char> {
        self.chip@
    }

    /// The line number.
    pub closed spec fn spec_line(&self) -> u32 {
        self.line
    }

    /// The edge selector.
    pub closed spec fn spec_edge(&self) -> GpioEdge {
        self.edge
    }

    /// The attachment registry.
    pub closed spec fn spec_registry(&self) -> &AttachRegistry {
        &self.registry
    }

    /// Creates an attach point; the chip name must be non-empty.
    pub fn new(chip: &str, line: u32, edge: GpioEdge) -> (r: AttachResult<GpioAttach>)
        ensures
            chip@.len() == 0 <==> r is Err,
            r is Err ==> r->Err_0 is InvalidTarget && r->Err_0->InvalidTarget_0@ == chip@,
            r is Ok ==> r->Ok_0.spec_chip() == chip@ && r->Ok_0.spec_line() == line
                && r->Ok_0.spec_edge() == edge && r->Ok_0.spec_registry().spec_ids().len() == 0 && r->Ok_0
                .spec_registry().spec_next() == 1 && r->Ok_0.spec_registry().wf(),
    {
        if chip.is_empty() {
            return Err(AttachError::InvalidTarget(String::from_str(chip)));
        }
        Ok(
            GpioAttach {
                chip: String::from_str(chip),
                line,
                edge,
                registry: AttachRegistry::new(),
            },
        )
    }

    /// The chip name.
    pub fn chip(&self) -> (r: &str)
        ensures
            r@ == self.spec_chip(),
    {
        self.chip.as_str()
    }

    /// The line number.
    pub fn line(&self) -> (r: u32)
        ensures
            r == self.spec_line(),
    {
        self.line
    }

    /// The edge selector.
    pub fn edge(&self) -> (r: GpioEdge)
        ensures
            r == self.spec_edge(),
    {
        self.edge
    }

    /// This attach point's kind.
    pub fn attach_type(&self) -> (r: AttachType)
        ensures
            r == AttachType::GpioEvent,
    {
        AttachType::GpioEvent
    }

    /// The target description.
    pub fn target(&self) -> (r: &str)
        ensures
            r@ == self.spec_chip(),
    {
        self.chip.as_str()
    }

    /// Attaches a program and returns the fresh attachment id.
    pub fn attach(&mut self, _program: &crate::bytecode::BpfProgram) -> (r: AttachResult<AttachId>)
        requires
            old(self).spec_registry().wf(),
            old(self).spec_registry().spec_next() < u32::MAX,
        ensures
            final(self).spec_registry().wf(),
            r is Ok,
            r->Ok_0.0 == old(self).spec_registry().spec_next(),
            final(self).spec_registry().spec_ids() == old(self).spec_registry().spec_ids().push(
                r->Ok_0,
            ),
            final(self).spec_registry().spec_next() == old(self).spec_registry().spec_next() + 1,
            final(self).spec_chip() == old(self).spec_chip(),
            final(self).spec_line() == old(self).spec_line(),
            final(self).spec_edge() == old(self).spec_edge(),
    {
        Ok(self.registry.attach())
    }

    /// Detaches an id; reports resource-not-found when it is not attached.
    pub fn detach(&mut self, id: AttachId) -> (r: AttachResult<()>)
        requires
            old(self).spec_registry().wf(),
        ensures
            final(self).spec_registry().wf(),
            final(self).spec_registry().spec_next() == old(self).spec_registry().spec_next(),
            match AttachRegistry::spec_find(old(self).spec_registry().spec_ids(), id, 0) {
                Some(i) => r == Ok::<(), AttachError>(()) && final(self).spec_registry().spec_ids()
                    == old(self).spec_registry().spec_ids().remove(i),
                None => r == Err::<(), AttachError>(AttachError::ResourceNotFound)
                    && final(self).spec_registry().spec_ids() == old(
                    self,
                ).spec_registry().spec_ids(),
            },
            final(self).spec_chip() == old(self).spec_chip(),
            final(self).spec_line() == old(self).spec_line(),
            final(self).spec_edge() == old(self).spec_edge(),
    {
        self.registry.detach(id)
    }

    /// Whether `id` is attached.
    pub fn is_attached(&self, id: AttachId) -> (r: bool)
        ensures
            r == self.spec_registry().spec_ids().contains(id),
    {
        self.registry.is_attached(id)
    }

    /// The attached ids, in attach order.
    pub fn attached_ids(&self) -> (r: Vec<AttachId>)
        ensures
            r@ == self.spec_registry().spec_ids(),
    {
        self.registry.attached_ids()
    }

}

} // verus!
