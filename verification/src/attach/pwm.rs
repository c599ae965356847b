//! PWM observation: programs attached to motor-control state changes.

use vstd::prelude::*;
use crate::attach::{AttachError, AttachId, AttachRegistry, AttachResult, AttachType};

verus! {

/// The event payload a PWM state change delivers to programs. Periods and
/// duties are in nanoseconds; the derived observables duty-percent and
/// frequency are computed by the consumer, both zero when the period is
/// zero.
#[derive(Debug, Clone, Copy, PartialEq, Eq, Structural)]
pub struct PwmEvent {
    pub timestamp: u64,
    pub chip_id: u32,
    pub channel: u32,
    pub period_ns: u32,
    pub duty_ns: u32,
    pub polarity: u32,
    pub enabled: u32,
}

impl PwmEvent {
    /// The duty cycle scaled to hundredths of a percent: (duty / period) x
    /// 10000, or zero when the period is zero.
    pub fn duty_permyriad(&self) -> (r: u64)
        ensures
            self.period_ns == 0 ==> r == 0,
            self.period_ns != 0 ==> r == self.duty_ns * 10000int / self.period_ns as int,
    {
        if self.period_ns == 0 {
            0
        } else {
            (self.duty_ns as u64) * 10000 / (self.period_ns as u64)
        }
    }

    /// The frequency in hertz: ten to the ninth over the period, or zero
    /// when the period is zero.
    pub fn frequency_hz(&self) -> (r: u64)
        ensures
            self.period_ns == 0 ==> r == 0,
            self.period_ns != 0 ==> r == 1000000000int / self.period_ns as int,
    {
        if self.period_ns == 0 {
            0
        } else {
            1000000000 / (self.period_ns as u64)
        }
    }

    /// Whether the channel is enabled.
    pub fn is_enabled(&self) -> (r: bool)
        ensures
            r == (self.enabled != 0),
    {
        self.enabled != 0
    }

    /// Whether the polarity is inverted.
    pub fn is_inverted(&self) -> (r: bool)
        ensures
            r == (self.polarity != 0),
    {
        self.polarity != 0
    }
}

/// A PWM observation attach point.
pub struct PwmAttach {
    chip: String,
    channel: u32,
    registry: AttachRegistry,
}

impl PwmAttach {
    /// The chip name.
    pub closed spec fn spec_chip(&self) -> Seq<char> {
        self.chip@
    }

    /// The channel number.
    pub closed spec fn spec_pwm_channel(&self) -> u32 {
        self.channel
    }

    /// The attachment registry.
    pub closed spec fn spec_registry(&self) -> &AttachRegistry {
        &self.registry
    }

    /// Creates an attach point; the chip name must be non-empty.
    pub fn new(chip: &str, channel: u32) -> (r: AttachResult<PwmAttach>)
        ensures
            chip@.len() == 0 <==> r is Err,
            r is Err ==> r->Err_0 is InvalidTarget && r->Err_0->InvalidTarget_0@ == chip@,
            r is Ok ==> r->Ok_0.spec_chip() == chip@ && r->Ok_0.spec_pwm_channel() == channel && r->Ok_0
                .spec_registry().spec_ids().len() == 0 && r->Ok_0.spec_registry().spec_next() == 1
                && r->Ok_0.spec_registry().wf(),
    {
        if chip.is_empty() {
            return Err(AttachError::InvalidTarget(String::from_str(chip)));
        }
        Ok(PwmAttach { chip: String::from_str(chip), channel, registry: AttachRegistry::new() })
    }

    /// The chip name.
    pub fn chip(&self) -> (r: &str)
        ensures
            r@ == self.spec_chip(),
    {
        self.chip.as_str()
    }

    /// The channel number.
    pub fn channel(&self) -> (r: u32)
        ensures
            r == self.spec_pwm_channel(),
    {
        self.channel
    }

    /// This attach point's kind.
    pub fn attach_type(&self) -> (r: AttachType)
        ensures
            r == AttachType::PwmObserve,
    {
        AttachType::PwmObserve
    }

    /// The target description.
    pub fn target(&self) -> (r: &str)
        ensures
            r@ == self.spec_chip(),
    {
        self.chip.as_str()
    }

    /// Attaches a program and returns the fresh attachment id.
    pub fn attach(&mut self, _program: &crate::bytecode::BpfProgram) -> (r: AttachResult<AttachId>)
        requires
            old(self).spec_registry().wf(),
            old(self).spec_registry().spec_next() < u32::MAX,
        ensures
            final(self).spec_registry().wf(),
            r is Ok,
            r->Ok_0.0 == old(self).spec_registry().spec_next(),
            final(self).spec_registry().spec_ids() == old(self).spec_registry().spec_ids().push(
                r->Ok_0,
            ),
            final(self).spec_registry().spec_next() == old(self).spec_registry().spec_next() + 1,
            final(self).spec_chip() == old(self).spec_chip(),
            final(self).spec_pwm_channel() == old(self).spec_pwm_channel(),
    {
        Ok(self.registry.attach())
    }

    /// Detaches an id; reports resource-not-found when it is not attached.
    pub fn detach(&mut self, id: AttachId) -> (r: AttachResult<()>)
        requires
            old(self).spec_registry().wf(),
        ensures
            final(self).spec_registry().wf(),
            final(self).spec_registry().spec_next() == old(self).spec_registry().spec_next(),
            match AttachRegistry::spec_find(old(self).spec_registry().spec_ids(), id, 0) {
                Some(i) => r == Ok::<(), AttachError>(()) && final(self).spec_registry().spec_ids()
                    == old(self).spec_registry().spec_ids().remove(i),
                None => r == Err::<(), AttachError>(AttachError::ResourceNotFound)
                    && final(self).spec_registry().spec_ids() == old(
                    self,
                ).spec_registry().spec_ids(),
            },
            final(self).spec_chip() == old(self).spec_chip(),
            final(self).spec_pwm_channel() == old(self).spec_pwm_channel(),
    {
        self.registry.detach(id)
    }

    /// Whether `id` is attached.
    pub fn is_attached(&self, id: AttachId) -> (r: bool)
        ensures
            r == self.spec_registry().spec_ids().contains(id),
    {
        self.registry.is_attached(id)
    }

    /// The attached ids, in attach order.
    pub fn attached_ids(&self) -> (r: Vec<AttachId>)
        ensures
            r@ == self.spec_registry().spec_ids(),
    {
        self.registry.attached_ids()
    }

}

} // verus!
