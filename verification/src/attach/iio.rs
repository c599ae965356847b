//! Industrial-I/O sensor attach points: programs observing accelerometer,
//! gyroscope, magnetometer, temperature, proximity and voltage channels.

use vstd::prelude::*;
use vstd::string::StrSliceExecFns;
use crate::attach::{AttachError, AttachId, AttachRegistry, AttachResult, AttachType};

verus! {

/// The closed channel vocabulary, plus an open voltage family and a
/// fallback for unrecognized names.
#[derive(Debug, Clone, PartialEq, Eq)]
pub enum IioChannel {
    AccelX,
    AccelY,
    AccelZ,
    AnglVelX,
    AnglVelY,
    AnglVelZ,
    MagnX,
    MagnY,
    MagnZ,
    Voltage(u8),
    Temp,
    Proximity,
    Generic(String),
}

/// The value of the decimal digits of `s` from `i` on, accumulated onto
/// `acc`, exactly as a `u8` parse sees them: any non-digit or any value
/// over 255 fails.
pub open spec fn spec_digits_u8(s: Seq<char>, i: int, acc: int) -> Option<int>
    decreases s.len() - i,
{
    if i < 0 || i >= s.len() {
        Some(acc)
    } else if !('0' <= s[i] <= '9') {
        None
    } else {
        let acc2 = acc * 10 + (s[i] as int - 48);
        if acc2 > 255 {
            None
        } else {
            spec_digits_u8(s, i + 1, acc2)
        }
    }
}

/// The voltage number of a channel name: its digits after `from`, or zero
/// when they do not parse as a `u8`.
pub open spec fn spec_voltage_no(s: Seq<char>, from: int) -> u8 {
    match spec_digits_u8(s, from, 0) {
        Some(v) => v as u8,
        None => 0u8,
    }
}

/// The channel a name parses to, in match order: the fixed names first,
/// then the two voltage prefixes; `None` stands for the generic fallback
/// that keeps the name.
pub open spec fn spec_channel_of(s: Seq<char>) -> Option<IioChannel> {
    if s == "in_accel_x"@ || s == "accel_x"@ {
        Some(IioChannel::AccelX)
    } else if s == "in_accel_y"@ || s == "accel_y"@ {
        Some(IioChannel::AccelY)
    } else if s == "in_accel_z"@ || s == "accel_z"@ {
        Some(IioChannel::AccelZ)
    } else if s == "in_anglvel_x"@ || s == "anglvel_x"@ {
        Some(IioChannel::AnglVelX)
    } else if s == "in_anglvel_y"@ || s == "anglvel_y"@ {
        Some(IioChannel::AnglVelY)
    } else if s == "in_anglvel_z"@ || s == "anglvel_z"@ {
        Some(IioChannel::AnglVelZ)
    } else if s == "in_magn_x"@ || s == "magn_x"@ {
        Some(IioChannel::MagnX)
    } else if s == "in_magn_y"@ || s == "magn_y"@ {
        Some(IioChannel::MagnY)
    } else if s == "in_magn_z"@ || s == "magn_z"@ {
        Some(IioChannel::MagnZ)
    } else if s == "in_temp"@ || s == "temp"@ {
        Some(IioChannel::Temp)
    } else if s == "in_proximity"@ || s == "proximity"@ {
        Some(IioChannel::Proximity)
    } else if "in_voltage"@.len() <= s.len() && s.subrange(0, "in_voltage"@.len() as int)
        == "in_voltage"@ {
        Some(IioChannel::Voltage(spec_voltage_no(s, "in_voltage"@.len() as int)))
    } else if "voltage"@.len() <= s.len() && s.subrange(0, "voltage"@.len() as int)
        == "voltage"@ {
        Some(IioChannel::Voltage(spec_voltage_no(s, "voltage"@.len() as int)))
    } else {
        None
    }
}

/// Whether `c` is exactly what the name `s` parses to: the mapped channel,
/// or the generic channel keeping the name.
pub open spec fn spec_channel_parsed(s: Seq<char>, c: IioChannel) -> bool {
    match spec_channel_of(s) {
        Some(c2) => c == c2,
        None => c is Generic && c->Generic_0@ == s,
    }
}

impl IioChannel {
    /// Parses the decimal suffix of `s` from `from` on.
    fn parse_suffix(s: &str, from: usize) -> (r: u8)
        requires
            from <= s@.len(),
        ensures
            r == spec_voltage_no(s@, from as int),
    {
        let n = s.unicode_len();
        let mut acc: u32 = 0;
        let mut i: usize = from;
        while i < n
            invariant
                from <= i <= n,
                n == s@.len(),
                acc <= 255,
                spec_digits_u8(s@, from as int, 0) == spec_digits_u8(s@, i as int, acc as int),
            decreases n - i,
        {
            let c = s.get_char(i);
            if !('0' <= c && c <= '9') {
                return 0;
            }
            let acc2 = acc * 10 + (c as u32 - 48);
            if acc2 > 255 {
                return 0;
            }
            acc = acc2;
            i = i + 1;
        }
        acc as u8
    }

    /// Whether the first `p.len()` characters of `s` are `p`.
    fn has_prefix(s: &str, p: &str) -> (r: bool)
        ensures
            r == (p@.len() <= s@.len() && s@.subrange(0, p@.len() as int) == p@),
    {
        let sn = s.unicode_len();
        let pn = p.unicode_len();
        if pn > sn {
            return false;
        }
        let mut i: usize = 0;
        while i < pn
            invariant
                i <= pn,
                pn <= sn,
                sn == s@.len(),
                pn == p@.len(),
                forall|j: int| 0 <= j < i ==> s@[j] == p@[j],
            decreases pn - i,
        {
            if s.get_char(i) != p.get_char(i) {
                proof {
                    assert(s@.subrange(0, p@.len() as int)[i as int] != p@[i as int]);
                }
                return false;
            }
            i = i + 1;
        }
        proof {
            assert(s@.subrange(0, p@.len() as int) =~= p@);
        }
        true
    }

    /// Parses a channel name. The fixed names map to their enumerators; an
    /// `in_voltage<N>` or `voltage<N>` name maps to that voltage channel
    /// (zero when the suffix is not a `u8`); anything else is kept as a
    /// generic channel.
    pub fn parse(s: &str) -> (r: IioChannel)
        ensures
            spec_channel_parsed(s@, r),
    {
        proof {
            reveal_strlit("in_voltage");
            reveal_strlit("voltage");
        }
        let nm = String::from_str(s);
        if nm == String::from_str("in_accel_x") || nm == String::from_str("accel_x") {
            IioChannel::AccelX
        } else if nm == String::from_str("in_accel_y") || nm == String::from_str("accel_y") {
            IioChannel::AccelY
        } else if nm == String::from_str("in_accel_z") || nm == String::from_str("accel_z") {
            IioChannel::AccelZ
        } else if nm == String::from_str("in_anglvel_x") || nm == String::from_str("anglvel_x") {
            IioChannel::AnglVelX
        } else if nm == String::from_str("in_anglvel_y") || nm == String::from_str("anglvel_y") {
            IioChannel::AnglVelY
        } else if nm == String::from_str("in_anglvel_z") || nm == String::from_str("anglvel_z") {
            IioChannel::AnglVelZ
        } else if nm == String::from_str("in_magn_x") || nm == String::from_str("magn_x") {
            IioChannel::MagnX
        } else if nm == String::from_str("in_magn_y") || nm == String::from_str("magn_y") {
            IioChannel::MagnY
        } else if nm == String::from_str("in_magn_z") || nm == String::from_str("magn_z") {
            IioChannel::MagnZ
        } else if nm == String::from_str("in_temp") || nm == String::from_str("temp") {
            IioChannel::Temp
        } else if nm == String::from_str("in_proximity") || nm == String::from_str("proximity") {
            IioChannel::Proximity
        } else if Self::has_prefix(s, "in_voltage") {
            let p = "in_voltage";
            IioChannel::Voltage(Self::parse_suffix(s, p.unicode_len()))
        } else if Self::has_prefix(s, "voltage") {
            let p = "voltage";
            IioChannel::Voltage(Self::parse_suffix(s, p.unicode_len()))
        } else {
            IioChannel::Generic(nm)
        }
    }
}

/// The event payload an IIO channel delivers to programs: the raw reading,
/// the scale in micro-units, and the offset. The scaled value is
/// (raw + offset) x scale x 10^-6, computed by the consumer.
#[derive(Debug, Clone, Copy, PartialEq, Eq, Structural)]
pub struct IioEvent {
    pub timestamp: u64,
    pub device_id: u32,
    pub channel: u32,
    pub value: i32,
    pub scale: u32,
    pub offset: i32,
}

/// An IIO sensor attach point.
pub struct IioAttach {
    device: String,
    channel: String,
    channel_type: IioChannel,
    registry: AttachRegistry,
}

impl IioAttach {
    /// The device name.
    pub closed spec fn spec_device(&self) -> Seq<char> {
        self.device@
    }

    /// The channel name.
    pub closed spec fn spec_channel(&self) -> Seq<char> {
        self.channel@
    }

    /// The parsed channel.
    pub closed spec fn spec_channel_type(&self) -> &IioChannel {
        &self.channel_type
    }

    /// The attachment registry.
    pub closed spec fn spec_registry(&self) -> &AttachRegistry {
        &self.registry
    }

    /// Creates an attach point; device and channel must both be non-empty,
    /// and the channel name is parsed into the channel vocabulary.
    pub fn new(device: &str, channel: &str) -> (r: AttachResult<IioAttach>)
        ensures
            (device@.len() == 0 || channel@.len() == 0) <==> r is Err,
            r is Err ==> r->Err_0 is InvalidTarget && r->Err_0->InvalidTarget_0@ == device@ + ":"@
                + channel@,
            r is Ok ==> r->Ok_0.spec_device() == device@ && r->Ok_0.spec_channel() == channel@
                && r->Ok_0.spec_registry().spec_ids().len() == 0 && r->Ok_0
                .spec_registry().spec_next() == 1 && r->Ok_0.spec_registry().wf(),
            r is Ok ==> spec_channel_parsed(channel@, *r->Ok_0.spec_channel_type()),
    {
        if device.is_empty() || channel.is_empty() {
            let mut t = String::from_str(device);
            t.append(":");
            t.append(channel);
            return Err(AttachError::InvalidTarget(t));
        }
        let channel_type = IioChannel::parse(channel);
        Ok(
            IioAttach {
                device: String::from_str(device),
                channel: String::from_str(channel),
                channel_type,
                registry: AttachRegistry::new(),
            },
        )
    }

    /// The device name.
    pub fn device(&self) -> (r: &str)
        ensures
            r@ == self.spec_device(),
    {
        self.device.as_str()
    }

    /// The channel name.
    pub fn channel(&self) -> (r: &str)
        ensures
            r@ == self.spec_channel(),
    {
        self.channel.as_str()
    }

    /// The parsed channel.
    pub fn channel_type(&self) -> (r: &IioChannel)
        ensures
            r == self.spec_channel_type(),
    {
        &self.channel_type
    }

    /// This attach point's kind.
    pub fn attach_type(&self) -> (r: AttachType)
        ensures
            r == AttachType::IioSensor,
    {
        AttachType::IioSensor
    }

    /// The target description.
    pub fn target(&self) -> (r: &str)
        ensures
            r@ == self.spec_channel(),
    {
        self.channel.as_str()
    }

    /// Attaches a program and returns the fresh attachment id.
    pub fn attach(&mut self, _program: &crate::bytecode::BpfProgram) -> (r: AttachResult<AttachId>)
        requires
            old(self).spec_registry().wf(),
            old(self).spec_registry().spec_next() < u32::MAX,
        ensures
            final(self).spec_registry().wf(),
            r is Ok,
            r->Ok_0.0 == old(self).spec_registry().spec_next(),
            final(self).spec_registry().spec_ids() == old(self).spec_registry().spec_ids().push(
                r->Ok_0,
            ),
            final(self).spec_registry().spec_next() == old(self).spec_registry().spec_next() + 1,
            final(self).spec_device() == old(self).spec_device(),
            final(self).spec_channel() == old(self).spec_channel(),
    {
        Ok(self.registry.attach())
    }

    /// Detaches an id; reports resource-not-found when it is not attached.
    pub fn detach(&mut self, id: AttachId) -> (r: AttachResult<()>)
        requires
            old(self).spec_registry().wf(),
        ensures
            final(self).spec_registry().wf(),
            final(self).spec_registry().spec_next() == old(self).spec_registry().spec_next(),
            match AttachRegistry::spec_find(old(self).spec_registry().spec_ids(), id, 0) {
                Some(i) => r == Ok::<(), AttachError>(()) && final(self).spec_registry().spec_ids()
                    == old(self).spec_registry().spec_ids().remove(i),
                None => r == Err::<(), AttachError>(AttachError::ResourceNotFound)
                    && final(self).spec_registry().spec_ids() == old(
                    self,
                ).spec_registry().spec_ids(),
            },
            final(self).spec_device() == old(self).spec_device(),
            final(self).spec_channel() == old(self).spec_channel(),
    {
        self.registry.detach(id)
    }

    /// Whether `id` is attached.
    pub fn is_attached(&self, id: AttachId) -> (r: bool)
        ensures
            r == self.spec_registry().spec_ids().contains(id),
    {
        self.registry.is_attached(id)
    }

    /// The attached ids, in attach order.
    pub fn attached_ids(&self) -> (r: Vec<AttachId>)
        ensures
            r@ == self.spec_registry().spec_ids(),
    {
        self.registry.attached_ids()
    }
}

} // verus!
