//! The event vocabulary that programs write into ring buffers and the
//! consumer parses back: a 24-byte little-endian common header followed by a
//! per-type payload. Unknown discriminators are preserved as opaque bytes.

use vstd::prelude::*;
use crate::loader::elf::{read_u32_at, read_u64_at, spec_read_u32, spec_read_u64};

verus! {

/// The 24-byte common event header.
#[derive(Debug, Clone, Copy, PartialEq, Eq, Structural)]
pub struct EventHeader {
    pub timestamp_ns: u64,
    pub event_type: u32,
    pub cpu: u32,
    pub pid: u32,
    pub reserved: u32,
}

/// Size of the common header in bytes.
pub const EVENT_HEADER_SIZE: usize = 24;

fn push_le32_to(out: &mut Vec<u8>, v: u32)
    ensures
        final(out)@ == old(out)@ + seq![
            (v % 256) as u8,
            ((v / 256) % 256) as u8,
            ((v / 0x10000) % 256) as u8,
            ((v / 0x1000000) % 256) as u8,
        ],
{
    out.push((v % 256) as u8);
    out.push(((v / 256) % 256) as u8);
    out.push(((v / 0x10000) % 256) as u8);
    out.push(((v / 0x1000000) % 256) as u8);
    proof {
        assert(out@ =~= old(out)@ + seq![
            (v % 256) as u8,
            ((v / 256) % 256) as u8,
            ((v / 0x10000) % 256) as u8,
            ((v / 0x1000000) % 256) as u8,
        ]);
    }
}

fn push_le64_to(out: &mut Vec<u8>, v: u64)
    ensures
        final(out)@ == old(out)@ + seq![
            (v % 256) as u8,
            ((v / 256) % 256) as u8,
            ((v / 0x10000) % 256) as u8,
            ((v / 0x1000000) % 256) as u8,
            ((v / 0x100000000) % 256) as u8,
            ((v / 0x10000000000) % 256) as u8,
            ((v / 0x1000000000000) % 256) as u8,
            ((v / 0x100000000000000) % 256) as u8,
        ],
{
    out.push((v % 256) as u8);
    out.push(((v / 256) % 256) as u8);
    out.push(((v / 0x10000) % 256) as u8);
    out.push(((v / 0x1000000) % 256) as u8);
    out.push(((v / 0x100000000) % 256) as u8);
    out.push(((v / 0x10000000000) % 256) as u8);
    out.push(((v / 0x1000000000000) % 256) as u8);
    out.push(((v / 0x100000000000000) % 256) as u8);
    proof {
        assert(out@ =~= old(out)@ + seq![
            (v % 256) as u8,
            ((v / 256) % 256) as u8,
            ((v / 0x10000) % 256) as u8,
            ((v / 0x1000000) % 256) as u8,
            ((v / 0x100000000) % 256) as u8,
            ((v / 0x10000000000) % 256) as u8,
            ((v / 0x1000000000000) % 256) as u8,
            ((v / 0x100000000000000) % 256) as u8,
        ]);
    }
}

/// The header parsed from the first 24 bytes of `d`.
pub open spec fn spec_parse_header(d: Seq<u8>) -> EventHeader {
    EventHeader {
        timestamp_ns: spec_read_u64(d, 0, true) as u64,
        event_type: spec_read_u32(d, 8, true) as u32,
        cpu: spec_read_u32(d, 12, true) as u32,
        pid: spec_read_u32(d, 16, true) as u32,
        reserved: spec_read_u32(d, 20, true) as u32,
    }
}

impl EventHeader {
    /// Parses the header from the front of `d`.
    pub fn parse(d: &Vec<u8>) -> (r: EventHeader)
        requires
            d@.len() >= 24,
        ensures
            r == spec_parse_header(d@),
    {
        EventHeader {
            timestamp_ns: read_u64_at(d, 0, true),
            event_type: read_u32_at(d, 8, true),
            cpu: read_u32_at(d, 12, true),
            pid: read_u32_at(d, 16, true),
            reserved: read_u32_at(d, 20, true),
        }
    }
}

/// Wire size of this event in bytes.
pub const IMU_EVENT_SIZE: usize = 56;

#[derive(Debug, Clone, Copy, PartialEq, Eq, Structural)]
pub struct ImuEvent {
    pub header: EventHeader,
    pub accel_x: i32,
    pub accel_y: i32,
    pub accel_z: i32,
    pub gyro_x: i32,
    pub gyro_y: i32,
    pub gyro_z: i32,
    pub temperature: i32,
    pub sensor_id: u32,
}

/// The event discriminator of this type.
pub const IMU_EVENT_TYPE: u32 = 1;

/// This event parsed from `d`.
pub open spec fn spec_parse_imuevent(d: Seq<u8>) -> ImuEvent {
    ImuEvent {
        header: spec_parse_header(d),
        accel_x: spec_read_u32(d, 24, true) as u32 as i32,
        accel_y: spec_read_u32(d, 28, true) as u32 as i32,
        accel_z: spec_read_u32(d, 32, true) as u32 as i32,
        gyro_x: spec_read_u32(d, 36, true) as u32 as i32,
        gyro_y: spec_read_u32(d, 40, true) as u32 as i32,
        gyro_z: spec_read_u32(d, 44, true) as u32 as i32,
        temperature: spec_read_u32(d, 48, true) as u32 as i32,
        sensor_id: spec_read_u32(d, 52, true) as u32,
    }
}

impl ImuEvent {
    /// Parses this event from the record bytes.
    pub fn parse(d: &Vec<u8>) -> (r: ImuEvent)
        requires
            d@.len() >= 56,
        ensures
            r == spec_parse_imuevent(d@),
    {
        ImuEvent {
            header: EventHeader::parse(d),
            accel_x: read_u32_at(d, 24, true) as i32,
            accel_y: read_u32_at(d, 28, true) as i32,
            accel_z: read_u32_at(d, 32, true) as i32,
            gyro_x: read_u32_at(d, 36, true) as i32,
            gyro_y: read_u32_at(d, 40, true) as i32,
            gyro_z: read_u32_at(d, 44, true) as i32,
            temperature: read_u32_at(d, 48, true) as i32,
            sensor_id: read_u32_at(d, 52, true),
        }
    }

    #[verifier::rlimit(100)]
    /// Serializes this event to its 56 wire bytes; parsing them back
    /// reproduces every field.
    pub fn to_bytes(&self) -> (r: Vec<u8>)
        ensures
            r@.len() == 56,
            spec_parse_imuevent(r@) == *self,
    {
        let mut out: Vec<u8> = Vec::new();
        push_le64_to(&mut out, self.header.timestamp_ns);
        push_le32_to(&mut out, self.header.event_type);
        push_le32_to(&mut out, self.header.cpu);
        push_le32_to(&mut out, self.header.pid);
        push_le32_to(&mut out, self.header.reserved);
        push_le32_to(&mut out, self.accel_x as u32);
        push_le32_to(&mut out, self.accel_y as u32);
        push_le32_to(&mut out, self.accel_z as u32);
        push_le32_to(&mut out, self.gyro_x as u32);
        push_le32_to(&mut out, self.gyro_y as u32);
        push_le32_to(&mut out, self.gyro_z as u32);
        push_le32_to(&mut out, self.temperature as u32);
        push_le32_to(&mut out, self.sensor_id);
        proof {
            assert(out@.len() == 56);
            lemma_read64_round(self.header.timestamp_ns, out@, 0);
            lemma_read32_round(self.header.event_type, out@, 8);
            lemma_read32_round(self.header.cpu, out@, 12);
            lemma_read32_round(self.header.pid, out@, 16);
            lemma_read32_round(self.header.reserved, out@, 20);
            lemma_read32_round(self.accel_x as u32, out@, 24);
            lemma_i32_round(self.accel_x);
            lemma_read32_round(self.accel_y as u32, out@, 28);
            lemma_i32_round(self.accel_y);
            lemma_read32_round(self.accel_z as u32, out@, 32);
            lemma_i32_round(self.accel_z);
            lemma_read32_round(self.gyro_x as u32, out@, 36);
            lemma_i32_round(self.gyro_x);
            lemma_read32_round(self.gyro_y as u32, out@, 40);
            lemma_i32_round(self.gyro_y);
            lemma_read32_round(self.gyro_z as u32, out@, 44);
            lemma_i32_round(self.gyro_z);
            lemma_read32_round(self.temperature as u32, out@, 48);
            lemma_i32_round(self.temperature);
            lemma_read32_round(self.sensor_id, out@, 52);
            assert(spec_parse_imuevent(out@) == *self);
        }
        out
    }
}

/// Wire size of this event in bytes.
pub const MOTOR_EVENT_SIZE: usize = 48;

#[derive(Debug, Clone, Copy, PartialEq, Eq, Structural)]
pub struct MotorEvent {
    pub header: EventHeader,
    pub channel: u32,
    pub duty_cycle: u32,
    pub period_ns: u32,
    pub polarity: u32,
    pub enabled: u32,
    pub reserved2: u32,
}

/// The event discriminator of this type.
pub const MOTOR_EVENT_TYPE: u32 = 2;

/// This event parsed from `d`.
pub open spec fn spec_parse_motorevent(d: Seq<u8>) -> MotorEvent {
    MotorEvent {
        header: spec_parse_header(d),
        channel: spec_read_u32(d, 24, true) as u32,
        duty_cycle: spec_read_u32(d, 28, true) as u32,
        period_ns: spec_read_u32(d, 32, true) as u32,
        polarity: spec_read_u32(d, 36, true) as u32,
        enabled: spec_read_u32(d, 40, true) as u32,
        reserved2: spec_read_u32(d, 44, true) as u32,
    }
}

impl MotorEvent {
    /// Parses this event from the record bytes.
    pub fn parse(d: &Vec<u8>) -> (r: MotorEvent)
        requires
            d@.len() >= 48,
        ensures
            r == spec_parse_motorevent(d@),
    {
        MotorEvent {
            header: EventHeader::parse(d),
            channel: read_u32_at(d, 24, true),
            duty_cycle: read_u32_at(d, 28, true),
            period_ns: read_u32_at(d, 32, true),
            polarity: read_u32_at(d, 36, true),
            enabled: read_u32_at(d, 40, true),
            reserved2: read_u32_at(d, 44, true),
        }
    }

    #[verifier::rlimit(100)]
    /// Serializes this event to its 48 wire bytes; parsing them back
    /// reproduces every field.
    pub fn to_bytes(&self) -> (r: Vec<u8>)
        ensures
            r@.len() == 48,
            spec_parse_motorevent(r@) == *self,
    {
        let mut out: Vec<u8> = Vec::new();
        push_le64_to(&mut out, self.header.timestamp_ns);
        push_le32_to(&mut out, self.header.event_type);
        push_le32_to(&mut out, self.header.cpu);
        push_le32_to(&mut out, self.header.pid);
        push_le32_to(&mut out, self.header.reserved);
        push_le32_to(&mut out, self.channel);
        push_le32_to(&mut out, self.duty_cycle);
        push_le32_to(&mut out, self.period_ns);
        push_le32_to(&mut out, self.polarity);
        push_le32_to(&mut out, self.enabled);
        push_le32_to(&mut out, self.reserved2);
        proof {
            assert(out@.len() == 48);
            lemma_read64_round(self.header.timestamp_ns, out@, 0);
            lemma_read32_round(self.header.event_type, out@, 8);
            lemma_read32_round(self.header.cpu, out@, 12);
            lemma_read32_round(self.header.pid, out@, 16);
            lemma_read32_round(self.header.reserved, out@, 20);
            lemma_read32_round(self.channel, out@, 24);
            lemma_read32_round(self.duty_cycle, out@, 28);
            lemma_read32_round(self.period_ns, out@, 32);
            lemma_read32_round(self.polarity, out@, 36);
            lemma_read32_round(self.enabled, out@, 40);
            lemma_read32_round(self.reserved2, out@, 44);
            assert(spec_parse_motorevent(out@) == *self);
        }
        out
    }
}

/// Wire size of this event in bytes.
pub const SAFETY_EVENT_SIZE: usize = 40;

#[derive(Debug, Clone, Copy, PartialEq, Eq, Structural)]
pub struct SafetyEvent {
    pub header: EventHeader,
    pub safety_type: u32,
    pub source_id: u32,
    pub value: i32,
    pub action: u32,
}

/// The event discriminator of this type.
pub const SAFETY_EVENT_TYPE: u32 = 3;

/// This event parsed from `d`.
pub open spec fn spec_parse_safetyevent(d: Seq<u8>) -> SafetyEvent {
    SafetyEvent {
        header: spec_parse_header(d),
        safety_type: spec_read_u32(d, 24, true) as u32,
        source_id: spec_read_u32(d, 28, true) as u32,
        value: spec_read_u32(d, 32, true) as u32 as i32,
        action: spec_read_u32(d, 36, true) as u32,
    }
}

impl SafetyEvent {
    /// Parses this event from the record bytes.
    pub fn parse(d: &Vec<u8>) -> (r: SafetyEvent)
        requires
            d@.len() >= 40,
        ensures
            r == spec_parse_safetyevent(d@),
    {
        SafetyEvent {
            header: EventHeader::parse(d),
            safety_type: read_u32_at(d, 24, true),
            source_id: read_u32_at(d, 28, true),
            value: read_u32_at(d, 32, true) as i32,
            action: read_u32_at(d, 36, true),
        }
    }

    #[verifier::rlimit(100)]
    /// Serializes this event to its 40 wire bytes; parsing them back
    /// reproduces every field.
    pub fn to_bytes(&self) -> (r: Vec<u8>)
        ensures
            r@.len() == 40,
            spec_parse_safetyevent(r@) == *self,
    {
        let mut out: Vec<u8> = Vec::new();
        push_le64_to(&mut out, self.header.timestamp_ns);
        push_le32_to(&mut out, self.header.event_type);
        push_le32_to(&mut out, self.header.cpu);
        push_le32_to(&mut out, self.header.pid);
        push_le32_to(&mut out, self.header.reserved);
        push_le32_to(&mut out, self.safety_type);
        push_le32_to(&mut out, self.source_id);
        push_le32_to(&mut out, self.value as u32);
        push_le32_to(&mut out, self.action);
        proof {
            assert(out@.len() == 40);
            lemma_read64_round(self.header.timestamp_ns, out@, 0);
            lemma_read32_round(self.header.event_type, out@, 8);
            lemma_read32_round(self.header.cpu, out@, 12);
            lemma_read32_round(self.header.pid, out@, 16);
            lemma_read32_round(self.header.reserved, out@, 20);
            lemma_read32_round(self.safety_type, out@, 24);
            lemma_read32_round(self.source_id, out@, 28);
            lemma_read32_round(self.value as u32, out@, 32);
            lemma_i32_round(self.value);
            lemma_read32_round(self.action, out@, 36);
            assert(spec_parse_safetyevent(out@) == *self);
        }
        out
    }
}

/// Wire size of this event in bytes.
pub const GPIO_EVENT_SIZE: usize = 40;

#[derive(Debug, Clone, Copy, PartialEq, Eq, Structural)]
pub struct GpioEvent {
    pub header: EventHeader,
    pub chip: u32,
    pub line: u32,
    pub edge: u32,
    pub value: u32,
}

/// The event discriminator of this type.
pub const GPIO_EVENT_TYPE: u32 = 4;

/// This event parsed from `d`.
pub open spec fn spec_parse_gpioevent(d: Seq<u8>) -> GpioEvent {
    GpioEvent {
        header: spec_parse_header(d),
        chip: spec_read_u32(d, 24, true) as u32,
        line: spec_read_u32(d, 28, true) as u32,
        edge: spec_read_u32(d, 32, true) as u32,
        value: spec_read_u32(d, 36, true) as u32,
    }
}

impl GpioEvent {
    /// Parses this event from the record bytes.
    pub fn parse(d: &Vec<u8>) -> (r: GpioEvent)
        requires
            d@.len() >= 40,
        ensures
            r == spec_parse_gpioevent(d@),
    {
        GpioEvent {
            header: EventHeader::parse(d),
            chip: read_u32_at(d, 24, true),
            line: read_u32_at(d, 28, true),
            edge: read_u32_at(d, 32, true),
            value: read_u32_at(d, 36, true),
        }
    }

    #[verifier::rlimit(100)]
    /// Serializes this event to its 40 wire bytes; parsing them back
    /// reproduces every field.
    pub fn to_bytes(&self) -> (r: Vec<u8>)
        ensures
            r@.len() == 40,
            spec_parse_gpioevent(r@) == *self,
    {
        let mut out: Vec<u8> = Vec::new();
        push_le64_to(&mut out, self.header.timestamp_ns);
        push_le32_to(&mut out, self.header.event_type);
        push_le32_to(&mut out, self.header.cpu);
        push_le32_to(&mut out, self.header.pid);
        push_le32_to(&mut out, self.header.reserved);
        push_le32_to(&mut out, self.chip);
        push_le32_to(&mut out, self.line);
        push_le32_to(&mut out, self.edge);
        push_le32_to(&mut out, self.value);
        proof {
            assert(out@.len() == 40);
            lemma_read64_round(self.header.timestamp_ns, out@, 0);
            lemma_read32_round(self.header.event_type, out@, 8);
            lemma_read32_round(self.header.cpu, out@, 12);
            lemma_read32_round(self.header.pid, out@, 16);
            lemma_read32_round(self.header.reserved, out@, 20);
            lemma_read32_round(self.chip, out@, 24);
            lemma_read32_round(self.line, out@, 28);
            lemma_read32_round(self.edge, out@, 32);
            lemma_read32_round(self.value, out@, 36);
            assert(spec_parse_gpioevent(out@) == *self);
        }
        out
    }
}

/// Wire size of this event in bytes.
pub const TIMESERIES_EVENT_SIZE: usize = 48;

/// The little-endian bytes of a 32-bit value.
pub open spec fn spec_le32_bytes(v: u32) -> Seq<u8> {
    seq![
        (v % 256) as u8,
        ((v / 256) % 256) as u8,
        ((v / 0x10000) % 256) as u8,
        ((v / 0x1000000) % 256) as u8,
    ]
}

/// The little-endian bytes of a 64-bit value.
pub open spec fn spec_le64_bytes(v: u64) -> Seq<u8> {
    seq![
        (v % 256) as u8,
        ((v / 256) % 256) as u8,
        ((v / 0x10000) % 256) as u8,
        ((v / 0x1000000) % 256) as u8,
        ((v / 0x100000000) % 256) as u8,
        ((v / 0x10000000000) % 256) as u8,
        ((v / 0x1000000000000) % 256) as u8,
        ((v / 0x100000000000000) % 256) as u8,
    ]
}

/// The exact 48 wire bytes of a time-series event.
pub open spec fn spec_timeseries_bytes(e: TimeSeriesEvent) -> Seq<u8> {
    spec_le64_bytes(e.header.timestamp_ns) + spec_le32_bytes(e.header.event_type)
        + spec_le32_bytes(e.header.cpu) + spec_le32_bytes(e.header.pid) + spec_le32_bytes(
        e.header.reserved,
    ) + spec_le32_bytes(e.series_id) + spec_le32_bytes(e.pad) + spec_le64_bytes(e.value as u64)
        + spec_le32_bytes(e.tag) + spec_le32_bytes(e.reserved2)
}

#[derive(Debug, Clone, Copy, PartialEq, Eq, Structural)]
pub struct TimeSeriesEvent {
    pub header: EventHeader,
    pub series_id: u32,
    pub pad: u32,
    pub value: i64,
    pub tag: u32,
    pub reserved2: u32,
}

/// The event discriminator of this type.
pub const TIMESERIES_EVENT_TYPE: u32 = 5;

/// This event parsed from `d`.
pub open spec fn spec_parse_timeseriesevent(d: Seq<u8>) -> TimeSeriesEvent {
    TimeSeriesEvent {
        header: spec_parse_header(d),
        series_id: spec_read_u32(d, 24, true) as u32,
        pad: spec_read_u32(d, 28, true) as u32,
        value: spec_read_u64(d, 32, true) as u64 as i64,
        tag: spec_read_u32(d, 40, true) as u32,
        reserved2: spec_read_u32(d, 44, true) as u32,
    }
}

impl TimeSeriesEvent {
    /// Parses this event from the record bytes.
    pub fn parse(d: &Vec<u8>) -> (r: TimeSeriesEvent)
        requires
            d@.len() >= 48,
        ensures
            r == spec_parse_timeseriesevent(d@),
    {
        TimeSeriesEvent {
            header: EventHeader::parse(d),
            series_id: read_u32_at(d, 24, true),
            pad: read_u32_at(d, 28, true),
            value: read_u64_at(d, 32, true) as i64,
            tag: read_u32_at(d, 40, true),
            reserved2: read_u32_at(d, 44, true),
        }
    }

    #[verifier::rlimit(100)]
    /// Serializes this event to its 48 wire bytes; parsing them back
    /// reproduces every field.
    pub fn to_bytes(&self) -> (r: Vec<u8>)
        ensures
            r@.len() == 48,
            r@ == spec_timeseries_bytes(*self),
            spec_parse_timeseriesevent(r@) == *self,
    {
        let mut out: Vec<u8> = Vec::new();
        push_le64_to(&mut out, self.header.timestamp_ns);
        push_le32_to(&mut out, self.header.event_type);
        push_le32_to(&mut out, self.header.cpu);
        push_le32_to(&mut out, self.header.pid);
        push_le32_to(&mut out, self.header.reserved);
        push_le32_to(&mut out, self.series_id);
        push_le32_to(&mut out, self.pad);
        push_le64_to(&mut out, self.value as u64);
        push_le32_to(&mut out, self.tag);
        push_le32_to(&mut out, self.reserved2);
        proof {
            assert(out@.len() == 48);
            lemma_read64_round(self.header.timestamp_ns, out@, 0);
            lemma_read32_round(self.header.event_type, out@, 8);
            lemma_read32_round(self.header.cpu, out@, 12);
            lemma_read32_round(self.header.pid, out@, 16);
            lemma_read32_round(self.header.reserved, out@, 20);
            lemma_read32_round(self.series_id, out@, 24);
            lemma_read32_round(self.pad, out@, 28);
            lemma_read64_round(self.value as u64, out@, 32);
            lemma_i64_round(self.value);
            lemma_read32_round(self.tag, out@, 40);
            lemma_read32_round(self.reserved2, out@, 44);
            assert(spec_parse_timeseriesevent(out@) == *self);
            assert(out@ =~= spec_timeseries_bytes(*self));
        }
        out
    }
}

/// Bytes laid down as the little-endian decomposition of a 32-bit value
/// read back as that value.
pub proof fn lemma_read32_round(v: u32, d: Seq<u8>, off: int)
    requires
        0 <= off,
        off + 4 <= d.len(),
        d[off] == (v % 256) as u8,
        d[off + 1] == ((v / 256) % 256) as u8,
        d[off + 2] == ((v / 0x10000) % 256) as u8,
        d[off + 3] == ((v / 0x1000000) % 256) as u8,
    ensures
        spec_read_u32(d, off, true) == v,
{
    vstd::arithmetic::div_mod::lemma_fundamental_div_mod(v as int, 256);
    vstd::arithmetic::div_mod::lemma_fundamental_div_mod(v as int / 256, 256);
    vstd::arithmetic::div_mod::lemma_fundamental_div_mod(v as int / 256 / 256, 256);
    assert(v as int / 256 / 256 == v as int / 0x10000 && v as int / 256 / 256 / 256 == v as int
        / 0x1000000 && v as int / 0x1000000 < 256 && v as int / 0x1000000 >= 0)
        by (nonlinear_arith)
        requires
            0 <= v < 0x100000000,
    ;
}

/// Bytes laid down as the little-endian decomposition of a 64-bit value
/// read back as that value.
proof fn lemma_read64_round(v: u64, d: Seq<u8>, off: int)
    requires
        0 <= off,
        off + 8 <= d.len(),
        d[off] == (v % 256) as u8,
        d[off + 1] == ((v / 256) % 256) as u8,
        d[off + 2] == ((v / 0x10000) % 256) as u8,
        d[off + 3] == ((v / 0x1000000) % 256) as u8,
        d[off + 4] == ((v / 0x100000000) % 256) as u8,
        d[off + 5] == ((v / 0x10000000000) % 256) as u8,
        d[off + 6] == ((v / 0x1000000000000) % 256) as u8,
        d[off + 7] == ((v / 0x100000000000000) % 256) as u8,
    ensures
        spec_read_u64(d, off, true) == v,
{
    let x0 = v as int;
    vstd::arithmetic::div_mod::lemma_fundamental_div_mod(x0, 256);
    vstd::arithmetic::div_mod::lemma_fundamental_div_mod(x0 / 256, 256);
    vstd::arithmetic::div_mod::lemma_fundamental_div_mod(x0 / 256 / 256, 256);
    vstd::arithmetic::div_mod::lemma_fundamental_div_mod(x0 / 256 / 256 / 256, 256);
    vstd::arithmetic::div_mod::lemma_fundamental_div_mod(x0 / 256 / 256 / 256 / 256, 256);
    vstd::arithmetic::div_mod::lemma_fundamental_div_mod(x0 / 256 / 256 / 256 / 256 / 256, 256);
    vstd::arithmetic::div_mod::lemma_fundamental_div_mod(
        x0 / 256 / 256 / 256 / 256 / 256 / 256,
        256,
    );
    assert(x0 / 256 / 256 == x0 / 0x10000 && x0 / 256 / 256 / 256 == x0 / 0x1000000 && x0 / 256
        / 256 / 256 / 256 == x0 / 0x100000000 && x0 / 256 / 256 / 256 / 256 / 256 == x0
        / 0x10000000000 && x0 / 256 / 256 / 256 / 256 / 256 / 256 == x0 / 0x1000000000000 && x0
        / 256 / 256 / 256 / 256 / 256 / 256 / 256 == x0 / 0x100000000000000 && x0
        / 0x100000000000000 < 256 && x0 / 0x100000000000000 >= 0) by (nonlinear_arith)
        requires
            0 <= x0 < 0x10000000000000000,
    ;
}

/// A signed 32-bit value survives the unsigned round trip.
proof fn lemma_i32_round(x: i32)
    by (bit_vector)
    ensures
        ((x as u32) as i32) == x,
{
}

/// A signed 64-bit value survives the unsigned round trip.
proof fn lemma_i64_round(x: i64)
    by (bit_vector)
    ensures
        ((x as u64) as i64) == x,
{
}

/// A parsed event, or the opaque bytes of an unknown discriminator.
#[derive(Debug, Clone, PartialEq, Eq)]
pub enum RkEvent {
    Imu(ImuEvent),
    Motor(MotorEvent),
    Safety(SafetyEvent),
    Gpio(GpioEvent),
    TimeSeries(TimeSeriesEvent),
    Unknown { event_type: u32, data: Vec<u8> },
}

/// Whether the record is too short to parse: shorter than the common
/// header, or shorter than its discriminator's full event.
pub open spec fn spec_event_too_short(d: Seq<u8>) -> bool {
    if d.len() < 24 {
        true
    } else {
        let t = spec_parse_header(d).event_type;
        if t == 1 {
            d.len() < 56
        } else if t == 2 {
            d.len() < 48
        } else if t == 3 {
            d.len() < 40
        } else if t == 4 {
            d.len() < 40
        } else if t == 5 {
            d.len() < 48
        } else {
            false
        }
    }
}

impl RkEvent {
    /// Parses an event from raw record bytes. An unknown discriminator
    /// yields the raw bytes unchanged.
    pub fn from_bytes(data: &Vec<u8>) -> (r: Result<RkEvent, ()>)
        ensures
            r is Err <==> spec_event_too_short(data@),
            !spec_event_too_short(data@) ==> {
                let t = spec_parse_header(data@).event_type;
                &&& t == 1 ==> r == Ok::<RkEvent, ()>(RkEvent::Imu(spec_parse_imuevent(data@)))
                &&& t == 2 ==> r == Ok::<RkEvent, ()>(RkEvent::Motor(spec_parse_motorevent(data@)))
                &&& t == 3 ==> r == Ok::<RkEvent, ()>(
                    RkEvent::Safety(spec_parse_safetyevent(data@)),
                )
                &&& t == 4 ==> r == Ok::<RkEvent, ()>(RkEvent::Gpio(spec_parse_gpioevent(data@)))
                &&& t == 5 ==> r == Ok::<RkEvent, ()>(
                    RkEvent::TimeSeries(spec_parse_timeseriesevent(data@)),
                )
                &&& !(1 <= t <= 5) ==> r is Ok && r->Ok_0 is Unknown
                    && r->Ok_0->Unknown_event_type == t && r->Ok_0->Unknown_data@ == data@
            },
    {
        if data.len() < 24 {
            return Err(());
        }
        let header = EventHeader::parse(data);
        let t = header.event_type;
        if t == 1 {
            if data.len() < 56 {
                Err(())
            } else {
                Ok(RkEvent::Imu(ImuEvent::parse(data)))
            }
        } else if t == 2 {
            if data.len() < 48 {
                Err(())
            } else {
                Ok(RkEvent::Motor(MotorEvent::parse(data)))
            }
        } else if t == 3 {
            if data.len() < 40 {
                Err(())
            } else {
                Ok(RkEvent::Safety(SafetyEvent::parse(data)))
            }
        } else if t == 4 {
            if data.len() < 40 {
                Err(())
            } else {
                Ok(RkEvent::Gpio(GpioEvent::parse(data)))
            }
        } else if t == 5 {
            if data.len() < 48 {
                Err(())
            } else {
                Ok(RkEvent::TimeSeries(TimeSeriesEvent::parse(data)))
            }
        } else {
            let mut copy: Vec<u8> = Vec::new();
            let n = data.len();
            let mut i: usize = 0;
            while i < n
                invariant
                    i <= n,
                    n == data@.len(),
                    copy@ == data@.subrange(0, i as int),
                decreases n - i,
            {
                copy.push(data[i]);
                proof {
                    assert(copy@ =~= data@.subrange(0, i as int + 1));
                }
                i = i + 1;
            }
            proof {
                assert(copy@ =~= data@);
            }
            Ok(RkEvent::Unknown { event_type: t, data: copy })
        }
    }

    /// The event's timestamp; zero for an unknown event.
    pub fn timestamp_ns(&self) -> (r: u64)
        ensures
            r == (match *self {
                RkEvent::Imu(e) => e.header.timestamp_ns,
                RkEvent::Motor(e) => e.header.timestamp_ns,
                RkEvent::Safety(e) => e.header.timestamp_ns,
                RkEvent::Gpio(e) => e.header.timestamp_ns,
                RkEvent::TimeSeries(e) => e.header.timestamp_ns,
                RkEvent::Unknown { .. } => 0u64,
            }),
    {
        match self {
            RkEvent::Imu(e) => e.header.timestamp_ns,
            RkEvent::Motor(e) => e.header.timestamp_ns,
            RkEvent::Safety(e) => e.header.timestamp_ns,
            RkEvent::Gpio(e) => e.header.timestamp_ns,
            RkEvent::TimeSeries(e) => e.header.timestamp_ns,
            RkEvent::Unknown { .. } => 0,
        }
    }

    /// The event's discriminator.
    pub fn event_type(&self) -> (r: u32)
        ensures
            r == (match *self {
                RkEvent::Imu(_) => 1u32,
                RkEvent::Motor(_) => 2u32,
                RkEvent::Safety(_) => 3u32,
                RkEvent::Gpio(_) => 4u32,
                RkEvent::TimeSeries(_) => 5u32,
                RkEvent::Unknown { event_type, .. } => event_type,
            }),
    {
        match self {
            RkEvent::Imu(_) => 1,
            RkEvent::Motor(_) => 2,
            RkEvent::Safety(_) => 3,
            RkEvent::Gpio(_) => 4,
            RkEvent::TimeSeries(_) => 5,
            RkEvent::Unknown { event_type, .. } => *event_type,
        }
    }
}

/// The kinds of safety events.
#[derive(Debug, Clone, Copy, PartialEq, Eq, Structural)]
pub enum SafetyType {
    LimitSwitch,
    EmergencyStop,
    ThresholdExceeded,
    CommTimeout,
    MotorFault,
    Unknown,
}

/// The numeric code of each safety type; everything else is unknown.
pub open spec fn spec_safety_type_of(value: u32) -> SafetyType {
    if value == 0 {
        SafetyType::LimitSwitch
    } else if value == 1 {
        SafetyType::EmergencyStop
    } else if value == 2 {
        SafetyType::ThresholdExceeded
    } else if value == 3 {
        SafetyType::CommTimeout
    } else if value == 4 {
        SafetyType::MotorFault
    } else {
        SafetyType::Unknown
    }
}

impl From<u32> for SafetyType {
    fn from(value: u32) -> (r: SafetyType) {
        if value == 0 {
            SafetyType::LimitSwitch
        } else if value == 1 {
            SafetyType::EmergencyStop
        } else if value == 2 {
            SafetyType::ThresholdExceeded
        } else if value == 3 {
            SafetyType::CommTimeout
        } else if value == 4 {
            SafetyType::MotorFault
        } else {
            SafetyType::Unknown
        }
    }
}

impl vstd::std_specs::convert::FromSpecImpl<u32> for SafetyType {
    open spec fn obeys_from_spec() -> bool {
        true
    }

    open spec fn from_spec(value: u32) -> SafetyType {
        spec_safety_type_of(value)
    }
}

/// The actions a safety event reports.
#[derive(Debug, Clone, Copy, PartialEq, Eq, Structural)]
pub enum SafetyAction {
    NoAction,
    MotorStop,
    SystemHalt,
    Alert,
    Unknown,
}

/// The numeric code of each safety action; everything else is unknown.
pub open spec fn spec_safety_action_of(value: u32) -> SafetyAction {
    if value == 0 {
        SafetyAction::NoAction
    } else if value == 1 {
        SafetyAction::MotorStop
    } else if value == 2 {
        SafetyAction::SystemHalt
    } else if value == 3 {
        SafetyAction::Alert
    } else {
        SafetyAction::Unknown
    }
}

impl From<u32> for SafetyAction {
    fn from(value: u32) -> (r: SafetyAction) {
        if value == 0 {
            SafetyAction::NoAction
        } else if value == 1 {
            SafetyAction::MotorStop
        } else if value == 2 {
            SafetyAction::SystemHalt
        } else if value == 3 {
            SafetyAction::Alert
        } else {
            SafetyAction::Unknown
        }
    }
}

impl vstd::std_specs::convert::FromSpecImpl<u32> for SafetyAction {
    open spec fn obeys_from_spec() -> bool {
        true
    }

    open spec fn from_spec(value: u32) -> SafetyAction {
        spec_safety_action_of(value)
    }
}

} // verus!
