//! The helper table: the runtime functions a program reaches through the
//! call instruction, dispatched by numeric id. The table holds the monotonic
//! clock, the event ring buffer, the drop counter, the emergency-stop latch
//! and the last sensor timestamp; each call maps the helper state and the
//! five argument registers to the next state and the value stored into r0.
//! Ids without an entry leave the state alone and return zero.

use vstd::prelude::*;

use crate::event::{spec_timeseries_bytes, EventHeader, TimeSeriesEvent, TIMESERIES_EVENT_TYPE};
use crate::ringbuf::{spec_record_total, RingBuf};

verus! {

/// Helper id of the monotonic clock read.
pub const HELPER_KTIME_GET_NS: u32 = 5;

/// Helper id of the ring-buffer record commit.
pub const HELPER_RINGBUF_OUTPUT: u32 = 130;

/// Helper id of the ring-buffer backlog query.
pub const HELPER_RINGBUF_QUERY: u32 = 134;

/// Helper id of the emergency-stop latch.
pub const HELPER_EMERGENCY_STOP: u32 = 200;

/// Helper id of the time-series record push.
pub const HELPER_TIMESERIES_PUSH: u32 = 201;

/// Helper id of the last-sensor-timestamp read.
pub const HELPER_SENSOR_LAST_TIMESTAMP: u32 = 202;

/// The helper state a program observes and changes: the clock, the ring
/// buffer's committed trace and positions, the drop counter, the
/// emergency-stop latch and the last sensor timestamp.
pub struct HelperModel {
    pub time_ns: u64,
    pub committed: Seq<Seq<u8>>,
    pub consumed: int,
    pub ring_prod: int,
    pub ring_cons: int,
    pub ring_size: int,
    pub drops: u64,
    pub estopped: bool,
    pub last_sensor_ns: u64,
}

impl HelperModel {
    /// The helper state a fresh table starts from: zero clock, an empty
    /// 64 KiB ring, no drops, the latch released.
    pub open spec fn default_model() -> HelperModel {
        HelperModel {
            time_ns: 0,
            committed: Seq::empty(),
            consumed: 0,
            ring_prod: 0,
            ring_cons: 0,
            ring_size: 0x10000,
            drops: 0,
            estopped: false,
            last_sensor_ns: 0,
        }
    }
}

/// Whether a record of `len` payload bytes fits the ring's free space.
pub open spec fn spec_ring_fits(m: HelperModel, len: int) -> bool {
    len < 0x40000000 && spec_record_total(len) <= m.ring_size - (m.ring_prod - m.ring_cons)
}

/// The state after committing one payload.
pub open spec fn spec_push_record(m: HelperModel, payload: Seq<u8>) -> HelperModel {
    HelperModel {
        committed: m.committed.push(payload),
        ring_prod: m.ring_prod + spec_record_total(payload.len() as int),
        ..m
    }
}

/// The state after one dropped record; the counter saturates.
pub open spec fn spec_count_drop(m: HelperModel) -> HelperModel {
    HelperModel {
        drops: if m.drops == 0xffff_ffff_ffff_ffffu64 {
            m.drops
        } else {
            (m.drops + 1) as u64
        },
        ..m
    }
}

/// Whether the producer position is still far from the end of its numeric
/// range; a producer at the guard drops the record rather than overflow.
pub open spec fn spec_prod_guard(m: HelperModel) -> bool {
    m.ring_prod < 0x4000000000000000
}

/// The record the time-series helper commits: a time-series event stamped
/// with the helper clock, with the series id from r1, the value from r2 and
/// the tag from r3.
pub open spec fn spec_ts_payload(m: HelperModel, a1: u64, a2: u64, a3: u64) -> Seq<u8> {
    spec_timeseries_bytes(
        TimeSeriesEvent {
            header: EventHeader {
                timestamp_ns: m.time_ns,
                event_type: TIMESERIES_EVENT_TYPE,
                cpu: 0,
                pid: 0,
                reserved: 0,
            },
            series_id: a1 as u32,
            pad: 0,
            value: a2 as i64,
            tag: a3 as u32,
            reserved2: 0,
        },
    )
}

/// One commit attempt: the payload joins the trace and r0 is zero when it
/// fits and the guard holds; otherwise the drop counter steps and r0 is the
/// all-ones error value. The producer never blocks and never aborts.
pub open spec fn spec_output_record(m: HelperModel, payload: Seq<u8>) -> (HelperModel, u64) {
    if spec_prod_guard(m) && spec_ring_fits(m, payload.len() as int) {
        (spec_push_record(m, payload), 0u64)
    } else {
        (spec_count_drop(m), 0xffff_ffff_ffff_ffffu64)
    }
}

/// One helper call: from the helper state, the id, the five argument
/// registers and the scratch stack to the next state and the value stored
/// into r0. The clock and timestamp reads leave the state alone; the
/// ring-buffer commit reads r3 bytes of the stack at r2 (an out-of-range
/// read returns the error value without touching the ring); the backlog
/// query returns the unconsumed byte count; the emergency stop sets the
/// latch; the time-series push commits a stamped record built from r1, r2
/// and r3. An id without an entry returns zero.
pub open spec fn spec_dispatch(
    m: HelperModel,
    id: u32,
    a1: u64,
    a2: u64,
    a3: u64,
    a4: u64,
    a5: u64,
    stack: Seq<u8>,
) -> (HelperModel, u64) {
    if id == HELPER_KTIME_GET_NS {
        (m, m.time_ns)
    } else if id == HELPER_RINGBUF_OUTPUT {
        if a2 + a3 <= stack.len() {
            spec_output_record(m, stack.subrange(a2 as int, a2 + a3))
        } else {
            (m, 0xffff_ffff_ffff_ffffu64)
        }
    } else if id == HELPER_RINGBUF_QUERY {
        (m, (m.ring_prod - m.ring_cons) as u64)
    } else if id == HELPER_EMERGENCY_STOP {
        (HelperModel { estopped: true, ..m }, 0u64)
    } else if id == HELPER_TIMESERIES_PUSH {
        spec_output_record(m, spec_ts_payload(m, a1, a2, a3))
    } else if id == HELPER_SENSOR_LAST_TIMESTAMP {
        (m, m.last_sensor_ns)
    } else {
        (m, 0u64)
    }
}

/// The runtime's helper table: the clock, the event ring, the drop counter,
/// the emergency-stop latch and the last sensor timestamp. The embedding
/// runtime sets the clock and the sensor timestamp between program runs and
/// drains the ring.
pub struct HelperTable {
    time_ns: u64,
    ring: RingBuf,
    drops: u64,
    estopped: bool,
    last_sensor_ns: u64,
}

impl HelperTable {
    /// The helper state this table holds.
    pub closed spec fn spec_model(&self) -> HelperModel {
        HelperModel {
            time_ns: self.time_ns,
            committed: self.ring.spec_committed(),
            consumed: self.ring.spec_consumed(),
            ring_prod: self.ring.spec_producer_pos(),
            ring_cons: self.ring.spec_consumer_pos(),
            ring_size: self.ring.spec_size(),
            drops: self.drops,
            estopped: self.estopped,
            last_sensor_ns: self.last_sensor_ns,
        }
    }

    /// The table invariant: the ring holds its protocol invariant and its
    /// producer position stays clear of the numeric range's end.
    pub closed spec fn wf(&self) -> bool {
        &&& self.ring.wf()
        &&& self.ring.spec_size() <= 0x10000000
        &&& self.ring.spec_producer_pos() < 0x4000000000000000 + 0x80000000
    }

    /// A fresh table in the default helper state.
    pub fn new() -> (r: Self)
        ensures
            r.wf(),
            r.spec_model() == HelperModel::default_model(),
    {
        let ring = match RingBuf::with_size(0x10000) {
            Some(rb) => rb,
            None => {
                proof {
                    assert(false);
                }
                vstd::pervasive::unreached()
            },
        };
        let t = HelperTable { time_ns: 0, ring, drops: 0, estopped: false, last_sensor_ns: 0 };
        proof {
            assert(t.spec_model().committed =~= Seq::<Seq<u8>>::empty());
            assert(t.spec_model() == HelperModel::default_model());
        }
        t
    }

    /// Sets the clock the time helpers read.
    pub fn set_time_ns(&mut self, t: u64)
        ensures
            final(self).spec_model() == (HelperModel { time_ns: t, ..old(self).spec_model() }),
            final(self).wf() == old(self).wf(),
    {
        self.time_ns = t;
    }

    /// Records the timestamp of the latest sensor event.
    pub fn note_sensor_timestamp(&mut self, t: u64)
        ensures
            final(self).spec_model() == (HelperModel {
                last_sensor_ns: t,
                ..old(self).spec_model()
            }),
            final(self).wf() == old(self).wf(),
    {
        self.last_sensor_ns = t;
    }

    /// How many records were dropped for want of ring space.
    pub fn drops(&self) -> (r: u64)
        ensures
            r == self.spec_model().drops,
    {
        self.drops
    }

    /// Whether the emergency-stop latch is set.
    pub fn emergency_stopped(&self) -> (r: bool)
        ensures
            r == self.spec_model().estopped,
    {
        self.estopped
    }

    /// Takes the oldest committed record not yet consumed, as the ring's
    /// consumer side does.
    pub fn read_event(&mut self) -> (r: Option<Vec<u8>>)
        requires
            old(self).wf(),
        ensures
            final(self).wf(),
            r is None <==> old(self).spec_model().consumed == old(self).spec_model().committed.len(),
            r is None ==> final(self).spec_model() == old(self).spec_model(),
            r is Some ==> r->Some_0@ == old(self).spec_model().committed[old(
                self,
            ).spec_model().consumed] && final(self).spec_model() == (HelperModel {
                consumed: old(self).spec_model().consumed + 1,
                ring_cons: old(self).spec_model().ring_cons + spec_record_total(
                    r->Some_0@.len() as int,
                ),
                ..old(self).spec_model()
            }),
    {
        self.ring.read_event()
    }

    /// Commits one record, or counts a drop when it cannot.
    fn output_record(&mut self, payload: &Vec<u8>) -> (r: u64)
        requires
            old(self).wf(),
        ensures
            final(self).wf(),
            (final(self).spec_model(), r) == spec_output_record(
                old(self).spec_model(),
                payload@,
            ),
    {
        if self.ring.producer_pos() < 0x4000000000000000 {
            let ok = self.ring.produce(payload);
            proof {
                let len = payload@.len() as int;
                vstd::arithmetic::div_mod::lemma_fundamental_div_mod(len + 7, 8);
                vstd::arithmetic::div_mod::lemma_mod_bound(len + 7, 8);
                assert(8 * ((len + 7) / 8) == ((len + 7) / 8) * 8) by (nonlinear_arith);
                assert(crate::ringbuf::spec_round8(len) <= len + 7);
            }
            if ok {
                0
            } else {
                if self.drops != 0xffff_ffff_ffff_ffff {
                    self.drops = self.drops + 1;
                }
                0xffff_ffff_ffff_ffff
            }
        } else {
            if self.drops != 0xffff_ffff_ffff_ffff {
                self.drops = self.drops + 1;
            }
            0xffff_ffff_ffff_ffff
        }
    }

    /// One helper call over the table: the id picks the helper, the five
    /// argument registers and the scratch stack feed it, and the result is
    /// what the call stores into r0.
    pub fn dispatch(
        &mut self,
        id: u32,
        a1: u64,
        a2: u64,
        a3: u64,
        a4: u64,
        a5: u64,
        stack: &Vec<u8>,
    ) -> (r: u64)
        requires
            old(self).wf(),
        ensures
            final(self).wf(),
            (final(self).spec_model(), r) == spec_dispatch(
                old(self).spec_model(),
                id,
                a1,
                a2,
                a3,
                a4,
                a5,
                stack@,
            ),
    {
        if id == HELPER_KTIME_GET_NS {
            self.time_ns
        } else if id == HELPER_RINGBUF_OUTPUT {
            let n = stack.len() as u64;
            if a3 <= n && a2 <= n - a3 {
                let mut payload: Vec<u8> = Vec::new();
                let mut i: u64 = 0;
                while i < a3
                    invariant
                        i <= a3,
                        a2 + a3 <= n,
                        n <= usize::MAX,
                        n == stack@.len(),
                        payload@ == stack@.subrange(a2 as int, a2 + i),
                    decreases a3 - i,
                {
                    payload.push(stack[(a2 + i) as usize]);
                    proof {
                        assert(payload@ =~= stack@.subrange(a2 as int, a2 + (i + 1)));
                    }
                    i = i + 1;
                }
                self.output_record(&payload)
            } else {
                0xffff_ffff_ffff_ffff
            }
        } else if id == HELPER_RINGBUF_QUERY {
            self.ring.available()
        } else if id == HELPER_EMERGENCY_STOP {
            self.estopped = true;
            0
        } else if id == HELPER_TIMESERIES_PUSH {
            let ev = TimeSeriesEvent {
                header: EventHeader {
                    timestamp_ns: self.time_ns,
                    event_type: TIMESERIES_EVENT_TYPE,
                    cpu: 0,
                    pid: 0,
                    reserved: 0,
                },
                series_id: a1 as u32,
                pad: 0,
                value: a2 as i64,
                tag: a3 as u32,
                reserved2: 0,
            };
            let payload = ev.to_bytes();
            self.output_record(&payload)
        } else if id == HELPER_SENSOR_LAST_TIMESTAMP {
            self.last_sensor_ns
        } else {
            0
        }
    }
}

} // verus!
