//! The single-producer/single-consumer ring buffer: a header with two
//! monotonic byte positions and a power-of-two data region holding 8-byte
//! aligned records, each an 8-byte header (length word and page offset)
//! followed by the payload, wrapping at the region size.
//!
//! This model holds both endpoints of the mapping in one place, so the busy
//! bit of the record header is never observed set: a committed record is
//! complete. The discard bit is likewise recognized by the consumer but the
//! producer here always commits its reservation.

use vstd::prelude::*;
use crate::loader::elf::{read_u32_at, spec_read_u32};

verus! {

/// The busy flag of a record length word.
pub open spec fn spec_busy(len: u32) -> bool {
    len & 0x80000000 != 0
}

/// The discard flag of a record length word.
pub open spec fn spec_discarded(len: u32) -> bool {
    len & 0x40000000 != 0
}

/// The payload length of a record length word: its low 30 bits.
pub open spec fn spec_data_len(len: u32) -> u32 {
    len & 0x3fffffff
}

/// A record length word below the flag bits carries no flags and is its own
/// payload length.
proof fn lemma_small_len(len: u32)
    by (bit_vector)
    requires
        len < 0x40000000,
    ensures
        !spec_busy(len),
        !spec_discarded(len),
        spec_data_len(len) == len,
{
}

/// A record header: the length-or-flags word and the page offset.
#[derive(Debug, Clone, Copy, PartialEq, Eq, Structural)]
pub struct RecordHeader {
    pub len: u32,
    pub pg_off: u32,
}

impl RecordHeader {
    /// Whether the record is still being written.
    pub fn is_busy(&self) -> (r: bool)
        ensures
            r == spec_busy(self.len),
    {
        self.len & 0x80000000 != 0
    }

    /// Whether the record was abandoned and is to be skipped.
    pub fn is_discarded(&self) -> (r: bool)
        ensures
            r == spec_discarded(self.len),
    {
        self.len & 0x40000000 != 0
    }

    /// The payload length.
    pub fn data_len(&self) -> (r: u32)
        ensures
            r == spec_data_len(self.len),
    {
        self.len & 0x3fffffff
    }
}

/// The payload length rounded up to whole 8-byte units.
pub open spec fn spec_round8(n: int) -> int {
    (n + 7) / 8 * 8
}

/// The total footprint of a record: its 8-byte header plus the rounded
/// payload.
pub open spec fn spec_record_total(payload_len: int) -> int {
    8 + spec_round8(payload_len)
}

/// The total footprint of a queue of pending payloads.
pub open spec fn spec_pending_total(items: Seq<Seq<u8>>) -> int
    decreases items.len(),
{
    if items.len() == 0 {
        0
    } else {
        spec_record_total(items[0].len() as int) + spec_pending_total(items.drop_first())
    }
}

/// Rounding up to 8 stays within 7 bytes and is a multiple of 8.
proof fn lemma_round8(n: int)
    requires
        n >= 0,
    ensures
        n <= spec_round8(n) <= n + 7,
        spec_round8(n) % 8 == 0,
{
    vstd::arithmetic::div_mod::lemma_fundamental_div_mod(n + 7, 8);
    let q = (n + 7) / 8;
    assert(q * 8 == 8 * q) by (nonlinear_arith);
    vstd::arithmetic::div_mod::lemma_mod_multiples_basic(q, 8);
}

/// Every record footprint is positive and the queue total is the head's
/// footprint plus the rest.
proof fn lemma_pending_total_nonneg(items: Seq<Seq<u8>>)
    ensures
        spec_pending_total(items) >= 0,
    decreases items.len(),
{
    if items.len() > 0 {
        lemma_round8(items[0].len() as int);
        lemma_pending_total_nonneg(items.drop_first());
    }
}

/// The records of `items` laid out consecutively from absolute byte
/// position `pos`: each header holds the payload length (below the flag
/// bits) and each payload byte sits at its wrapped offset.
pub open spec fn spec_records_at(data: Seq<u8>, size: int, pos: int, items: Seq<Seq<u8>>) -> bool
    decreases items.len(),
{
    items.len() == 0 || {
        let pl = items[0];
        let hp = pos % size;
        &&& pl.len() < 0x40000000
        &&& spec_read_u32(data, hp, true) == pl.len()
        &&& forall|k: int|
            0 <= k < pl.len() ==> data[(pos + 8 + k) % size] == #[trigger] pl[k]
        &&& spec_records_at(data, size, pos + spec_record_total(pl.len() as int), items.drop_first())
    }
}

/// Two absolute positions less than one buffer apart wrap to different
/// offsets.
proof fn lemma_mod_distinct(a: int, b: int, size: int)
    requires
        size >= 1,
        0 <= a,
        a < b,
        b - a < size,
    ensures
        a % size != b % size,
{
    vstd::arithmetic::div_mod::lemma_fundamental_div_mod(a, size);
    vstd::arithmetic::div_mod::lemma_fundamental_div_mod(b, size);
    if a % size == b % size {
        let qa = a / size;
        let qb = b / size;
        assert(b - a == size * (qb - qa)) by (nonlinear_arith)
            requires
                a == size * qa + a % size,
                b == size * qb + b % size,
                a % size == b % size,
        ;
        assert(size * (qb - qa) >= size || size * (qb - qa) <= 0) by (nonlinear_arith)
            requires
                size >= 1,
        ;
    }
}

/// The wrapped offset of an absolute position.
pub open spec fn spec_wrap(o: int, size: int) -> int {
    o % size
}

/// Whether offset `idx` is written by the absolute span `[wlo, whi)`.
pub open spec fn spec_in_window(wlo: int, whi: int, size: int, idx: int) -> bool {
    exists|o: int| wlo <= o < whi && #[trigger] spec_wrap(o, size) == idx
}

/// A span member's wrapped offset is in the window.
proof fn lemma_window_member(wlo: int, whi: int, size: int, o: int)
    requires
        wlo <= o < whi,
    ensures
        spec_in_window(wlo, whi, size, spec_wrap(o, size)),
{
    assert(spec_wrap(o, size) == spec_wrap(o, size));
}

/// A window only grows when its end moves right.
proof fn lemma_window_mono(wlo: int, whi1: int, whi2: int, size: int, idx: int)
    requires
        whi1 <= whi2,
        spec_in_window(wlo, whi1, size, idx),
    ensures
        spec_in_window(wlo, whi2, size, idx),
{
    let o = choose|o: int| wlo <= o < whi1 && #[trigger] spec_wrap(o, size) == idx;
    assert(spec_wrap(o, size) == idx);
}

/// Pending records are untouched by writes at or past their end, as long as
/// the whole span stays within one buffer length.
proof fn lemma_records_frame(
    d1: Seq<u8>,
    d2: Seq<u8>,
    size: int,
    pos: int,
    items: Seq<Seq<u8>>,
    wlo: int,
    whi: int,
)
    requires
        size >= 8,
        size % 8 == 0,
        d1.len() == size,
        d2.len() == size,
        0 <= pos,
        pos % 8 == 0,
        pos + spec_pending_total(items) <= wlo,
        whi - pos <= size,
        wlo <= whi,
        forall|idx: int|
            0 <= idx < size && !spec_in_window(wlo, whi, size, idx) ==> #[trigger] d2[idx]
                == d1[idx],
    ensures
        spec_records_at(d1, size, pos, items) ==> spec_records_at(d2, size, pos, items),
    decreases items.len(),
{
    if items.len() > 0 && spec_records_at(d1, size, pos, items) {
        let pl = items[0];
        let total = spec_record_total(pl.len() as int);
        lemma_round8(pl.len() as int);
        lemma_pending_total_nonneg(items.drop_first());
        // every byte of this record lies strictly before `wlo`, so its
        // wrapped offset differs from every written offset
        assert forall|o: int| pos <= o < pos + total implies !spec_in_window(
            wlo,
            whi,
            size,
            spec_wrap(o, size),
        ) by {
            vstd::arithmetic::div_mod::lemma_mod_bound(o, size);
            if spec_in_window(wlo, whi, size, spec_wrap(o, size)) {
                let o2 = choose|o2: int|
                    wlo <= o2 < whi && #[trigger] spec_wrap(o2, size) == spec_wrap(o, size);
                lemma_mod_distinct(o, o2, size);
            }
        }
        assert(spec_read_u32(d2, pos % size, true) == spec_read_u32(d1, pos % size, true)) by {
            vstd::arithmetic::div_mod::lemma_mod_bound(pos, size);
            let hp = pos % size;
            assert forall|j: int| 0 <= j < 8 implies #[trigger] d2[hp + j] == d1[hp + j] by {
                lemma_hp_contiguous(pos, size, j);
                assert(hp + j == (pos + j) % size);
                assert(!spec_in_window(wlo, whi, size, spec_wrap(pos + j, size)));
                vstd::arithmetic::div_mod::lemma_mod_bound(pos + j, size);
            }
            assert(d2[hp + 0] == d1[hp + 0] && d2[hp + 1] == d1[hp + 1] && d2[hp + 2] == d1[hp + 2]
                && d2[hp + 3] == d1[hp + 3]);
            assert(d2[hp] == d1[hp]);
        }
        assert forall|k: int| 0 <= k < pl.len() implies d2[(pos + 8 + k) % size]
            == #[trigger] pl[k] by {
            assert(!spec_in_window(wlo, whi, size, spec_wrap(pos + 8 + k, size)));
            vstd::arithmetic::div_mod::lemma_mod_bound(pos + 8 + k, size);
            assert(d2[(pos + 8 + k) % size] == d1[(pos + 8 + k) % size]);
        }
        assert((pos + total) % 8 == 0) by (nonlinear_arith)
            requires
                pos % 8 == 0,
                total % 8 == 0,
        ;
        assert(total % 8 == 0) by (nonlinear_arith)
            requires
                spec_round8(pl.len() as int) % 8 == 0,
                total == 8 + spec_round8(pl.len() as int),
        ;
        lemma_records_frame(d1, d2, size, pos + total, items.drop_first(), wlo, whi);
    }
}

/// An 8-aligned position wraps to an offset at least 8 bytes short of the
/// end, so its 8 header bytes are contiguous.
proof fn lemma_hp_contiguous(pos: int, size: int, j: int)
    requires
        size >= 8,
        size % 8 == 0,
        pos >= 0,
        pos % 8 == 0,
        0 <= j < 8,
    ensures
        pos % size + 8 <= size,
        pos % size + j == (pos + j) % size,
        (pos % size) % 8 == 0,
{
    let a = pos / 8;
    let b = size / 8;
    vstd::arithmetic::div_mod::lemma_fundamental_div_mod(pos, 8);
    vstd::arithmetic::div_mod::lemma_fundamental_div_mod(size, 8);
    assert(b >= 1);
    assert(a >= 0) by (nonlinear_arith)
        requires
            pos >= 0,
            pos == 8 * a,
    ;
    vstd::arithmetic::div_mod::lemma_truncate_middle(a, 8, b);
    assert(pos % size == 8 * (a % b)) by {
        assert(8 * a == pos && 8 * b == size);
    }
    let m = a % b;
    vstd::arithmetic::div_mod::lemma_mod_bound(a, b);
    assert(pos % size + 8 <= size) by (nonlinear_arith)
        requires
            pos % size == 8 * m,
            0 <= m < b,
            size == 8 * b,
    ;
    vstd::arithmetic::div_mod::lemma_mod_multiples_basic(m, 8);
    assert((8 * m) % 8 == (m * 8) % 8) by (nonlinear_arith);
    vstd::arithmetic::div_mod::lemma_mod_bound(pos, size);
    vstd::arithmetic::div_mod::lemma_fundamental_div_mod(pos, size);
    vstd::arithmetic::div_mod::lemma_fundamental_div_mod_converse(
        pos + j,
        size,
        pos / size,
        pos % size + j,
    );
}

/// The sequential model of a mapped ring buffer, holding both endpoints:
/// the data region, the two monotonic positions, and the trace of committed
/// payloads with how many of them the consumer has taken.
pub struct RingBuf {
    data: Vec<u8>,
    size: u64,
    producer_pos: u64,
    consumer_pos: u64,
    committed: Ghost<Seq<Seq<u8>>>,
    consumed: Ghost<int>,
}

impl RingBuf {
    /// The payloads the producer has committed, in order.
    pub closed spec fn spec_committed(&self) -> Seq<Seq<u8>> {
        self.committed@
    }

    /// How many committed payloads the consumer has taken.
    pub closed spec fn spec_consumed(&self) -> int {
        self.consumed@
    }

    /// The data region size.
    pub closed spec fn spec_size(&self) -> int {
        self.size as int
    }

    /// The producer position.
    pub closed spec fn spec_producer_pos(&self) -> int {
        self.producer_pos as int
    }

    /// The consumer position.
    pub closed spec fn spec_consumer_pos(&self) -> int {
        self.consumer_pos as int
    }

    /// The payloads committed and not yet consumed.
    pub open spec fn spec_pending(&self) -> Seq<Seq<u8>> {
        self.spec_committed().skip(self.spec_consumed())
    }

    /// The protocol invariant: positions are 8-aligned and at most one
    /// buffer apart, and the region between them holds exactly the encoded
    /// pending records, in order.
    pub closed spec fn wf(&self) -> bool {
        &&& self.size >= 8
        &&& self.size <= 0x10000000
        &&& self.size % 8 == 0
        &&& self.data@.len() == self.size
        &&& 0 <= self.consumed@ <= self.committed@.len()
        &&& self.consumer_pos <= self.producer_pos
        &&& self.consumer_pos % 8 == 0
        &&& self.producer_pos % 8 == 0
        &&& self.producer_pos - self.consumer_pos == spec_pending_total(self.spec_pending())
        &&& self.producer_pos - self.consumer_pos <= self.size
        &&& spec_records_at(
            self.data@,
            self.size as int,
            self.consumer_pos as int,
            self.spec_pending(),
        )
    }

    /// An empty ring whose data region holds `size` zero bytes. The size
    /// must be a positive multiple of 8 (the protocol's default is a 64 KiB
    /// power of two).
    pub fn with_size(size: u64) -> (r: Option<RingBuf>)
        ensures
            (size >= 8 && size % 8 == 0 && size <= 0x10000000) <==> r is Some,
            r is Some ==> r->Some_0.wf() && r->Some_0.spec_committed().len() == 0 && r->Some_0
                .spec_consumed() == 0 && r->Some_0.spec_size() == size && r->Some_0
                .spec_producer_pos() == 0 && r->Some_0.spec_consumer_pos() == 0,
    {
        if !(size >= 8 && size % 8 == 0 && size <= 0x10000000) {
            return None;
        }
        let mut data: Vec<u8> = Vec::new();
        let mut i: u64 = 0;
        while i < size
            invariant
                i <= size,
                data@.len() == i,
            decreases size - i,
        {
            data.push(0);
            i = i + 1;
        }
        let rb = RingBuf {
            data,
            size,
            producer_pos: 0,
            consumer_pos: 0,
            committed: Ghost(Seq::empty()),
            consumed: Ghost(0),
        };
        proof {
            assert(rb.spec_pending() =~= Seq::<Seq<u8>>::empty());
        }
        Some(rb)
    }

    /// The producer position, as the consumer observes it.
    pub fn producer_pos(&self) -> (r: u64)
        ensures
            r == self.spec_producer_pos(),
    {
        self.producer_pos
    }

    /// The consumer position, as the producer observes it.
    pub fn consumer_pos(&self) -> (r: u64)
        ensures
            r == self.spec_consumer_pos(),
    {
        self.consumer_pos
    }

    /// Bytes available to read.
    pub fn available(&self) -> (r: u64)
        requires
            self.wf(),
        ensures
            r == self.spec_producer_pos() - self.spec_consumer_pos(),
    {
        self.producer_pos - self.consumer_pos
    }

    /// Whether nothing is pending.
    pub fn is_empty(&self) -> (r: bool)
        requires
            self.wf(),
        ensures
            r == (self.spec_producer_pos() == self.spec_consumer_pos()),
    {
        self.producer_pos == self.consumer_pos
    }

    /// Commits one record: reserves the record footprint, writes the header
    /// and the payload (wrapping at the region size), and publishes the new
    /// producer position. Fails, changing nothing, exactly when the payload
    /// alone exceeds the record format's 30-bit length, or the footprint
    /// does not fit in the free space. On success the payload joins the
    /// committed trace.
    #[verifier::rlimit(100)]
    pub fn produce(&mut self, payload: &Vec<u8>) -> (ok: bool)
        requires
            old(self).wf(),
            old(self).spec_producer_pos() + old(self).spec_size() + 16 < 0x8000000000000000,
        ensures
            final(self).wf(),
            ok <==> payload@.len() < 0x40000000 && spec_record_total(payload@.len() as int)
                <= old(self).spec_size() - (old(self).spec_producer_pos()
                - old(self).spec_consumer_pos()),
            ok ==> final(self).spec_committed() == old(self).spec_committed().push(payload@)
                && final(self).spec_consumed() == old(self).spec_consumed(),
            ok ==> final(self).spec_producer_pos() == old(self).spec_producer_pos()
                + spec_record_total(payload@.len() as int) && final(self).spec_consumer_pos()
                == old(self).spec_consumer_pos() && final(self).spec_size() == old(
                self,
            ).spec_size(),
            !ok ==> *final(self) == *old(self),
    {
        let plen = payload.len() as u64;
        if plen >= 0x40000000 {
            return false;
        }
        let rounded = (plen + 7) / 8 * 8;
        let total = 8 + rounded;
        let pending = self.producer_pos - self.consumer_pos;
        let free = self.size - pending;
        proof {
            lemma_round8(plen as int);
        }
        if total > free {
            return false;
        }
        let ghost d1 = self.data@;
        let ghost wlo = self.producer_pos as int;
        let ghost whi = self.producer_pos + total;
        let base = self.producer_pos;
        // header: the length word, then a zero page offset
        let w0 = plen as u32;
        self.write_at(base, (w0 % 256) as u8);
        self.write_at(base + 1, ((w0 / 256) % 256) as u8);
        self.write_at(base + 2, ((w0 / 0x10000) % 256) as u8);
        self.write_at(base + 3, ((w0 / 0x1000000) % 256) as u8);
        self.write_at(base + 4, 0);
        self.write_at(base + 5, 0);
        self.write_at(base + 6, 0);
        self.write_at(base + 7, 0);
        proof {
            let sz = self.size as int;
            assert forall|j1: int, j2: int| 0 <= j1 < j2 < 8 implies #[trigger] spec_wrap(
                base + j1,
                sz,
            ) != #[trigger] spec_wrap(base + j2, sz) by {
                lemma_mod_distinct(base + j1, base + j2, sz);
            }
            assert forall|idx: int|
                0 <= idx < sz && !spec_in_window(base as int, base + 8 as int, sz, idx)
                    implies #[trigger] self.data@[idx] == d1[idx] by {
                lemma_window_member(base as int, base + 8 as int, sz, base as int);
                lemma_window_member(base as int, base + 8 as int, sz, base + 1);
                lemma_window_member(base as int, base + 8 as int, sz, base + 2);
                lemma_window_member(base as int, base + 8 as int, sz, base + 3);
                lemma_window_member(base as int, base + 8 as int, sz, base + 4);
                lemma_window_member(base as int, base + 8 as int, sz, base + 5);
                lemma_window_member(base as int, base + 8 as int, sz, base + 6);
                lemma_window_member(base as int, base + 8 as int, sz, base + 7);
            }
        }
        let n = payload.len();
        let mut k: usize = 0;
        while k < n
            invariant
                k <= n,
                n == payload@.len(),
                n < 0x40000000,
                self.size >= 8,
                self.size % 8 == 0,
                self.data@.len() == self.size,
                base == old(self).producer_pos,
                base + 8 + n <= base + total,
                total <= self.size,
                base + total < 0x8000000000000000,
                self.producer_pos == old(self).producer_pos,
                self.consumer_pos == old(self).consumer_pos,
                self.committed == old(self).committed,
                self.consumed == old(self).consumed,
                self.size == old(self).size,
                forall|idx: int|
                    0 <= idx < self.size as int && !spec_in_window(
                        base as int,
                        base + 8 + k,
                        self.size as int,
                        idx,
                    ) ==> #[trigger] self.data@[idx] == d1[idx],
                forall|j: int|
                    0 <= j < 8 ==> #[trigger] self.data@[(base + j) % (self.size as int)] == (
                    if j == 0 {
                        (w0 % 256) as u8
                    } else if j == 1 {
                        ((w0 / 256) % 256) as u8
                    } else if j == 2 {
                        ((w0 / 0x10000) % 256) as u8
                    } else if j == 3 {
                        ((w0 / 0x1000000) % 256) as u8
                    } else {
                        0u8
                    }),
                forall|m: int|
                    0 <= m < k ==> self.data@[(base + 8 + m) % (self.size as int)]
                        == #[trigger] payload@[m],
            decreases n - k,
        {
            let ghost dpre = self.data@;
            self.write_at(base + 8 + k as u64, payload[k]);
            proof {
                let sz = self.size as int;
                let p = base + 8 + k;
                assert forall|j: int| 0 <= j < 8 implies #[trigger] self.data@[(base + j) % sz]
                    == dpre[(base + j) % sz] by {
                    lemma_mod_distinct(base + j, p, sz);
                    vstd::arithmetic::div_mod::lemma_mod_bound(base + j, sz);
                }
                assert forall|m: int| 0 <= m < k implies self.data@[(base + 8 + m) % sz]
                    == #[trigger] payload@[m] by {
                    lemma_mod_distinct(base + 8 + m, p, sz);
                    vstd::arithmetic::div_mod::lemma_mod_bound(base + 8 + m, sz);
                }
                assert forall|idx: int|
                    0 <= idx < sz && !spec_in_window(base as int, p + 1, sz, idx)
                        implies #[trigger] self.data@[idx] == d1[idx] by {
                    if idx == spec_wrap(p, sz) {
                        lemma_window_member(base as int, p + 1, sz, p);
                        assert(false);
                    }
                    if spec_in_window(base as int, p, sz, idx) {
                        lemma_window_mono(base as int, p, p + 1, sz, idx);
                        assert(false);
                    }
                    assert(self.data@[idx] == dpre[idx]);
                }
            }
            k = k + 1;
        }
        self.producer_pos = self.producer_pos + total;
        proof {
            let sz = self.size as int;
            let ghost oldp = old(self).spec_pending();
            lemma_pending_total_nonneg(oldp);
            self.committed = Ghost(self.committed@.push(payload@));
            assert(self.spec_pending() =~= oldp.push(payload@));
            // the old pending records are untouched
            assert forall|idx: int|
                0 <= idx < sz && !spec_in_window(wlo, whi, sz, idx)
                    implies #[trigger] self.data@[idx] == d1[idx] by {
                if spec_in_window(base as int, base + 8 + payload@.len(), sz, idx) {
                    let o = choose|o: int|
                        base <= o < base + 8 + payload@.len() && #[trigger] spec_wrap(o, sz) == idx;
                    lemma_window_member(wlo, whi, sz, o);
                    assert(false);
                }
            }
            lemma_records_frame(
                d1,
                self.data@,
                sz,
                old(self).consumer_pos as int,
                oldp,
                wlo,
                whi,
            );
            // the appended record reads back
            lemma_records_append(
                self.data@,
                sz,
                old(self).consumer_pos as int,
                oldp,
                payload@,
                w0,
            );
            lemma_pending_total_push(oldp, payload@);
        }
        true
    }

    /// Writes one byte at an absolute position's wrapped offset.
    fn write_at(&mut self, pos: u64, b: u8)
        requires
            old(self).size >= 8,
            old(self).data@.len() == old(self).size,
        ensures
            final(self).data@ == old(self).data@.update(
                ((pos as int) % (old(self).size as int)) as int,
                b,
            ),
            final(self).size == old(self).size,
            final(self).producer_pos == old(self).producer_pos,
            final(self).consumer_pos == old(self).consumer_pos,
            final(self).committed == old(self).committed,
            final(self).consumed == old(self).consumed,
            forall|idx: int|
                0 <= idx < old(self).size as int && idx != (pos as int) % (old(self).size as int)
                    ==> final(self).data@[idx] == old(self).data@[idx],
            final(self).data@[(pos as int) % (old(self).size as int)] == b,
    {
        let off = (pos % self.size) as usize;
        proof {
            vstd::arithmetic::div_mod::lemma_mod_bound(pos as int, self.size as int);
        }
        self.data.set(off, b);
    }

    /// Reads the next record: loads both positions, reads the record header
    /// at the wrapped consumer offset, skips a busy or discarded record, and
    /// otherwise copies the payload (reassembling across the wrap) and
    /// advances the consumer position. The payload returned is exactly the
    /// oldest committed payload not yet consumed.
    pub fn read_event(&mut self) -> (r: Option<Vec<u8>>)
        requires
            old(self).wf(),
        ensures
            final(self).wf(),
            r is None <==> old(self).spec_consumed() == old(self).spec_committed().len(),
            r is None ==> *final(self) == *old(self),
            r is Some ==> r->Some_0@ == old(self).spec_committed()[old(self).spec_consumed()]
                && final(self).spec_consumed() == old(self).spec_consumed() + 1
                && final(self).spec_committed() == old(self).spec_committed(),
            r is Some ==> final(self).spec_consumer_pos() == old(self).spec_consumer_pos()
                + spec_record_total(r->Some_0@.len() as int) && final(self).spec_producer_pos()
                == old(self).spec_producer_pos() && final(self).spec_size() == old(
                self,
            ).spec_size(),
    {
        let ghost pend = self.spec_pending();
        proof {
            if self.consumed@ < self.committed@.len() {
                assert(pend.len() > 0);
                lemma_round8(pend[0].len() as int);
                lemma_pending_total_nonneg(pend.drop_first());
            } else {
                assert(pend.len() == 0);
            }
        }
        if self.consumer_pos >= self.producer_pos {
            return None;
        }
        let sz = self.size;
        proof {
            lemma_hp_contiguous(self.consumer_pos as int, sz as int, 0);
        }
        let hp = (self.consumer_pos % sz) as usize;
        let len_word = read_u32_at(&self.data, hp, true);
        let header = RecordHeader { len: len_word, pg_off: 0 };
        proof {
            assert(hp as int == (self.consumer_pos as int) % (sz as int));
            assert(spec_read_u32(self.data@, hp as int, true) == pend[0].len());
            assert(len_word == pend[0].len());
            lemma_small_len(len_word);
        }
        if header.is_busy() {
            proof {
                assert(false);
            }
            return None;
        }
        let data_len = header.data_len() as u64;
        let rounded = (data_len + 7) / 8 * 8;
        let total = 8 + rounded;
        if header.is_discarded() {
            proof {
                assert(false);
            }
            return None;
        }
        let mut out: Vec<u8> = Vec::new();
        let n = data_len as usize;
        let base = self.consumer_pos;
        proof {
            lemma_round8(pend[0].len() as int);
            lemma_pending_total_nonneg(pend.drop_first());
            assert(base + 8 + n <= self.producer_pos);
        }
        let mut k: usize = 0;
        while k < n
            invariant
                k <= n,
                n == pend[0].len(),
                self.wf(),
                *self == *old(self),
                pend == self.spec_pending(),
                pend.len() > 0,
                base == self.consumer_pos,
                base + 8 + n <= self.producer_pos,
                sz == self.size,
                out@.len() == k,
                forall|m: int| 0 <= m < k ==> #[trigger] out@[m] == pend[0][m],
            decreases n - k,
        {
            proof {
                vstd::arithmetic::div_mod::lemma_mod_bound(base + 8 + k, sz as int);
                assert(self.data@[(base + 8 + k) % (sz as int)] == pend[0][k as int]);
            }
            let off = ((base + 8 + k as u64) % sz) as usize;
            out.push(self.data[off]);
            k = k + 1;
        }
        self.consumer_pos = self.consumer_pos + total;
        proof {
            self.consumed = Ghost(self.consumed@ + 1);
            assert(self.spec_pending() =~= pend.drop_first());
            assert(out@ =~= pend[0]);
            assert(pend[0] == old(self).spec_committed()[old(self).spec_consumed()]);
        }
        Some(out)
    }
}

/// Appending a freshly written record after the pending ones extends the
/// record layout by one.
proof fn lemma_records_append(
    data: Seq<u8>,
    size: int,
    pos: int,
    items: Seq<Seq<u8>>,
    pl: Seq<u8>,
    w0: u32,
)
    requires
        size >= 8,
        size % 8 == 0,
        data.len() == size,
        pos >= 0,
        pos % 8 == 0,
        pl.len() < 0x40000000,
        w0 == pl.len(),
        spec_records_at(data, size, pos, items),
        spec_pending_total(items) % 8 == 0,
        ({
            let wlo = pos + spec_pending_total(items);
            &&& (forall|j: int|
                0 <= j < 8 ==> #[trigger] data[(wlo + j) % size] == (if j == 0 {
                    (w0 % 256) as u8
                } else if j == 1 {
                    ((w0 / 256) % 256) as u8
                } else if j == 2 {
                    ((w0 / 0x10000) % 256) as u8
                } else if j == 3 {
                    ((w0 / 0x1000000) % 256) as u8
                } else {
                    0u8
                }))
            &&& (forall|m: int|
                0 <= m < pl.len() ==> data[(wlo + 8 + m) % size] == #[trigger] pl[m])
        }),
    ensures
        spec_records_at(data, size, pos, items.push(pl)),
    decreases items.len(),
{
    if items.len() == 0 {
        let wlo = pos;
        assert(spec_pending_total(items) == 0);
        assert(items.push(pl)[0] == pl);
        lemma_hp_contiguous(wlo, size, 0);
        let hp = wlo % size;
        assert forall|j: int| 0 <= j < 4 implies #[trigger] data[hp + j] == data[(wlo + j)
            % size] by {
            lemma_hp_contiguous(wlo, size, j);
        }
        crate::event::lemma_read32_round(w0, data, hp);
        assert(spec_read_u32(data, pos % size, true) == pl.len());
        assert forall|k: int| 0 <= k < pl.len() implies data[(pos + 8 + k) % size]
            == #[trigger] pl[k] by {}
        assert(items.push(pl).drop_first() =~= Seq::<Seq<u8>>::empty());
        assert(spec_records_at(
            data,
            size,
            pos + spec_record_total(pl.len() as int),
            items.push(pl).drop_first(),
        ));
    } else {
        let head = items[0];
        let total0 = spec_record_total(head.len() as int);
        lemma_round8(head.len() as int);
        lemma_pending_total_nonneg(items.drop_first());
        assert(spec_pending_total(items.drop_first()) % 8 == 0) by {
            lemma_pending_total_mod8(items);
        }
        assert(items.push(pl)[0] == head);
        assert(items.push(pl).drop_first() =~= items.drop_first().push(pl));
        assert(pos + spec_pending_total(items) == (pos + total0) + spec_pending_total(
            items.drop_first(),
        ));
        assert((pos + total0) % 8 == 0) by (nonlinear_arith)
            requires
                pos % 8 == 0,
                spec_round8(head.len() as int) % 8 == 0,
                total0 == 8 + spec_round8(head.len() as int),
        ;
        lemma_records_append(data, size, pos + total0, items.drop_first(), pl, w0);
        assert(spec_records_at(data, size, pos, items.push(pl)));
    }
}

/// Every pending total is a multiple of 8.
proof fn lemma_pending_total_mod8(items: Seq<Seq<u8>>)
    ensures
        spec_pending_total(items) % 8 == 0,
    decreases items.len(),
{
    if items.len() > 0 {
        lemma_round8(items[0].len() as int);
        lemma_pending_total_mod8(items.drop_first());
        let a = spec_record_total(items[0].len() as int);
        let b = spec_pending_total(items.drop_first());
        assert((a + b) % 8 == 0) by (nonlinear_arith)
            requires
                a % 8 == 0,
                b % 8 == 0,
        ;
    }
}

/// Pushing a payload grows the pending total by its record footprint.
proof fn lemma_pending_total_push(items: Seq<Seq<u8>>, pl: Seq<u8>)
    ensures
        spec_pending_total(items.push(pl)) == spec_pending_total(items) + spec_record_total(
            pl.len() as int,
        ),
    decreases items.len(),
{
    let p = items.push(pl);
    assert(p.len() == items.len() + 1);
    if items.len() == 0 {
        assert(p[0] == pl);
        assert(p.drop_first() =~= Seq::<Seq<u8>>::empty());
        assert(spec_pending_total(p.drop_first()) == 0);
        assert(spec_pending_total(p) == spec_record_total(p[0].len() as int)
            + spec_pending_total(p.drop_first()));
    } else {
        assert(p[0] == items[0]);
        assert(p.drop_first() =~= items.drop_first().push(pl));
        lemma_pending_total_push(items.drop_first(), pl);
        assert(spec_pending_total(p) == spec_record_total(p[0].len() as int)
            + spec_pending_total(p.drop_first()));
    }
}

/// A pre-loaded queue of event records, for exercising consumers without a
/// shared mapping.
pub struct MockRingBuf {
    events: Vec<Vec<u8>>,
    position: usize,
}

impl MockRingBuf {
    /// The loaded records.
    pub closed spec fn spec_events(&self) -> Seq<Vec<u8>> {
        self.events@
    }

    /// How many records were read.
    pub closed spec fn spec_position(&self) -> int {
        self.position as int
    }

    /// A mock holding the given records.
    pub fn new(events: Vec<Vec<u8>>) -> (r: Self)
        ensures
            r.spec_events() == events@,
            r.spec_position() == 0,
    {
        MockRingBuf { events, position: 0 }
    }

    /// Reads the next record, in order.
    pub fn read_event(&mut self) -> (r: Option<Vec<u8>>)
        requires
            old(self).spec_position() <= old(self).spec_events().len(),
        ensures
            final(self).spec_events() == old(self).spec_events(),
            old(self).spec_position() < old(self).spec_events().len() ==> r is Some
                && r->Some_0@ == old(self).spec_events()[old(self).spec_position()]@
                && final(self).spec_position() == old(self).spec_position() + 1,
            old(self).spec_position() == old(self).spec_events().len() ==> r is None && *final(self)
                == *old(self),
    {
        if self.position < self.events.len() {
            let src = &self.events[self.position];
            let n = src.len();
            let mut event: Vec<u8> = Vec::new();
            let mut i: usize = 0;
            while i < n
                invariant
                    i <= n,
                    n == src@.len(),
                    event@ == src@.subrange(0, i as int),
                decreases n - i,
            {
                event.push(src[i]);
                proof {
                    assert(event@ =~= src@.subrange(0, i as int + 1));
                }
                i = i + 1;
            }
            proof {
                assert(event@ =~= src@);
            }
            self.position = self.position + 1;
            Some(event)
        } else {
            None
        }
    }

    /// Whether everything was read.
    pub fn is_empty(&self) -> (r: bool)
        requires
            self.spec_position() <= self.spec_events().len(),
        ensures
            r == (self.spec_position() == self.spec_events().len()),
    {
        self.position >= self.events.len()
    }
}

} // verus!
