//! A short sequence-gap grace period, not a playout queue. Ordered packets leave
//! immediately. A later packet must not close the preceding H.264 AU before a
//! reordered tail fragment has had a chance to arrive.
//!
//! Times are monotonic microseconds supplied by the caller.
use vstd::prelude::*;
use crate::text::{decimal, push_decimal, push_str};
use vstd::multiset::Multiset;

verus! {

/// Grace period for a sequence gap without retransmission requests.
pub const GAP_GRACE_US: u64 = 6_000;
/// Queue bound without retransmission requests.
pub const MAX_HELD_PACKETS: usize = 24;
/// Queue bound, and furthest hole, with retransmission requests.
pub const REPAIR_PACKETS: usize = 64;
/// Absolute gap deadline with retransmission requests.
pub const REPAIR_GRACE_US: u64 = 60_000;
/// Ordinary reordering absorbed before a hole is requested.
pub const NACK_SETTLE_US: u64 = 2_000;
/// Minimum spacing of retransmission requests.
pub const NACK_RETRY_US: u64 = 20_000;

/// A packet waiting for the hole before it to close.
pub struct HeldPacket<T> {
    pub sequence: u16,
    pub value: T,
    pub arrived_us: u64,
}

/// Counters kept by the reorder queue.
#[derive(Clone, Copy)]
pub struct OrderStats {
    pub jumps: u64,
    pub provisional_missing: u64,
    pub out_of_order: u64,
    pub duplicates: u64,
    pub filled: u64,
    pub missing: u64,
    pub too_late: u64,
    pub capacity_releases: u64,
    pub max_depth: usize,
    pub max_wait_us: u64,
}

/// `x + by`, saturating at `u64::MAX`.
pub open spec fn bump(x: u64, by: int) -> u64 {
    if x + by > u64::MAX { u64::MAX } else { (x + by) as u64 }
}

/// `now - then`, or zero when `then` is later.
pub open spec fn elapsed(now: u64, then: u64) -> u64 {
    if now >= then { (now - then) as u64 } else { 0 }
}

/// Forward distance from `from` to `to` on the 16-bit sequence circle.
pub open spec fn forward(to: u16, from: u16) -> int {
    to.wrapping_sub(from) as int
}

pub open spec fn zero_stats() -> OrderStats {
    OrderStats {
        jumps: 0,
        provisional_missing: 0,
        out_of_order: 0,
        duplicates: 0,
        filled: 0,
        missing: 0,
        too_late: 0,
        capacity_releases: 0,
        max_depth: 0,
        max_wait_us: 0,
    }
}

/// Queue bound for the current mode.
pub open spec fn capacity(repair: bool) -> int {
    if repair { REPAIR_PACKETS as int } else { MAX_HELD_PACKETS as int }
}

/// Gap grace for the current mode.
pub open spec fn grace(repair: bool) -> u64 {
    if repair { REPAIR_GRACE_US } else { GAP_GRACE_US }
}

/// Whether some held packet carries `sequence`.
pub open spec fn holds<T>(held: Seq<HeldPacket<T>>, sequence: u16) -> bool {
    exists|k: int| 0 <= k < held.len() && held[k].sequence == sequence
}

/// Index of the held packet nearest after `next`; the first one on a tie.
pub open spec fn nearest<T>(held: Seq<HeldPacket<T>>, next: u16) -> int
    decreases held.len(),
{
    if held.len() <= 1 {
        0
    } else {
        let j = nearest(held.drop_last(), next);
        if forward(held.last().sequence, next) < forward(held[j].sequence, next) {
            held.len() - 1
        } else {
            j
        }
    }
}

/// Earliest arrival among held packets.
pub open spec fn oldest<T>(held: Seq<HeldPacket<T>>) -> u64
    decreases held.len(),
{
    if held.len() == 0 {
        0
    } else if held.len() == 1 {
        held[0].arrived_us
    } else {
        let rest = oldest(held.drop_last());
        if held.last().arrived_us < rest { held.last().arrived_us } else { rest }
    }
}

/// Largest forward distance from `next` among held packets.
pub open spec fn furthest<T>(held: Seq<HeldPacket<T>>, next: u16) -> int
    decreases held.len(),
{
    if held.len() == 0 {
        0
    } else {
        let rest = furthest(held.drop_last(), next);
        let d = forward(held.last().sequence, next);
        if d > rest { d } else { rest }
    }
}

/// Sequences `next, next+1, .., next+count-1` (wrapping) that no held packet carries.
pub open spec fn holes<T>(held: Seq<HeldPacket<T>>, next: u16, count: nat) -> Seq<u16>
    decreases count,
{
    if count == 0 {
        Seq::empty()
    } else {
        let before = holes(held, next, (count - 1) as nat);
        let sequence = next.wrapping_add((count - 1) as u16);
        if holds(held, sequence) { before } else { before.push(sequence) }
    }
}

/// Abstract state of the reorder queue.
pub ghost struct OrderModel<T> {
    pub next: Option<u16>,
    pub arrival_high: Option<u16>,
    pub held: Seq<HeldPacket<T>>,
    pub stats: OrderStats,
    pub repair: bool,
    pub last_nack_us: Option<u64>,
}

impl<T> OrderModel<T> {
    pub open spec fn empty() -> Self {
        OrderModel {
            next: None,
            arrival_high: None,
            held: Seq::empty(),
            stats: zero_stats(),
            repair: false,
            last_nack_us: None,
        }
    }

    /// Invariant: held packets carry distinct sequences, at most `REPAIR_PACKETS`
    /// of them, and none without an expected sequence.
    pub open spec fn wf(self) -> bool {
        &&& self.held.len() <= REPAIR_PACKETS
        &&& (self.held.len() > 0 ==> self.next is Some)
        &&& forall|i: int, j: int| 0 <= i < j < self.held.len()
            ==> self.held[i].sequence != self.held[j].sequence
    }

    /// Arrival bookkeeping; the flag is set for an exact repeat of the newest arrival.
    pub open spec fn note_arrival(self, sequence: u16) -> (Self, bool) {
        match self.arrival_high {
            None => (OrderModel { arrival_high: Some(sequence), ..self }, false),
            Some(high) => {
                let d = forward(sequence, high);
                if 0 < d < 0x8000 {
                    let stats = if d > 1 {
                        OrderStats {
                            jumps: bump(self.stats.jumps, 1),
                            provisional_missing: bump(self.stats.provisional_missing, d - 1),
                            ..self.stats
                        }
                    } else {
                        self.stats
                    };
                    (OrderModel { arrival_high: Some(sequence), stats, ..self }, false)
                } else if d >= 0x8000 {
                    let stats = OrderStats { out_of_order: bump(self.stats.out_of_order, 1), ..self.stats };
                    (OrderModel { stats, ..self }, false)
                } else {
                    let stats = OrderStats { duplicates: bump(self.stats.duplicates, 1), ..self.stats };
                    (OrderModel { stats, ..self }, true)
                }
            },
        }
    }

    /// Whether any held packet has waited at least the grace period.
    pub open spec fn expired(self, now: u64) -> bool {
        exists|k: int|
            0 <= k < self.held.len() && elapsed(now, #[trigger] self.held[k].arrived_us) >= grace(
                self.repair,
            )
    }

    /// Release the nearest held packet if it is next, the queue is full, or (when
    /// `expire_gaps`) a held packet has outlived the grace period.
    pub open spec fn take(self, now: u64, expire_gaps: bool) -> (Self, Option<T>) {
        match self.next {
            None => (self, None),
            Some(next) => {
                if self.held.len() == 0 {
                    (self, None)
                } else {
                    let i = nearest(self.held, next);
                    let packet = self.held[i];
                    let missing = forward(packet.sequence, next);
                    let full = self.held.len() >= capacity(self.repair);
                    let expired = expire_gaps && self.expired(now);
                    if missing != 0 && !full && !expired {
                        (self, None)
                    } else {
                        let counted = if missing != 0 {
                            OrderStats {
                                missing: bump(self.stats.missing, missing),
                                capacity_releases: bump(
                                    self.stats.capacity_releases,
                                    if full { 1 } else { 0 },
                                ),
                                ..self.stats
                            }
                        } else {
                            self.stats
                        };
                        let waited = elapsed(now, packet.arrived_us);
                        let stats = OrderStats {
                            max_wait_us: if waited > counted.max_wait_us { waited } else { counted.max_wait_us },
                            ..counted
                        };
                        (
                            OrderModel {
                                next: Some(packet.sequence.wrapping_add(1)),
                                held: self.held.remove(i),
                                stats,
                                ..self
                            },
                            Some(packet.value),
                        )
                    }
                }
            },
        }
    }

    /// Consume one arriving packet.
    pub open spec fn push(self, sequence: u16, value: T, now: u64) -> (Self, Option<T>) {
        let (a, duplicate) = self.note_arrival(sequence);
        if duplicate {
            (a, None)
        } else {
            match a.next {
                None => (OrderModel { next: Some(sequence.wrapping_add(1)), ..a }, Some(value)),
                Some(next) => {
                    let d = forward(sequence, next);
                    if d == 0 {
                        let stats = if a.held.len() > 0 {
                            OrderStats { filled: bump(a.stats.filled, 1), ..a.stats }
                        } else {
                            a.stats
                        };
                        (OrderModel { next: Some(sequence.wrapping_add(1)), stats, ..a }, Some(value))
                    } else if d >= 0x8000 {
                        let stats = OrderStats { too_late: bump(a.stats.too_late, 1), ..a.stats };
                        (OrderModel { stats, ..a }, None)
                    } else if holds(a.held, sequence) {
                        let stats = OrderStats { duplicates: bump(a.stats.duplicates, 1), ..a.stats };
                        (OrderModel { stats, ..a }, None)
                    } else {
                        let held = a.held.push(HeldPacket { sequence, value, arrived_us: now });
                        let depth = if held.len() > a.stats.max_depth { held.len() as usize } else { a.stats.max_depth };
                        let b = OrderModel { held, stats: OrderStats { max_depth: depth, ..a.stats }, ..a };
                        b.take(now, false)
                    }
                },
            }
        }
    }

    /// Diagnostic line: grace, fills, losses, late packets, depth and longest wait.
    pub open spec fn summary(self) -> Seq<char> {
        "Order "@ + decimal((grace(self.repair) / 1000) as nat) + "ms fill:"@ + decimal(self.stats.filled as nat)
            + " lost:"@ + decimal(self.stats.missing as nat) + " late:"@ + decimal(self.stats.too_late as nat)
            + " q:"@ + decimal(self.held.len()) + "/"@ + decimal(self.stats.max_depth as nat) + " cap:"@
            + decimal(self.stats.capacity_releases as nat) + " wait:"@ + decimal((self.stats.max_wait_us / 1000) as nat)
            + "ms"@
    }

    /// Holes to request again, and the state after the request.
    pub open spec fn nack(self, now: u64) -> (Self, Seq<u16>) {
        if !self.repair || (self.last_nack_us matches Some(at) && elapsed(now, at) < NACK_RETRY_US) {
            (self, Seq::empty())
        } else {
            match self.next {
                None => (self, Seq::empty()),
                Some(next) => {
                    let age = elapsed(now, oldest(self.held));
                    let distance = furthest(self.held, next);
                    if self.held.len() == 0 || age < NACK_SETTLE_US || age >= REPAIR_GRACE_US {
                        (self, Seq::empty())
                    } else if distance > REPAIR_PACKETS {
                        (self, Seq::empty())
                    } else {
                        let missing = holes(self.held, next, distance as nat);
                        if missing.len() > 0 {
                            (OrderModel { last_nack_us: Some(now), ..self }, missing)
                        } else {
                            (self, missing)
                        }
                    }
                },
            }
        }
    }
}

/// Reorders authenticated RTP packets by sequence number with a bounded hold.
pub struct PacketOrder<T> {
    next: Option<u16>,
    arrival_high: Option<u16>,
    held: Vec<HeldPacket<T>>,
    pub stats: OrderStats,
    repair: bool,
    last_nack_us: Option<u64>,
}

impl<T> View for PacketOrder<T> {
    type V = OrderModel<T>;

    closed spec fn view(&self) -> OrderModel<T> {
        OrderModel {
            next: self.next,
            arrival_high: self.arrival_high,
            held: self.held@,
            stats: self.stats,
            repair: self.repair,
            last_nack_us: self.last_nack_us,
        }
    }
}

proof fn lemma_nearest_bounds<T>(held: Seq<HeldPacket<T>>, next: u16)
    requires
        held.len() > 0,
    ensures
        0 <= nearest(held, next) < held.len(),
        forall|k: int| 0 <= k < held.len()
            ==> forward(held[nearest(held, next)].sequence, next) <= forward(#[trigger] held[k].sequence, next),
    decreases held.len(),
{
    if held.len() > 1 {
        lemma_nearest_bounds(held.drop_last(), next);
        assert forall|k: int| 0 <= k < held.len() implies forward(held[nearest(held, next)].sequence, next)
            <= forward(#[trigger] held[k].sequence, next) by {
            if k < held.len() - 1 {
                assert(held.drop_last()[k] == held[k]);
            }
        }
    }
}

impl<T> PacketOrder<T> {
    /// An empty queue without retransmission requests.
    pub fn new() -> (order: Self)
        ensures
            order@ == OrderModel::<T>::empty(),
            order@.wf(),
    {
        PacketOrder {
            next: None,
            arrival_high: None,
            held: Vec::new(),
            stats: OrderStats {
                jumps: 0,
                provisional_missing: 0,
                out_of_order: 0,
                duplicates: 0,
                filled: 0,
                missing: 0,
                too_late: 0,
                capacity_releases: 0,
                max_depth: 0,
                max_wait_us: 0,
            },
            repair: false,
            last_nack_us: None,
        }
    }

    pub fn enable_repair(&mut self, enabled: bool)
        requires
            old(self)@.wf(),
        ensures
            final(self)@ == (OrderModel { repair: enabled, ..old(self)@ }),
            final(self)@.wf(),
    {
        self.repair = enabled;
    }

    /// Forget the stream position and every held packet; counters are kept.
    pub fn clear(&mut self)
        requires
            old(self)@.wf(),
        ensures
            final(self)@ == (OrderModel {
                next: None,
                arrival_high: None,
                held: Seq::empty(),
                last_nack_us: None,
                ..old(self)@
            }),
            final(self)@.wf(),
    {
        self.next = None;
        self.arrival_high = None;
        self.held.clear();
        self.last_nack_us = None;
    }

    fn holds_sequence(&self, sequence: u16) -> (found: bool)
        ensures
            found == holds(self.held@, sequence),
    {
        let mut k: usize = 0;
        while k < self.held.len()
            invariant
                k <= self.held.len(),
                forall|j: int| 0 <= j < k ==> self.held@[j].sequence != sequence,
            decreases self.held.len() - k,
        {
            if self.held[k].sequence == sequence {
                return true;
            }
            k += 1;
        }
        false
    }

    /// Only request holes for packets still retained by this reorder queue.
    /// Two milliseconds absorbs ordinary reordering; retries are 20ms apart.
    /// The 60ms absolute deadline and 64-packet cap never extend on retries.
    pub fn missing_for_nack(&mut self, now_us: u64) -> (missing: Vec<u16>)
        requires
            old(self)@.wf(),
        ensures
            (final(self)@, missing@) == old(self)@.nack(now_us),
            final(self)@.wf(),
    {
        if !self.repair {
            return Vec::new();
        }
        if let Some(at) = self.last_nack_us {
            if now_us < at || now_us - at < NACK_RETRY_US {
                return Vec::new();
            }
        }
        let next = match self.next {
            Some(next) => next,
            None => return Vec::new(),
        };
        if self.held.len() == 0 {
            return Vec::new();
        }
        assert(self.held@.take(1).drop_last() =~= Seq::<HeldPacket<T>>::empty());
        assert(furthest(self.held@.take(1).drop_last(), next) == 0);
        assert(self.held@.take(1).last() == self.held@[0]);
        let mut first: u64 = self.held[0].arrived_us;
        let mut distance: u16 = self.held[0].sequence.wrapping_sub(next);
        let mut k: usize = 1;
        while k < self.held.len()
            invariant
                1 <= k <= self.held.len(),
                first == oldest(self.held@.take(k as int)),
                distance as int == furthest(self.held@.take(k as int), next),
            decreases self.held.len() - k,
        {
            assert(self.held@.take(k as int + 1).drop_last() =~= self.held@.take(k as int));
            let arrived = self.held[k].arrived_us;
            if arrived < first {
                first = arrived;
            }
            let d = self.held[k].sequence.wrapping_sub(next);
            if d > distance {
                distance = d;
            }
            k += 1;
        }
        assert(self.held@.take(self.held.len() as int) =~= self.held@);
        assert(self.held@.take(1).drop_last() =~= Seq::<HeldPacket<T>>::empty());
        let age: u64 = if now_us >= first { now_us - first } else { 0 };
        if age < NACK_SETTLE_US || age >= REPAIR_GRACE_US {
            return Vec::new();
        }
        if distance as usize > REPAIR_PACKETS {
            return Vec::new();
        }
        let mut missing: Vec<u16> = Vec::new();
        let mut offset: u16 = 0;
        while offset < distance
            invariant
                offset <= distance,
                missing@ == holes(self.held@, next, offset as nat),
            decreases distance - offset,
        {
            let sequence = next.wrapping_add(offset);
            if !self.holds_sequence(sequence) {
                missing.push(sequence);
            }
            offset += 1;
        }
        if missing.len() > 0 {
            self.last_nack_us = Some(now_us);
        }
        missing
    }

    fn note_arrival(&mut self, sequence: u16) -> (duplicate: bool)
        requires
            old(self)@.wf(),
        ensures
            (final(self)@, duplicate) == old(self)@.note_arrival(sequence),
            final(self)@.wf(),
    {
        match self.arrival_high {
            Some(high) => {
                let distance = sequence.wrapping_sub(high);
                if distance > 0 && distance < 0x8000 {
                    if distance > 1 {
                        self.stats.jumps = self.stats.jumps.saturating_add(1);
                        self.stats.provisional_missing =
                            self.stats.provisional_missing.saturating_add((distance - 1) as u64);
                    }
                    self.arrival_high = Some(sequence);
                    false
                } else if distance >= 0x8000 {
                    self.stats.out_of_order = self.stats.out_of_order.saturating_add(1);
                    false
                } else {
                    self.stats.duplicates = self.stats.duplicates.saturating_add(1);
                    true
                }
            },
            None => {
                self.arrival_high = Some(sequence);
                false
            },
        }
    }

    pub fn summary(&self) -> (text: String)
        ensures
            text@ == self@.summary(),
    {
        let grace_us = if self.repair { REPAIR_GRACE_US } else { GAP_GRACE_US };
        let mut text = String::new();
        push_str(&mut text, "Order ");
        push_decimal(&mut text, (grace_us / 1000) as u128);
        push_str(&mut text, "ms fill:");
        push_decimal(&mut text, self.stats.filled as u128);
        push_str(&mut text, " lost:");
        push_decimal(&mut text, self.stats.missing as u128);
        push_str(&mut text, " late:");
        push_decimal(&mut text, self.stats.too_late as u128);
        push_str(&mut text, " q:");
        push_decimal(&mut text, self.held.len() as u128);
        push_str(&mut text, "/");
        push_decimal(&mut text, self.stats.max_depth as u128);
        push_str(&mut text, " cap:");
        push_decimal(&mut text, self.stats.capacity_releases as u128);
        push_str(&mut text, " wait:");
        push_decimal(&mut text, (self.stats.max_wait_us / 1000) as u128);
        push_str(&mut text, "ms");
        text
    }

    /// Consume an authenticated video packet, then drain `pop` before pushing
    /// another. The in-order path does not allocate, copy, or wait.
    pub fn push(&mut self, sequence: u16, value: T, now_us: u64) -> (out: Option<T>)
        requires
            old(self)@.wf(),
        ensures
            (final(self)@, out) == old(self)@.push(sequence, value, now_us),
            final(self)@.wf(),
    {
        if self.note_arrival(sequence) {
            return None;
        }
        let next = match self.next {
            Some(next) => next,
            None => {
                self.next = Some(sequence.wrapping_add(1));
                return Some(value);
            },
        };
        let distance = sequence.wrapping_sub(next);
        if distance == 0 {
            if self.held.len() > 0 {
                self.stats.filled = self.stats.filled.saturating_add(1);
            }
            self.next = Some(sequence.wrapping_add(1));
            return Some(value);
        }
        if distance >= 0x8000 {
            self.stats.too_late = self.stats.too_late.saturating_add(1);
            return None;
        }
        if self.holds_sequence(sequence) {
            self.stats.duplicates = self.stats.duplicates.saturating_add(1);
            return None;
        }
        self.held.push(HeldPacket { sequence, value, arrived_us: now_us });
        if self.held.len() > self.stats.max_depth {
            self.stats.max_depth = self.held.len();
        }
        proof {
            assert(self.held@.len() <= REPAIR_PACKETS + 1);
        }
        // Even a stalled consumer cannot grow the queue beyond its fixed bound.
        self.take(now_us, false)
    }

    /// Drain a receive batch without expiring holes ahead of packets that may
    /// already be in that batch. Capacity pressure still releases immediately.
    pub fn pop_ready(&mut self, now_us: u64) -> (out: Option<T>)
        requires
            old(self)@.wf(),
        ensures
            (final(self)@, out) == old(self)@.take(now_us, false),
            final(self)@.wf(),
    {
        self.take(now_us, false)
    }

    /// Call on each RTC pump, including pumps without incoming video. The gap
    /// deadline is based on the oldest held packet and is never extended by
    /// newer arrivals. Missing packets are skipped, never fabricated.
    pub fn pop(&mut self, now_us: u64) -> (out: Option<T>)
        requires
            old(self)@.wf(),
        ensures
            (final(self)@, out) == old(self)@.take(now_us, true),
            final(self)@.wf(),
    {
        self.take(now_us, true)
    }

    fn take(&mut self, now_us: u64, expire_gaps: bool) -> (out: Option<T>)
        requires
            old(self).held@.len() <= REPAIR_PACKETS + 1,
            old(self).held@.len() > REPAIR_PACKETS ==> old(self)@.next is Some,
            old(self).held@.len() > 0 ==> old(self)@.next is Some,
            forall|i: int, j: int| 0 <= i < j < old(self).held@.len()
                ==> old(self).held@[i].sequence != old(self).held@[j].sequence,
            old(self).held@.len() > REPAIR_PACKETS ==> capacity(old(self).repair) <= old(self).held@.len(),
        ensures
            (final(self)@, out) == old(self)@.take(now_us, expire_gaps),
            final(self)@.wf(),
    {
        let next = match self.next {
            Some(next) => next,
            None => return None,
        };
        if self.held.len() == 0 {
            return None;
        }
        let mut index: usize = 0;
        let mut k: usize = 1;
        while k < self.held.len()
            invariant
                1 <= k <= self.held.len(),
                index == nearest(self.held@.take(k as int), next),
                index < k,
            decreases self.held.len() - k,
        {
            assert(self.held@.take(k as int + 1).drop_last() =~= self.held@.take(k as int));
            assert(self.held@.take(k as int + 1)[index as int] == self.held@[index as int]);
            if self.held[k].sequence.wrapping_sub(next) < self.held[index].sequence.wrapping_sub(next) {
                index = k;
            }
            k += 1;
        }
        assert(self.held@.take(self.held.len() as int) =~= self.held@);
        proof {
            lemma_nearest_bounds(self.held@, next);
        }
        let sequence = self.held[index].sequence;
        let missing = sequence.wrapping_sub(next);
        if missing != 0 {
            let cap = if self.repair { REPAIR_PACKETS } else { MAX_HELD_PACKETS };
            let full = self.held.len() >= cap;
            let grace_us = if self.repair { REPAIR_GRACE_US } else { GAP_GRACE_US };
            let mut expired = false;
            if expire_gaps {
                let mut j: usize = 0;
                while j < self.held.len()
                    invariant
                        j <= self.held.len(),
                        expired == exists|m: int|
                            0 <= m < j && elapsed(now_us, #[trigger] self.held@[m].arrived_us) >= grace_us,
                    decreases self.held.len() - j,
                {
                    let arrived = self.held[j].arrived_us;
                    let waited: u64 = if now_us >= arrived { now_us - arrived } else { 0 };
                    if waited >= grace_us {
                        expired = true;
                    }
                    assert(waited == elapsed(now_us, self.held@[j as int].arrived_us));
                    j += 1;
                }
            }
            if !full && !expired {
                return None;
            }
            self.stats.missing = self.stats.missing.saturating_add(missing as u64);
            self.stats.capacity_releases = self.stats.capacity_releases.saturating_add(
                if full { 1 } else { 0 },
            );
        }
        let ghost before = self.held@;
        let packet = self.held.remove(index);
        let waited: u64 = if now_us >= packet.arrived_us { now_us - packet.arrived_us } else { 0 };
        if waited > self.stats.max_wait_us {
            self.stats.max_wait_us = waited;
        }
        self.next = Some(sequence.wrapping_add(1));
        proof {
            assert(self.held@ =~= before.remove(index as int));
            assert forall|a: int, b: int| 0 <= a < b < self.held@.len()
                implies self.held@[a].sequence != self.held@[b].sequence by {
                let oa = if a < index { a } else { a + 1 };
                let ob = if b < index { b } else { b + 1 };
                assert(self.held@[a] == before[oa]);
                assert(self.held@[b] == before[ob]);
            }
        }
        Some(packet.value)
    }
}

impl<T> Default for PacketOrder<T> {
    fn default() -> (order: Self)
        ensures
            order@ == OrderModel::<T>::empty(),
            order@.wf(),
    {
        PacketOrder::new()
    }
}

/// An in-order packet (the expected sequence, not already held, not a repeat of the
/// newest arrival) leaves the queue immediately.
pub proof fn law_in_order_packet_leaves_immediately<T>(m: OrderModel<T>, sequence: u16, value: T, now: u64)
    requires
        m.wf(),
        m.next == Some(sequence),
        m.arrival_high != Some(sequence),
    ensures
        m.push(sequence, value, now).1 == Some(value),
        m.push(sequence, value, now).0.next == Some(sequence.wrapping_add(1)),
{
}

/// Even a stalled consumer cannot grow the queue to its bound: after any push the
/// number of held packets stays below the bound of the current mode.
pub proof fn law_push_keeps_queue_below_bound<T>(m: OrderModel<T>, sequence: u16, value: T, now: u64)
    requires
        m.wf(),
        m.held.len() < capacity(m.repair),
    ensures
        m.push(sequence, value, now).0.held.len() < capacity(m.repair),
        m.push(sequence, value, now).0.wf(),
{
    let (a, duplicate) = m.note_arrival(sequence);
    if !duplicate && a.next is Some {
        let next = a.next->0;
        let d = forward(sequence, next);
        if d != 0 && d < 0x8000 && !holds(a.held, sequence) {
            let held = a.held.push(HeldPacket { sequence, value, arrived_us: now });
            let depth = if held.len() > a.stats.max_depth { held.len() as usize } else { a.stats.max_depth };
            let b = OrderModel { held, stats: OrderStats { max_depth: depth, ..a.stats }, ..a };
            lemma_nearest_bounds(b.held, next);
            assert forall|i: int, j: int| 0 <= i < j < b.held.len()
                implies b.held[i].sequence != b.held[j].sequence by {
                if j == b.held.len() - 1 {
                    assert(b.held[i] == a.held[i]);
                }
            }
            let r = b.take(now, false).0;
            if r.held.len() != b.held.len() {
                let i = nearest(b.held, next);
                assert(r.held == b.held.remove(i));
                assert forall|x: int, y: int| 0 <= x < y < r.held.len()
                    implies r.held[x].sequence != r.held[y].sequence by {
                    let ox = if x < i { x } else { x + 1 };
                    let oy = if y < i { y } else { y + 1 };
                    assert(r.held[x] == b.held[ox]);
                    assert(r.held[y] == b.held[oy]);
                }
            }
        }
    }
}

/// One call on the reorder buffer: a push, a batch release, or a pump release.
pub enum OrderCall<T> {
    Push(u16, T, u64),
    PopReady(u64),
    Pop(u64),
}

/// The buffer after a run of calls, in order.
pub open spec fn after_calls<T>(m: OrderModel<T>, calls: Seq<OrderCall<T>>) -> OrderModel<T>
    decreases calls.len(),
{
    if calls.len() == 0 {
        m
    } else {
        let before = after_calls(m, calls.drop_last());
        match calls.last() {
            OrderCall::Push(sequence, value, now) => before.push(sequence, value, now).0,
            OrderCall::PopReady(now) => before.take(now, false).0,
            OrderCall::Pop(now) => before.take(now, true).0,
        }
    }
}

/// Well formed, below the queue bound of its mode, and never deeper than that bound.
pub open spec fn bounded<T>(m: OrderModel<T>) -> bool {
    &&& m.wf()
    &&& m.held.len() < capacity(m.repair)
    &&& m.stats.max_depth <= capacity(m.repair)
}

proof fn lemma_take_keeps_bounded<T>(m: OrderModel<T>, now: u64, expire_gaps: bool)
    requires
        bounded(m),
    ensures
        bounded(m.take(now, expire_gaps).0),
        m.take(now, expire_gaps).0.repair == m.repair,
{
    let r = m.take(now, expire_gaps).0;
    if m.next is Some && m.held.len() > 0 && m.take(now, expire_gaps).1 is Some {
        law_take_releases_one_held_packet(m, now, expire_gaps);
        lemma_nearest_bounds(m.held, m.next->0);
        let i = nearest(m.held, m.next->0);
        assert(r.held == m.held.remove(i));
        assert forall|x: int, y: int| 0 <= x < y < r.held.len() implies r.held[x].sequence != r.held[y].sequence by {
            let ox = if x < i { x } else { x + 1 };
            let oy = if y < i { y } else { y + 1 };
            assert(r.held[x] == m.held[ox]);
            assert(r.held[y] == m.held[oy]);
        }
    }
}

proof fn lemma_push_keeps_bounded<T>(m: OrderModel<T>, sequence: u16, value: T, now: u64)
    requires
        bounded(m),
    ensures
        bounded(m.push(sequence, value, now).0),
        m.push(sequence, value, now).0.repair == m.repair,
{
    law_push_keeps_queue_below_bound(m, sequence, value, now);
    let (a, duplicate) = m.note_arrival(sequence);
    if !duplicate && a.next is Some {
        let next = a.next->0;
        let d = forward(sequence, next);
        if d != 0 && d < 0x8000 && !holds(a.held, sequence) {
            let held = a.held.push(HeldPacket { sequence, value, arrived_us: now });
            let depth = if held.len() > a.stats.max_depth { held.len() as usize } else { a.stats.max_depth };
            let b = OrderModel { held, stats: OrderStats { max_depth: depth, ..a.stats }, ..a };
            assert(b.stats.max_depth <= capacity(b.repair));
            assert(b.take(now, false).0.stats.max_depth == b.stats.max_depth || b.take(now, false).0 == b);
        }
    }
}

/// Over any run of pushes and releases in a fixed mode, the buffer stays well formed and
/// below its bound (24 packets, or 64 with repair), and its deepest queue never exceeds
/// that bound.
pub proof fn law_any_run_stays_bounded<T>(m: OrderModel<T>, calls: Seq<OrderCall<T>>)
    requires
        bounded(m),
    ensures
        bounded(after_calls(m, calls)),
        after_calls(m, calls).repair == m.repair,
    decreases calls.len(),
{
    if calls.len() > 0 {
        law_any_run_stays_bounded(m, calls.drop_last());
        let before = after_calls(m, calls.drop_last());
        match calls.last() {
            OrderCall::Push(sequence, value, now) => lemma_push_keeps_bounded(before, sequence, value, now),
            OrderCall::PopReady(now) => lemma_take_keeps_bounded(before, now, false),
            OrderCall::Pop(now) => lemma_take_keeps_bounded(before, now, true),
        }
    }
}

/// A new buffer starts bounded.
pub proof fn law_new_buffer_is_bounded<T>(repair: bool)
    ensures
        bounded(OrderModel::<T> { repair, ..OrderModel::<T>::empty() }),
{
}

/// A release hands out exactly one held packet, the one nearest after the expected
/// sequence, and keeps every other held packet: nothing is fabricated or lost.
pub proof fn law_take_releases_one_held_packet<T>(m: OrderModel<T>, now: u64, expire_gaps: bool)
    requires
        m.wf(),
        m.take(now, expire_gaps).1 is Some,
    ensures
        m.held.len() > 0,
        ({
            let i = nearest(m.held, m.next->0);
            &&& 0 <= i < m.held.len()
            &&& m.take(now, expire_gaps).1 == Some(m.held[i].value)
            &&& m.take(now, expire_gaps).0.held == m.held.remove(i)
            &&& m.take(now, expire_gaps).0.next == Some(m.held[i].sequence.wrapping_add(1))
        }),
{
    lemma_nearest_bounds(m.held, m.next->0);
}

/// A packet whose sequence is already held (and is not the expected one) is counted
/// as a duplicate and never queued twice.
pub proof fn law_held_duplicate_is_dropped<T>(m: OrderModel<T>, sequence: u16, value: T, now: u64)
    requires
        m.wf(),
        holds(m.held, sequence),
        m.next != Some(sequence),
    ensures
        m.push(sequence, value, now).1 is None,
        m.push(sequence, value, now).0.held == m.held,
        m.push(sequence, value, now).0.next == m.next,
{
}

/// Retransmission requests name only sequences that are missing from the queue,
/// lie within the 64-packet window after the expected sequence, and stop for good
/// once the oldest held packet has reached the repair deadline.
pub proof fn law_nack_requests_only_retained_holes<T>(m: OrderModel<T>, now: u64)
    requires
        m.wf(),
    ensures
        forall|k: int| 0 <= k < m.nack(now).1.len() ==> !holds(m.held, #[trigger] m.nack(now).1[k]),
        forall|k: int| 0 <= k < m.nack(now).1.len()
            ==> forward(#[trigger] m.nack(now).1[k], m.next->0) < REPAIR_PACKETS,
        m.held.len() > 0 && elapsed(now, oldest(m.held)) >= REPAIR_GRACE_US ==> m.nack(now).1.len() == 0,
{
    if m.repair && m.next is Some && m.held.len() > 0 {
        let next = m.next->0;
        let distance = furthest(m.held, next);
        if 0 <= distance <= REPAIR_PACKETS {
            lemma_holes(m.held, next, distance as nat);
        }
    }
}

/// Two retransmission requests that both name holes are at least the retry interval apart.
pub proof fn law_nack_retry_spacing<T>(m: OrderModel<T>, first: u64, second: u64)
    requires
        m.wf(),
        m.nack(first).1.len() > 0,
        first <= second,
        second - first < NACK_RETRY_US,
    ensures
        m.nack(first).0.nack(second).1.len() == 0,
{
}

proof fn lemma_holes<T>(held: Seq<HeldPacket<T>>, next: u16, count: nat)
    requires
        count <= REPAIR_PACKETS,
    ensures
        forall|k: int| 0 <= k < holes(held, next, count).len() ==> !holds(held, #[trigger] holes(held, next, count)[k]),
        forall|k: int| 0 <= k < holes(held, next, count).len()
            ==> forward(#[trigger] holes(held, next, count)[k], next) < count,
    decreases count,
{
    if count > 0 {
        lemma_holes(held, next, (count - 1) as nat);
        let before = holes(held, next, (count - 1) as nat);
        let sequence = next.wrapping_add((count - 1) as u16);
        assert(forward(sequence, next) == count - 1);
        let all = holes(held, next, count);
        assert forall|k: int| 0 <= k < all.len() implies !holds(held, #[trigger] all[k]) && forward(all[k], next) < count by {
            if k < before.len() {
                assert(all[k] == before[k]);
            } else {
                assert(all[k] == sequence);
            }
        }
    }
}

/// The held packets as (sequence, value).
pub open spec fn entries<T>(held: Seq<HeldPacket<T>>) -> Seq<(u16, T)> {
    held.map_values(|h: HeldPacket<T>| (h.sequence, h.value))
}

/// One call on the buffer: the buffer after it, and the packet it handed out, as
/// (sequence, value). A handed-out packet is the one just before the new expected
/// sequence.
pub open spec fn call_step<T>(m: OrderModel<T>, call: OrderCall<T>) -> (OrderModel<T>, Multiset<(u16, T)>) {
    let (r, out) = match call {
        OrderCall::Push(sequence, value, now) => m.push(sequence, value, now),
        OrderCall::PopReady(now) => m.take(now, false),
        OrderCall::Pop(now) => m.take(now, true),
    };
    (r, match out {
        Some(v) => Multiset::singleton((r.next->0.wrapping_sub(1), v)),
        None => Multiset::empty(),
    })
}

/// The packets a call offers the buffer.
pub open spec fn call_offers<T>(call: OrderCall<T>) -> Multiset<(u16, T)> {
    match call {
        OrderCall::Push(sequence, value, now) => Multiset::singleton((sequence, value)),
        _ => Multiset::empty(),
    }
}

/// Everything a run of calls hands out.
pub open spec fn handed_out<T>(m: OrderModel<T>, calls: Seq<OrderCall<T>>) -> Multiset<(u16, T)>
    decreases calls.len(),
{
    if calls.len() == 0 {
        Multiset::empty()
    } else {
        handed_out(m, calls.drop_last()).add(call_step(after_calls(m, calls.drop_last()), calls.last()).1)
    }
}

/// Everything a run of calls offers the buffer.
pub open spec fn offered<T>(calls: Seq<OrderCall<T>>) -> Multiset<(u16, T)>
    decreases calls.len(),
{
    if calls.len() == 0 {
        Multiset::empty()
    } else {
        offered(calls.drop_last()).add(call_offers(calls.last()))
    }
}

proof fn lemma_take_conserves<T>(m: OrderModel<T>, now: u64, expire_gaps: bool)
    requires
        m.wf(),
    ensures
        entries(call_step(m, if expire_gaps { OrderCall::Pop(now) } else { OrderCall::PopReady(now) }).0.held).to_multiset().add(
            call_step(m, if expire_gaps { OrderCall::Pop(now) } else { OrderCall::PopReady(now) }).1,
        ) == entries(m.held).to_multiset(),
{
    broadcast use vstd::seq_lib::to_multiset_remove, vstd::multiset::group_multiset_axioms;

    let (r, out) = m.take(now, expire_gaps);
    if out is Some {
        law_take_releases_one_held_packet(m, now, expire_gaps);
        let i = nearest(m.held, m.next->0);
        let seq_i = m.held[i].sequence;
        assert(seq_i.wrapping_add(1).wrapping_sub(1) == seq_i) by (bit_vector);
        assert(entries(r.held) =~= entries(m.held).remove(i));
        let e = entries(m.held)[i];
        assert(e == (seq_i, m.held[i].value));
        assert(entries(m.held).to_multiset().count(e) > 0) by {
            vstd::seq_lib::to_multiset_contains(entries(m.held), e);
        }
        assert(entries(r.held).to_multiset().add(Multiset::singleton(e)) =~= entries(m.held).to_multiset());
    } else {
        assert(entries(r.held).to_multiset().add(Multiset::empty()) =~= entries(m.held).to_multiset());
    }
}

proof fn lemma_push_conserves<T>(m: OrderModel<T>, sequence: u16, value: T, now: u64)
    requires
        bounded(m),
    ensures
        entries(call_step(m, OrderCall::Push(sequence, value, now)).0.held).to_multiset().add(
            call_step(m, OrderCall::Push(sequence, value, now)).1,
        ).subset_of(entries(m.held).to_multiset().add(Multiset::singleton((sequence, value)))),
{
    broadcast use vstd::seq_lib::to_multiset_build, vstd::multiset::group_multiset_axioms;

    let (r, out) = m.push(sequence, value, now);
    let before = entries(m.held).to_multiset();
    let offer = Multiset::singleton((sequence, value));
    assert(sequence.wrapping_add(1).wrapping_sub(1) == sequence) by (bit_vector);
    let (a, duplicate) = m.note_arrival(sequence);
    assert(a.held == m.held);
    if duplicate || a.next is None {
    } else {
        let next = a.next->0;
        let d = forward(sequence, next);
        if d == 0 || d >= 0x8000 || holds(a.held, sequence) {
        } else {
            let held = a.held.push(HeldPacket { sequence, value, arrived_us: now });
            let depth = if held.len() > a.stats.max_depth { held.len() as usize } else { a.stats.max_depth };
            let b = OrderModel { held, stats: OrderStats { max_depth: depth, ..a.stats }, ..a };
            assert(entries(b.held) =~= entries(m.held).push((sequence, value)));
            assert forall|x: int, y: int| 0 <= x < y < b.held.len() implies b.held[x].sequence != b.held[y].sequence by {
                if y == b.held.len() - 1 {
                    assert(b.held[x] == a.held[x]);
                }
            }
            lemma_take_conserves(b, now, false);
            assert(entries(b.held).to_multiset() =~= before.insert((sequence, value)));
            assert(before.insert((sequence, value)) =~= before.add(offer));
        }
    }
    assert forall|v: (u16, T)| #[trigger] entries(r.held).to_multiset().add(call_step(m, OrderCall::Push(sequence, value, now)).1).count(v)
        <= before.add(offer).count(v) by {
    }
}

/// Nothing is fabricated and nothing comes out twice: over any run of pushes and
/// releases in a fixed mode, what the run hands out, together with what is still held,
/// is contained in what was held at the start and what the run pushed. From an empty
/// buffer, a packet pushed once is handed out at most once.
pub proof fn law_run_hands_out_only_pushed_packets<T>(m: OrderModel<T>, calls: Seq<OrderCall<T>>)
    requires
        bounded(m),
    ensures
        entries(after_calls(m, calls).held).to_multiset().add(handed_out(m, calls)).subset_of(
            entries(m.held).to_multiset().add(offered(calls)),
        ),
    decreases calls.len(),
{
    broadcast use vstd::multiset::group_multiset_axioms;

    if calls.len() == 0 {
        assert(entries(m.held).to_multiset().add(Multiset::empty()) =~= entries(m.held).to_multiset());
    } else {
        let rest = calls.drop_last();
        law_run_hands_out_only_pushed_packets(m, rest);
        law_any_run_stays_bounded(m, rest);
        let before = after_calls(m, rest);
        let last = calls.last();
        let (after, out) = call_step(before, last);
        match last {
            OrderCall::Push(sequence, value, now) => lemma_push_conserves(before, sequence, value, now),
            OrderCall::PopReady(now) => lemma_take_conserves(before, now, false),
            OrderCall::Pop(now) => lemma_take_conserves(before, now, true),
        }
        assert(after == after_calls(m, calls));
        let step = entries(after.held).to_multiset().add(out);
        assert(step.subset_of(entries(before.held).to_multiset().add(call_offers(last))));
        assert forall|v: (u16, T)| #[trigger] entries(after.held).to_multiset().add(handed_out(m, calls)).count(v)
            <= entries(m.held).to_multiset().add(offered(calls)).count(v) by {
            assert(step.count(v) <= entries(before.held).to_multiset().add(call_offers(last)).count(v));
            assert(entries(before.held).to_multiset().add(handed_out(m, rest)).count(v) <= entries(
                m.held,
            ).to_multiset().add(offered(rest)).count(v));
        }
    }
}

/// A packet behind the expected sequence is counted as too late: it is neither handed
/// out nor held, so it can never come out later.
pub proof fn law_late_packet_is_never_handed_out<T>(m: OrderModel<T>, sequence: u16, value: T, now: u64)
    requires
        m.wf(),
        m.next matches Some(n) && forward(sequence, n) >= 0x8000,
    ensures
        m.push(sequence, value, now).1 is None,
        m.push(sequence, value, now).0.held == m.held,
{
}

proof fn lemma_furthest_covers<T>(held: Seq<HeldPacket<T>>, next: u16)
    ensures
        forall|k: int| 0 <= k < held.len() ==> forward(#[trigger] held[k].sequence, next) <= furthest(held, next),
        0 <= furthest(held, next) < 0x1_0000,
    decreases held.len(),
{
    if held.len() > 0 {
        lemma_furthest_covers(held.drop_last(), next);
        assert forall|k: int| 0 <= k < held.len() implies forward(#[trigger] held[k].sequence, next) <= furthest(
            held,
            next,
        ) by {
            if k < held.len() - 1 {
                assert(held.drop_last()[k] == held[k]);
            }
        }
    }
}

proof fn lemma_holes_complete<T>(held: Seq<HeldPacket<T>>, next: u16, count: nat)
    requires
        count <= 0x1_0000,
    ensures
        forall|o: int| 0 <= o < count && !holds(held, #[trigger] next.wrapping_add(o as u16))
            ==> holes(held, next, count).contains(next.wrapping_add(o as u16)),
    decreases count,
{
    if count > 0 {
        lemma_holes_complete(held, next, (count - 1) as nat);
        let before = holes(held, next, (count - 1) as nat);
        let all = holes(held, next, count);
        assert forall|o: int| 0 <= o < count && !holds(held, #[trigger] next.wrapping_add(o as u16))
            implies all.contains(next.wrapping_add(o as u16)) by {
            let q = next.wrapping_add(o as u16);
            if o < count - 1 {
                let i = choose|i: int| 0 <= i < before.len() && before[i] == q;
                assert(all[i] == q);
            } else {
                assert(all == before.push(q));
                assert(all[before.len() as int] == q);
            }
        }
    }
}

/// A retransmission request is complete: whenever it names anything, it names every
/// sequence number from the expected one up to the furthest held packet that no held
/// packet carries.
pub proof fn law_nack_requests_every_hole<T>(m: OrderModel<T>, now: u64, p: int, o: int)
    requires
        m.wf(),
        m.nack(now).1.len() > 0,
        0 <= p < m.held.len(),
        0 <= o < forward(m.held[p].sequence, m.next->0),
        !holds(m.held, m.next->0.wrapping_add(o as u16)),
    ensures
        m.nack(now).1.contains(m.next->0.wrapping_add(o as u16)),
{
    let next = m.next->0;
    lemma_furthest_covers(m.held, next);
    let distance = furthest(m.held, next);
    lemma_holes_complete(m.held, next, distance as nat);
    assert(forward(m.held[p].sequence, next) <= distance);
}

} // verus!
