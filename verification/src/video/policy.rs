//! One policy for compressed video. Decoded pictures may be replaced freely;
//! compressed reference pictures may not. These are local budgets, not promises
//! about network or Xbox capture latency.
use vstd::prelude::*;
use crate::rtc::reorder::{bump, elapsed};
use crate::text::{decimal, push_decimal, push_str};

verus! {

// Cloud can deliver four complete AUs in 241us after an IDR. Admit that
// burst plus two slots of headroom without increasing the residence deadline.
pub const AU_QUEUE_CAPACITY: usize = 6;
pub const AU_QUEUE_BYTES: usize = 4 * 1024 * 1024;
pub const AU_MAX_AGE_US: u64 = 50_000;

/// Bytes admitted to the decode queue on behalf of one access unit.
pub struct QueueReservation {
    pub bytes: usize,
    /// Queue bytes in use once this reservation is held.
    pub total: usize,
}

impl QueueReservation {
    /// Admit `bytes` more when the queue, already holding `used` bytes, stays within its budget.
    pub fn acquire(used: usize, bytes: usize) -> (reservation: Option<QueueReservation>)
        ensures
            match reservation {
                Some(r) => used + bytes <= AU_QUEUE_BYTES && r.bytes == bytes && r.total == used + bytes,
                None => used + bytes > AU_QUEUE_BYTES,
            },
    {
        if bytes > AU_QUEUE_BYTES || used > AU_QUEUE_BYTES - bytes {
            None
        } else {
            Some(QueueReservation { bytes, total: used + bytes })
        }
    }

    /// Gives the reservation's bytes back to a queue holding `used` bytes; returns what the
    /// queue then holds.
    pub fn release(self, used: usize) -> (left: usize)
        requires
            self.bytes <= used,
        ensures
            left == used - self.bytes,
    {
        used - self.bytes
    }
}

/// Abstract state of damage recovery.
pub ghost struct RecoveryModel {
    pub waiting: bool,
    pub started: Option<u64>,
    pub longest_wait_us: u64,
    pub completed: u64,
}

/// Waiting for an IDR after damage to the reference chain.
pub struct Recovery {
    waiting: bool,
    started: Option<u64>,
    longest_wait_us: u64,
    completed: u64,
}

impl View for Recovery {
    type V = RecoveryModel;

    closed spec fn view(&self) -> RecoveryModel {
        RecoveryModel {
            waiting: self.waiting,
            started: self.started,
            longest_wait_us: self.longest_wait_us,
            completed: self.completed,
        }
    }
}

impl RecoveryModel {
    pub open spec fn wait_ms(self, now: u64) -> u64 {
        match self.started {
            Some(at) => elapsed(now, at) / 1000,
            None => 0,
        }
    }

    /// Damage starts a wait for an IDR, unless one is already under way.
    pub open spec fn after_damage(self, now: u64) -> Self {
        if self.waiting { self } else { RecoveryModel { waiting: true, started: Some(now), ..self } }
    }

    /// A submitted IDR ends the wait and records how long it took.
    pub open spec fn after_submit(self, idr: bool, now: u64) -> Self {
        if !idr {
            self
        } else {
            match self.started {
                Some(at) => RecoveryModel {
                    waiting: false,
                    started: None,
                    longest_wait_us: if elapsed(now, at) > self.longest_wait_us {
                        elapsed(now, at)
                    } else {
                        self.longest_wait_us
                    },
                    completed: bump(self.completed, 1),
                },
                None => RecoveryModel { waiting: false, ..self },
            }
        }
    }

    pub open spec fn summary(self, now: u64) -> Seq<char> {
        let current = self.wait_ms(now);
        let longest = self.longest_wait_us / 1000;
        "Recovery wait:"@ + decimal(current as nat) + "ms max:"@ + decimal(
            (if current > longest { current } else { longest }) as nat,
        ) + "ms completed:"@ + decimal(self.completed as nat)
    }
}

impl Recovery {
    pub fn new() -> (state: Self)
        ensures
            state@ == (RecoveryModel { waiting: false, started: None, longest_wait_us: 0, completed: 0 }),
    {
        Recovery { waiting: false, started: None, longest_wait_us: 0, completed: 0 }
    }

    /// Returns true only on the transition: invalidate queued work once.
    pub fn damage(&mut self, now_us: u64) -> (changed: bool)
        ensures
            changed == !old(self)@.waiting,
            final(self)@ == old(self)@.after_damage(now_us),
    {
        let changed = !self.waiting;
        self.waiting = true;
        if changed {
            self.started = Some(now_us);
        }
        changed
    }

    pub fn waiting(&self) -> (waiting: bool)
        ensures
            waiting == self@.waiting,
    {
        self.waiting
    }

    /// While waiting, only an IDR is admitted.
    pub fn accepts(&self, idr: bool) -> (accepted: bool)
        ensures
            accepted == (!self@.waiting || idr),
    {
        !self.waiting || idr
    }

    pub fn wait_ms(&self, now_us: u64) -> (ms: u64)
        ensures
            ms == self@.wait_ms(now_us),
    {
        match self.started {
            Some(at) => (if now_us >= at { now_us - at } else { 0 }) / 1000,
            None => 0,
        }
    }

    pub fn summary(&self, now_us: u64) -> (text: String)
        ensures
            text@ == self@.summary(now_us),
    {
        let current = self.wait_ms(now_us);
        let longest = self.longest_wait_us / 1000;
        let mut text = String::new();
        push_str(&mut text, "Recovery wait:");
        push_decimal(&mut text, current as u128);
        push_str(&mut text, "ms max:");
        push_decimal(&mut text, (if current > longest { current } else { longest }) as u128);
        push_str(&mut text, "ms completed:");
        push_decimal(&mut text, self.completed as u128);
        text
    }

    /// Seeing an IDR is insufficient: it must actually enter the decoder queue.
    pub fn submitted(&mut self, idr: bool, now_us: u64)
        ensures
            final(self)@ == old(self)@.after_submit(idr, now_us),
    {
        if idr {
            self.waiting = false;
            if let Some(started) = self.started {
                self.started = None;
                let waited: u64 = if now_us >= started { now_us - started } else { 0 };
                if waited > self.longest_wait_us {
                    self.longest_wait_us = waited;
                }
                self.completed = self.completed.saturating_add(1);
            }
        }
    }
}

impl Default for Recovery {
    fn default() -> (state: Self)
        ensures
            state@ == (RecoveryModel { waiting: false, started: None, longest_wait_us: 0, completed: 0 }),
    {
        Recovery::new()
    }
}

/// The decode queue deadline: an AU older than `AU_MAX_AGE_US` has expired. Newer
/// frames never extend it.
pub fn expired(received_us: u64, now_us: u64) -> (expired: bool)
    ensures
        expired == (elapsed(now_us, received_us) > AU_MAX_AGE_US),
{
    now_us >= received_us && now_us - received_us > AU_MAX_AGE_US
}

} // verus!
