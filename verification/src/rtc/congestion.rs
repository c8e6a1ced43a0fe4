//! Growth-based REMB fallback (only when TWCC is not active).
//! Absolute arrival offset is not evidence of continuing queue growth. A step
//! after a pause must not be repeatedly spent as new congestion evidence.
//!
//! Times are monotonic microseconds supplied by the caller.
use vstd::prelude::*;
use crate::rtc::reorder::{bump, elapsed};

verus! {

pub const SAMPLE_US: u64 = 200_000;
pub const DECREASE_INTERVAL_US: u64 = 1_000_000;
pub const SETTLED_RECOVERY_INTERVAL_US: u64 = 10_000_000;
pub const IDLE_RESET_US: u64 = 1_000_000;
pub const MIN_BPS: u32 = 500_000;
pub const RECOVERY_STEP_BPS: u32 = 100_000;
pub const JITTER_TOLERANCE_MS: u64 = 20;

/// `a + b`, saturating at `u64::MAX`.
pub open spec fn sat_add(a: u64, b: u64) -> u64 {
    if a + b > u64::MAX { u64::MAX } else { (a + b) as u64 }
}

pub open spec fn min_u64(a: u64, b: u64) -> u64 {
    if a < b { a } else { b }
}

pub open spec fn min_u32(a: u32, b: u32) -> u32 {
    if a < b { a } else { b }
}

/// Received rate of a window: bits per millisecond-rounded-down window length,
/// capped at `u32::MAX`.
pub open spec fn window_bps(bytes: u64, elapsed_us: u64) -> u32 {
    let ms = if elapsed_us / 1000 > 0 { elapsed_us / 1000 } else { 1 };
    let bps = bytes * 8000 / ms as int;
    if bps > u32::MAX { u32::MAX } else { bps as u32 }
}

/// Target after a confirmed growth step: 70% of the target, at most 80% of the
/// received rate, never below the floor (or the maximum, if that is lower).
pub open spec fn reduced_target(target: u32, received_bps: u32, maximum: u32) -> u32 {
    let seventy = (target as int * 7 / 10) as u32;
    let eighty = (received_bps as int * 8 / 10) as u32;
    let floor = min_u32(MIN_BPS, maximum);
    let next = min_u32(seventy, eighty);
    if next > floor { next } else { floor }
}

/// Abstract state of the fallback receive budget.
pub ghost struct BudgetModel {
    pub maximum: u32,
    pub target: u32,
    pub start: Option<u64>,
    pub bytes: u64,
    pub last_change: Option<u64>,
    pub healthy_since: Option<u64>,
    pub sample_min_ms: u64,
    pub delayed_windows: u32,
    pub trend: Option<(u64, u64)>,
    pub reductions: u64,
    pub delay_ms: u64,
}

impl BudgetModel {
    pub open spec fn initial(maximum: u32) -> Self {
        BudgetModel {
            maximum,
            target: maximum,
            start: None,
            bytes: 0,
            last_change: None,
            healthy_since: None,
            sample_min_ms: u64::MAX,
            delayed_windows: 0,
            trend: None,
            reductions: 0,
            delay_ms: 0,
        }
    }

    /// The target stays between the floor (capped by the maximum) and the maximum.
    pub open spec fn wf(self) -> bool {
        min_u32(MIN_BPS, self.maximum) <= self.target <= self.maximum
    }

    /// One received packet of `bytes` with arrival delay `delay_ms` at `now`.
    pub open spec fn receive(self, bytes: u64, delay_ms: u64, now: u64) -> Self {
        let total = sat_add(self.bytes, bytes);
        let sample_min = min_u64(self.sample_min_ms, delay_ms);
        let start = match self.start { Some(s) => s, None => now };
        let window = elapsed(now, start);
        if window < SAMPLE_US {
            BudgetModel { bytes: total, sample_min_ms: sample_min, start: Some(start), ..self }
        } else {
            // A single late packet at a window boundary is not persistent backlog.
            let delay = sample_min;
            let idle = window > IDLE_RESET_US;
            let received = window_bps(total, window);
            let base = BudgetModel {
                start: Some(now),
                bytes: 0,
                sample_min_ms: u64::MAX,
                delay_ms: delay,
                healthy_since: if idle { None } else { self.healthy_since },
                delayed_windows: if idle { 0 } else { self.delayed_windows },
                trend: if idle { None } else { self.trend },
                ..self
            };
            match base.trend {
                None => BudgetModel { trend: Some((now, delay)), ..base },
                Some((trend_at, previous)) => {
                    if elapsed(now, trend_at) < DECREASE_INTERVAL_US {
                        base
                    } else {
                        let base = BudgetModel { trend: Some((now, delay)), ..base };
                        if delay > sat_add(previous, JITTER_TOLERANCE_MS) {
                            let windows = if base.delayed_windows == u32::MAX { u32::MAX } else { (base.delayed_windows + 1) as u32 };
                            let base = BudgetModel { healthy_since: None, delayed_windows: windows, ..base };
                            let settled = match base.last_change {
                                None => true,
                                Some(at) => elapsed(now, at) >= DECREASE_INTERVAL_US,
                            };
                            if windows >= 2 && settled {
                                let next = reduced_target(base.target, received, base.maximum);
                                if next < base.target {
                                    BudgetModel {
                                        target: next,
                                        last_change: Some(now),
                                        reductions: bump(base.reductions, 1),
                                        ..base
                                    }
                                } else {
                                    base
                                }
                            } else {
                                base
                            }
                        } else {
                            let base = BudgetModel { delayed_windows: 0, ..base };
                            if previous > sat_add(delay, JITTER_TOLERANCE_MS) {
                                // Queue is draining. Do not immediately undo the reduction.
                                BudgetModel { healthy_since: None, ..base }
                            } else {
                                let healthy = match base.healthy_since { Some(h) => h, None => now };
                                if elapsed(now, healthy) >= SETTLED_RECOVERY_INTERVAL_US {
                                    let raised = base.target + RECOVERY_STEP_BPS;
                                    let capped = if raised > base.maximum { base.maximum } else { raised as u32 };
                                    BudgetModel {
                                        target: capped,
                                        last_change: Some(now),
                                        healthy_since: Some(now),
                                        ..base
                                    }
                                } else {
                                    BudgetModel { healthy_since: Some(healthy), ..base }
                                }
                            }
                        }
                    }
                },
            }
        }
    }
}

/// Delay-growth based receive budget for the legacy REMB ceiling.
pub struct ReceiveBudget {
    maximum: u32,
    target: u32,
    start: Option<u64>,
    bytes: u64,
    last_change: Option<u64>,
    healthy_since: Option<u64>,
    sample_min_ms: u64,
    delayed_windows: u32,
    trend: Option<(u64, u64)>,
    pub reductions: u64,
    pub delay_ms: u64,
}

impl View for ReceiveBudget {
    type V = BudgetModel;

    closed spec fn view(&self) -> BudgetModel {
        BudgetModel {
            maximum: self.maximum,
            target: self.target,
            start: self.start,
            bytes: self.bytes,
            last_change: self.last_change,
            healthy_since: self.healthy_since,
            sample_min_ms: self.sample_min_ms,
            delayed_windows: self.delayed_windows,
            trend: self.trend,
            reductions: self.reductions,
            delay_ms: self.delay_ms,
        }
    }
}

impl ReceiveBudget {
    pub fn new(maximum: u32) -> (budget: Self)
        ensures
            budget@ == BudgetModel::initial(maximum),
            budget@.wf(),
    {
        ReceiveBudget {
            maximum,
            target: maximum,
            start: None,
            bytes: 0,
            last_change: None,
            healthy_since: None,
            delayed_windows: 0,
            trend: None,
            sample_min_ms: u64::MAX,
            reductions: 0,
            delay_ms: 0,
        }
    }

    pub fn target(&self) -> (target: u32)
        ensures
            target == self@.target,
    {
        self.target
    }

    /// How many times the target was reduced.
    pub fn reductions(&self) -> (cuts: u64)
        ensures
            cuts == self@.reductions,
    {
        self.reductions
    }

    pub fn receive(&mut self, bytes: usize, delay_ms: u64, now_us: u64)
        requires
            old(self)@.wf(),
        ensures
            final(self)@ == old(self)@.receive(bytes as u64, delay_ms, now_us),
            final(self)@.wf(),
    {
        self.bytes = self.bytes.saturating_add(bytes as u64);
        if delay_ms < self.sample_min_ms {
            self.sample_min_ms = delay_ms;
        }
        let start = match self.start {
            Some(s) => s,
            None => now_us,
        };
        self.start = Some(start);
        let window: u64 = if now_us >= start { now_us - start } else { 0 };
        if window < SAMPLE_US {
            return;
        }
        let delay_ms = self.sample_min_ms;
        self.sample_min_ms = u64::MAX;
        if window > IDLE_RESET_US {
            // Time with no video is not evidence of spare bandwidth.
            self.healthy_since = None;
            self.delayed_windows = 0;
            self.trend = None;
        }
        let window_ms: u64 = if window / 1000 > 0 { window / 1000 } else { 1 };
        let bps: u128 = (self.bytes as u128) * 8000 / (window_ms as u128);
        let received_bps: u32 = if bps > u32::MAX as u128 { u32::MAX } else { bps as u32 };
        self.start = Some(now_us);
        self.bytes = 0;
        self.delay_ms = delay_ms;

        let (trend_at, previous_delay) = match self.trend {
            Some(t) => t,
            None => {
                self.trend = Some((now_us, delay_ms));
                return;
            },
        };
        if now_us < trend_at || now_us - trend_at < DECREASE_INTERVAL_US {
            return;
        }
        self.trend = Some((now_us, delay_ms));

        // Two successive one-second lower-envelope increases are required.
        // Reuse the existing 20ms jitter tolerance, now against a moving
        // reference rather than the session's fastest-ever arrival.
        if delay_ms > previous_delay.saturating_add(JITTER_TOLERANCE_MS) {
            self.healthy_since = None;
            self.delayed_windows = self.delayed_windows.saturating_add(1);
            let settled = match self.last_change {
                None => true,
                Some(at) => now_us >= at && now_us - at >= DECREASE_INTERVAL_US,
            };
            if self.delayed_windows >= 2 && settled {
                // Leave capacity for audio, transport headers and clearing the
                // upstream backlog. Never treat requested bitrate as delivered.
                let seventy = ((self.target as u64) * 7 / 10) as u32;
                let eighty = ((received_bps as u64) * 8 / 10) as u32;
                let floor = if MIN_BPS < self.maximum { MIN_BPS } else { self.maximum };
                let lower = if seventy < eighty { seventy } else { eighty };
                let next = if lower > floor { lower } else { floor };
                if next < self.target {
                    self.target = next;
                    self.last_change = Some(now_us);
                    self.reductions = self.reductions.saturating_add(1);
                }
            }
        } else {
            self.delayed_windows = 0;
            if previous_delay > delay_ms.saturating_add(JITTER_TOLERANCE_MS) {
                // Queue is draining. Do not immediately undo the reduction.
                self.healthy_since = None;
                return;
            }
            let healthy = match self.healthy_since {
                Some(h) => h,
                None => now_us,
            };
            self.healthy_since = Some(healthy);
            if now_us >= healthy && now_us - healthy >= SETTLED_RECOVERY_INTERVAL_US {
                let raised = self.target.saturating_add(RECOVERY_STEP_BPS);
                self.target = if raised > self.maximum { self.maximum } else { raised };
                self.last_change = Some(now_us);
                self.healthy_since = Some(now_us);
            }
        }
    }
}

/// The target always stays between the floor (capped by the maximum) and the maximum.
pub proof fn law_target_stays_within_bounds(m: BudgetModel, bytes: u64, delay_ms: u64, now: u64)
    requires
        m.wf(),
    ensures
        m.receive(bytes, delay_ms, now).wf(),
        m.receive(bytes, delay_ms, now).maximum == m.maximum,
{
}

/// A fixed arrival offset is not congestion: a sample whose window minimum has not grown
/// by more than the jitter tolerance over the previous trend sample never lowers the target.
pub proof fn law_steady_delay_never_reduces(m: BudgetModel, bytes: u64, delay_ms: u64, now: u64)
    requires
        m.wf(),
        m.trend matches Some((_, previous)) && min_u64(m.sample_min_ms, delay_ms) <= sat_add(
            previous,
            JITTER_TOLERANCE_MS,
        ),
    ensures
        m.receive(bytes, delay_ms, now).target >= m.target,
        m.receive(bytes, delay_ms, now).reductions == m.reductions,
{
}

/// Reductions are at least a second apart.
pub proof fn law_reductions_at_least_a_second_apart(m: BudgetModel, bytes: u64, delay_ms: u64, now: u64)
    requires
        m.wf(),
        m.last_change matches Some(at) && elapsed(now, at) < DECREASE_INTERVAL_US,
    ensures
        m.receive(bytes, delay_ms, now).target >= m.target,
{
}

/// Recovery is deliberate: one sample raises the target by at most one recovery step.
pub proof fn law_recovery_is_stepwise(m: BudgetModel, bytes: u64, delay_ms: u64, now: u64)
    requires
        m.wf(),
    ensures
        m.receive(bytes, delay_ms, now).target <= m.target + RECOVERY_STEP_BPS,
{
}

} // verus!
