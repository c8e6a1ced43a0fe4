//! Negotiated REMB ceiling; legacy delay adaptation runs only without active TWCC.
use vstd::prelude::*;
use crate::rtc::congestion::{BudgetModel, ReceiveBudget};
use crate::rtc::reorder::{bump, elapsed};
use crate::rtc::sdp::{holds, negotiated, remb_payloads};
use crate::text::{decimal, push_decimal, push_str};

verus! {

/// The video bitrate ceiling the client asks for.
pub const VIDEO_CEILING_BPS: u32 = 2_000_000;
/// Least spacing of ceiling feedback attempts, failed ones included.
pub const FEEDBACK_INTERVAL_US: u64 = 500_000;
/// How recently both arrival counters must have advanced for TWCC to count as working.
pub const ARRIVAL_RECENT_US: u64 = 2_000_000;

/// Whether TWCC arrival feedback is actually flowing. A negotiated extension alone is
/// insufficient: sender-side adaptation is trusted only while authenticated video
/// extensions AND successful TWCC sends both advance.
#[derive(Clone, Copy, Debug)]
pub struct ArrivalFeedback {
    pub packets: u64,
    pub reports: u64,
    pub packet_at: Option<u64>,
    pub report_at: Option<u64>,
    pub active: bool,
}

pub open spec fn no_arrival() -> ArrivalFeedback {
    ArrivalFeedback { packets: 0, reports: 0, packet_at: None, report_at: None, active: false }
}

pub open spec fn recent(at: Option<u64>, now: u64) -> bool {
    at matches Some(t) && elapsed(now, t) < ARRIVAL_RECENT_US
}

/// Arrival state after seeing the counters `packets` and `reports` at `now`. A counter
/// going backwards is a new session and starts over.
pub open spec fn arrival_after(a: ArrivalFeedback, packets: u64, reports: u64, now: u64) -> ArrivalFeedback {
    let base = if packets < a.packets || reports < a.reports { no_arrival() } else { a };
    let packet_at = if packets > base.packets { Some(now) } else { base.packet_at };
    let report_at = if reports > base.reports { Some(now) } else { base.report_at };
    ArrivalFeedback {
        packets,
        reports,
        packet_at,
        report_at,
        active: recent(packet_at, now) && recent(report_at, now),
    }
}

impl ArrivalFeedback {
    pub fn new() -> (state: Self)
        ensures
            state == no_arrival(),
    {
        ArrivalFeedback { packets: 0, reports: 0, packet_at: None, report_at: None, active: false }
    }

    pub fn update(&mut self, packets: u64, reports: u64, now_us: u64)
        ensures
            *final(self) == arrival_after(*old(self), packets, reports, now_us),
    {
        if packets < self.packets || reports < self.reports {
            *self = ArrivalFeedback::new();
        }
        if packets > self.packets {
            self.packet_at = Some(now_us);
        }
        if reports > self.reports {
            self.report_at = Some(now_us);
        }
        self.packets = packets;
        self.reports = reports;
        let packet_recent = match self.packet_at {
            Some(at) => (if now_us >= at { now_us - at } else { 0 }) < ARRIVAL_RECENT_US,
            None => false,
        };
        let report_recent = match self.report_at {
            Some(at) => (if now_us >= at { now_us - at } else { 0 }) < ARRIVAL_RECENT_US,
            None => false,
        };
        self.active = packet_recent && report_recent;
    }
}

impl Default for ArrivalFeedback {
    fn default() -> (state: Self)
        ensures
            state == no_arrival(),
    {
        ArrivalFeedback::new()
    }
}

/// Abstract state of the video ceiling.
pub ghost struct CeilingModel {
    pub budget: BudgetModel,
    /// Payload types that negotiated REMB in the remote answer, ascending.
    pub supported: Seq<u8>,
    /// The latest video payload type is one of them.
    pub active: bool,
    pub last_attempt: Option<u64>,
    pub queued: u64,
    pub failed: u64,
    pub over_windows: u64,
    pub arrival: ArrivalFeedback,
    pub delay_ms: u64,
}

impl CeilingModel {
    pub open spec fn initial(supported: Seq<u8>) -> Self {
        CeilingModel {
            budget: BudgetModel::initial(VIDEO_CEILING_BPS),
            supported,
            active: false,
            last_attempt: None,
            queued: 0,
            failed: 0,
            over_windows: 0,
            arrival: no_arrival(),
            delay_ms: 0,
        }
    }

    /// With working arrival feedback the sender adapts and the ceiling stays at its
    /// maximum; otherwise the legacy receive budget decides.
    pub open spec fn target_bps(self) -> u32 {
        if self.arrival.active { VIDEO_CEILING_BPS } else { self.budget.target }
    }

    pub open spec fn due(self, now: u64) -> bool {
        self.active && match self.last_attempt {
            None => true,
            Some(at) => elapsed(now, at) >= FEEDBACK_INTERVAL_US,
        }
    }

    pub open spec fn mode(self) -> Seq<char> {
        if self.active && self.arrival.active {
            "twcc-cap"@
        } else if self.active {
            "adaptive"@
        } else if self.supported.len() == 0 {
            "unsupported"@
        } else {
            "waiting-video"@
        }
    }

    /// Received video: the legacy budget learns from it only without working TWCC.
    pub open spec fn receive(self, bytes: u64, delay_ms: u64, now: u64) -> Self {
        CeilingModel {
            delay_ms,
            budget: if self.arrival.active { self.budget } else { self.budget.receive(bytes, delay_ms, now) },
            ..self
        }
    }

    /// New arrival counters. On every switch between sender-side and legacy adaptation
    /// the legacy budget starts over and the next ceiling is due at once.
    pub open spec fn after_arrival(self, video_packets: u64, sent: u64, now: u64) -> Self {
        let arrival = arrival_after(self.arrival, video_packets, sent, now);
        if arrival.active != self.arrival.active {
            CeilingModel { arrival, budget: BudgetModel::initial(VIDEO_CEILING_BPS), last_attempt: None, ..self }
        } else {
            CeilingModel { arrival, ..self }
        }
    }

    pub open spec fn after_attempt(self, now: u64, success: bool) -> Self {
        CeilingModel {
            last_attempt: Some(now),
            queued: if success { bump(self.queued, 1) } else { self.queued },
            failed: if success { self.failed } else { bump(self.failed, 1) },
            ..self
        }
    }

    /// Once four ceilings were queued, a window whose measured rate exceeds the target
    /// by more than a quarter counts as an overshoot.
    pub open spec fn after_summary(self, measured_kbps: u64) -> Self {
        CeilingModel {
            over_windows: if self.queued >= 4 && measured_kbps > self.target_bps() / 800 {
                bump(self.over_windows, 1)
            } else {
                self.over_windows
            },
            ..self
        }
    }

    pub open spec fn summary_text(self) -> Seq<char> {
        "REMB:"@ + self.mode() + " target:"@ + decimal((self.target_bps() / 1000) as nat) + "k delay:"@
            + decimal(self.delay_ms as nat) + "ms cuts:"@ + decimal(self.budget.reductions as nat) + " queued:"@
            + decimal(self.queued as nat) + " fail:"@ + decimal(self.failed as nat) + " over-windows:"@
            + decimal(self.over_windows as nat)
    }
}

/// The payload list an answer yields: ascending, each once, exactly those that negotiate REMB.
pub open spec fn remb_list(supported: Seq<u8>, sdp: Seq<char>) -> bool {
    &&& forall|i: int, j: int| 0 <= i < j < supported.len() ==> supported[i] < supported[j]
    &&& forall|pt: u8| supported.contains(pt) <==> negotiated(sdp, "goog-remb"@).contains(pt)
}

/// The REMB ceiling sent for the negotiated video payload.
pub struct VideoCeiling {
    budget: ReceiveBudget,
    supported_payloads: Vec<u8>,
    active: bool,
    last_attempt: Option<u64>,
    queued: u64,
    failed: u64,
    over_windows: u64,
    arrival: ArrivalFeedback,
    delay_ms: u64,
}

impl View for VideoCeiling {
    type V = CeilingModel;

    closed spec fn view(&self) -> CeilingModel {
        CeilingModel {
            budget: self.budget@,
            supported: self.supported_payloads@,
            active: self.active,
            last_attempt: self.last_attempt,
            queued: self.queued,
            failed: self.failed,
            over_windows: self.over_windows,
            arrival: self.arrival,
            delay_ms: self.delay_ms,
        }
    }
}

impl VideoCeiling {
    pub open spec fn wf(&self) -> bool {
        self@.budget.wf()
    }

    pub fn new() -> (cap: Self)
        ensures
            cap.wf(),
            cap@ == CeilingModel::initial(Seq::empty()),
    {
        VideoCeiling {
            budget: ReceiveBudget::new(VIDEO_CEILING_BPS),
            supported_payloads: Vec::new(),
            active: false,
            last_attempt: None,
            queued: 0,
            failed: 0,
            over_windows: 0,
            arrival: ArrivalFeedback::new(),
            delay_ms: 0,
        }
    }

    /// Received video: the legacy budget learns from it only without working TWCC.
    pub fn receive(&mut self, bytes: usize, delay_ms: u64, now_us: u64)
        requires
            old(self).wf(),
        ensures
            final(self).wf(),
            final(self)@ == old(self)@.receive(bytes as u64, delay_ms, now_us),
    {
        self.delay_ms = delay_ms;
        if !self.arrival.active {
            self.budget.receive(bytes, delay_ms, now_us);
        }
    }

    pub fn target_bps(&self) -> (target: u32)
        ensures
            target == self@.target_bps(),
    {
        if self.arrival.active {
            VIDEO_CEILING_BPS
        } else {
            self.budget.target()
        }
    }

    /// Cumulative legacy-budget reductions.
    pub fn reductions(&self) -> (cuts: u64)
        ensures
            cuts == self@.budget.reductions,
    {
        self.budget.reductions()
    }

    /// Whether TWCC arrival feedback is currently working.
    pub fn arrival_active(&self) -> (active: bool)
        ensures
            active == self@.arrival.active,
    {
        self.arrival.active
    }

    /// On every switch between sender-side and legacy adaptation the legacy budget starts
    /// over (a poisoned pre-TWCC estimate is not revived) and the next ceiling is due at once.
    pub fn update_arrival_feedback(&mut self, video_packets: u64, sent: u64, now_us: u64)
        requires
            old(self).wf(),
        ensures
            final(self).wf(),
            final(self)@ == old(self)@.after_arrival(video_packets, sent, now_us),
    {
        let previous = self.arrival.active;
        self.arrival.update(video_packets, sent, now_us);
        if previous != self.arrival.active {
            self.budget = ReceiveBudget::new(VIDEO_CEILING_BPS);
            self.last_attempt = None;
        }
    }

    /// A new remote answer forgets everything but the payloads it negotiates REMB for.
    pub fn answer(&mut self, sdp: &str)
        ensures
            final(self).wf(),
            final(self)@ == CeilingModel::initial(final(self)@.supported),
            remb_list(final(self)@.supported, sdp@),
    {
        let supported = remb_payloads(sdp);
        let mut fresh = VideoCeiling::new();
        fresh.supported_payloads = supported;
        *self = fresh;
    }

    /// The ceiling applies only while the video payload type negotiated REMB.
    pub fn observe_payload(&mut self, payload: u8)
        ensures
            final(self)@ == (CeilingModel { active: old(self)@.supported.contains(payload), ..old(self)@ }),
    {
        self.active = holds(&self.supported_payloads, payload);
    }

    pub fn due(&self, now_us: u64) -> (due: bool)
        ensures
            due == self@.due(now_us),
    {
        self.active && match self.last_attempt {
            None => true,
            Some(at) => (if now_us >= at { now_us - at } else { 0 }) >= FEEDBACK_INTERVAL_US,
        }
    }

    /// A failed attempt is throttled like a queued one.
    pub fn attempted(&mut self, now_us: u64, success: bool)
        ensures
            final(self)@ == old(self)@.after_attempt(now_us, success),
    {
        self.last_attempt = Some(now_us);
        if success {
            self.queued = self.queued.saturating_add(1);
        } else {
            self.failed = self.failed.saturating_add(1);
        }
    }

    /// One diagnostic line. Once four ceilings were queued, a window whose measured rate
    /// exceeds the target by more than a quarter counts as an overshoot. This is an
    /// observation, not a server acknowledgement or a hard wire cap.
    pub fn summary(&mut self, measured_kbps: u64) -> (text: String)
        ensures
            final(self)@ == old(self)@.after_summary(measured_kbps),
            text@ == final(self)@.summary_text(),
    {
        let target = self.target_bps();
        if self.queued >= 4 && measured_kbps > (target / 800) as u64 {
            self.over_windows = self.over_windows.saturating_add(1);
        }
        let mode = if self.active && self.arrival.active {
            "twcc-cap"
        } else if self.active {
            "adaptive"
        } else if self.supported_payloads.len() == 0 {
            "unsupported"
        } else {
            "waiting-video"
        };
        let mut text = String::new();
        push_str(&mut text, "REMB:");
        push_str(&mut text, mode);
        push_str(&mut text, " target:");
        push_decimal(&mut text, (target / 1000) as u128);
        push_str(&mut text, "k delay:");
        push_decimal(&mut text, self.delay_ms as u128);
        push_str(&mut text, "ms cuts:");
        push_decimal(&mut text, self.budget.reductions() as u128);
        push_str(&mut text, " queued:");
        push_decimal(&mut text, self.queued as u128);
        push_str(&mut text, " fail:");
        push_decimal(&mut text, self.failed as u128);
        push_str(&mut text, " over-windows:");
        push_decimal(&mut text, self.over_windows as u128);
        text
    }
}

impl Default for VideoCeiling {
    fn default() -> (cap: Self)
        ensures
            cap.wf(),
            cap@ == CeilingModel::initial(Seq::empty()),
    {
        VideoCeiling::new()
    }
}

/// Abstract state of the receive-rate meter.
pub ghost struct RateModel {
    pub started: u64,
    pub bytes: u64,
    pub bucket_start: u64,
    pub bucket_bytes: u64,
    pub peak_kbps: u64,
    pub last_packet: Option<u64>,
    pub max_gap_ms: u64,
    pub latest_kbps: u64,
}

/// Whole milliseconds from `then` to `now` (none when the clock went backwards).
pub open spec fn ms_between(now: u64, then: u64) -> u64 {
    elapsed(now, then) / 1000
}

pub open spec fn max_u64(a: u64, b: u64) -> u64 {
    if a >= b { a } else { b }
}

impl RateModel {
    pub open spec fn initial(now: u64) -> Self {
        RateModel {
            started: now,
            bytes: 0,
            bucket_start: now,
            bucket_bytes: 0,
            peak_kbps: 0,
            last_packet: None,
            max_gap_ms: 0,
            latest_kbps: 0,
        }
    }

    /// A bucket of at least 100ms closes into the peak rate.
    pub open spec fn close_bucket(self, now: u64) -> Self {
        let span = ms_between(now, self.bucket_start);
        if span >= 100 {
            RateModel {
                peak_kbps: max_u64(self.peak_kbps, (self.bucket_bytes as nat * 8 / span as nat) as u64),
                bucket_start: now,
                bucket_bytes: 0,
                ..self
            }
        } else {
            self
        }
    }

    pub open spec fn receive(self, bytes: u64, now: u64) -> Self {
        let closed = self.close_bucket(now);
        RateModel {
            max_gap_ms: match closed.last_packet {
                Some(last) => max_u64(closed.max_gap_ms, ms_between(now, last)),
                None => closed.max_gap_ms,
            },
            last_packet: Some(now),
            bytes: crate::rtc::congestion::sat_add(closed.bytes, bytes),
            bucket_bytes: crate::rtc::congestion::sat_add(closed.bucket_bytes, bytes),
            ..closed
        }
    }

    /// Average rate over the window, in kbit/s.
    pub open spec fn window_kbps(self, now: u64) -> nat {
        let closed = self.close_bucket(now);
        let span = ms_between(now, closed.started);
        closed.bytes as nat * 8 / (if span > 0 { span } else { 1 }) as nat
    }

    pub open spec fn idle_ms(self, now: u64) -> u64 {
        match self.last_packet {
            Some(last) => ms_between(now, last),
            None => 0,
        }
    }

    pub open spec fn summary_text(self, now: u64) -> Seq<char> {
        let closed = self.close_bucket(now);
        let idle = self.idle_ms(now);
        decimal(self.window_kbps(now)) + "/"@ + decimal(closed.peak_kbps as nat) + "k gap:"@ + decimal(idle as nat)
            + "/"@ + decimal(max_u64(closed.max_gap_ms, idle) as nat) + "ms"@
    }

    /// After a summary the window starts over at `now`; the open bucket and the last
    /// packet time carry on.
    pub open spec fn after_summary(self, now: u64) -> Self {
        let kbps = self.window_kbps(now);
        RateModel {
            started: now,
            bytes: 0,
            peak_kbps: 0,
            max_gap_ms: 0,
            latest_kbps: if kbps > u64::MAX { u64::MAX } else { kbps as u64 },
            ..self.close_bucket(now)
        }
    }
}

/// Average and peak received rate, and the longest gap between packets, per window.
pub struct ReceiveRate {
    started: u64,
    bytes: u64,
    bucket_start: u64,
    bucket_bytes: u64,
    peak_kbps: u64,
    last_packet: Option<u64>,
    max_gap_ms: u64,
    latest_kbps: u64,
}

impl View for ReceiveRate {
    type V = RateModel;

    closed spec fn view(&self) -> RateModel {
        RateModel {
            started: self.started,
            bytes: self.bytes,
            bucket_start: self.bucket_start,
            bucket_bytes: self.bucket_bytes,
            peak_kbps: self.peak_kbps,
            last_packet: self.last_packet,
            max_gap_ms: self.max_gap_ms,
            latest_kbps: self.latest_kbps,
        }
    }
}

fn ms_since(now_us: u64, then_us: u64) -> (ms: u64)
    ensures
        ms == ms_between(now_us, then_us),
{
    (if now_us >= then_us { now_us - then_us } else { 0 }) / 1000
}

impl ReceiveRate {
    pub fn new(now_us: u64) -> (rate: Self)
        ensures
            rate@ == RateModel::initial(now_us),
    {
        ReceiveRate {
            started: now_us,
            bytes: 0,
            bucket_start: now_us,
            bucket_bytes: 0,
            peak_kbps: 0,
            last_packet: None,
            max_gap_ms: 0,
            latest_kbps: 0,
        }
    }

    /// The average rate of the last summarised window.
    pub fn latest_kbps(&self) -> (kbps: u64)
        ensures
            kbps == self@.latest_kbps,
    {
        self.latest_kbps
    }

    fn close_bucket(&mut self, now_us: u64)
        ensures
            final(self)@ == old(self)@.close_bucket(now_us),
    {
        let span = ms_since(now_us, self.bucket_start);
        if span >= 100 {
            let rate: u128 = (self.bucket_bytes as u128) * 8 / (span as u128);
            proof {
                vstd::arithmetic::div_mod::lemma_div_is_ordered_by_denominator(
                    self.bucket_bytes as int * 8,
                    100,
                    span as int,
                );
            }
            let rate = rate as u64;
            if rate > self.peak_kbps {
                self.peak_kbps = rate;
            }
            self.bucket_start = now_us;
            self.bucket_bytes = 0;
        }
    }

    pub fn receive(&mut self, bytes: usize, now_us: u64)
        ensures
            final(self)@ == old(self)@.receive(bytes as u64, now_us),
    {
        self.close_bucket(now_us);
        if let Some(last) = self.last_packet {
            let gap = ms_since(now_us, last);
            if gap > self.max_gap_ms {
                self.max_gap_ms = gap;
            }
        }
        self.last_packet = Some(now_us);
        self.bytes = self.bytes.saturating_add(bytes as u64);
        self.bucket_bytes = self.bucket_bytes.saturating_add(bytes as u64);
    }

    /// `"{kbps}/{peak}k gap:{idle}/{max gap}ms"` for the window ending at `now`, then a new window.
    pub fn summary(&mut self, now_us: u64) -> (text: String)
        ensures
            text@ == old(self)@.summary_text(now_us),
            final(self)@ == old(self)@.after_summary(now_us),
    {
        let idle: u64 = match self.last_packet {
            Some(last) => ms_since(now_us, last),
            None => 0,
        };
        self.close_bucket(now_us);
        let span = ms_since(now_us, self.started);
        let kbps: u128 = (self.bytes as u128) * 8 / (if span > 0 { span } else { 1 }) as u128;
        self.latest_kbps = if kbps > u64::MAX as u128 { u64::MAX } else { kbps as u64 };
        let mut text = String::new();
        push_decimal(&mut text, kbps);
        push_str(&mut text, "/");
        push_decimal(&mut text, self.peak_kbps as u128);
        push_str(&mut text, "k gap:");
        push_decimal(&mut text, idle as u128);
        push_str(&mut text, "/");
        push_decimal(&mut text, (if self.max_gap_ms > idle { self.max_gap_ms } else { idle }) as u128);
        push_str(&mut text, "ms");
        self.started = now_us;
        self.bytes = 0;
        self.peak_kbps = 0;
        self.max_gap_ms = 0;
        text
    }
}

/// While TWCC arrival feedback works, received video never moves the ceiling off its
/// maximum and never touches the legacy budget.
pub proof fn law_working_twcc_holds_the_ceiling(m: CeilingModel, bytes: u64, delay_ms: u64, now: u64)
    requires
        m.arrival.active,
    ensures
        m.receive(bytes, delay_ms, now).target_bps() == VIDEO_CEILING_BPS,
        m.receive(bytes, delay_ms, now).budget == m.budget,
        m.receive(bytes, delay_ms, now).delay_ms == delay_ms,
{
}

/// A switch between sender-side and legacy adaptation makes the ceiling due at once
/// whenever the video payload negotiated it, and the legacy budget starts at the maximum.
pub proof fn law_mode_switch_resends_the_ceiling(m: CeilingModel, video_packets: u64, sent: u64, now: u64, later: u64)
    requires
        arrival_after(m.arrival, video_packets, sent, now).active != m.arrival.active,
    ensures
        m.after_arrival(video_packets, sent, now).due(later) == m.active,
        m.after_arrival(video_packets, sent, now).budget == BudgetModel::initial(VIDEO_CEILING_BPS),
        m.after_arrival(video_packets, sent, now).target_bps() == VIDEO_CEILING_BPS,
{
}

/// Attempts, failed or not, are at least the feedback interval apart.
pub proof fn law_attempts_are_throttled(m: CeilingModel, now: u64, success: bool, later: u64)
    ensures
        m.after_attempt(now, success).due(later) ==> elapsed(later, now) >= FEEDBACK_INTERVAL_US,
{
}

/// Without a newly sent report within the recency window arrival feedback is not
/// working, however many video packets arrive.
pub proof fn law_stalled_reports_fall_back(a: ArrivalFeedback, packets: u64, now: u64)
    requires
        packets >= a.packets,
        a.report_at matches Some(at) ==> elapsed(now, at) >= ARRIVAL_RECENT_US,
    ensures
        !arrival_after(a, packets, a.reports, now).active,
{
}

/// Without newly arrived video extensions within the recency window arrival feedback is
/// not working, however many reports are sent.
pub proof fn law_stalled_video_falls_back(a: ArrivalFeedback, reports: u64, now: u64)
    requires
        reports >= a.reports,
        a.packet_at matches Some(at) ==> elapsed(now, at) >= ARRIVAL_RECENT_US,
    ensures
        !arrival_after(a, a.packets, reports, now).active,
{
}

/// Counters that go backwards belong to a new session: nothing of the old one is kept.
pub proof fn law_new_session_starts_over(a: ArrivalFeedback, packets: u64, reports: u64, now: u64)
    requires
        packets < a.packets || reports < a.reports,
    ensures
        arrival_after(a, packets, reports, now) == arrival_after(no_arrival(), packets, reports, now),
{
}

} // verus!
