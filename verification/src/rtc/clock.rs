//! Sender RTP/RTCP clock probe. This only measures timestamps; it never delays media.
//!
//! Monotonic times are microseconds; wall-clock times are milliseconds since the Unix epoch.
use vstd::prelude::*;
use crate::rtc::reorder::elapsed;
use crate::text::{decimal, div_trunc, int_decimal, push_decimal, push_int, push_signed, push_str, signed_decimal};
use crate::video::freshness::VideoTiming;

verus! {

pub const NTP_UNIX_SECONDS: i128 = 2_208_988_800;
pub const MAX_REPORT_DISTANCE_SECONDS: i64 = 120;

/// Unix milliseconds of a 64-bit NTP timestamp, or `None` before 1970.
pub open spec fn ntp_unix_ms(ntp_time: u64) -> Option<i128> {
    let seconds = ntp_time as int / 0x1_0000_0000;
    let fraction = ntp_time as int % 0x1_0000_0000;
    if seconds < NTP_UNIX_SECONDS {
        None
    } else {
        Some(((seconds - NTP_UNIX_SECONDS) * 1000 + fraction * 1000 / 0x1_0000_0000) as i128)
    }
}

/// Abstract state of the clock probe.
pub ghost struct ClockModel {
    pub clock_rate: i64,
    pub report: Option<(u32, i128)>,
    pub last_report_at: Option<u64>,
    pub last_timestamp: Option<u32>,
    pub latest_age_ms: Option<i64>,
    pub baseline_age_ms: Option<i64>,
    pub report_count: u64,
    pub arrival_baseline: Option<u64>,
    pub elapsed_ticks: u64,
    pub minimum_offset_us: i128,
    pub relative_delay_ms: u64,
    pub last_frame_at: Option<u64>,
}

impl ClockModel {
    pub open spec fn wf(self) -> bool {
        &&& self.clock_rate > 0
        &&& -0x1_0000_0000_0000_0000 * 1_000_000 <= self.minimum_offset_us <= 0
        &&& (self.report matches Some((_, ms)) ==> 0 <= ms <= 0x1_0000_0000 * 1000)
    }

    pub open spec fn sender_report(self, ntp_time: u64, rtp_time: u32, now: u64) -> Self {
        let counted = ClockModel {
            last_report_at: Some(now),
            report_count: if self.report_count == u64::MAX { u64::MAX } else { (self.report_count + 1) as u64 },
            ..self
        };
        match ntp_unix_ms(ntp_time) {
            None => counted,
            Some(unix_ms) => ClockModel { report: Some((rtp_time, unix_ms)), ..counted },
        }
    }

    /// Arrival bookkeeping of a newer timestamp; the relative delay is the added
    /// delay since the fastest observed arrival, not capture age.
    pub open spec fn arrive(self, timestamp: u32, now: u64) -> Self {
        let restart = match self.last_timestamp {
            Some(previous) => timestamp.wrapping_sub(previous) as int > self.clock_rate as int * MAX_REPORT_DISTANCE_SECONDS as int,
            None => false,
        };
        let ticks = match self.last_timestamp {
            Some(previous) => if restart { 0 } else {
                let t = self.elapsed_ticks + timestamp.wrapping_sub(previous);
                if t > u64::MAX { u64::MAX } else { t as u64 }
            },
            None => self.elapsed_ticks,
        };
        let prior_baseline = if restart { None } else { self.arrival_baseline };
        let prior_minimum = if restart { 0 } else { self.minimum_offset_us };
        let baseline = match prior_baseline { Some(b) => b, None => now };
        let media_us = ticks as int * 1_000_000 / self.clock_rate as int;
        let offset = elapsed(now, baseline) as int - media_us;
        let minimum = if offset < prior_minimum { offset } else { prior_minimum as int };
        ClockModel {
            last_timestamp: Some(timestamp),
            last_frame_at: Some(now),
            arrival_baseline: Some(baseline),
            elapsed_ticks: ticks,
            minimum_offset_us: minimum as i128,
            relative_delay_ms: ((offset - minimum) / 1000) as u64,
            ..self
        }
    }

    /// Sender age from the latest report, when it is close enough to apply.
    pub open spec fn report_age(self, timestamp: u32, unix_now_ms: Option<u64>) -> Option<i64> {
        match self.report {
            None => None,
            Some((report_rtp, report_unix_ms)) => {
                let ticks = (timestamp.wrapping_sub(report_rtp) as i32) as int;
                let magnitude = if ticks < 0 { -ticks } else { ticks };
                if magnitude > self.clock_rate as int * MAX_REPORT_DISTANCE_SECONDS as int {
                    None
                } else {
                    match unix_now_ms {
                        None => None,
                        Some(unix_now) => {
                            let sender_ms = report_unix_ms as int + div_trunc(ticks * 1000, self.clock_rate as int);
                            let age = unix_now as int - sender_ms;
                            if i64::MIN <= age <= i64::MAX { Some(age as i64) } else { None }
                        },
                    }
                }
            },
        }
    }

    /// A newer RTP timestamp at `now`; duplicates and late or reordered timestamps,
    /// including across wrap, are ignored.
    pub open spec fn receive(self, timestamp: u32, now: u64, unix_now_ms: Option<u64>) -> Self {
        let ignored = match self.last_timestamp {
            Some(previous) => {
                let forward = timestamp.wrapping_sub(previous);
                forward == 0 || forward >= 0x8000_0000
            },
            None => false,
        };
        if ignored {
            self
        } else {
            let arrived = self.arrive(timestamp, now);
            match arrived.report_age(timestamp, unix_now_ms) {
                None => arrived,
                Some(age) => ClockModel {
                    latest_age_ms: Some(age),
                    baseline_age_ms: match arrived.baseline_age_ms { Some(b) => Some(b), None => Some(age) },
                    ..arrived
                },
            }
        }
    }

    /// Diagnostic line: age and drift against the sender report clock, the relative
    /// delay, and the report count and age in seconds.
    pub open spec fn summary(self, now: u64) -> Seq<char> {
        let relative = "rel+"@ + decimal(self.relative_delay_ms as nat) + "ms"@;
        let report_age = match self.last_report_at { Some(at) => elapsed(now, at) / 1_000_000, None => 0 };
        if self.report_count == 0 {
            "? SR:0 "@ + relative
        } else {
            match self.latest_age_ms {
                None => "? SR:"@ + decimal(self.report_count as nat) + "/"@ + decimal(report_age as nat) + "s "@ + relative,
                Some(age) => {
                    let drift = age - match self.baseline_age_ms { Some(b) => b as int, None => age as int };
                    int_decimal(age as int) + "ms d"@ + signed_decimal(drift) + " "@ + relative + " SR:"@
                        + decimal(self.report_count as nat) + "/"@ + decimal(report_age as nat) + "s"@
                },
            }
        }
    }
}

/// Measures sender timestamps against local arrival and sender reports.
pub struct RtpClockProbe {
    clock_rate: i64,
    report: Option<(u32, i128)>,
    last_report_at: Option<u64>,
    last_timestamp: Option<u32>,
    latest_age_ms: Option<i64>,
    baseline_age_ms: Option<i64>,
    report_count: u64,
    arrival_baseline: Option<u64>,
    elapsed_ticks: u64,
    minimum_offset_us: i128,
    relative_delay_ms: u64,
    last_frame_at: Option<u64>,
}

impl View for RtpClockProbe {
    type V = ClockModel;

    closed spec fn view(&self) -> ClockModel {
        ClockModel {
            clock_rate: self.clock_rate,
            report: self.report,
            last_report_at: self.last_report_at,
            last_timestamp: self.last_timestamp,
            latest_age_ms: self.latest_age_ms,
            baseline_age_ms: self.baseline_age_ms,
            report_count: self.report_count,
            arrival_baseline: self.arrival_baseline,
            elapsed_ticks: self.elapsed_ticks,
            minimum_offset_us: self.minimum_offset_us,
            relative_delay_ms: self.relative_delay_ms,
            last_frame_at: self.last_frame_at,
        }
    }
}

impl RtpClockProbe {
    /// A probe for a stream with the given RTP clock rate (ticks per second).
    pub fn new(clock_rate: i64) -> (probe: Self)
        requires
            clock_rate > 0,
        ensures
            probe@.wf(),
            probe@ == (ClockModel {
                clock_rate,
                report: None,
                last_report_at: None,
                last_timestamp: None,
                latest_age_ms: None,
                baseline_age_ms: None,
                report_count: 0,
                arrival_baseline: None,
                elapsed_ticks: 0,
                minimum_offset_us: 0,
                relative_delay_ms: 0,
                last_frame_at: None,
            }),
    {
        RtpClockProbe {
            clock_rate,
            report: None,
            last_report_at: None,
            last_timestamp: None,
            latest_age_ms: None,
            baseline_age_ms: None,
            report_count: 0,
            arrival_baseline: None,
            elapsed_ticks: 0,
            minimum_offset_us: 0,
            relative_delay_ms: 0,
            last_frame_at: None,
        }
    }

    /// Record an RTCP sender report (its NTP and RTP timestamps) received at `now_us`.
    pub fn sender_report(&mut self, ntp_time: u64, rtp_time: u32, now_us: u64)
        requires
            old(self)@.wf(),
        ensures
            final(self)@ == old(self)@.sender_report(ntp_time, rtp_time, now_us),
            final(self)@.wf(),
    {
        self.last_report_at = Some(now_us);
        self.report_count = self.report_count.saturating_add(1);
        let seconds = (ntp_time / 0x1_0000_0000) as i128;
        if seconds < NTP_UNIX_SECONDS {
            return;
        }
        let fraction = (ntp_time % 0x1_0000_0000) as i128;
        let unix_ms = (seconds - NTP_UNIX_SECONDS) * 1_000 + fraction * 1_000 / 0x1_0000_0000;
        self.report = Some((rtp_time, unix_ms));
    }

    /// The report last recorded: its RTP timestamp and Unix milliseconds.
    pub fn report(&self) -> (report: Option<(u32, i128)>)
        ensures
            report == self@.report,
    {
        self.report
    }

    /// A video or audio packet's RTP timestamp, received at `now_us`, with the wall
    /// clock (`None` when it reads before the Unix epoch).
    pub fn receive_at(&mut self, timestamp: u32, now_us: u64, unix_now_ms: Option<u64>)
        requires
            old(self)@.wf(),
        ensures
            final(self)@ == old(self)@.receive(timestamp, now_us, unix_now_ms),
            final(self)@.wf(),
    {
        if let Some(previous) = self.last_timestamp {
            let forward = timestamp.wrapping_sub(previous);
            // Ignore duplicate timestamps and late/reordered AUs, including across wrap.
            if forward == 0 || forward >= 0x8000_0000 {
                return;
            }
            if (forward as i128) > (self.clock_rate as i128) * (MAX_REPORT_DISTANCE_SECONDS as i128) {
                self.arrival_baseline = None;
                self.elapsed_ticks = 0;
                self.minimum_offset_us = 0;
            } else {
                self.elapsed_ticks = self.elapsed_ticks.saturating_add(forward as u64);
            }
        }
        self.last_timestamp = Some(timestamp);
        self.last_frame_at = Some(now_us);
        let baseline = match self.arrival_baseline {
            Some(b) => b,
            None => now_us,
        };
        self.arrival_baseline = Some(baseline);
        let media_us: i128 = (self.elapsed_ticks as i128) * 1_000_000 / (self.clock_rate as i128);
        let since: u64 = if now_us >= baseline { now_us - baseline } else { 0 };
        let offset_us: i128 = (since as i128) - media_us;
        if offset_us < self.minimum_offset_us {
            self.minimum_offset_us = offset_us;
        }
        self.relative_delay_ms = ((offset_us - self.minimum_offset_us) / 1_000) as u64;
        let (report_rtp, report_unix_ms) = match self.report {
            Some(r) => r,
            None => return,
        };
        let ticks: i64 = (timestamp.wrapping_sub(report_rtp) as i32) as i64;
        let magnitude: i64 = if ticks < 0 { -ticks } else { ticks };
        if (magnitude as i128) > (self.clock_rate as i128) * (MAX_REPORT_DISTANCE_SECONDS as i128) {
            return;
        }
        let unix_now = match unix_now_ms {
            Some(ms) => ms,
            None => return,
        };
        let sender_time_ms: i128 = report_unix_ms + (ticks as i128) * 1_000 / (self.clock_rate as i128);
        let age_ms: i128 = (unix_now as i128) - sender_time_ms;
        if age_ms < i64::MIN as i128 || age_ms > i64::MAX as i128 {
            return;
        }
        let age = age_ms as i64;
        self.latest_age_ms = Some(age);
        if self.baseline_age_ms.is_none() {
            self.baseline_age_ms = Some(age);
        }
    }

    pub fn summary(&self, now_us: u64) -> (text: String)
        ensures
            text@ == self@.summary(now_us),
    {
        let mut text = String::new();
        let report_age: u64 = match self.last_report_at {
            Some(at) => (if now_us >= at { now_us - at } else { 0 }) / 1_000_000,
            None => 0,
        };
        if self.report_count == 0 {
            // This works without RTCP SR or synchronized clocks. It measures added delay
            // since the fastest observed arrival, NOT capture age or fixed network delay.
            push_str(&mut text, "? SR:0 ");
        } else {
            match self.latest_age_ms {
                None => {
                    push_str(&mut text, "? SR:");
                    push_decimal(&mut text, self.report_count as u128);
                    push_str(&mut text, "/");
                    push_decimal(&mut text, report_age as u128);
                    push_str(&mut text, "s ");
                },
                Some(age) => {
                    // Absolute age assumes Xbox and Vita have synchronized clocks. Drift does not.
                    let baseline = match self.baseline_age_ms {
                        Some(b) => b,
                        None => age,
                    };
                    let drift = (age as i128) - (baseline as i128);
                    push_int(&mut text, age as i128);
                    push_str(&mut text, "ms d");
                    push_signed(&mut text, drift);
                    push_str(&mut text, " ");
                },
            }
        }
        push_str(&mut text, "rel+");
        push_decimal(&mut text, self.relative_delay_ms as u128);
        push_str(&mut text, "ms");
        if self.report_count != 0 && self.latest_age_ms.is_some() {
            push_str(&mut text, " SR:");
            push_decimal(&mut text, self.report_count as u128);
            push_str(&mut text, "/");
            push_decimal(&mut text, report_age as u128);
            push_str(&mut text, "s");
        }
        proof {
            let relative = "rel+"@ + decimal(self.relative_delay_ms as nat) + "ms"@;
            assert(text@ =~= self@.summary(now_us));
        }
        text
    }

    /// The newest video sample: its timestamp, arrival time and added delay.
    pub fn timing(&self) -> (timing: Option<VideoTiming>)
        ensures
            timing == (match (self@.last_timestamp, self@.last_frame_at) {
                (Some(timestamp), Some(at)) => Some(VideoTiming {
                    timestamp,
                    received_at_us: at,
                    added_delay_ms: self@.relative_delay_ms,
                }),
                _ => None,
            }),
    {
        match (self.last_timestamp, self.last_frame_at) {
            (Some(timestamp), Some(at)) => Some(VideoTiming {
                timestamp,
                received_at_us: at,
                added_delay_ms: self.relative_delay_ms,
            }),
            _ => None,
        }
    }

    pub fn age_ms(&self) -> (age: Option<i64>)
        ensures
            age == self@.latest_age_ms,
    {
        self.latest_age_ms
    }

    pub fn relative_delay_ms(&self) -> (delay: u64)
        ensures
            delay == self@.relative_delay_ms,
    {
        self.relative_delay_ms
    }

    pub fn last_timestamp(&self) -> (timestamp: Option<u32>)
        ensures
            timestamp == self@.last_timestamp,
    {
        self.last_timestamp
    }

    pub fn elapsed_ticks(&self) -> (ticks: u64)
        ensures
            ticks == self@.elapsed_ticks,
    {
        self.elapsed_ticks
    }
}

/// Late, reordered and repeated timestamps never change the probe.
pub proof fn law_late_timestamps_are_ignored(m: ClockModel, timestamp: u32, now: u64, unix_now_ms: Option<u64>)
    requires
        m.last_timestamp matches Some(previous) && (timestamp.wrapping_sub(previous) >= 0x8000_0000
            || previous == timestamp),
    ensures
        m.receive(timestamp, now, unix_now_ms) == m,
{
}

/// The relative delay is measured from the fastest arrival seen: the minimum offset
/// never rises, so a new lower envelope is never reported as delay.
pub proof fn law_relative_delay_from_fastest_arrival(m: ClockModel, timestamp: u32, now: u64)
    requires
        m.wf(),
        m.last_timestamp matches Some(previous) && 0 < timestamp.wrapping_sub(previous)
            && timestamp.wrapping_sub(previous) as int <= m.clock_rate as int * MAX_REPORT_DISTANCE_SECONDS as int,
    ensures
        m.arrive(timestamp, now).minimum_offset_us <= m.minimum_offset_us,
{
}

} // verus!
