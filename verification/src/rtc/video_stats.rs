//! Running counters of the video receive path and the once-per-second status text.
use vstd::prelude::*;
use crate::rtc::reorder::{elapsed, OrderStats};
use crate::rtc::video_rtp::VideoSampleStats;
use crate::text::{decimal, push_decimal, push_str};
use crate::video::output::DecoderConfig;

verus! {

/// Least time between two status texts.
pub const STREAM_STATS_INTERVAL_US: u64 = 1_000_000;

/// Counters since the receiver opened.
pub struct VideoStats {
    pub packets: u64,
    pub assembled: u64,
    pub submitted: u64,
    pub dropped: u64,
    pub missing_sequence: u64,
    pub incomplete_fua: u64,
    pub malformed: u64,
    pub queue_full: u64,
    pub sps_rejected: u64,
    pub idr_wait: u64,
    pub other: u64,
    pub sequence_jumps: u64,
    pub estimated_missing_packets: u64,
    pub late_packets: u64,
    pub duplicate_packets: u64,
    pub empty_packets: u64,
    pub idr: u64,
    pub post_damage_submitted: u64,
    pub decode_errors: u64,
    pub last_decode_error: Option<String>,
    pub last_sample_duration_us: Option<u64>,
    pub encoded_resolution: Option<(u32, u32)>,
}

pub open spec fn added(total: u64, sample: u32) -> u64 {
    if total + sample > u64::MAX { u64::MAX } else { (total + sample) as u64 }
}

impl VideoStats {
    pub fn new() -> (stats: Self)
        ensures
            stats.packets == 0 && stats.assembled == 0 && stats.submitted == 0 && stats.dropped == 0,
            stats.missing_sequence == 0 && stats.incomplete_fua == 0 && stats.malformed == 0 && stats.queue_full == 0,
            stats.sps_rejected == 0 && stats.idr_wait == 0 && stats.other == 0 && stats.sequence_jumps == 0,
            stats.estimated_missing_packets == 0 && stats.late_packets == 0 && stats.duplicate_packets == 0,
            stats.empty_packets == 0 && stats.idr == 0 && stats.post_damage_submitted == 0 && stats.decode_errors == 0,
            stats.last_decode_error is None && stats.last_sample_duration_us is None && stats.encoded_resolution is None,
    {
        VideoStats {
            packets: 0,
            assembled: 0,
            submitted: 0,
            dropped: 0,
            missing_sequence: 0,
            incomplete_fua: 0,
            malformed: 0,
            queue_full: 0,
            sps_rejected: 0,
            idr_wait: 0,
            other: 0,
            sequence_jumps: 0,
            estimated_missing_packets: 0,
            late_packets: 0,
            duplicate_packets: 0,
            empty_packets: 0,
            idr: 0,
            post_damage_submitted: 0,
            decode_errors: 0,
            last_decode_error: None,
            last_sample_duration_us: None,
            encoded_resolution: None,
        }
    }

    /// Adds one packet's counters; its frame duration and picture size replace the
    /// last ones when it has them.
    pub fn accumulate(&mut self, s: &VideoSampleStats)
        ensures
            final(self).assembled == added(old(self).assembled, s.assembled),
            final(self).submitted == added(old(self).submitted, s.submitted),
            final(self).dropped == added(old(self).dropped, s.dropped),
            final(self).missing_sequence == added(old(self).missing_sequence, s.missing_sequence),
            final(self).incomplete_fua == added(old(self).incomplete_fua, s.incomplete_fua),
            final(self).malformed == added(old(self).malformed, s.malformed),
            final(self).queue_full == added(old(self).queue_full, s.queue_full),
            final(self).sps_rejected == added(old(self).sps_rejected, s.sps_rejected),
            final(self).idr_wait == added(old(self).idr_wait, s.idr_wait),
            final(self).other == added(old(self).other, s.other),
            final(self).sequence_jumps == added(old(self).sequence_jumps, s.sequence_jumps),
            final(self).estimated_missing_packets == added(old(self).estimated_missing_packets, s.estimated_missing_packets),
            final(self).late_packets == added(old(self).late_packets, s.late_packets),
            final(self).duplicate_packets == added(old(self).duplicate_packets, s.duplicate_packets),
            final(self).empty_packets == added(old(self).empty_packets, s.empty_packets),
            final(self).idr == added(old(self).idr, s.idr),
            final(self).post_damage_submitted == added(old(self).post_damage_submitted, s.post_damage_submitted),
            final(self).last_sample_duration_us == (if s.source_frame_duration_us is Some {
                s.source_frame_duration_us
            } else {
                old(self).last_sample_duration_us
            }),
            final(self).encoded_resolution == (if s.encoded_resolution is Some {
                s.encoded_resolution
            } else {
                old(self).encoded_resolution
            }),
            final(self).packets == old(self).packets,
            final(self).decode_errors == old(self).decode_errors,
            final(self).last_decode_error == old(self).last_decode_error,
    {
        self.assembled = self.assembled.saturating_add(s.assembled as u64);
        self.submitted = self.submitted.saturating_add(s.submitted as u64);
        self.dropped = self.dropped.saturating_add(s.dropped as u64);
        self.missing_sequence = self.missing_sequence.saturating_add(s.missing_sequence as u64);
        self.incomplete_fua = self.incomplete_fua.saturating_add(s.incomplete_fua as u64);
        self.malformed = self.malformed.saturating_add(s.malformed as u64);
        self.queue_full = self.queue_full.saturating_add(s.queue_full as u64);
        self.sps_rejected = self.sps_rejected.saturating_add(s.sps_rejected as u64);
        self.idr_wait = self.idr_wait.saturating_add(s.idr_wait as u64);
        self.other = self.other.saturating_add(s.other as u64);
        self.sequence_jumps = self.sequence_jumps.saturating_add(s.sequence_jumps as u64);
        self.estimated_missing_packets = self.estimated_missing_packets.saturating_add(s.estimated_missing_packets as u64);
        self.late_packets = self.late_packets.saturating_add(s.late_packets as u64);
        self.duplicate_packets = self.duplicate_packets.saturating_add(s.duplicate_packets as u64);
        self.empty_packets = self.empty_packets.saturating_add(s.empty_packets as u64);
        self.idr = self.idr.saturating_add(s.idr as u64);
        self.post_damage_submitted = self.post_damage_submitted.saturating_add(s.post_damage_submitted as u64);
        if s.source_frame_duration_us.is_some() {
            self.last_sample_duration_us = s.source_frame_duration_us;
        }
        if s.encoded_resolution.is_some() {
            self.encoded_resolution = s.encoded_resolution;
        }
    }
}

/// Frames per second from a frame duration; unknown or zero durations give zero.
pub open spec fn source_fps(duration: Option<u64>) -> nat {
    match duration {
        Some(d) => if d > 0 { (1_000_000u64 / d) as nat } else { 0 },
        None => 0,
    }
}

pub open spec fn size_text(size: Option<(u32, u32)>) -> Seq<char> {
    match size {
        Some((w, h)) => decimal(w as nat) + "x"@ + decimal(h as nat),
        None => "?"@,
    }
}

pub open spec fn age_text(age: Option<u64>) -> Seq<char> {
    match age {
        Some(a) => decimal(a as nat) + "s"@,
        None => "?"@,
    }
}

pub open spec fn error_text(error: Option<Seq<char>>) -> Seq<char> {
    match error {
        Some(e) => "\nlast decode error: "@ + e,
        None => Seq::empty(),
    }
}

pub open spec fn sps_line(s: VideoStats, config: DecoderConfig) -> Seq<char> {
    "SPS:"@ + size_text(s.encoded_resolution) + " decoder:"@ + decimal(config.decode_width as nat) + "x"@ + decimal(
        config.decode_height as nat,
    ) + " output:"@ + decimal(config.output_width as nat) + "x"@ + decimal(config.output_height as nat)
        + " source-fps:"@ + decimal(source_fps(s.last_sample_duration_us))
}

pub open spec fn rtp_line(s: VideoStats, order: OrderStats) -> Seq<char> {
    "\nRTP pk:"@ + decimal(s.packets as nat) + " jump:"@ + decimal(order.jumps as nat) + "/~"@ + decimal(
        order.provisional_missing as nat,
    ) + " late:"@ + decimal(order.out_of_order as nat) + " dup:"@ + decimal(order.duplicates as nat) + " empty:"@
        + decimal(s.empty_packets as nat) + "\n"@
}

pub open spec fn unit_line(s: VideoStats) -> Seq<char> {
    "\nAU done:"@ + decimal(s.assembled as nat) + " sent:"@ + decimal(s.submitted as nat) + " drop:"@ + decimal(
        s.dropped as nat,
    ) + " seq:"@ + decimal(s.missing_sequence as nat) + " FU:"@ + decimal(s.incomplete_fua as nat) + " mal:"@
        + decimal(s.malformed as nat) + " q:"@ + decimal(s.queue_full as nat) + " SPS:"@ + decimal(
        s.sps_rejected as nat,
    ) + " IDRwait:"@ + decimal(s.idr_wait as nat) + " other:"@ + decimal(s.other as nat)
}

pub open spec fn keyframe_line(s: VideoStats, idr_age_secs: Option<u64>, waiting: bool) -> Seq<char> {
    "\nIDR count:"@ + decimal(s.idr as nat) + " age:"@ + age_text(idr_age_secs) + " postDamageSent:"@ + decimal(
        s.post_damage_submitted as nat,
    ) + " wait:"@ + decimal(if waiting { 1 } else { 0 }) + " decoderErr:"@ + decimal(s.decode_errors as nat) + "\n"@
}

/// The status text: picture sizes and rate; RTP arrival; the reorder summary; access
/// unit outcomes; keyframe state and decoder errors; then the pipeline performance.
pub open spec fn status_text(
    s: VideoStats,
    order: OrderStats,
    order_summary: Seq<char>,
    config: DecoderConfig,
    idr_age_secs: Option<u64>,
    waiting: bool,
    performance: Seq<char>,
) -> Seq<char> {
    sps_line(s, config) + rtp_line(s, order) + order_summary + unit_line(s) + keyframe_line(s, idr_age_secs, waiting)
        + performance + error_text(
        match s.last_decode_error {
            Some(e) => Some(e@),
            None => None,
        },
    )
}

/// A status text is due once a second.
pub fn status_due(last_report_us: u64, now_us: u64) -> (due: bool)
    ensures
        due == (elapsed(now_us, last_report_us) >= STREAM_STATS_INTERVAL_US),
{
    (if now_us >= last_report_us { now_us - last_report_us } else { 0 }) >= STREAM_STATS_INTERVAL_US
}

fn sps_line_text(s: &VideoStats, config: &DecoderConfig) -> (t: String)
    ensures
        t@ == sps_line(*s, *config),
{
    let mut t = String::new();
    push_str(&mut t, "SPS:");
    match s.encoded_resolution {
        Some((w, h)) => {
            push_decimal(&mut t, w as u128);
            push_str(&mut t, "x");
            push_decimal(&mut t, h as u128);
        },
        None => push_str(&mut t, "?"),
    }
    push_str(&mut t, " decoder:");
    push_decimal(&mut t, config.decode_width as u128);
    push_str(&mut t, "x");
    push_decimal(&mut t, config.decode_height as u128);
    push_str(&mut t, " output:");
    push_decimal(&mut t, config.output_width as u128);
    push_str(&mut t, "x");
    push_decimal(&mut t, config.output_height as u128);
    push_str(&mut t, " source-fps:");
    let fps: u64 = match s.last_sample_duration_us {
        Some(d) => if d > 0 { 1_000_000 / d } else { 0 },
        None => 0,
    };
    push_decimal(&mut t, fps as u128);
    assert(t@ =~= sps_line(*s, *config));
    t
}

fn rtp_line_text(s: &VideoStats, order: &OrderStats) -> (t: String)
    ensures
        t@ == rtp_line(*s, *order),
{
    let mut t = String::new();
    push_str(&mut t, "\nRTP pk:");
    push_decimal(&mut t, s.packets as u128);
    push_str(&mut t, " jump:");
    push_decimal(&mut t, order.jumps as u128);
    push_str(&mut t, "/~");
    push_decimal(&mut t, order.provisional_missing as u128);
    push_str(&mut t, " late:");
    push_decimal(&mut t, order.out_of_order as u128);
    push_str(&mut t, " dup:");
    push_decimal(&mut t, order.duplicates as u128);
    push_str(&mut t, " empty:");
    push_decimal(&mut t, s.empty_packets as u128);
    push_str(&mut t, "\n");
    assert(t@ =~= rtp_line(*s, *order));
    t
}

fn unit_line_text(s: &VideoStats) -> (t: String)
    ensures
        t@ == unit_line(*s),
{
    let mut t = String::new();
    push_str(&mut t, "\nAU done:");
    push_decimal(&mut t, s.assembled as u128);
    push_str(&mut t, " sent:");
    push_decimal(&mut t, s.submitted as u128);
    push_str(&mut t, " drop:");
    push_decimal(&mut t, s.dropped as u128);
    push_str(&mut t, " seq:");
    push_decimal(&mut t, s.missing_sequence as u128);
    push_str(&mut t, " FU:");
    push_decimal(&mut t, s.incomplete_fua as u128);
    push_str(&mut t, " mal:");
    push_decimal(&mut t, s.malformed as u128);
    push_str(&mut t, " q:");
    push_decimal(&mut t, s.queue_full as u128);
    push_str(&mut t, " SPS:");
    push_decimal(&mut t, s.sps_rejected as u128);
    push_str(&mut t, " IDRwait:");
    push_decimal(&mut t, s.idr_wait as u128);
    push_str(&mut t, " other:");
    push_decimal(&mut t, s.other as u128);
    assert(t@ =~= unit_line(*s));
    t
}

fn keyframe_line_text(s: &VideoStats, idr_age_secs: Option<u64>, waiting: bool) -> (t: String)
    ensures
        t@ == keyframe_line(*s, idr_age_secs, waiting),
{
    let mut t = String::new();
    push_str(&mut t, "\nIDR count:");
    push_decimal(&mut t, s.idr as u128);
    push_str(&mut t, " age:");
    match idr_age_secs {
        Some(a) => {
            push_decimal(&mut t, a as u128);
            push_str(&mut t, "s");
        },
        None => push_str(&mut t, "?"),
    }
    push_str(&mut t, " postDamageSent:");
    push_decimal(&mut t, s.post_damage_submitted as u128);
    push_str(&mut t, " wait:");
    push_decimal(&mut t, if waiting { 1 } else { 0 });
    push_str(&mut t, " decoderErr:");
    push_decimal(&mut t, s.decode_errors as u128);
    push_str(&mut t, "\n");
    assert(t@ =~= keyframe_line(*s, idr_age_secs, waiting));
    t
}

/// The receiver's status text.
pub fn video_status(
    s: &VideoStats,
    order: &OrderStats,
    order_summary: &str,
    config: &DecoderConfig,
    idr_age_secs: Option<u64>,
    waiting: bool,
    performance: &str,
) -> (text: String)
    ensures
        text@ == status_text(*s, *order, order_summary@, *config, idr_age_secs, waiting, performance@),
{
    let mut t = String::new();
    let sps = sps_line_text(s, config);
    push_str(&mut t, sps.as_str());
    let rtp = rtp_line_text(s, order);
    push_str(&mut t, rtp.as_str());
    push_str(&mut t, order_summary);
    let units = unit_line_text(s);
    push_str(&mut t, units.as_str());
    let keyframes = keyframe_line_text(s, idr_age_secs, waiting);
    push_str(&mut t, keyframes.as_str());
    push_str(&mut t, performance);
    match &s.last_decode_error {
        Some(e) => {
            push_str(&mut t, "\nlast decode error: ");
            push_str(&mut t, e.as_str());
        },
        None => {},
    }
    assert(t@ =~= status_text(*s, *order, order_summary@, *config, idr_age_secs, waiting, performance@));
    t
}

} // verus!
