//! From ordered video RTP packets to decodable H.264 access units: arrival accounting,
//! unit assembly, damage recovery and the decoder-capacity gate.
//!
//! Each packet is one step. The caller performs what a step asks for (resynchronise
//! the decoder, request a keyframe, record the stage notes, submit the unit) and hands
//! the decoder's answer to a submission back.
use vstd::prelude::*;
use h264_reader::annexb::AnnexBReader;
use h264_reader::nal::sps::SeqParameterSet;
use h264_reader::nal::{Nal, RefNal};
use h264_reader::push::NalInterest;
use crate::rtc::h264::{
    annexb_unit, avc_output, drop_code, fragments_verdict, fua_buffer, DropReason, FrameAssembly, FrameModel,
    PendingVideoFrame, VideoPacket, MAX_H264_ACCESS_UNIT_BYTES,
};
use crate::rtc::reorder::elapsed;
use crate::video::policy::{Recovery, RecoveryModel};

verus! {

pub const VIDEO_RTP_CLOCK_RATE: u32 = 90_000;
/// An unfinished unit with more packets than this is dropped.
pub const MAX_PENDING_PACKETS: usize = 2048;

/// Per-packet counters of the video receive path.
#[derive(Clone, Copy, Debug)]
pub struct VideoSampleStats {
    pub dropped: u32,
    pub assembled: u32,
    pub submitted: u32,
    pub missing_sequence: u32,
    pub incomplete_fua: u32,
    pub malformed: u32,
    pub queue_full: u32,
    pub sps_rejected: u32,
    pub idr_wait: u32,
    pub other: u32,
    pub sequence_jumps: u32,
    pub estimated_missing_packets: u32,
    pub late_packets: u32,
    pub duplicate_packets: u32,
    pub empty_packets: u32,
    pub idr: u32,
    pub post_damage_submitted: u32,
    pub source_frame_duration_us: Option<u64>,
    pub encoded_resolution: Option<(u32, u32)>,
}

pub open spec fn no_samples() -> VideoSampleStats {
    VideoSampleStats {
        dropped: 0,
        assembled: 0,
        submitted: 0,
        missing_sequence: 0,
        incomplete_fua: 0,
        malformed: 0,
        queue_full: 0,
        sps_rejected: 0,
        idr_wait: 0,
        other: 0,
        sequence_jumps: 0,
        estimated_missing_packets: 0,
        late_packets: 0,
        duplicate_packets: 0,
        empty_packets: 0,
        idr: 0,
        post_damage_submitted: 0,
        source_frame_duration_us: None,
        encoded_resolution: None,
    }
}

pub open spec fn inc(x: u32) -> u32 {
    if x == u32::MAX { x } else { (x + 1) as u32 }
}

/// The counters after one dropped unit: the total and the reason's own counter.
pub open spec fn with_drop(s: VideoSampleStats, reason: DropReason) -> VideoSampleStats {
    let s = VideoSampleStats { dropped: inc(s.dropped), ..s };
    match reason {
        DropReason::MissingSequence => VideoSampleStats { missing_sequence: inc(s.missing_sequence), ..s },
        DropReason::IncompleteFuA => VideoSampleStats { incomplete_fua: inc(s.incomplete_fua), ..s },
        DropReason::Malformed => VideoSampleStats { malformed: inc(s.malformed), ..s },
        DropReason::QueueFull => VideoSampleStats { queue_full: inc(s.queue_full), ..s },
        DropReason::SpsRejected => VideoSampleStats { sps_rejected: inc(s.sps_rejected), ..s },
        DropReason::IdrWait => VideoSampleStats { idr_wait: inc(s.idr_wait), ..s },
        DropReason::Other => VideoSampleStats { other: inc(s.other), ..s },
    }
}

impl VideoSampleStats {
    pub fn new() -> (stats: Self)
        ensures
            stats == no_samples(),
    {
        VideoSampleStats {
            dropped: 0,
            assembled: 0,
            submitted: 0,
            missing_sequence: 0,
            incomplete_fua: 0,
            malformed: 0,
            queue_full: 0,
            sps_rejected: 0,
            idr_wait: 0,
            other: 0,
            sequence_jumps: 0,
            estimated_missing_packets: 0,
            late_packets: 0,
            duplicate_packets: 0,
            empty_packets: 0,
            idr: 0,
            post_damage_submitted: 0,
            source_frame_duration_us: None,
            encoded_resolution: None,
        }
    }

    /// Counts one dropped unit under `reason`.
    pub fn record_drop(&mut self, reason: DropReason)
        ensures
            *final(self) == with_drop(*old(self), reason),
    {
        self.dropped = self.dropped.saturating_add(1);
        match reason {
            DropReason::MissingSequence => self.missing_sequence = self.missing_sequence.saturating_add(1),
            DropReason::IncompleteFuA => self.incomplete_fua = self.incomplete_fua.saturating_add(1),
            DropReason::Malformed => self.malformed = self.malformed.saturating_add(1),
            DropReason::QueueFull => self.queue_full = self.queue_full.saturating_add(1),
            DropReason::SpsRejected => self.sps_rejected = self.sps_rejected.saturating_add(1),
            DropReason::IdrWait => self.idr_wait = self.idr_wait.saturating_add(1),
            DropReason::Other => self.other = self.other.saturating_add(1),
        }
    }
}

impl Default for VideoSampleStats {
    fn default() -> (stats: Self)
        ensures
            stats == no_samples(),
    {
        VideoSampleStats::new()
    }
}

/// `candidate` is a later RTP timestamp than `reference`: ahead by less than half the circle.
pub open spec fn newer(candidate: u32, reference: u32) -> bool {
    let distance = candidate.wrapping_sub(reference);
    distance != 0 && distance < 0x8000_0000
}

pub fn timestamp_is_newer(candidate: u32, reference: u32) -> (newer_: bool)
    ensures
        newer_ == newer(candidate, reference),
{
    let distance = candidate.wrapping_sub(reference);
    distance != 0 && distance < 0x8000_0000
}

/// The NAL units that `h264_reader`'s Annex B reader hands out for a buffer pushed whole
/// and then ended, when every unit is buffered: per call, the unit type (none when the
/// header's forbidden bit is set), whether the unit is complete, and its bytes from the
/// header on. The last unit comes once incomplete and once complete.
pub uninterp spec fn nal_units(data: Seq<u8>) -> Seq<(Option<u8>, bool, Seq<u8>)>;

/// The pixel dimensions that `h264_reader` parses from a sequence parameter set NAL unit
/// (header byte included), or none when it does not parse.
pub uninterp spec fn sps_dimensions(nal: Seq<u8>) -> Option<(u32, u32)>;

pub open spec fn unit_view(u: (Option<u8>, bool, Vec<u8>)) -> (Option<u8>, bool, Seq<u8>) {
    (u.0, u.1, u.2@)
}

/// Some unit is an IDR slice (type 5).
pub open spec fn has_idr(units: Seq<(Option<u8>, bool, Seq<u8>)>) -> bool {
    exists|i: int| 0 <= i < units.len() && #[trigger] units[i].0 == Some(5u8)
}

/// The dimensions of the last complete sequence parameter set (type 7); none without one.
pub open spec fn last_sps_size(units: Seq<(Option<u8>, bool, Seq<u8>)>) -> Option<(u32, u32)>
    decreases units.len(),
{
    if units.len() == 0 {
        None
    } else if units.last().0 == Some(7u8) && units.last().1 {
        sps_dimensions(units.last().2)
    } else {
        last_sps_size(units.drop_last())
    }
}

/// Whether an Annex B access unit holds an IDR slice, and the picture size of its last
/// complete sequence parameter set (none when it has none or the last does not parse).
pub open spec fn access_unit_info(data: Seq<u8>) -> (bool, Option<(u32, u32)>) {
    (has_idr(nal_units(data)), last_sps_size(nal_units(data)))
}

/// Splits an Annex B buffer into NAL units with `h264_reader`'s `AnnexBReader` and
/// `NalAccumulator`, buffering every unit (`push`, then `reset`).
#[verifier::external_body]
fn annexb_nal_units(data: &[u8]) -> (units: Vec<(Option<u8>, bool, Vec<u8>)>)
    ensures
        units@.map_values(|u: (Option<u8>, bool, Vec<u8>)| unit_view(u)) == nal_units(data@),
{
    let mut units = Vec::new();
    let mut reader = AnnexBReader::accumulate(|nal: RefNal<'_>| {
        let mut bytes = Vec::new();
        let _ = std::io::Read::read_to_end(&mut nal.reader(), &mut bytes);
        units.push((nal.header().ok().map(|h| h.nal_unit_type().id()), nal.is_complete(), bytes));
        NalInterest::Buffer
    });
    reader.push(data);
    reader.reset();
    drop(reader);
    units
}

/// `SeqParameterSet::from_bits` on the unit's RBSP, then `pixel_dimensions`; an error of
/// either gives none.
#[verifier::external_body]
fn sps_pixel_dimensions(nal: &[u8]) -> (size: Option<(u32, u32)>)
    ensures
        size == sps_dimensions(nal@),
{
    let rbsp = h264_reader::rbsp::BitReader::new(h264_reader::rbsp::ByteReader::skipping_h264_header(nal));
    SeqParameterSet::from_bits(rbsp).and_then(|sps| sps.pixel_dimensions()).ok()
}

/// Whether the units hold an IDR slice, and the size of their last complete SPS.
pub fn access_unit_summary(units: &Vec<(Option<u8>, bool, Vec<u8>)>) -> (info: (bool, Option<(u32, u32)>))
    ensures
        info == ({
            let v = units@.map_values(|u: (Option<u8>, bool, Vec<u8>)| unit_view(u));
            (has_idr(v), last_sps_size(v))
        }),
{
    let ghost v = units@.map_values(|u: (Option<u8>, bool, Vec<u8>)| unit_view(u));
    let mut idr = false;
    let mut size: Option<(u32, u32)> = None;
    let mut k: usize = 0;
    while k < units.len()
        invariant
            k <= units@.len(),
            v == units@.map_values(|u: (Option<u8>, bool, Vec<u8>)| unit_view(u)),
            idr == has_idr(v.take(k as int)),
            size == last_sps_size(v.take(k as int)),
        decreases units@.len() - k,
    {
        let ghost before = v.take(k as int);
        let ghost after = v.take(k as int + 1);
        assert(after.drop_last() =~= before);
        assert(after.last() == unit_view(units@[k as int]));
        let kind = units[k].0;
        if kind == Some(5u8) {
            idr = true;
            assert(after[k as int].0 == Some(5u8));
        } else {
            assert forall|i: int| 0 <= i < after.len() && #[trigger] after[i].0 == Some(5u8) implies 0 <= i < before.len()
                && before[i].0 == Some(5u8) by {
                assert(i != k);
                assert(after[i] == before[i]);
            }
            assert forall|i: int| 0 <= i < before.len() && #[trigger] before[i].0 == Some(5u8) implies 0 <= i < after.len()
                && after[i].0 == Some(5u8) by {
                assert(after[i] == before[i]);
            }
        }
        if kind == Some(7u8) && units[k].1 {
            size = sps_pixel_dimensions(units[k].2.as_slice());
        }
        k += 1;
    }
    assert(v.take(k as int) =~= v);
    (idr, size)
}

/// Whether an access unit holds an IDR slice, and the picture size of its last complete
/// sequence parameter set.
fn inspect_h264_access_unit(data: &[u8]) -> (info: (bool, Option<(u32, u32)>))
    ensures
        info == access_unit_info(data@),
{
    let units = annexb_nal_units(data);
    access_unit_summary(&units)
}

/// A finished access unit for the decoder.
pub struct AccessUnit {
    pub data: Vec<u8>,
    pub first_packet_at_us: u64,
    pub timestamp: u32,
    pub idr: bool,
}

/// A pipeline stage to record in the trace.
#[derive(Clone, Copy, Debug)]
pub struct StageNote {
    pub stage: &'static str,
    pub timestamp: u32,
    pub value: u64,
}

pub open spec fn note(stage: &'static str, timestamp: u32, value: u64) -> StageNote {
    StageNote { stage, timestamp, value }
}

/// What one packet asks of the caller, and its counters.
pub struct ReceiveOutcome {
    pub stats: VideoSampleStats,
    pub keyframe_requested: bool,
    /// Recovery just began: the decoder drops queued work and resynchronises.
    pub resync: bool,
    /// Stages to record, in order.
    pub notes: Vec<StageNote>,
    /// RTP assembly time of the unit this packet completed.
    pub assembly_us: Option<u64>,
    /// A picture size announced by a new sequence parameter set.
    pub new_resolution: Option<(u32, u32)>,
    /// The stream just went beyond the decoder's capacity.
    pub oversized: bool,
    /// The unit to submit to the decoder; its answer goes to `finish_submit`.
    pub submit: Option<AccessUnit>,
}

pub ghost struct OutcomeModel {
    pub stats: VideoSampleStats,
    pub keyframe_requested: bool,
    pub resync: bool,
    pub notes: Seq<StageNote>,
    pub assembly_us: Option<u64>,
    pub new_resolution: Option<(u32, u32)>,
    pub oversized: bool,
    /// Data, first packet time, RTP timestamp and whether it holds an IDR.
    pub submit: Option<(Seq<u8>, u64, u32, bool)>,
}

impl View for ReceiveOutcome {
    type V = OutcomeModel;

    open spec fn view(&self) -> OutcomeModel {
        OutcomeModel {
            stats: self.stats,
            keyframe_requested: self.keyframe_requested,
            resync: self.resync,
            notes: self.notes@,
            assembly_us: self.assembly_us,
            new_resolution: self.new_resolution,
            oversized: self.oversized,
            submit: match self.submit {
                Some(u) => Some((u.data@, u.first_packet_at_us, u.timestamp, u.idr)),
                None => None,
            },
        }
    }
}

pub open spec fn quiet() -> OutcomeModel {
    OutcomeModel {
        stats: no_samples(),
        keyframe_requested: false,
        resync: false,
        notes: Seq::empty(),
        assembly_us: None,
        new_resolution: None,
        oversized: false,
        submit: None,
    }
}

/// Abstract state of the video receive path.
pub ghost struct RtpModel {
    /// What the depacketizer holds of an unfinished FU-A.
    pub buffered: Option<Seq<u8>>,
    pub pending: Option<FrameModel>,
    /// The sequence number the next unit must start with, when known.
    pub next_sequence: Option<u16>,
    pub last_frame_timestamp: Option<u32>,
    pub source_frame_duration_us: Option<u64>,
    pub stream_too_large: bool,
    pub recovery: RecoveryModel,
    pub decoder_capacity: (u32, u32),
    pub last_sps_resolution: Option<(u32, u32)>,
    pub last_arrival_sequence: Option<u16>,
    pub last_idr_at: Option<u64>,
    /// Pictures decoded since the last damage may reference lost data.
    pub suspect_reference: bool,
}

/// Damage to the reference chain: recovery begins unless it is already under way; its
/// beginning is noted and the decoder is told to resynchronise.
pub open spec fn damaged(m: RtpModel, o: OutcomeModel, now: u64) -> (RtpModel, OutcomeModel) {
    if m.recovery.waiting {
        (m, o)
    } else {
        (
            RtpModel { recovery: m.recovery.after_damage(now), ..m },
            OutcomeModel { resync: true, notes: o.notes.push(note("recovery_begin", 0, 0)), ..o },
        )
    }
}

/// A unit dropped for `reason`: counted and noted.
pub open spec fn dropped(o: OutcomeModel, reason: DropReason) -> OutcomeModel {
    OutcomeModel {
        stats: with_drop(o.stats, reason),
        notes: o.notes.push(note("au_drop_reason", 0, drop_code(reason))),
        ..o
    }
}

/// A unit lost on the way (unfinished, oversized, invalid or refused): a keyframe is
/// requested and the reference chain is damaged.
pub open spec fn lost(m: RtpModel, o: OutcomeModel, reason: DropReason, suspect: bool, now: u64) -> (RtpModel, OutcomeModel) {
    let (m1, o1) = damaged(m, OutcomeModel { keyframe_requested: true, ..o }, now);
    (RtpModel { suspect_reference: m1.suspect_reference || suspect, ..m1 }, dropped(o1, reason))
}

pub open spec fn sat_u32(x: int) -> u32 {
    if x > u32::MAX { u32::MAX } else { x as u32 }
}

/// Arrival accounting: a repeated sequence number stops here; one more than half the
/// circle behind is late; a forward jump counts its apparent losses.
/// Returns the new state, the outcome, whether to stop, and whether the packet is late.
pub open spec fn after_arrival(m: RtpModel, o: OutcomeModel, sequence: u16) -> (RtpModel, OutcomeModel, bool, bool) {
    match m.last_arrival_sequence {
        None => (RtpModel { last_arrival_sequence: Some(sequence), ..m }, o, false, false),
        Some(previous) => {
            let distance = sequence.wrapping_sub(previous);
            if distance == 0 {
                (m, OutcomeModel { stats: VideoSampleStats { duplicate_packets: 1, ..o.stats }, ..o }, true, false)
            } else if distance < 0x8000 {
                let stats = if distance > 1 {
                    VideoSampleStats {
                        sequence_jumps: 1,
                        estimated_missing_packets: (distance - 1) as u32,
                        ..o.stats
                    }
                } else {
                    o.stats
                };
                (RtpModel { last_arrival_sequence: Some(sequence), ..m }, OutcomeModel { stats, ..o }, false, false)
            } else {
                (m, OutcomeModel { stats: VideoSampleStats { late_packets: 1, ..o.stats }, ..o }, false, true)
            }
        },
    }
}

/// A late packet that arrived in order counts as late.
pub open spec fn counted_late(o: OutcomeModel, out_of_order: bool) -> OutcomeModel {
    if out_of_order { o } else { OutcomeModel { stats: VideoSampleStats { late_packets: 1, ..o.stats }, ..o } }
}

/// A packet of a newer timestamp abandons the unfinished unit (whose reason is noted and
/// counted, and which damages the reference chain); one of an older timestamp is late.
/// Returns the new state, the outcome, and whether to stop.
pub open spec fn after_routing(m: RtpModel, o: OutcomeModel, p: VideoPacket, out_of_order: bool, now: u64) -> (RtpModel, OutcomeModel, bool) {
    match m.pending {
        Some(f) => if f.timestamp == p.timestamp {
            (m, o, false)
        } else if !newer(p.timestamp, f.timestamp) {
            (m, counted_late(o, out_of_order), true)
        } else {
            let reason = f.abandonment(m.next_sequence);
            let m1 = RtpModel {
                pending: None,
                last_frame_timestamp: Some(f.timestamp),
                next_sequence: match f.marker {
                    Some(s) => Some(s.wrapping_add(1)),
                    None => None,
                },
                buffered: None,
                ..m
            };
            let o1 = OutcomeModel { notes: o.notes.push(note("au_abandon", f.timestamp, drop_code(reason))), ..o };
            let (m2, o2) = lost(m1, o1, reason, true, now);
            (m2, o2, false)
        },
        None => (m, o, false),
    }
}

pub open spec fn started_frame(p: VideoPacket, at: u64) -> FrameModel {
    FrameModel {
        timestamp: p.timestamp,
        first_packet_at_us: at,
        packets: seq![p],
        marker: if p.marker { Some(p.sequence) } else { None },
        bytes: p.payload@.len() as usize,
    }
}

/// The packet starts a unit (unless its timestamp is not newer than the last unit's, when
/// it is late), or joins the unfinished one (unless it does not follow its last packet,
/// when it is a duplicate). Returns the new state, the outcome, and whether to stop.
pub open spec fn after_adding(m: RtpModel, o: OutcomeModel, p: VideoPacket, out_of_order: bool, at: u64) -> (RtpModel, OutcomeModel, bool) {
    match m.pending {
        None => if m.last_frame_timestamp matches Some(last) && !newer(p.timestamp, last) {
            (m, counted_late(o, out_of_order), true)
        } else {
            (
                RtpModel { pending: Some(started_frame(p, at)), ..m },
                OutcomeModel { notes: o.notes.push(note("au_first", p.timestamp, 0)), ..o },
                false,
            )
        },
        Some(f) => {
            let first = if at < f.first_packet_at_us { at } else { f.first_packet_at_us };
            let f1 = FrameModel { first_packet_at_us: first, ..f };
            if f.packets.len() == 0 || 0 < p.sequence.wrapping_sub(f.packets.last().sequence) < 0x8000 {
                let f2 = FrameModel {
                    packets: f1.packets.push(p),
                    bytes: if f1.bytes + p.payload@.len() > usize::MAX {
                        usize::MAX
                    } else {
                        (f1.bytes + p.payload@.len()) as usize
                    },
                    marker: if p.marker { Some(p.sequence) } else { f1.marker },
                    ..f1
                };
                (RtpModel { pending: Some(f2), ..m }, o, false)
            } else {
                (
                    RtpModel { pending: Some(f1), ..m },
                    OutcomeModel { stats: VideoSampleStats { duplicate_packets: 1, ..o.stats }, ..o },
                    true,
                )
            }
        },
    }
}

/// A unit with too many bytes or packets is dropped even without its marker.
pub open spec fn oversized_unit(f: FrameModel) -> bool {
    f.bytes > MAX_H264_ACCESS_UNIT_BYTES || f.packets.len() > MAX_PENDING_PACKETS
}

/// Longest frame duration an RTP timestamp step can express.
pub const MAX_FRAME_DURATION_US: u64 = 47_721_858_833;

/// The time between two frames from their 90 kHz RTP timestamps.
pub open spec fn frame_duration_us(timestamp: u32, previous: u32) -> u64 {
    (timestamp.wrapping_sub(previous) as nat * 1_000_000 / 90_000) as u64
}

/// The smoothed frame duration: seven parts history, one part the newest.
pub open spec fn smoothed(average: Option<u64>, duration: u64) -> u64 {
    match average {
        Some(a) => ((a as nat * 7 + duration as nat) / 8) as u64,
        None => duration,
    }
}

/// A unit whose sequence parameter set announces more than the decoder can take.
pub open spec fn beyond_capacity(resolution: Option<(u32, u32)>, capacity: (u32, u32)) -> bool {
    resolution matches Some((w, h)) && (w > capacity.0 || h > capacity.1)
}

/// An invalid unfinished unit is dropped; the next unit starts after its marker.
pub open spec fn invalid_unit(m: RtpModel, o: OutcomeModel, f: FrameModel, reason: DropReason, now: u64) -> (RtpModel, OutcomeModel) {
    let m1 = RtpModel {
        pending: None,
        last_frame_timestamp: Some(f.timestamp),
        next_sequence: match f.marker {
            Some(s) => Some(s.wrapping_add(1)),
            None => None,
        },
        buffered: None,
        ..m
    };
    lost(m1, o, reason, true, now)
}

/// A complete unit: its timing is noted, its frame duration smoothed; then the decoder
/// capacity gate (an oversized picture drops units until a fitting IDR) and the
/// recovery gate (while recovering only an IDR passes) decide whether it is submitted.
pub open spec fn completed(m: RtpModel, o: OutcomeModel, f: FrameModel, data: Seq<u8>, marker: u16, now: u64) -> (RtpModel, OutcomeModel) {
    let age = elapsed(now, f.first_packet_at_us);
    let duration = match m.last_frame_timestamp {
        Some(previous) => Some(frame_duration_us(f.timestamp, previous)),
        None => None,
    };
    let (idr, resolution) = access_unit_info(data);
    let fresh_sps = resolution is Some && resolution != m.last_sps_resolution;
    let m1 = RtpModel {
        pending: None,
        next_sequence: Some(marker.wrapping_add(1)),
        source_frame_duration_us: match duration {
            Some(d) => Some(smoothed(m.source_frame_duration_us, d)),
            None => m.source_frame_duration_us,
        },
        last_frame_timestamp: Some(f.timestamp),
        last_idr_at: if idr { Some(now) } else { m.last_idr_at },
        last_sps_resolution: if fresh_sps { resolution } else { m.last_sps_resolution },
        ..m
    };
    let o1 = OutcomeModel {
        stats: VideoSampleStats {
            assembled: 1,
            source_frame_duration_us: duration,
            idr: if idr { 1 } else { o.stats.idr },
            encoded_resolution: resolution,
            ..o.stats
        },
        notes: o.notes.push(note("au_complete", f.timestamp, age)),
        assembly_us: Some(age),
        new_resolution: if fresh_sps { resolution } else { o.new_resolution },
        ..o
    };
    if beyond_capacity(resolution, m.decoder_capacity) {
        lost(
            RtpModel { stream_too_large: true, ..m1 },
            OutcomeModel { oversized: !m.stream_too_large, ..o1 },
            DropReason::SpsRejected,
            true,
            now,
        )
    } else if m.stream_too_large && (resolution is None || !idr) {
        lost(m1, o1, DropReason::IdrWait, false, now)
    } else {
        let m2 = RtpModel { stream_too_large: false, ..m1 };
        if m2.recovery.waiting && !idr {
            (m2, dropped(OutcomeModel { keyframe_requested: true, ..o1 }, DropReason::IdrWait))
        } else {
            (m2, OutcomeModel { submit: Some((data, f.first_packet_at_us, f.timestamp, idr)), ..o1 })
        }
    }
}

/// Trying to assemble the unfinished unit `f`.
pub open spec fn after_assembly(m: RtpModel, o: OutcomeModel, f: FrameModel, now: u64) -> (RtpModel, OutcomeModel) {
    if !f.assemblable(m.next_sequence) {
        (m, o)
    } else {
        match fragments_verdict(f.payloads()) {
            Err(reason) => invalid_unit(m, o, f, reason, now),
            Ok(()) => match annexb_unit(f.payloads()) {
                Err(reason) => invalid_unit(m, o, f, reason, now),
                Ok((data, _)) => completed(RtpModel { buffered: None, ..m }, o, f, data, f.marker->0, now),
            },
        }
    }
}

/// One packet, received at `at`, with the decoder's recovery request, at `now`.
pub open spec fn receive_step(m: RtpModel, p: VideoPacket, at: u64, recovery_requested: bool, now: u64) -> (RtpModel, OutcomeModel) {
    let (m0, o0) = if recovery_requested {
        let (a, b) = damaged(m, quiet(), now);
        (a, OutcomeModel { keyframe_requested: true, ..b })
    } else {
        (m, quiet())
    };
    let (m1, o1, stop, late) = after_arrival(m0, o0, p.sequence);
    if stop {
        (m1, o1)
    } else if p.payload@.len() == 0 {
        (
            RtpModel {
                next_sequence: if m1.next_sequence == Some(p.sequence) {
                    Some(p.sequence.wrapping_add(1))
                } else {
                    m1.next_sequence
                },
                ..m1
            },
            OutcomeModel { stats: VideoSampleStats { empty_packets: 1, ..o1.stats }, ..o1 },
        )
    } else {
        after_packet(m1, o1, p, late, at, now)
    }
}

/// A packet with a payload, once counted: routed, added to a unit, and the unit bounded
/// and assembled.
pub open spec fn after_packet(m: RtpModel, o: OutcomeModel, p: VideoPacket, late: bool, at: u64, now: u64) -> (RtpModel, OutcomeModel) {
    let (m2, o2, stop2) = after_routing(m, o, p, late, now);
    if stop2 {
        (m2, o2)
    } else {
        let (m3, o3, stop3) = after_adding(m2, o2, p, late, at);
        if stop3 {
            (m3, o3)
        } else {
            let f = m3.pending->0;
            if oversized_unit(f) {
                lost(
                    RtpModel { pending: None, last_frame_timestamp: Some(f.timestamp), next_sequence: None, ..m3 },
                    o3,
                    DropReason::Other,
                    false,
                    now,
                )
            } else {
                after_assembly(m3, o3, f, now)
            }
        }
    }
}

/// The decoder's answer to a submitted unit.
#[derive(Clone, Copy, Debug, PartialEq, Eq, Structural)]
pub enum SubmitResult {
    Submitted,
    QueueFull,
    Disconnected,
}

/// After the decoder answered a submission of a unit with timestamp `timestamp`.
pub open spec fn submit_step(m: RtpModel, o: OutcomeModel, timestamp: u32, idr: bool, result: SubmitResult, now: u64) -> (RtpModel, OutcomeModel) {
    match result {
        SubmitResult::Submitted => {
            let notes = if idr && m.recovery.waiting {
                o.notes.push(note("recovery_end_ms", timestamp, m.recovery.wait_ms(now)))
            } else {
                o.notes
            };
            (
                RtpModel {
                    recovery: m.recovery.after_submit(idr, now),
                    suspect_reference: if idr { false } else { m.suspect_reference },
                    ..m
                },
                OutcomeModel {
                    notes,
                    stats: VideoSampleStats {
                        submitted: 1,
                        post_damage_submitted: if !idr && m.suspect_reference { 1 } else { o.stats.post_damage_submitted },
                        ..o.stats
                    },
                    ..o
                },
            )
        },
        SubmitResult::QueueFull => lost(m, o, DropReason::QueueFull, true, now),
        SubmitResult::Disconnected => lost(m, o, DropReason::Other, true, now),
    }
}

/// The video receive path.
pub struct VideoRtp {
    depacketizer: rtc::rtp::codec::h264::H264Packet,
    pending: Option<PendingVideoFrame>,
    next_sequence: Option<u16>,
    last_frame_timestamp: Option<u32>,
    source_frame_duration_us: Option<u64>,
    stream_too_large: bool,
    recovery: Recovery,
    decoder_capacity: (u32, u32),
    last_sps_resolution: Option<(u32, u32)>,
    last_arrival_sequence: Option<u16>,
    last_idr_at: Option<u64>,
    suspect_reference: bool,
}

impl View for VideoRtp {
    type V = RtpModel;

    closed spec fn view(&self) -> RtpModel {
        RtpModel {
            buffered: fua_buffer(self.depacketizer),
            pending: match self.pending {
                Some(f) => Some(f@),
                None => None,
            },
            next_sequence: self.next_sequence,
            last_frame_timestamp: self.last_frame_timestamp,
            source_frame_duration_us: self.source_frame_duration_us,
            stream_too_large: self.stream_too_large,
            recovery: self.recovery@,
            decoder_capacity: self.decoder_capacity,
            last_sps_resolution: self.last_sps_resolution,
            last_arrival_sequence: self.last_arrival_sequence,
            last_idr_at: self.last_idr_at,
            suspect_reference: self.suspect_reference,
        }
    }
}

pub open spec fn duration_bounded(m: RtpModel) -> bool {
    m.source_frame_duration_us matches Some(a) ==> a <= MAX_FRAME_DURATION_US
}

impl ReceiveOutcome {
    pub fn new() -> (out: Self)
        ensures
            out@ == quiet(),
    {
        ReceiveOutcome {
            stats: VideoSampleStats::new(),
            keyframe_requested: false,
            resync: false,
            notes: Vec::new(),
            assembly_us: None,
            new_resolution: None,
            oversized: false,
            submit: None,
        }
    }
}

impl VideoRtp {
    /// The depacketizer writes Annex B and the smoothed frame duration stays in range.
    pub closed spec fn wf(&self) -> bool {
        &&& !avc_output(self.depacketizer)
        &&& duration_bounded(self@)
    }

    pub fn new(decode_width: u32, decode_height: u32) -> (rtp: Self)
        ensures
            rtp.wf(),
            rtp@ == (RtpModel {
                buffered: None,
                pending: None,
                next_sequence: None,
                last_frame_timestamp: None,
                source_frame_duration_us: None,
                stream_too_large: false,
                recovery: RecoveryModel { waiting: false, started: None, longest_wait_us: 0, completed: 0 },
                decoder_capacity: (decode_width, decode_height),
                last_sps_resolution: None,
                last_arrival_sequence: None,
                last_idr_at: None,
                suspect_reference: false,
            }),
    {
        VideoRtp {
            depacketizer: crate::rtc::h264::new_depacketizer(),
            pending: None,
            next_sequence: None,
            last_frame_timestamp: None,
            source_frame_duration_us: None,
            stream_too_large: false,
            recovery: Recovery::new(),
            decoder_capacity: (decode_width, decode_height),
            last_sps_resolution: None,
            last_arrival_sequence: None,
            last_idr_at: None,
            suspect_reference: false,
        }
    }

    pub fn waiting_for_keyframe(&self) -> (waiting: bool)
        ensures
            waiting == self@.recovery.waiting,
    {
        self.recovery.waiting()
    }

    /// The smoothed duration between frames.
    pub fn source_frame_duration_us(&self) -> (duration: Option<u64>)
        ensures
            duration == self@.source_frame_duration_us,
    {
        self.source_frame_duration_us
    }

    pub fn recovery_summary(&self, now_us: u64) -> (text: String)
        ensures
            text@ == self@.recovery.summary(now_us),
    {
        self.recovery.summary(now_us)
    }

    /// Whole seconds since the last IDR.
    pub fn idr_age_secs(&self, now_us: u64) -> (age: Option<u64>)
        ensures
            age == (match self@.last_idr_at {
                Some(at) => Some(elapsed(now_us, at) / 1_000_000),
                None => None,
            }),
    {
        match self.last_idr_at {
            Some(at) => Some((if now_us >= at { now_us - at } else { 0 }) / 1_000_000),
            None => None,
        }
    }

    /// Give up on queued latency: drop the unfinished unit and wait for an IDR. The
    /// caller flushes the decoder before the next IDR.
    pub fn recover_latency(&mut self, now_us: u64)
        requires
            old(self).wf(),
        ensures
            final(self).wf(),
            final(self)@ == (RtpModel {
                pending: None,
                next_sequence: None,
                buffered: None,
                recovery: old(self)@.recovery.after_damage(now_us),
                suspect_reference: true,
                ..old(self)@
            }),
    {
        self.pending = None;
        self.next_sequence = None;
        self.depacketizer = crate::rtc::h264::new_depacketizer();
        self.recovery.damage(now_us);
        self.suspect_reference = true;
    }

    /// The decoder asked for recovery.
    pub fn recover_decoder(&mut self, requested: bool, now_us: u64, out: &mut ReceiveOutcome) -> (recovering: bool)
        requires
            old(self).wf(),
        ensures
            final(self).wf(),
            recovering == requested,
            requested ==> (final(self)@, final(out)@) == damaged(old(self)@, old(out)@, now_us),
            !requested ==> final(self)@ == old(self)@ && final(out)@ == old(out)@,
    {
        if requested {
            self.record_damage(now_us, out);
        }
        requested
    }

    fn record_damage(&mut self, now_us: u64, out: &mut ReceiveOutcome)
        requires
            old(self).wf(),
        ensures
            final(self).wf(),
            (final(self)@, final(out)@) == damaged(old(self)@, old(out)@, now_us),
    {
        if self.recovery.damage(now_us) {
            out.resync = true;
            out.notes.push(StageNote { stage: "recovery_begin", timestamp: 0, value: 0 });
        }
    }

    fn lose(&mut self, reason: DropReason, suspect: bool, now_us: u64, out: &mut ReceiveOutcome)
        requires
            old(self).wf(),
        ensures
            final(self).wf(),
            (final(self)@, final(out)@) == lost(old(self)@, old(out)@, reason, suspect, now_us),
    {
        out.keyframe_requested = true;
        self.record_damage(now_us, out);
        if suspect {
            self.suspect_reference = true;
        }
        out.stats.record_drop(reason);
        out.notes.push(StageNote { stage: "au_drop_reason", timestamp: 0, value: reason.code() });
    }
}

impl VideoRtp {
    fn arrival(&mut self, sequence: u16, out: &mut ReceiveOutcome) -> (result: (bool, bool))
        requires
            old(self).wf(),
        ensures
            final(self).wf(),
            (final(self)@, final(out)@, result.0, result.1) == after_arrival(old(self)@, old(out)@, sequence),
    {
        match self.last_arrival_sequence {
            None => {
                self.last_arrival_sequence = Some(sequence);
                (false, false)
            },
            Some(previous) => {
                let distance = sequence.wrapping_sub(previous);
                if distance == 0 {
                    out.stats.duplicate_packets = 1;
                    (true, false)
                } else if distance < 0x8000 {
                    if distance > 1 {
                        out.stats.sequence_jumps = 1;
                        out.stats.estimated_missing_packets = (distance - 1) as u32;
                    }
                    self.last_arrival_sequence = Some(sequence);
                    (false, false)
                } else {
                    out.stats.late_packets = 1;
                    (false, true)
                }
            },
        }
    }

    fn route(&mut self, packet: &VideoPacket, late: bool, now_us: u64, out: &mut ReceiveOutcome) -> (stop: bool)
        requires
            old(self).wf(),
        ensures
            final(self).wf(),
            (final(self)@, final(out)@, stop) == after_routing(old(self)@, old(out)@, *packet, late, now_us),
    {
        let pending_timestamp = match &self.pending {
            Some(f) => f.timestamp,
            None => return false,
        };
        if pending_timestamp == packet.timestamp {
            return false;
        }
        if !timestamp_is_newer(packet.timestamp, pending_timestamp) {
            if !late {
                out.stats.late_packets = 1;
            }
            return true;
        }
        let mut taken: Option<PendingVideoFrame> = None;
        std::mem::swap(&mut taken, &mut self.pending);
        let incomplete = taken.unwrap();
        let reason = incomplete.abandonment_reason(self.next_sequence);
        out.notes.push(StageNote { stage: "au_abandon", timestamp: incomplete.timestamp, value: reason.code() });
        self.last_frame_timestamp = Some(incomplete.timestamp);
        self.next_sequence = match incomplete.marker_sequence() {
            Some(s) => Some(s.wrapping_add(1)),
            None => None,
        };
        self.depacketizer = crate::rtc::h264::new_depacketizer();
        self.lose(reason, true, now_us, out);
        false
    }

    fn add(&mut self, packet: VideoPacket, late: bool, received_at_us: u64, out: &mut ReceiveOutcome) -> (stop: bool)
        requires
            old(self).wf(),
        ensures
            final(self).wf(),
            (final(self)@, final(out)@, stop) == after_adding(old(self)@, old(out)@, packet, late, received_at_us),
    {
        let mut taken: Option<PendingVideoFrame> = None;
        std::mem::swap(&mut taken, &mut self.pending);
        match taken {
            None => {
                if let Some(last) = self.last_frame_timestamp {
                    if !timestamp_is_newer(packet.timestamp, last) {
                        if !late {
                            out.stats.late_packets = 1;
                        }
                        return true;
                    }
                }
                let timestamp = packet.timestamp;
                let frame = PendingVideoFrame::new(packet, received_at_us);
                assert(frame@ == started_frame(packet, received_at_us));
                out.notes.push(StageNote { stage: "au_first", timestamp, value: 0 });
                self.pending = Some(frame);
                false
            },
            Some(frame) => {
                let mut frame = frame;
                if received_at_us < frame.first_packet_at_us {
                    frame.first_packet_at_us = received_at_us;
                }
                let accepted = frame.insert(packet);
                self.pending = Some(frame);
                if !accepted {
                    out.stats.duplicate_packets = 1;
                    return true;
                }
                false
            },
        }
    }
}

impl VideoRtp {
    fn complete(&mut self, frame: PendingVideoFrame, data: Vec<u8>, marker: u16, now_us: u64, out: &mut ReceiveOutcome)
        requires
            old(self).wf(),
        ensures
            final(self).wf(),
            (final(self)@, final(out)@) == completed(old(self)@, old(out)@, frame@, data@, marker, now_us),
    {
        let age: u64 = if now_us >= frame.first_packet_at_us { now_us - frame.first_packet_at_us } else { 0 };
        let timestamp = frame.timestamp;
        out.stats.assembled = 1;
        out.notes.push(StageNote { stage: "au_complete", timestamp, value: age });
        out.assembly_us = Some(age);
        self.pending = None;
        self.next_sequence = Some(marker.wrapping_add(1));
        let duration: Option<u64> = match self.last_frame_timestamp {
            Some(previous) => Some((timestamp.wrapping_sub(previous) as u64) * 1_000_000 / 90_000),
            None => None,
        };
        out.stats.source_frame_duration_us = duration;
        if let Some(d) = duration {
            self.source_frame_duration_us = Some(
                match self.source_frame_duration_us {
                    Some(a) => (a * 7 + d) / 8,
                    None => d,
                },
            );
        }
        self.last_frame_timestamp = Some(timestamp);
        let (idr, resolution) = inspect_h264_access_unit(data.as_slice());
        if idr {
            out.stats.idr = 1;
            self.last_idr_at = Some(now_us);
        }
        out.stats.encoded_resolution = resolution;
        let fresh_sps = match (resolution, self.last_sps_resolution) {
            (Some(r), Some(last)) => r.0 != last.0 || r.1 != last.1,
            (Some(_), None) => true,
            (None, _) => false,
        };
        if fresh_sps {
            out.new_resolution = resolution;
            self.last_sps_resolution = resolution;
        }
        let too_large = match resolution {
            Some((w, h)) => w > self.decoder_capacity.0 || h > self.decoder_capacity.1,
            None => false,
        };
        if too_large {
            out.oversized = !self.stream_too_large;
            self.stream_too_large = true;
            self.lose(DropReason::SpsRejected, true, now_us, out);
            return;
        }
        if self.stream_too_large && (resolution.is_none() || !idr) {
            self.lose(DropReason::IdrWait, false, now_us, out);
            return;
        }
        self.stream_too_large = false;
        if !self.recovery.accepts(idr) {
            out.keyframe_requested = true;
            out.stats.record_drop(DropReason::IdrWait);
            out.notes.push(StageNote { stage: "au_drop_reason", timestamp: 0, value: DropReason::IdrWait.code() });
            return;
        }
        out.submit = Some(AccessUnit { data, first_packet_at_us: frame.first_packet_at_us, timestamp, idr });
    }

    fn assemble_pending(&mut self, now_us: u64, out: &mut ReceiveOutcome)
        requires
            old(self).wf(),
            old(self)@.pending is Some,
        ensures
            final(self).wf(),
            (final(self)@, final(out)@) == after_assembly(old(self)@, old(out)@, old(self)@.pending->0, now_us),
    {
        let mut taken: Option<PendingVideoFrame> = None;
        std::mem::swap(&mut taken, &mut self.pending);
        let frame = taken.unwrap();
        let assembly = frame.assemble(&mut self.depacketizer, self.next_sequence);
        match assembly {
            FrameAssembly::Pending => {
                self.pending = Some(frame);
            },
            FrameAssembly::Invalid(reason) => {
                self.last_frame_timestamp = Some(frame.timestamp);
                self.next_sequence = match frame.marker_sequence() {
                    Some(s) => Some(s.wrapping_add(1)),
                    None => None,
                };
                self.depacketizer = crate::rtc::h264::new_depacketizer();
                self.lose(reason, true, now_us, out);
            },
            FrameAssembly::Complete { data, marker_sequence } => {
                self.complete(frame, data, marker_sequence, now_us, out);
            },
        }
    }

    /// One authenticated video packet, received at `received_at_us`; `recovery_requested`
    /// is the decoder's pending request to recover.
    pub fn receive_at(&mut self, packet: VideoPacket, received_at_us: u64, recovery_requested: bool, now_us: u64) -> (out: ReceiveOutcome)
        requires
            old(self).wf(),
        ensures
            final(self).wf(),
            (final(self)@, out@) == receive_step(old(self)@, packet, received_at_us, recovery_requested, now_us),
    {
        let mut out = ReceiveOutcome::new();
        if recovery_requested {
            self.record_damage(now_us, &mut out);
            out.keyframe_requested = true;
        }
        let (stop, late) = self.arrival(packet.sequence, &mut out);
        if stop {
            return out;
        }
        if packet.payload.len() == 0 {
            out.stats.empty_packets = 1;
            if self.next_sequence == Some(packet.sequence) {
                self.next_sequence = Some(packet.sequence.wrapping_add(1));
            }
            return out;
        }
        self.take_packet(packet, late, received_at_us, now_us, &mut out);
        out
    }

    fn take_packet(&mut self, packet: VideoPacket, late: bool, received_at_us: u64, now_us: u64, out: &mut ReceiveOutcome)
        requires
            old(self).wf(),
            packet.payload@.len() > 0,
        ensures
            final(self).wf(),
            (final(self)@, final(out)@) == after_packet(old(self)@, old(out)@, packet, late, received_at_us, now_us),
    {
        if self.route(&packet, late, now_us, out) {
            return;
        }
        if self.add(packet, late, received_at_us, out) {
            return;
        }
        let too_big = match &self.pending {
            Some(f) => f.bytes > MAX_H264_ACCESS_UNIT_BYTES || f.packets.len() > MAX_PENDING_PACKETS,
            None => false,
        };
        if too_big {
            let mut taken: Option<PendingVideoFrame> = None;
            std::mem::swap(&mut taken, &mut self.pending);
            let frame = taken.unwrap();
            self.last_frame_timestamp = Some(frame.timestamp);
            self.next_sequence = None;
            self.lose(DropReason::Other, false, now_us, out);
            return;
        }
        self.assemble_pending(now_us, out);
    }

    /// The decoder's answer to the unit with RTP timestamp `timestamp` that a step asked
    /// to submit.
    pub fn finish_submit(&mut self, timestamp: u32, idr: bool, result: SubmitResult, now_us: u64, out: &mut ReceiveOutcome)
        requires
            old(self).wf(),
        ensures
            final(self).wf(),
            (final(self)@, final(out)@) == submit_step(old(self)@, old(out)@, timestamp, idr, result, now_us),
    {
        match result {
            SubmitResult::Submitted => {
                if idr && self.recovery.waiting() {
                    let waited = self.recovery.wait_ms(now_us);
                    out.notes.push(StageNote { stage: "recovery_end_ms", timestamp, value: waited });
                }
                self.recovery.submitted(idr, now_us);
                out.stats.submitted = 1;
                if idr {
                    self.suspect_reference = false;
                } else if self.suspect_reference {
                    out.stats.post_damage_submitted = 1;
                }
            },
            SubmitResult::QueueFull => self.lose(DropReason::QueueFull, true, now_us, out),
            SubmitResult::Disconnected => self.lose(DropReason::Other, true, now_us, out),
        }
    }
}

/// What every decision of a step keeps: a unit for the decoder holds an IDR whenever
/// recovery waits for one and never exceeds the decoder's capacity; every dropped unit
/// comes with a keyframe request.
pub open spec fn step_safe(m: RtpModel, o: OutcomeModel) -> bool {
    &&& o.submit matches Some((data, _, _, idr)) ==> {
        &&& !m.recovery.waiting || idr
        &&& !beyond_capacity(access_unit_info(data).1, m.decoder_capacity)
    }
    &&& o.stats.dropped > 0 ==> o.keyframe_requested
}

pub open spec fn nothing_submitted(o: OutcomeModel) -> bool {
    o.submit is None && (o.stats.dropped > 0 ==> o.keyframe_requested)
}

proof fn lemma_lost_safe(m: RtpModel, o: OutcomeModel, reason: DropReason, suspect: bool, now: u64)
    requires
        o.submit is None,
    ensures
        nothing_submitted(lost(m, o, reason, suspect, now).1),
        lost(m, o, reason, suspect, now).0.decoder_capacity == m.decoder_capacity,
{
}

proof fn lemma_completed_safe(m: RtpModel, o: OutcomeModel, f: FrameModel, data: Seq<u8>, marker: u16, now: u64)
    requires
        nothing_submitted(o),
    ensures
        step_safe(completed(m, o, f, data, marker, now).0, completed(m, o, f, data, marker, now).1),
{
    let (idr, resolution) = access_unit_info(data);
    let fresh_sps = resolution is Some && resolution != m.last_sps_resolution;
    let m1 = RtpModel {
        pending: None,
        next_sequence: Some(marker.wrapping_add(1)),
        source_frame_duration_us: match m.last_frame_timestamp {
            Some(previous) => Some(smoothed(m.source_frame_duration_us, frame_duration_us(f.timestamp, previous))),
            None => m.source_frame_duration_us,
        },
        last_frame_timestamp: Some(f.timestamp),
        last_idr_at: if idr { Some(now) } else { m.last_idr_at },
        last_sps_resolution: if fresh_sps { resolution } else { m.last_sps_resolution },
        ..m
    };
    if beyond_capacity(resolution, m.decoder_capacity) {
        lemma_lost_safe(RtpModel { stream_too_large: true, ..m1 }, o, DropReason::SpsRejected, true, now);
    } else if m.stream_too_large && (resolution is None || !idr) {
        lemma_lost_safe(m1, o, DropReason::IdrWait, false, now);
    }
}

proof fn lemma_assembly_safe(m: RtpModel, o: OutcomeModel, f: FrameModel, now: u64)
    requires
        nothing_submitted(o),
    ensures
        step_safe(after_assembly(m, o, f, now).0, after_assembly(m, o, f, now).1),
{
    if f.assemblable(m.next_sequence) {
        match fragments_verdict(f.payloads()) {
            Err(reason) => {
                lemma_lost_safe(
                    RtpModel {
                        pending: None,
                        last_frame_timestamp: Some(f.timestamp),
                        next_sequence: match f.marker {
                            Some(s) => Some(s.wrapping_add(1)),
                            None => None,
                        },
                        buffered: None,
                        ..m
                    },
                    o,
                    reason,
                    true,
                    now,
                );
            },
            Ok(()) => match annexb_unit(f.payloads()) {
                Err(reason) => {
                    lemma_lost_safe(
                        RtpModel {
                            pending: None,
                            last_frame_timestamp: Some(f.timestamp),
                            next_sequence: match f.marker {
                                Some(s) => Some(s.wrapping_add(1)),
                                None => None,
                            },
                            buffered: None,
                            ..m
                        },
                        o,
                        reason,
                        true,
                        now,
                    );
                },
                Ok((data, _)) => {
                    lemma_completed_safe(RtpModel { buffered: None, ..m }, o, f, data, f.marker->0, now);
                },
            },
        }
    }
}

/// Every step is safe: while recovery waits only an IDR reaches the decoder, no unit
/// beyond the decoder's capacity does, and a dropped unit always asks for a keyframe.
pub proof fn law_receive_step_is_safe(m: RtpModel, p: VideoPacket, at: u64, recovery_requested: bool, now: u64)
    ensures
        step_safe(
            receive_step(m, p, at, recovery_requested, now).0,
            receive_step(m, p, at, recovery_requested, now).1,
        ),
{
    let (m0, o0) = if recovery_requested {
        let (a, b) = damaged(m, quiet(), now);
        (a, OutcomeModel { keyframe_requested: true, ..b })
    } else {
        (m, quiet())
    };
    let (m1, o1, stop, late) = after_arrival(m0, o0, p.sequence);
    if !stop && p.payload@.len() > 0 {
        let (m2, o2, stop2) = after_routing(m1, o1, p, late, now);
        if !stop2 {
            let (m3, o3, stop3) = after_adding(m2, o2, p, late, at);
            if !stop3 {
                let f = m3.pending->0;
                if oversized_unit(f) {
                    lemma_lost_safe(
                        RtpModel { pending: None, last_frame_timestamp: Some(f.timestamp), next_sequence: None, ..m3 },
                        o3,
                        DropReason::Other,
                        false,
                        now,
                    );
                } else {
                    lemma_assembly_safe(m3, o3, f, now);
                }
            }
        }
    }
}

/// A repeated packet changes nothing and is counted as a duplicate.
pub proof fn law_duplicate_packet_is_ignored(m: RtpModel, p: VideoPacket, at: u64, now: u64)
    requires
        m.last_arrival_sequence == Some(p.sequence),
    ensures
        receive_step(m, p, at, false, now).0 == m,
        receive_step(m, p, at, false, now).1 == (OutcomeModel {
            stats: VideoSampleStats { duplicate_packets: 1, ..no_samples() },
            ..quiet()
        }),
{
}

/// A refused or undeliverable submission damages the reference chain and asks for a
/// keyframe; an accepted IDR ends recovery.
pub proof fn law_submission_outcomes(m: RtpModel, o: OutcomeModel, timestamp: u32, idr: bool, now: u64)
    ensures
        submit_step(m, o, timestamp, idr, SubmitResult::QueueFull, now).1.keyframe_requested,
        submit_step(m, o, timestamp, idr, SubmitResult::QueueFull, now).0.recovery.waiting,
        submit_step(m, o, timestamp, idr, SubmitResult::Disconnected, now).0.recovery.waiting,
        idr ==> !submit_step(m, o, timestamp, idr, SubmitResult::Submitted, now).0.recovery.waiting,
{
}

} // verus!
