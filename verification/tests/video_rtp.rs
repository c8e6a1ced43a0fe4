use green_vita::rtc::video_rtp::access_unit_summary;
use green_vita::rtc::h264::{DropReason, VideoPacket};
use green_vita::rtc::video_rtp::{timestamp_is_newer, SubmitResult, VideoRtp, VideoSampleStats};

const MS: u64 = 1000;
const START: u64 = 1_000_000_000;

fn packet(sequence: u16, timestamp: u32, marker: bool, payload: &[u8]) -> VideoPacket {
    VideoPacket { sequence, timestamp, marker, payload: payload.to_vec() }
}

const IDR: &[u8] = &[0x65, 0x88, 0x84];
const P_SLICE: &[u8] = &[0x41, 0x9a, 0x00];

#[test]
fn idr_unit_is_submitted_and_ends_recovery() {
    let mut rtp = VideoRtp::new(1280, 720);
    let mut out = rtp.receive_at(packet(10, 3000, true, IDR), START, false, START + MS);
    assert_eq!(out.stats.assembled, 1);
    assert_eq!(out.stats.idr, 1);
    assert_eq!(out.assembly_us, Some(MS));
    let unit = out.submit.take().expect("a complete unit is submitted");
    assert_eq!(unit.data, vec![0, 0, 0, 1, 0x65, 0x88, 0x84]);
    assert_eq!(unit.timestamp, 3000);
    assert!(unit.idr);
    rtp.finish_submit(unit.timestamp, unit.idr, SubmitResult::Submitted, START + 2 * MS, &mut out);
    assert_eq!(out.stats.submitted, 1);
    assert!(!rtp.waiting_for_keyframe());
    assert_eq!(rtp.idr_age_secs(START + MS + 3_000 * MS), Some(3));
    assert!(out.notes.iter().any(|n| n.stage == "au_complete"));
}

#[test]
fn recovery_drops_predicted_pictures_until_an_idr_is_submitted() {
    let mut rtp = VideoRtp::new(1280, 720);
    let out = rtp.receive_at(packet(1, 100, true, P_SLICE), START, true, START);
    assert!(out.resync);
    assert!(out.keyframe_requested);
    assert!(out.submit.is_none());
    assert_eq!(out.stats.idr_wait, 1);
    assert_eq!(out.stats.dropped, 1);
    assert!(rtp.waiting_for_keyframe());
    assert_eq!(out.notes[0].stage, "recovery_begin");
    let mut out = rtp.receive_at(packet(2, 200, true, IDR), START, false, START + 40 * MS);
    let unit = out.submit.take().unwrap();
    rtp.finish_submit(unit.timestamp, unit.idr, SubmitResult::Submitted, START + 40 * MS, &mut out);
    assert!(!rtp.waiting_for_keyframe());
    assert!(out.notes.iter().any(|n| n.stage == "recovery_end_ms" && n.value == 40));
    assert!(rtp.recovery_summary(START + 50 * MS).contains("completed:1"));
}

#[test]
fn duplicates_late_packets_and_jumps_are_counted() {
    let mut rtp = VideoRtp::new(1280, 720);
    rtp.receive_at(packet(10, 100, false, IDR), START, false, START);
    let dup = rtp.receive_at(packet(10, 100, false, IDR), START, false, START);
    assert_eq!(dup.stats.duplicate_packets, 1);
    let late = rtp.receive_at(packet(9, 100, false, IDR), START, false, START);
    assert_eq!(late.stats.late_packets, 1);
    let jump = rtp.receive_at(packet(14, 100, false, &[]), START, false, START);
    assert_eq!(jump.stats.sequence_jumps, 1);
    assert_eq!(jump.stats.estimated_missing_packets, 3);
    assert_eq!(jump.stats.empty_packets, 1);
}

#[test]
fn newer_timestamp_abandons_an_unfinished_unit() {
    let mut rtp = VideoRtp::new(1280, 720);
    rtp.receive_at(packet(1, 100, false, &[0x7c, 0x85, 0x88]), START, false, START);
    let out = rtp.receive_at(packet(2, 200, true, P_SLICE), START, false, START);
    assert!(out.keyframe_requested);
    assert_eq!(out.stats.incomplete_fua, 1);
    assert_eq!(out.notes[0].stage, "au_abandon");
    assert_eq!(out.notes[0].value, DropReason::IncompleteFuA.code());
    assert!(rtp.waiting_for_keyframe());
    let older = rtp.receive_at(packet(3, 150, true, P_SLICE), START, false, START);
    assert_eq!(older.stats.late_packets, 1);
}

#[test]
fn refused_submission_damages_and_requests_a_keyframe() {
    let mut rtp = VideoRtp::new(1280, 720);
    let mut out = rtp.receive_at(packet(1, 100, true, IDR), START, false, START);
    let unit = out.submit.take().unwrap();
    rtp.finish_submit(unit.timestamp, unit.idr, SubmitResult::QueueFull, START, &mut out);
    assert!(out.keyframe_requested);
    assert_eq!(out.stats.queue_full, 1);
    assert!(rtp.waiting_for_keyframe());
}

#[test]
fn frame_durations_follow_the_90khz_clock() {
    let mut rtp = VideoRtp::new(1280, 720);
    rtp.receive_at(packet(1, 0, true, IDR), START, false, START);
    let out = rtp.receive_at(packet(2, 3000, true, IDR), START, false, START);
    assert_eq!(out.stats.source_frame_duration_us, Some(33_333));
    assert_eq!(rtp.source_frame_duration_us(), Some(33_333));
    rtp.receive_at(packet(3, 4500, true, IDR), START, false, START);
    assert_eq!(rtp.source_frame_duration_us(), Some((33_333 * 7 + 16_666) / 8));
}

#[test]
fn timestamps_compare_around_the_circle_and_stats_count_drops() {
    assert!(timestamp_is_newer(1, u32::MAX));
    assert!(!timestamp_is_newer(5, 5));
    assert!(!timestamp_is_newer(0, 0x8000_0000));
    let mut stats = VideoSampleStats::default();
    stats.record_drop(DropReason::Malformed);
    stats.record_drop(DropReason::Malformed);
    assert_eq!((stats.dropped, stats.malformed, stats.other), (2, 2, 0));
}

#[test]
fn access_unit_summary_finds_idr_and_last_complete_sps() {
    let units = vec![(Some(9u8), true, vec![0x09, 0x10]), (Some(5u8), false, vec![0x65, 0x88])];
    assert_eq!(access_unit_summary(&units), (true, None));
    let units = vec![(Some(1u8), true, vec![0x41, 0x9a]), (None, true, vec![0xe5])];
    assert_eq!(access_unit_summary(&units), (false, None));
    // An SPS that does not parse gives no size; an incomplete one is not read.
    let units = vec![(Some(7u8), true, vec![0x67]), (Some(7u8), false, vec![0x67, 0x42])];
    assert_eq!(access_unit_summary(&units), (false, None));
}
