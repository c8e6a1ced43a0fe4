use green_vita::video::freshness::VideoTiming;
use green_vita::video::timing::{FrameTiming, PictureTracker, PresentationState, PresentedFrame, MAX_TRACKED_PICTURES, UNKNOWN_PTS};

const MS: u64 = 1000;
const START: u64 = 1_000_000_000;

#[test]
fn buffered_and_reordered_outputs_keep_their_actual_input_identity() {
    let start = START;
    let mut tracker = PictureTracker::default();
    let first = tracker.submit(1000, start, start, 1);
    let second = tracker.submit(2500, start + 17 * MS, start + 18 * MS, 1);
    assert_eq!(tracker.output(second, start + 20 * MS).unwrap().rtp_timestamp, 2500);
    let delayed = tracker.output(first, start + 1000 * MS).unwrap();
    assert_eq!(delayed.rtp_timestamp, 1000);
    assert_eq!(delayed.decoded_at_us - delayed.received_at_us, 1000 * MS);
    assert!(tracker.output(first, start).is_none());
}

#[test]
fn rtp_wrap_and_zero_are_valid_picture_timestamps() {
    let now = START;
    let mut tracker = PictureTracker::default();
    let before = tracker.submit(u32::MAX - 1499, now, now, 0);
    let after = tracker.submit(0, now, now, 0);
    assert_eq!(after - before, 1500);
    assert_eq!(tracker.output(after, now).unwrap().rtp_timestamp, 0);
    assert_eq!(tracker.output(before, now).unwrap().rtp_timestamp, u32::MAX - 1499);
}

#[test]
fn unknown_unmatched_and_evicted_pts_never_guess_a_picture() {
    let now = START;
    let mut tracker = PictureTracker::default();
    for rtp in 0..300 {
        tracker.submit(rtp, now, now, 0);
    }
    assert_eq!(tracker.pending_count(), MAX_TRACKED_PICTURES);
    assert!(tracker.output(UNKNOWN_PTS, now).is_none());
    assert!(tracker.output(0, now).is_none());
    assert!(tracker.output(9000, now).is_none());
    assert_eq!(tracker.output(299, now).unwrap().rtp_timestamp, 299);
}

#[test]
fn old_epoch_is_preserved_so_recovery_can_reject_delayed_output() {
    let now = START;
    let mut tracker = PictureTracker::default();
    let old = tracker.submit(100, now, now, 2);
    let new = tracker.submit(200, now, now, 3);
    assert_eq!(tracker.output(old, now).unwrap().epoch, 2);
    assert_eq!(tracker.output(new, now).unwrap().epoch, 3);
}

#[test]
fn only_new_rendered_pictures_generate_feedback_and_pending_reports_coalesce() {
    let now = START;
    let mut tracker = PictureTracker::default();
    let mut state = PresentationState::default();
    let pts = tracker.submit(10, now, now, 0);
    let frame = tracker.output(pts, now);
    assert!(state.take().is_none());
    state.record(1, frame, now);
    assert_eq!(state.take().unwrap().timing.rtp_timestamp, 10);
    state.record(1, frame, now);
    assert!(state.take().is_none());
    state.record(2, frame, now);
    state.record(3, None, now);
    assert!(state.take().is_none());
    assert!(state.latest().is_none());
}

#[test]
fn resubmitting_a_timestamp_replaces_its_pending_entry() {
    let mut tracker = PictureTracker::new();
    assert!(!tracker.has_pending());
    let a = tracker.submit(7, START, START, 0);
    let b = tracker.submit(7, START + MS, START + MS, 1);
    assert_eq!(a, b);
    assert_eq!(tracker.pending_count(), 1);
    assert_eq!(tracker.output(a, START + 2 * MS).unwrap().epoch, 1);
    assert!(!tracker.has_pending());
}

#[test]
fn slow_decoder_output_is_visible_even_when_rtp_arrival_is_fresh() {
    let start = START;
    let now = start + 1000 * MS;
    let frame = PresentedFrame {
        timing: FrameTiming { rtp_timestamp: 42, received_at_us: start, submitted_at_us: start, decoded_at_us: now, epoch: 0 },
        rendered_at_us: now,
    };
    let arrival = VideoTiming { timestamp: 90_000, received_at_us: now, added_delay_ms: 5 };
    let measured = arrival.with_presented_frame(Some(frame), now);
    assert_eq!(measured.added_delay_ms, 1000);
    assert_eq!(measured.timestamp, 42);
    assert_eq!(measured.received_at_us, now);
    let stale = arrival.with_presented_frame(Some(frame), now + 2000 * MS);
    assert_eq!(stale.added_delay_ms, 5);
}

#[test]
fn no_presented_frame_or_smaller_age_keeps_arrival_sample() {
    let arrival = VideoTiming { timestamp: 9, received_at_us: START, added_delay_ms: 50 };
    assert_eq!(arrival.with_presented_frame(None, START).timestamp, 9);
    let frame = PresentedFrame {
        timing: FrameTiming { rtp_timestamp: 1, received_at_us: START, submitted_at_us: START, decoded_at_us: START, epoch: 0 },
        rendered_at_us: START + 50 * MS,
    };
    let kept = arrival.with_presented_frame(Some(frame), START + 50 * MS);
    assert_eq!(kept.timestamp, 9);
    assert_eq!(kept.added_delay_ms, 50);
}
