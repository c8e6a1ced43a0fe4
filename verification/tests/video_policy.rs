use green_vita::video::policy::{expired, QueueReservation, Recovery, AU_MAX_AGE_US, AU_QUEUE_BYTES};
use green_vita::video::startup::{VideoLagHelp, VideoStartup, HELP_AFTER_US};

const MS: u64 = 1000;
const SEC: u64 = 1_000_000;
const START: u64 = 1_000_000_000;

#[test]
fn recovery_transitions_once_and_requires_a_submitted_idr() {
    let mut state = Recovery::default();
    assert!(state.accepts(false));
    assert!(state.damage(START));
    assert!(!state.damage(START));
    assert!(!state.accepts(false));
    assert!(state.accepts(true));
    assert!(state.waiting());
    state.submitted(false, START);
    assert!(state.waiting());
    state.submitted(true, START);
    assert!(!state.waiting());
}

#[test]
fn decode_queue_deadline_is_not_extended_by_newer_frames() {
    let start = START;
    assert!(!expired(start, start + AU_MAX_AGE_US));
    assert!(expired(start, start + AU_MAX_AGE_US + MS));
}

#[test]
fn recovery_summary_reports_current_and_longest_wait() {
    let mut state = Recovery::new();
    assert_eq!(state.summary(START), "Recovery wait:0ms max:0ms completed:0");
    state.damage(START);
    assert_eq!(state.wait_ms(START + 250 * MS), 250);
    state.submitted(true, START + 300 * MS);
    assert_eq!(state.summary(START + 400 * MS), "Recovery wait:0ms max:300ms completed:1");
    state.damage(START + SEC);
    assert_eq!(state.summary(START + SEC + 500 * MS), "Recovery wait:500ms max:500ms completed:1");
}

#[test]
fn queue_reservation_respects_byte_budget() {
    let r = QueueReservation::acquire(AU_QUEUE_BYTES - 10, 10).unwrap();
    assert_eq!(r.bytes, 10);
    assert_eq!(r.total, AU_QUEUE_BYTES);
    assert!(QueueReservation::acquire(AU_QUEUE_BYTES - 10, 11).is_none());
    assert!(QueueReservation::acquire(0, usize::MAX).is_none());
}

#[test]
fn lag_help_requires_sustained_fresh_samples_and_clears_after_recovery() {
    let now = START;
    let mut lag = VideoLagHelp::default();
    lag.observe(now, 1500);
    lag.observe(now, 1500);
    assert!(!lag.needs_help(now + 4 * SEC));
    for sec in 1..=3 {
        lag.observe(now + sec * SEC, 1400);
    }
    assert!(lag.needs_help(now + 3 * SEC));
    assert!(!lag.needs_help(now + 5 * SEC));
    lag.observe(now + 4 * SEC, 70);
    assert!(!lag.needs_help(now + 4 * SEC));
    lag.observe(now + 10 * SEC, 1400);
    assert!(!lag.needs_help(now + 10 * SEC));
}

#[test]
fn stalled_startup_prompts_once_threshold_passes_and_late_picture_clears_it() {
    let now = START;
    let mut startup = VideoStartup::new(now);
    assert!(!startup.needs_help(now + HELP_AFTER_US - MS));
    assert!(startup.needs_help(now + HELP_AFTER_US));
    startup.observe_picture(true);
    assert!(!startup.needs_help(now + 201 * SEC));
    startup.observe_picture(false);
    assert!(!startup.needs_help(now + 500 * SEC));
    let fresh = VideoStartup::new(now + 500 * SEC);
    assert!(!fresh.needs_help(now + 500 * SEC));
    assert!(fresh.needs_help(now + 530 * SEC));
}
