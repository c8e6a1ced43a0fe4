use green_vita::video::catch_up::CatchUp;

const MS: u64 = 1000;
const START: u64 = 1_000_000_000;

#[test]
fn upstream_delay_alone_must_not_generate_repeated_keyframe_load() {
    let mut state = CatchUp::default();
    let mut requests = Vec::new();
    for tick in 0..=120u64 {
        let now = START + tick * 100 * MS;
        if state.observe((tick * 9000) as u32, now, 1500, 0, false, now) {
            requests.push(tick * 100);
        }
    }
    assert!(requests.is_empty(), "arrival offset with an empty decode queue is not a local catch-up opportunity: {requests:?}");
}

#[test]
fn still_video_and_stale_or_reordered_samples_cannot_trigger_refresh() {
    let mut state = CatchUp::default();
    assert!(!state.observe(100, START, 2000, 0, false, START));
    for tick in 1..=100u64 {
        let now = START + tick * 100 * MS;
        assert!(!state.observe(100, START, 2000, 0, false, now));
        assert!(!state.observe(99, now, 2000, 0, false, now));
    }
    let resumed = START + 11_000 * MS;
    assert!(!state.observe(200, resumed, 2000, 0, false, resumed));
    assert_eq!(state.requests(), 0);
}

#[test]
fn brief_bursts_and_damage_do_not_count_as_sustained_pressure() {
    let mut state = CatchUp::default();
    for tick in 0..=100u64 {
        let now = START + tick * 100 * MS;
        assert!(!state.observe(tick as u32, now, 10, if tick % 4 == 0 { 20 } else { 0 }, false, now));
    }
    for tick in 101..=200u64 {
        let now = START + tick * 100 * MS;
        assert!(!state.observe(tick as u32, now, 2000, 32, true, now));
    }
}

#[test]
fn sustained_local_queue_pressure_handles_timestamp_wrap_and_manual_cooldown() {
    let mut state = CatchUp::default();
    state.requested(START);
    let mut requested = Vec::new();
    for tick in 0..=60u64 {
        let now = START + tick * 100 * MS;
        if state.observe((u32::MAX - 20).wrapping_add(tick as u32), now, 5, 16, false, now) {
            requested.push(tick);
        }
    }
    assert_eq!(requested, [50]);
}

#[test]
fn sustained_pressure_without_prior_request_fires_after_persistence() {
    let mut state = CatchUp::new();
    let mut requested = Vec::new();
    for tick in 0..=10u64 {
        let now = START + tick * 100 * MS;
        if state.observe(tick as u32 + 1, now, 0, 8, false, now) {
            requested.push(tick);
        }
    }
    assert_eq!(requested, [5]);
    assert_eq!(state.requests(), 1);
}

#[test]
fn old_sample_beyond_the_gap_is_ignored() {
    let mut state = CatchUp::new();
    assert!(!state.observe(1, START, 0, 32, false, START + 251 * MS));
    assert_eq!(state.requests(), 0);
}
