use green_vita::audio::playout::{
    buffer_step, service_step, BufferStep, ServiceStep,
    overruns_queue, queued_ms, ready_to_start, trim_plan, AUDIO_START_BUFFER_BYTES, AUDIO_TRIM_TARGET_BYTES,
    MAX_QUEUED_AUDIO_BYTES,
};

const MS_20: u32 = 3_840;
const MS_40: u32 = 7_680;

#[test]
fn budgets_match_48khz_stereo_pcm() {
    assert_eq!(MAX_QUEUED_AUDIO_BYTES, 46_080);
    assert_eq!(AUDIO_TRIM_TARGET_BYTES, 15_360);
    assert_eq!(AUDIO_START_BUFFER_BYTES, 7_680);
    assert_eq!(queued_ms(192_000), 1_000);
    assert_eq!(queued_ms(MS_40), 40);
    assert_eq!(queued_ms(0), 0);
}

#[test]
fn queue_under_threshold_is_left_alone() {
    assert_eq!(trim_plan(20_000, &vec![MS_20, MS_20]), (false, 0));
    assert_eq!(trim_plan(0, &vec![]), (false, 0));
    assert_eq!(trim_plan(40_000, &vec![]), (false, 0));
}

#[test]
fn reset_keeps_only_the_freshest_80ms() {
    // 200ms of fresh audio: the three oldest buffers go and 80ms stay.
    assert_eq!(trim_plan(0, &vec![MS_40; 5]), (true, 3));
    // Queued audio alone pushes past the threshold: all the fresh audio stays.
    assert_eq!(trim_plan(25_000, &vec![MS_40]), (true, 0));
}

#[test]
fn reset_never_drops_the_newest_buffer() {
    assert_eq!(trim_plan(0, &vec![40_000]), (true, 0));
    assert_eq!(trim_plan(0, &vec![40_000, 40_000]), (true, 1));
}

#[test]
fn hard_limit_and_start_buffer() {
    assert!(overruns_queue(40_000, 7_000));
    assert!(!overruns_queue(40_000, 6_080));
    assert!(overruns_queue(u32::MAX, 1));
    assert!(ready_to_start(false, MS_40));
    assert!(!ready_to_start(false, MS_40 - 1));
    assert!(!ready_to_start(true, 10_000));
}

#[test]
fn a_late_pass_resets_and_an_empty_running_queue_underruns() {
    assert_eq!(
        service_step(1_000_000, Some(700_000), true, 20_000),
        ServiceStep { reset: true, underrun: false, started: false }
    );
    assert_eq!(
        service_step(1_000_000, Some(900_000), true, 0),
        ServiceStep { reset: false, underrun: true, started: false }
    );
    assert_eq!(
        service_step(1_000_000, Some(900_000), true, 3_840),
        ServiceStep { reset: false, underrun: false, started: true }
    );
    assert_eq!(service_step(1_000_000, None, false, 0), ServiceStep { reset: false, underrun: false, started: false });
}

#[test]
fn buffers_that_would_play_too_late_are_discarded() {
    // 200ms old, 20ms queued, 20ms long: exactly the 240ms bound still plays.
    assert_eq!(buffer_step(MS_20, 1_200_000, 1_000_000, MS_20), BufferStep::Queue { reset_first: false });
    assert_eq!(buffer_step(MS_20, 1_200_001, 1_000_000, MS_20), BufferStep::Discard);
    // Past the hard limit a frame also exceeds the age bound, so it is discarded first.
    assert_eq!(buffer_step(40_000, 1_000_000, 1_000_000, 7_000), BufferStep::Discard);
    assert_eq!(buffer_step(40_000, 1_000_000, 1_000_000, 6_081), BufferStep::Discard);
}
