use green_vita::video::trace::{Trace, CAPACITY, INCIDENT_CAPACITY};

#[test]
fn incidents_outlive_verbose_ring_and_preserve_real_gaps_and_recovery_reason() {
    let mut trace = Trace::new(0);
    trace.push(0, "au_complete", 1, 0);
    trace.push(0, "receive_to_gpu_done_us", 1, 0);
    trace.push(100_000, "au_complete", 2, 0);
    trace.push(100_010, "recovery_begin", 0, 0);
    trace.push(100_011, "au_drop_reason", 0, 3);
    trace.push(600_000, "receive_to_gpu_done_us", 3, 0);
    for time in 600_001..610_001 {
        trace.push(time, "decoder_poll_return", 0, 1);
    }
    assert_eq!(trace.events().len(), CAPACITY);
    assert_eq!(
        trace.incidents().iter().map(|e| (e.stage, e.value)).collect::<Vec<_>>(),
        vec![("au_delivery_gap_us", 100_000), ("recovery_begin", 0), ("au_drop_reason", 3), ("new_picture_gap_us", 600_000)]
    );
    for time in 0..2000 {
        trace.push(time, "recovery_begin", 0, 0);
    }
    assert_eq!(trace.incidents().len(), INCIDENT_CAPACITY);
}

#[test]
fn benign_drop_reason_and_short_gaps_are_not_incidents() {
    let mut trace = Trace::new(1_000);
    trace.record(1_000, "au_complete", 1, 0);
    trace.record(51_000, "au_complete", 2, 0);
    trace.record(52_000, "au_drop_reason", 0, 5);
    assert!(trace.incidents().is_empty());
    assert_eq!(trace.events().len(), 3);
    assert_eq!(trace.events()[1].time_us, 50_000);
}

#[test]
fn csv_and_history_render_every_entry() {
    let mut trace = Trace::new(0);
    trace.push(7, "keyframe_request", 9, 1);
    assert_eq!(
        trace.events_csv(),
        "elapsed_us,stage,submission_rtp_timestamp,value_us_or_reason\n7,keyframe_request,9,1\n"
    );
    assert_eq!(trace.incidents_csv(), trace.events_csv());
    trace.status_snapshot(1_500_000, "a");
    trace.status_snapshot(2_000_000, "b");
    trace.status_snapshot(2_500_000, "c");
    assert_eq!(trace.history_text(), "elapsed_ms=1500\na\n\nelapsed_ms=2500\nc\n\n");
}
