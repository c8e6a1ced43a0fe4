use green_vita::video::metrics::{video_performance_summary, MetricsSnapshot};

fn zero() -> MetricsSnapshot {
    MetricsSnapshot {
        rtp_assembly_sum_us: 0,
        rtp_assembly_count: 0,
        rtp_assembly_max_us: 0,
        picture_dimensions: 0,
        au_queue_depth: 0,
        au_queue_max: 0,
        au_age_sum_us: 0,
        au_age_count: 0,
        au_age_max_us: 0,
        render_wait_sum_us: 0,
        render_wait_count: 0,
        render_wait_max_us: 0,
        render_backlog: 0,
        texture_superseded: 0,
        handoff_replaced: 0,
        stale_generation: 0,
        decoder_unavailable: 0,
        decode_calls: 0,
        no_picture: 0,
        decoded: 0,
        skipped: 0,
        presented: 0,
        replaced: 0,
        queue_full: 0,
        resyncs: 0,
        resets: 0,
    }
}

#[test]
fn empty_counters_render_zeros_and_unknown_picture() {
    assert_eq!(
        video_performance_summary(&mut zero()),
        "Q depth/max:0/0 AUage:0/0ms renderWait:0/0ms hold:0 texRepl:0\nFPS hwCall:0 decoded:0 shown:0 pic:? noPic:0 noOut:0 qFull/s:0 asm:0/0ms\nStage stale:0 noDec:0 mailRepl:0 handoffRepl:0 resync:0 reset:0"
    );
}

#[test]
fn averages_use_counts_and_picture_size_splits_dimensions() {
    let mut m = MetricsSnapshot {
        au_age_sum_us: 9_000,
        au_age_count: 3,
        au_age_max_us: 5_999,
        rtp_assembly_sum_us: 4_000,
        rtp_assembly_count: 2,
        picture_dimensions: (960u64 << 32) | 544,
        decoded: 30,
        resets: 2,
        ..zero()
    };
    let text = video_performance_summary(&mut m);
    assert!(text.contains(" AUage:3/5ms "));
    assert!(text.contains(" pic:960x544 "));
    assert!(text.contains(" asm:2/0ms"));
    assert!(text.contains(" decoded:30 "));
    assert!(text.ends_with(" reset:2"));
}

#[test]
fn a_summary_starts_a_new_window_and_keeps_gauges() {
    let mut m = MetricsSnapshot {
        au_queue_depth: 2,
        au_queue_max: 5,
        au_age_sum_us: 9_000,
        au_age_count: 3,
        rtp_assembly_sum_us: 4_000,
        rtp_assembly_count: 2,
        decode_calls: 60,
        decoded: 59,
        presented: 58,
        replaced: 4,
        stale_generation: 7,
        resyncs: 1,
        picture_dimensions: (960u64 << 32) | 544,
        ..zero()
    };
    let first = video_performance_summary(&mut m);
    assert!(first.contains("hwCall:60 decoded:59 shown:58"));
    let second = video_performance_summary(&mut m);
    assert!(second.contains("hwCall:0 decoded:0 shown:0"));
    assert!(second.contains("noPic:0 noOut:0 qFull/s:0 asm:0/0ms"));
    assert!(second.contains("AUage:0/0ms renderWait:0/0ms"));
    assert!(second.contains("mailRepl:0"));
    assert!(second.starts_with("Q depth/max:2/5 "));
    assert!(second.contains("pic:960x544 "));
    assert!(second.contains("stale:7 ") && second.contains("resync:1 "));
}
