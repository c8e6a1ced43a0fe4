use green_vita::rtc::reorder::OrderStats;
use green_vita::rtc::video_rtp::VideoSampleStats;
use green_vita::rtc::video_stats::{status_due, video_status, VideoStats};
use green_vita::video::output::DecoderConfig;

fn order_stats() -> OrderStats {
    OrderStats {
        jumps: 2,
        provisional_missing: 3,
        out_of_order: 4,
        duplicates: 5,
        filled: 0,
        missing: 0,
        too_late: 0,
        capacity_releases: 0,
        max_depth: 0,
        max_wait_us: 0,
    }
}

fn config() -> DecoderConfig {
    DecoderConfig { decode_width: 960, decode_height: 544, output_width: 960, output_height: 544 }
}

#[test]
fn counters_add_and_latest_picture_facts_win() {
    let mut stats = VideoStats::new();
    let mut sample = VideoSampleStats::default();
    sample.assembled = 1;
    sample.submitted = 1;
    sample.idr = 1;
    sample.source_frame_duration_us = Some(16_667);
    sample.encoded_resolution = Some((1280, 720));
    stats.accumulate(&sample);
    let mut second = VideoSampleStats::default();
    second.dropped = 2;
    second.missing_sequence = 2;
    stats.accumulate(&second);
    assert_eq!(stats.assembled, 1);
    assert_eq!(stats.submitted, 1);
    assert_eq!(stats.dropped, 2);
    assert_eq!(stats.missing_sequence, 2);
    assert_eq!(stats.idr, 1);
    assert_eq!(stats.last_sample_duration_us, Some(16_667));
    assert_eq!(stats.encoded_resolution, Some((1280, 720)));
    assert_eq!(stats.packets, 0);
}

#[test]
fn counters_saturate() {
    let mut stats = VideoStats::new();
    stats.dropped = u64::MAX - 1;
    let mut sample = VideoSampleStats::default();
    sample.dropped = 5;
    stats.accumulate(&sample);
    assert_eq!(stats.dropped, u64::MAX);
}

#[test]
fn status_text_lists_every_counter() {
    let mut stats = VideoStats::new();
    stats.packets = 7;
    stats.assembled = 6;
    stats.submitted = 5;
    stats.idr = 1;
    stats.last_sample_duration_us = Some(16_667);
    stats.encoded_resolution = Some((1280, 720));
    let text = video_status(&stats, &order_stats(), "Order 20ms", &config(), Some(3), true, "perf");
    assert_eq!(
        text,
        "SPS:1280x720 decoder:960x544 output:960x544 source-fps:59\n\
         RTP pk:7 jump:2/~3 late:4 dup:5 empty:0\nOrder 20ms\n\
         AU done:6 sent:5 drop:0 seq:0 FU:0 mal:0 q:0 SPS:0 IDRwait:0 other:0\n\
         IDR count:1 age:3s postDamageSent:0 wait:1 decoderErr:0\n\
         perf"
    );
}

#[test]
fn unknown_sizes_and_decode_errors_in_status_text() {
    let mut stats = VideoStats::new();
    stats.decode_errors = 2;
    stats.last_decode_error = Some("bad slice".to_string());
    let text = video_status(&stats, &order_stats(), "", &config(), None, false, "");
    assert!(text.starts_with("SPS:? decoder:960x544 output:960x544 source-fps:0\n"));
    assert!(text.contains("IDR count:0 age:? postDamageSent:0 wait:0 decoderErr:2\n"));
    assert!(text.ends_with("\nlast decode error: bad slice"));
}

#[test]
fn status_is_due_once_a_second() {
    assert!(!status_due(1_000_000, 1_999_999));
    assert!(status_due(1_000_000, 2_000_000));
    assert!(!status_due(2_000_000, 1_000_000));
}
