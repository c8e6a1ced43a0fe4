use green_vita::rtc::feedback::{ArrivalFeedback, ReceiveRate, VideoCeiling, FEEDBACK_INTERVAL_US, VIDEO_CEILING_BPS};
use green_vita::rtc::sdp::{feedback_payloads, remb_payloads};

const MS: u64 = 1000;
const SEC: u64 = 1_000_000;
const START: u64 = 1_000_000_000;

#[test]
fn working_twcc_keeps_one_controller_through_ten_minutes_of_delay_and_pause() {
    let start = START;
    let mut cap = VideoCeiling::default();
    cap.answer("m=video 9 UDP/TLS/RTP/SAVPF 102\na=rtcp-fb:102 goog-remb");
    cap.observe_payload(102);
    for tick in 1..=6000u64 {
        let now = start + tick * 100 * MS;
        cap.update_arrival_feedback(tick * 10, tick, now);
        let bytes = if (2000..4000).contains(&tick) { 500 } else { 50_000 };
        cap.receive(bytes, if tick < 100 { 5 } else { 1991 }, now);
        assert_eq!(cap.target_bps(), VIDEO_CEILING_BPS);
    }
    assert_eq!(cap.reductions(), 0);
    assert!(cap.summary(980).starts_with("REMB:twcc-cap target:2000k"));
    assert!(cap.summary(980).contains("delay:1991ms"), "do not hide latency");
}

#[test]
fn negotiation_or_one_way_feedback_alone_cannot_disable_fallback() {
    let start = START;
    let mut state = ArrivalFeedback::default();
    state.update(0, 20, start);
    assert!(!state.active);
    state.update(10, 20, start + 3 * SEC);
    assert!(!state.active);
    state.update(11, 21, start + 3 * SEC);
    assert!(state.active);
    state.update(11, 40, start + 5 * SEC);
    assert!(!state.active);
    state.update(12, 41, start + 6 * SEC);
    assert!(state.active);
    state.update(0, 0, start + 7 * SEC);
    assert!(!state.active);
}

#[test]
fn rates_use_elapsed_time_and_report_stalls() {
    let start = START;
    let mut rate = ReceiveRate::new(start);
    rate.receive(25_000, start);
    rate.receive(25_000, start + 100 * MS);
    assert_eq!(rate.summary(start + 200 * MS), "2000/2000k gap:100/100ms");
    assert_eq!(rate.latest_kbps(), 2000);
    assert_eq!(rate.summary(start + 1200 * MS), "0/0k gap:1100/1100ms");
}

#[test]
fn remb_requires_accepted_video_payload_and_does_not_leak_across_media() {
    assert_eq!(
        remb_payloads("m=audio 9 UDP/TLS/RTP/SAVPF 111\na=rtcp-fb:* goog-remb\nm=video 9 UDP/TLS/RTP/SAVPF 102\na=rtcp-fb:102 goog-remb\na=rtcp-fb:103 goog-remb"),
        vec![102]
    );
    for port in ["0", "0/2", "bad"] {
        assert!(remb_payloads(&format!("m=video {port} UDP/TLS/RTP/SAVPF 102\na=rtcp-fb:* goog-remb")).is_empty());
    }
    assert!(remb_payloads("m=video 9 UDP/TLS/RTP/SAVPF 102\na=rtcp-fb:102 nack pli").is_empty());
    assert_eq!(remb_payloads("m=video 9 UDP/TLS/RTP/SAVPF 102 103\na=rtcp-fb:* goog-remb"), vec![102, 103]);
}

#[test]
fn generic_nack_requires_its_own_negotiated_video_feedback() {
    let sdp = "m=audio 9 UDP/TLS/RTP/SAVPF 111\na=rtcp-fb:* nack\nm=video 9 UDP/TLS/RTP/SAVPF 102 103\na=rtcp-fb:102 nack pli\na=rtcp-fb:103 nack";
    assert_eq!(feedback_payloads(sdp, "nack"), vec![103]);
    assert!(feedback_payloads("m=video 0 UDP/TLS/RTP/SAVPF 102\na=rtcp-fb:* nack", "nack").is_empty());
}

#[test]
fn ceiling_requires_matching_payload_and_throttles_failed_attempts_too() {
    let mut cap = VideoCeiling::default();
    let now = START;
    cap.answer("m=video 9 UDP/TLS/RTP/SAVPF 102\na=rtcp-fb:102 goog-remb");
    assert!(!cap.due(now));
    cap.observe_payload(103);
    assert!(!cap.due(now));
    cap.observe_payload(102);
    assert!(cap.due(now));
    cap.attempted(now, false);
    assert!(!cap.due(now + 499 * MS));
    assert!(cap.due(now + FEEDBACK_INTERVAL_US));
    for i in 1..=4u64 {
        cap.attempted(now + FEEDBACK_INTERVAL_US * i, true);
    }
    assert!(cap.summary(7291).ends_with("over-windows:1"));
    assert!(cap.summary(2000).ends_with("over-windows:1"));
    cap.answer("m=video 9 UDP/TLS/RTP/SAVPF 102\na=rtcp-fb:102 nack pli");
    cap.observe_payload(102);
    assert!(!cap.due(now));
}

#[test]
fn payloads_are_sorted_deduplicated_and_survive_crlf_and_indentation() {
    let sdp = "v=0\r\n  m=video 9/2 UDP/TLS/RTP/SAVPF 104 +102 103 abc 300\r\n a=rtcp-fb:104 goog-remb\r\na=rtcp-fb:102 goog-remb\r\na=rtcp-fb:* goog-remb\r\n";
    assert_eq!(remb_payloads(sdp), vec![102, 103, 104]);
    assert_eq!(feedback_payloads("a=rtcp-fb:* nack\nm=video 9 X 96", "nack"), Vec::<u8>::new());
    assert_eq!(feedback_payloads("m=video 9 X 96\na=rtcp-fb: 96 nack", "nack"), vec![96]);
    assert_eq!(feedback_payloads("m=video 65536 X 96\na=rtcp-fb:96 nack", "nack"), Vec::<u8>::new());
    assert_eq!(feedback_payloads("m=video 9 X 96\na=rtcp-fb:96 nack", "nack pli"), Vec::<u8>::new());
}

#[test]
fn summary_names_each_mode() {
    let mut cap = VideoCeiling::new();
    assert_eq!(cap.summary(0), "REMB:unsupported target:2000k delay:0ms cuts:0 queued:0 fail:0 over-windows:0");
    cap.answer("m=video 9 X 102\na=rtcp-fb:102 goog-remb");
    assert!(cap.summary(0).starts_with("REMB:waiting-video "));
    cap.observe_payload(102);
    assert!(cap.summary(0).starts_with("REMB:adaptive "));
}

#[test]
fn switching_to_working_arrival_feedback_resets_a_legacy_reduction_and_is_due_at_once() {
    let start = START;
    let mut cap = VideoCeiling::default();
    cap.answer("m=video 9 UDP/TLS/RTP/SAVPF 102\na=rtcp-fb:102 goog-remb");
    cap.observe_payload(102);
    for tick in 0..=30u64 {
        cap.receive(10_000, tick * 4, start + tick * 100 * MS);
    }
    assert!(cap.target_bps() < 1_000_000);
    assert_eq!(cap.reductions(), 1);
    let now = start + 4 * SEC;
    cap.attempted(now, true);
    assert!(!cap.due(now));
    cap.update_arrival_feedback(10, 1, now);
    assert!(cap.arrival_active());
    assert_eq!(cap.target_bps(), VIDEO_CEILING_BPS);
    assert!(cap.due(now));
    cap.update_arrival_feedback(10, 1, now + 2 * SEC);
    assert!(!cap.arrival_active());
    assert_eq!(cap.target_bps(), VIDEO_CEILING_BPS);
    assert_eq!(cap.reductions(), 0);
    cap.answer("m=video 9 UDP/TLS/RTP/SAVPF 102\na=rtcp-fb:102 nack");
    cap.observe_payload(102);
    assert!(!cap.due(now + 3 * SEC));
}

#[test]
fn confirmed_arrival_feedback_releases_a_previous_legacy_clamp_immediately() {
    let start = START;
    let mut cap = VideoCeiling::default();
    cap.answer("m=video 9 UDP/TLS/RTP/SAVPF 102\na=rtcp-fb:102 goog-remb");
    cap.observe_payload(102);
    // A queue that keeps growing (not a settled offset) reaches the legacy floor.
    for tick in 0..=100u64 {
        cap.receive(25_000, 200 + tick * 30, start + tick * 100 * MS);
    }
    assert_eq!(cap.target_bps(), 500_000, "reproduce old controller clamp");
    let now = start + 11 * SEC;
    cap.attempted(now, true);
    cap.update_arrival_feedback(10, 1, now);
    assert_eq!(cap.target_bps(), VIDEO_CEILING_BPS);
    assert!(cap.due(now), "send the corrected ceiling without another half-second wait");
}

#[test]
fn stalled_arrival_feedback_falls_back_and_new_answer_forgets_old_mode() {
    let start = START;
    let mut cap = VideoCeiling::default();
    cap.update_arrival_feedback(10, 1, start);
    assert!(cap.arrival_active());
    cap.update_arrival_feedback(10, 1, start + 2 * SEC);
    assert!(!cap.arrival_active());
    for tick in 20..=100u64 {
        cap.receive(25_000, 300 + tick * 30, start + tick * 100 * MS);
    }
    assert!(cap.target_bps() < VIDEO_CEILING_BPS);
    cap.update_arrival_feedback(20, 2, start + 11 * SEC);
    assert!(cap.arrival_active());
    cap.answer("m=video 9 UDP/TLS/RTP/SAVPF 102\na=rtcp-fb:102 nack");
    cap.observe_payload(102);
    assert!(!cap.arrival_active());
    assert!(!cap.due(start + 12 * SEC));
}
