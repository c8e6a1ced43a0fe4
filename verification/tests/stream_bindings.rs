use green_vita::rtc::stream_bindings::{StreamBindings, TRANSPORT_CC_URI};

fn arrival_extension(id: u16) -> Vec<(String, u16)> {
    vec![(TRANSPORT_CC_URI.to_string(), id)]
}

/// The registered arrival extension of `ssrc`, if the packet carries it: its length.
fn extension_len(b: &StreamBindings, ssrc: u32, carried_id: u8, value: &[u8]) -> Option<usize> {
    match b.arrival_extension(ssrc) {
        Some(id) if id == carried_id => Some(value.len()),
        _ => None,
    }
}

#[test]
fn video_feedback_activity_requires_its_negotiated_extension_and_valid_bytes() {
    let mut b = StreamBindings::new(vec![(102, 90_000), (111, 48_000)]);
    b.bind_remote(10, 90_000, &arrival_extension(5));
    b.bind_remote(20, 48_000, &arrival_extension(5));
    for (ssrc, pt, id, value, expected) in [
        (20, 111, 5, vec![0, 1], 0), // audio must not enable video adaptation
        (10, 102, 4, vec![0, 2], 0), // wrong extension
        (10, 102, 5, vec![0], 0),    // truncated extension
        (10, 102, 5, vec![0, 3], 1),
    ] {
        let len = extension_len(&b, ssrc, id, &value);
        b.rtp(ssrc, pt, false, len);
        assert_eq!(b.video_arrival_packets(), expected);
    }
    b.unbind(10);
    let len = extension_len(&b, 10, 5, &[0, 4]);
    b.rtp(10, 102, false, len);
    assert_eq!(b.video_arrival_packets(), 1);
}

#[test]
fn unknown_payload_is_not_guessed_and_unbinding_clears_report_state() {
    let mut b = StreamBindings::new(vec![(102, 90_000)]);
    assert_eq!(b.rtp(10, 99, false, None), None);
    assert_eq!(b.summary(), "RR tracks:0 made:0 SRseen:0 TWCC tracks:0 pk:0 emptyRTP:0");
    assert_eq!(b.rtp(10, 102, true, None), Some(90_000));
    assert_eq!(b.rtp(10, 102, false, None), None);
    assert_eq!(b.summary(), "RR tracks:1 made:0 SRseen:0 TWCC tracks:0 pk:0 emptyRTP:1");
    b.unbind(10);
    assert_eq!(b.summary(), "RR tracks:0 made:0 SRseen:0 TWCC tracks:0 pk:0 emptyRTP:1");
}

#[test]
fn repeated_binding_keeps_report_history() {
    let mut b = StreamBindings::new(vec![(102, 90_000)]);
    assert_eq!(b.rtp(10, 102, false, None), Some(90_000));
    assert!(!b.bind_remote(10, 90_000, &vec![]));
    assert!(!b.bind_once(10, 0));
    assert!(b.bind_once(10, 48_000));
}

#[test]
fn sender_report_is_observed_before_the_inner_interceptor_consumes_it() {
    let mut b = StreamBindings::new(vec![(102, 90_000)]);
    b.rtp(10, 102, false, None);
    b.sender_report(10, 3_900_000_000_u64 << 32, 1500);
    let reports = b.take_clock_reports();
    assert_eq!(reports.len(), 1);
    assert_eq!(reports[0].clock_rate, 90_000);
    assert_eq!(reports[0].rtp_time, 1500);
}

#[test]
fn sender_report_of_a_bound_stream_waits_with_its_clock() {
    let mut b = StreamBindings::new(vec![(102, 90_000)]);
    b.sender_report(10, 1, 1);
    assert!(b.take_clock_reports().is_empty());
    b.rtp(10, 102, false, None);
    b.sender_report(10, 3_900_000_000_u64 << 32, 1000);
    b.sender_report(10, 3_900_000_000_u64 << 32, 1500);
    let reports = b.take_clock_reports();
    assert_eq!(reports.len(), 1);
    assert_eq!(reports[0].clock_rate, 90_000);
    assert_eq!(reports[0].rtp_time, 1500);
    assert!(b.take_clock_reports().is_empty());
    b.generated(2);
    assert_eq!(b.summary(), "RR tracks:1 made:2 SRseen:3 TWCC tracks:0 pk:0 emptyRTP:0");
}

#[test]
fn at_most_eight_sender_reports_wait() {
    let mut b = StreamBindings::new(vec![(102, 90_000)]);
    for ssrc in 0..9 {
        b.rtp(ssrc, 102, false, None);
        b.sender_report(ssrc, 1, ssrc);
    }
    let reports = b.take_clock_reports();
    assert_eq!(reports.len(), 8);
    assert_eq!(reports[7].ssrc, 7);
}
