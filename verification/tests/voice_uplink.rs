use green_vita::voice_uplink::{MicrophoneSignal, VoiceUplink};

#[test]
fn chat_is_negotiated_once_after_unmute_while_connected() {
    let mut uplink = VoiceUplink::new(100);
    assert!(!uplink.should_negotiate(true));
    assert_eq!(uplink.connection(true, true), Some(MicrophoneSignal { ready: true, negotiated: false }));
    assert_eq!(uplink.connection(true, true), None);
    assert!(!uplink.should_negotiate(false));
    assert!(uplink.should_negotiate(true));
    uplink.offer_sent();
    assert!(!uplink.should_negotiate(true));
    uplink.negotiation_finished(true);
    assert!(uplink.sending());
    assert!(!uplink.should_negotiate(true));
}

#[test]
fn failed_negotiation_keeps_voice_off_for_the_session() {
    let mut uplink = VoiceUplink::new(0);
    uplink.connection(true, true);
    uplink.offer_sent();
    uplink.negotiation_finished(false);
    assert!(uplink.failed && !uplink.negotiated && !uplink.pending);
    assert!(!uplink.should_negotiate(true));
    assert!(!uplink.sending());
    uplink.connection(false, true);
    assert_eq!(uplink.connection(true, true), Some(MicrophoneSignal { ready: false, negotiated: false }));
}

#[test]
fn disconnect_tells_the_microphone_to_stop() {
    let mut uplink = VoiceUplink::new(0);
    uplink.connection(true, false);
    uplink.offer_sent();
    uplink.negotiation_finished(true);
    assert_eq!(uplink.connection(false, true), Some(MicrophoneSignal { ready: false, negotiated: false }));
    assert!(!uplink.sending());
}

#[test]
fn packets_count_written_clips_and_mark_discontinuities() {
    let mut uplink = VoiceUplink::new(65_535);
    assert_eq!(uplink.header(1_000), (65_535, true));
    uplink.written(1_000);
    assert_eq!(uplink.header(1_960), (0, false));
    // A failed write does not consume a sequence number.
    assert_eq!(uplink.header(1_960), (0, false));
    uplink.written(1_960);
    assert_eq!(uplink.header(3_880), (1, true));
    uplink.written(u32::MAX - 100);
    assert_eq!(uplink.header(859), (2, false));
}
