use green_vita::microphone::{Microphone, VoiceClip};

const MS: u64 = 1000;
const NOW: u64 = 1_000_000_000;

fn clip(mic: &Microphone, captured_at_us: u64) -> VoiceClip {
    VoiceClip { ticket: mic.begin_capture().unwrap(), captured_at_us, timestamp: 0, opus: vec![1] }
}

fn enabled() -> Microphone {
    let mut m = Microphone::default();
    m.set_ready(true);
    m.set_on(true);
    m
}

/// Sends every queued clip through `send`, as the uplink pump does.
fn send_pending(mic: &mut Microphone, now: u64, mut send: impl FnMut(&VoiceClip) -> bool) {
    while let Some(clip) = mic.next_sendable(now) {
        let ok = send(&clip);
        mic.sent(ok);
    }
}

#[test]
fn unavailable_capture_cannot_be_unmuted() {
    let mut mic = Microphone::default();
    assert!(!mic.set_on(true));
    assert!(mic.begin_capture().is_none());
    mic.set_ready(true);
    assert!(!mic.is_on());
}

#[test]
fn mute_invalidates_inflight_capture_and_queued_audio_even_after_unmute() {
    let mut mic = enabled();
    let old = clip(&mic, NOW);
    let queued = clip(&mic, NOW);
    mic.publish(queued, NOW);
    mic.set_on(false);
    mic.set_on(true);
    mic.publish(old, NOW);
    send_pending(&mut mic, NOW, |_| panic!("old audio leaked"));
    assert!(!mic.level_fresh(NOW));
    let fresh = clip(&mic, NOW);
    mic.publish(fresh, NOW);
    let mut count = 0;
    send_pending(&mut mic, NOW, |_| {
        count += 1;
        true
    });
    assert_eq!(count, 1);
}

#[test]
fn disconnect_and_new_sessions_require_explicit_unmute() {
    let mut mic = enabled();
    let old = clip(&mic, NOW);
    mic.set_ready(false);
    mic.publish(old, NOW);
    send_pending(&mut mic, NOW, |_| panic!("audio after disconnect"));
    mic.set_ready(true);
    assert!(!mic.is_on());
    assert!(!Microphone::default().is_on());
}

#[test]
fn congestion_is_bounded_and_expired_audio_never_retries() {
    let mut mic = enabled();
    for _ in 0..10 {
        let c = clip(&mic, NOW);
        mic.publish(c, NOW);
    }
    let mut count = 0;
    send_pending(&mut mic, NOW, |_| {
        count += 1;
        false
    });
    assert_eq!(count, 3);
    send_pending(&mut mic, NOW, |_| panic!("replayed rejected audio"));
    let old = clip(&mic, NOW - 1000 * MS);
    mic.publish(old, NOW);
    send_pending(&mut mic, NOW, |_| panic!("stale audio"));
}

#[test]
fn status_reports_each_state() {
    let mut mic = Microphone::new();
    assert_eq!(mic.status(), "Mic: waiting for audio uplink");
    mic.set_ready(true);
    assert_eq!(mic.status(), "Mic off");
    mic.set_on(true);
    let c = clip(&mic, NOW);
    mic.publish(c, NOW);
    assert!(mic.level_fresh(NOW + 249 * MS));
    assert!(!mic.level_fresh(NOW + 250 * MS));
    send_pending(&mut mic, NOW + 80 * MS, |_| true);
    assert_eq!(mic.status(), "Mic on \u{b7} sent 1 \u{b7} dropped 0");
    mic.fail("no device".to_string());
    assert_eq!(mic.status(), "Mic unavailable: no device");
    assert!(!mic.available());
    mic.set_ready(true);
    assert_eq!(mic.status(), "Mic off");
}
