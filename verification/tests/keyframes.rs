use green_vita::rtc::keyframes::{InitialVideoWatchdog, KeyframeThrottle};

const MS: u64 = 1_000;

#[test]
fn watchdog_asks_after_the_grace_and_then_every_interval() {
    let mut watchdog = InitialVideoWatchdog::new();
    assert!(!watchdog.due(false, true, 1_000 * MS));
    assert!(!watchdog.due(false, true, 1_499 * MS));
    assert!(watchdog.due(false, true, 1_500 * MS));
    assert!(!watchdog.due(false, true, 1_999 * MS));
    assert!(watchdog.due(false, true, 2_000 * MS));
}

#[test]
fn video_or_disconnect_resets_the_watchdog() {
    let mut watchdog = InitialVideoWatchdog::new();
    assert!(!watchdog.due(false, true, 0));
    assert!(!watchdog.due(false, false, 600 * MS));
    assert_eq!(watchdog, InitialVideoWatchdog { started_at: None, last_request_at: None });
    assert!(!watchdog.due(false, true, 700 * MS));
    assert!(watchdog.due(false, true, 1_200 * MS));
    assert!(!watchdog.due(true, true, 5_000 * MS));
    assert_eq!(watchdog, InitialVideoWatchdog::default());
}

#[test]
fn keyframe_requests_keep_a_300ms_cooldown() {
    let mut throttle = KeyframeThrottle::new();
    assert!(!throttle.request(false, 0));
    assert!(throttle.request(true, 10 * MS));
    assert!(!throttle.request(true, 309 * MS));
    assert!(throttle.request(true, 310 * MS));
    assert!(!throttle.request(false, 2_000 * MS));
    assert_eq!(throttle.last_request_at, Some(310 * MS));
}
