use green_vita::rtc::clock::{RtpClockProbe, NTP_UNIX_SECONDS};

const START: u64 = 1_000_000_000;

#[test]
fn sender_report_ntp_and_rtp_wrap_are_mapped_to_unix_time() {
    let mut clock = RtpClockProbe::new(90_000);
    let second = NTP_UNIX_SECONDS as u64 + 1_700_000_000;
    clock.sender_report(second << 32, u32::MAX - 44_999, START);
    assert_eq!(clock.report(), Some((u32::MAX - 44_999, 1_700_000_000_000)));
    assert_eq!(i64::from(45_000_u32.wrapping_sub(u32::MAX - 44_999) as i32), 90_000);
}

#[test]
fn zero_ntp_is_ignored() {
    let mut clock = RtpClockProbe::new(48_000);
    clock.sender_report(0, 0, START);
    assert!(clock.report().is_none());
}

#[test]
fn relative_delay_detects_backlog_without_sender_reports() {
    let mut clock = RtpClockProbe::new(90_000);
    let start = START;
    clock.receive_at(0, start, None);
    clock.receive_at(90_000, start + 1_500_000, None);
    assert_eq!(clock.relative_delay_ms(), 500);
    clock.receive_at(180_000, start + 2_000_000, None);
    assert_eq!(clock.relative_delay_ms(), 0);
}

#[test]
fn relative_delay_handles_wrap_and_ignores_late_packets() {
    let mut clock = RtpClockProbe::new(90_000);
    let start = START;
    let first = u32::MAX - 44_999;
    clock.receive_at(first, start, None);
    clock.receive_at(45_000, start + 1_000_000, None);
    assert_eq!(clock.relative_delay_ms(), 0);
    clock.receive_at(first, start + 2_000_000, None);
    assert_eq!(clock.last_timestamp(), Some(45_000));
    assert_eq!(clock.elapsed_ticks(), 90_000);
}

#[test]
fn sender_age_and_drift_use_the_report_clock() {
    let mut clock = RtpClockProbe::new(90_000);
    let second = NTP_UNIX_SECONDS as u64 + 1_700_000_000;
    // half a second into the reported second
    clock.sender_report((second << 32) | 0x8000_0000, 9_000, START);
    assert_eq!(clock.report(), Some((9_000, 1_700_000_000_500)));
    assert_eq!(clock.summary(START), "? SR:1/0s rel+0ms");
    // 90_000 ticks (one second) after the report, seen 1.2 s after the sender time
    clock.receive_at(99_000, START + 100_000, Some(1_700_000_002_700));
    assert_eq!(clock.age_ms(), Some(1_200));
    clock.receive_at(99_000 + 9_000, START + 200_000, Some(1_700_000_002_750));
    assert_eq!(clock.age_ms(), Some(1_150));
    assert_eq!(clock.summary(START + 3_000_000), "1150ms d-50 rel+0ms SR:1/3s");
}

#[test]
fn summary_without_reports_shows_relative_delay_only() {
    let mut clock = RtpClockProbe::new(90_000);
    clock.receive_at(0, START, None);
    clock.receive_at(90_000, START + 1_250_000, None);
    assert_eq!(clock.summary(START + 1_250_000), "? SR:0 rel+250ms");
}
