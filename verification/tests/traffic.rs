use green_vita::rtc::traffic::{class, Traffic};

#[test]
fn multiplexed_datagrams_are_attributed_without_payload_access() {
    let mut p = [0u8; 40];
    assert_eq!(class(&[]), 5);
    p[0] = 0x80;
    p[1] = 102;
    assert_eq!(class(&p), 0);
    p[1] = 102 | 0x80;
    assert_eq!(class(&p), 0); // RTP marker
    p[1] = 200;
    assert_eq!(class(&p), 1);
    p[0] = 0x8f;
    p[1] = 205;
    assert_eq!(class(&p), 1); // encrypted TWCC
    p[0] = 23;
    assert_eq!(class(&p), 2);
    p[0] = 0;
    p[1] = 1;
    p[4..8].copy_from_slice(&[0x21, 0x12, 0xa4, 0x42]);
    assert_eq!(class(&p), 3);
    p[0] = 1;
    assert_eq!(class(&p), 4);
    p[4] = 0;
    assert_eq!(class(&p), 5);
    assert_eq!(class(&[0x80, 102]), 5);
}

#[test]
fn windows_keep_processing_cost_and_reset_counts() {
    let mut t = Traffic::new(1_000_000);
    let mut p = [0u8; 100];
    p[0] = 0x80;
    p[1] = 102;
    t.received(&p, 2100);
    t.received(&p, 1200);
    t.sent(&p);
    let at = t.started_us() + 1_000_000;
    let s = t.take_summary(at);
    assert!(s.contains("RTP:1/2/3/2100"), "{s}");
    assert!(s.contains("Wire TX kbps/pk: RTP:0/1"), "{s}");
    assert!(t.take_summary(at + 1_000_000).contains("RTP:0/0/0/0"));
}

#[test]
fn summary_lists_every_class_in_order() {
    let mut t = Traffic::new(0);
    t.sent(&[23u8; 13]);
    let s = t.take_summary(0);
    assert_eq!(
        s,
        "Wire RX kbps/pk/workMs/maxUs: RTP:0/0/0/0 RTCP:0/0/0/0 DTLS:0/0/0/0 STUNq:0/0/0/0 STUNr:0/0/0/0 other:0/0/0/0\nWire TX kbps/pk: RTP:0/0 RTCP:0/0 DTLS:104/1 STUNq:0/0 STUNr:0/0 other:0/0"
    );
}
