use green_vita::rtc::h264::{validate_h264_rtp_fragments, DropReason, FrameAssembly, PendingVideoFrame, VideoPacket};


fn packet(sequence: u16, marker: bool, payload: &[u8]) -> VideoPacket {
    VideoPacket { sequence, timestamp: 12_345, marker, payload: payload.to_vec() }
}

#[test]
fn complete_fu_a_passes_fragment_validation() {
    let payloads = vec![vec![0x7c, 0x85, 0x88, 0x99], vec![0x7c, 0x45, 0xaa]];
    assert_eq!(validate_h264_rtp_fragments(&payloads), Ok(()));
}

#[test]
fn complete_fu_a_reconstructs_one_nal() {
    let mut pending = PendingVideoFrame::new(packet(10, false, &[0x7c, 0x85, 0x88, 0x99]), 0);
    pending.insert(packet(11, true, &[0x7c, 0x45, 0xaa]));
    let mut depacketizer = rtc::rtp::codec::h264::H264Packet::default();
    match pending.assemble(&mut depacketizer, Some(10)) {
        FrameAssembly::Complete { data, marker_sequence } => {
            assert_eq!(marker_sequence, 11);
            assert_eq!(&data[..], &[0, 0, 0, 1, 0x65, 0x88, 0x99, 0xaa]);
        }
        _ => panic!("a complete fragmented NAL should assemble"),
    }
}

#[test]
fn completed_frame_with_unfinished_fu_a_is_rejected() {
    let mut pending = PendingVideoFrame::new(packet(10, false, &[0x7c, 0x85, 0x88]), 0);
    pending.insert(packet(11, true, &[0x61, 0x99, 0xaa]));
    assert!(matches!(
        pending.assemble(&mut rtc::rtp::codec::h264::H264Packet::default(), Some(10)),
        FrameAssembly::Invalid(DropReason::IncompleteFuA)
    ));
    let unfinished = vec![vec![0x7c, 0x85, 0x88]];
    assert_eq!(validate_h264_rtp_fragments(&unfinished), Err(DropReason::IncompleteFuA));
}

#[test]
fn truncated_stap_a_length_is_rejected_before_depacketizing() {
    let pending = PendingVideoFrame::new(packet(10, true, &[0x78, 0, 3, 0x67, 0x42, 0xe0, 0]), 0);
    assert!(matches!(
        pending.assemble(&mut rtc::rtp::codec::h264::H264Packet::default(), None),
        FrameAssembly::Invalid(DropReason::Malformed)
    ));
}

#[test]
fn stap_a_and_single_units_come_out_behind_start_codes() {
    let mut pending = PendingVideoFrame::new(packet(7, false, &[0x78, 0, 2, 0x67, 0x42, 0, 1, 0x68]), 0);
    pending.insert(packet(8, true, &[0x65, 0x11, 0x22]));
    match pending.assemble(&mut rtc::rtp::codec::h264::H264Packet::default(), Some(7)) {
        FrameAssembly::Complete { data, marker_sequence } => {
            assert_eq!(marker_sequence, 8);
            assert_eq!(data, vec![0, 0, 0, 1, 0x67, 0x42, 0, 0, 0, 1, 0x68, 0, 0, 0, 1, 0x65, 0x11, 0x22]);
        }
        _ => panic!("complete unit"),
    }
}

#[test]
fn unit_waits_for_marker_expected_start_and_no_gap() {
    let mut depacketizer = rtc::rtp::codec::h264::H264Packet::default();
    let no_marker = PendingVideoFrame::new(packet(1, false, &[0x65, 0x11]), 0);
    assert!(matches!(no_marker.assemble(&mut depacketizer, None), FrameAssembly::Pending));
    let late_start = PendingVideoFrame::new(packet(2, true, &[0x65, 0x11]), 0);
    assert!(matches!(late_start.assemble(&mut depacketizer, Some(1)), FrameAssembly::Pending));
    let mid_fragment = PendingVideoFrame::new(packet(1, true, &[0x7c, 0x45, 0xaa]), 0);
    assert!(matches!(mid_fragment.assemble(&mut depacketizer, None), FrameAssembly::Pending));
    let mut gap = PendingVideoFrame::new(packet(1, false, &[0x65, 0x11]), 0);
    gap.insert(packet(3, true, &[0x65, 0x12]));
    assert!(matches!(gap.assemble(&mut depacketizer, None), FrameAssembly::Pending));
}

#[test]
fn fragment_without_start_or_with_foreign_type_is_rejected() {
    assert_eq!(validate_h264_rtp_fragments(&[vec![0x7c, 0x45, 0xaa]]), Err(DropReason::IncompleteFuA));
    assert_eq!(
        validate_h264_rtp_fragments(&[vec![0x7c, 0x85, 0x88], vec![0x7c, 0x41, 0xaa]]),
        Err(DropReason::IncompleteFuA)
    );
    assert_eq!(validate_h264_rtp_fragments(&[vec![0x7c, 0xc5, 0x88]]), Err(DropReason::Malformed));
    assert_eq!(validate_h264_rtp_fragments(&[vec![0x65]]), Err(DropReason::Malformed));
    assert_eq!(validate_h264_rtp_fragments(&[vec![0x7d, 0x00]]), Err(DropReason::Malformed));
}

#[test]
fn abandonment_distinguishes_missing_packets_from_unfinished_fragments() {
    let mut frame = PendingVideoFrame::new(packet(10, false, &[0x7c, 0x85, 0x88]), 0);
    assert!(frame.insert(packet(12, true, &[0x7c, 0x45, 0xaa])));
    assert_eq!(frame.abandonment_reason(Some(10)), DropReason::MissingSequence);
    let mut frame = PendingVideoFrame::new(packet(10, false, &[0x7c, 0x85, 0x88]), 0);
    assert!(frame.insert(packet(11, true, &[0x61, 0xaa])));
    assert_eq!(frame.abandonment_reason(Some(10)), DropReason::IncompleteFuA);
    assert_eq!(frame.abandonment_reason(Some(9)), DropReason::MissingSequence);
    let mut frame = PendingVideoFrame::new(packet(65535, false, &[0x61, 0x88]), 0);
    assert!(frame.insert(packet(0, true, &[0x61, 0xaa])));
    assert!(!frame.insert(packet(65535, false, &[0x61])));
    assert_eq!(frame.marker_sequence(), Some(0));
    assert_eq!(frame.abandonment_reason(Some(65535)), DropReason::MissingSequence);
    let frame = PendingVideoFrame::new(packet(7, false, &[0x7c, 0x45, 0xaa]), 0);
    assert_eq!(frame.abandonment_reason(None), DropReason::IncompleteFuA);
}

#[test]
fn two_byte_slice_is_rejected_by_the_depacketizer() {
    let pending = PendingVideoFrame::new(packet(7, true, &[0x65, 0x11]), 0);
    assert!(matches!(
        pending.assemble(&mut rtc::rtp::codec::h264::H264Packet::default(), None),
        FrameAssembly::Invalid(DropReason::Malformed)
    ));
}
