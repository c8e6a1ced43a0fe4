use green_vita::input::{GamepadFrame, InputPacket, InputQueue, PointerEvent, PointerFrame, ReportType};
use green_vita::video::timing::{FrameTiming, PresentedFrame};

const MS: u64 = 1000;
const START: u64 = 1_000_000_000;

fn ts(ms: f64) -> [u8; 8] {
    ms.to_le_bytes()
}

fn timestamp(bytes: &[u8]) -> f64 {
    f64::from_le_bytes(bytes[6..14].try_into().unwrap())
}

fn frame_at(rtp: u32, received: u64, submitted: u64, decoded: u64, rendered: u64) -> PresentedFrame {
    PresentedFrame {
        timing: FrameTiming { rtp_timestamp: rtp, received_at_us: received, submitted_at_us: submitted, decoded_at_us: decoded, epoch: 0 },
        rendered_at_us: rendered,
    }
}

#[test]
fn input_timestamps_advance_from_a_shared_clock() {
    let mut queue = InputQueue::new(START);
    let metadata = queue.client_metadata_packet(0, ts(3000.25));
    let gamepad = queue.queue_gamepad_frames(vec![GamepadFrame::default()], true, ts(3000.5)).unwrap();
    assert!((3_000.0..4_000.0).contains(&timestamp(&metadata)));
    assert!(timestamp(&gamepad) >= timestamp(&metadata));
    assert_eq!(u32::from_le_bytes(gamepad[2..6].try_into().unwrap()), 2);
}

#[test]
fn rendered_frame_report_matches_xbox_wire_layout_and_input_clock() {
    let start = START;
    let at = |ms: u64| start + ms * MS;
    let mut queue = InputQueue::new(start);
    queue.client_metadata_packet(0, ts(0.0));
    let frame = frame_at(0xf1234567, at(1000), at(1002), at(1010), at(1017));
    let bytes = queue.rendered_frame_packet(frame, at(1020), ts(1020.0)).unwrap();
    assert_eq!(bytes.len(), 43);
    assert_eq!(&bytes[0..6], &[1, 0, 2, 0, 0, 0]);
    assert_eq!(timestamp(&bytes), 1020.0);
    assert_eq!(bytes[14], 1);
    let fields: Vec<_> = bytes[15..].chunks_exact(4).map(|b| u32::from_le_bytes(b.try_into().unwrap())).collect();
    assert_eq!(fields, [0xf1234567, 1000, 1002, 1010, 1017, 1020, 1020]);
    let gamepad = queue.queue_gamepad_frames(vec![GamepadFrame::default()], true, ts(1021.0)).unwrap();
    assert_eq!(u32::from_le_bytes(gamepad[2..6].try_into().unwrap()), 3);
}

#[test]
fn stale_or_invalid_frame_reports_are_discarded_without_consuming_a_sequence() {
    let mut queue = InputQueue::new(START);
    let start = queue.started_us();
    let mut frame = frame_at(0, start, start, start, start);
    assert!(queue.rendered_frame_packet(frame, start + 1000 * MS, ts(1000.0)).is_none());
    frame.timing.decoded_at_us += MS;
    assert!(queue.rendered_frame_packet(frame, start, ts(0.0)).is_none());
    assert_eq!(queue.sequence(), 0);
}

#[test]
fn metadata_milliseconds_wrap_without_losing_rtp_identity() {
    let mut queue = InputQueue::new(START);
    let now = queue.started_us() + (u64::from(u32::MAX) + 2) * MS;
    let frame = frame_at(0, now, now, now, now);
    let bytes = queue.rendered_frame_packet(frame, now, ts(0.0)).unwrap();
    assert_eq!(u32::from_le_bytes(bytes[15..19].try_into().unwrap()), 0);
    assert_eq!(u32::from_le_bytes(bytes[19..23].try_into().unwrap()), 1);
}

#[test]
fn frame_report_before_queue_origin_or_too_old_is_dropped() {
    let mut queue = InputQueue::new(START);
    let early = frame_at(1, START - 1, START, START, START);
    assert!(queue.rendered_frame_packet(early, START, ts(0.0)).is_none());
    let rendered = START + 10 * MS;
    let frame = frame_at(1, START, START, START, rendered);
    assert!(queue.rendered_frame_packet(frame, rendered + 251 * MS, ts(0.0)).is_none());
    assert!(queue.rendered_frame_packet(frame, rendered + 250 * MS, ts(0.0)).is_some());
    assert_eq!(queue.sequence(), 1);
}

#[test]
fn gamepad_packet_layout() {
    let mut queue = InputQueue::new(START);
    let pad = GamepadFrame {
        gamepad_index: 0,
        a: true,
        dpad_left: true,
        right_thumb: true,
        left_thumb_x: -1,
        left_thumb_y: 32767,
        right_thumb_x: -32767,
        right_thumb_y: 0,
        left_trigger: 65535,
        right_trigger: 256,
        ..GamepadFrame::default()
    };
    let bytes = queue.queue_gamepad_frames(vec![pad], false, ts(1.5)).unwrap();
    let mut expected = vec![2, 0, 1, 0, 0, 0];
    expected.extend_from_slice(&1.5f64.to_le_bytes());
    expected.push(1);
    expected.push(0);
    expected.extend_from_slice(&(16u16 + 1024 + 32768).to_le_bytes());
    expected.extend_from_slice(&(-1i16).to_le_bytes());
    expected.extend_from_slice(&32767i16.to_le_bytes());
    expected.extend_from_slice(&(-32767i16).to_le_bytes());
    expected.extend_from_slice(&0i16.to_le_bytes());
    expected.extend_from_slice(&65535u16.to_le_bytes());
    expected.extend_from_slice(&256u16.to_le_bytes());
    expected.extend_from_slice(&[1, 0, 0, 0, 0, 0, 0, 1]);
    assert_eq!(bytes, expected);
    assert_eq!(bytes.len(), 14 + 1 + 23);
    assert!(queue.queue_gamepad_frames(Vec::new(), false, ts(2.0)).is_none());
    assert_eq!(queue.sequence(), 1);
    let empty = queue.queue_gamepad_frames(Vec::new(), true, ts(2.0)).unwrap();
    assert_eq!(empty.len(), 14);
    assert_eq!(&empty[0..2], &[0, 0]);
}

#[test]
fn pointer_frames_merge_into_one_and_always_send() {
    let mut queue = InputQueue::new(START);
    let touch = PointerEvent { contact_major: 3, contact_minor: 4, pressure: 5, twist: 6, x: -2, y: 300, event_type: 1 };
    let bytes = queue.queue_pointer_frame(PointerFrame { events: vec![touch, touch] }, ts(0.0)).unwrap();
    assert_eq!(bytes.len(), 14 + 1 + 1 + 2 * 20);
    assert_eq!(&bytes[0..2], &[4, 0]);
    assert_eq!(&bytes[14..16], &[1, 2]);
    assert_eq!(&bytes[16..36], &[3, 0, 4, 0, 5, 6, 0, 0, 0, 0, 0, 0xfe, 0xff, 0xff, 0xff, 0x2c, 0x01, 0, 0, 1]);
    let none = queue.queue_pointer_frame(PointerFrame::default(), ts(0.0)).unwrap();
    assert_eq!(&none[14..16], &[1, 0]);
}

#[test]
fn client_metadata_and_report_codes() {
    let packet = InputPacket::client_metadata(7, 10, ts(0.0));
    let bytes = packet.to_bytes();
    assert_eq!(bytes.len(), 15);
    assert_eq!(&bytes[0..6], &[8, 0, 7, 0, 0, 0]);
    assert_eq!(bytes[14], 10);
    assert_eq!(ReportType::Pointer.code(), 4);
    assert_eq!(ReportType::ServerMetadata.code(), 16);
    let mut data = InputPacket::new(1, ts(0.0));
    data.set_data(vec![GamepadFrame::default()], vec![PointerFrame::default()]);
    let bytes = data.to_bytes();
    assert_eq!(&bytes[0..2], &[6, 0]);
    assert_eq!(bytes.len(), 14 + 24 + 2);
}
