use green_vita::video::output::{DirectVideoOutput, VideoTextureTarget, HW_OUTPUT_HEIGHT, HW_OUTPUT_WIDTH};

fn textures(n: usize) -> Vec<VideoTextureTarget> {
    vec![VideoTextureTarget { ptr: 0, pitch: 1920, capacity: 960 * 544 * 2 }; n]
}

fn decode(output: &mut DirectVideoOutput, now: u64) -> (usize, u64) {
    let guard = output.lock_decode_target().unwrap();
    guard.publish(output, now)
}

fn shown(output: &mut DirectVideoOutput) -> Option<usize> {
    output.take_latest_for_display().map(|(index, _)| index)
}

#[test]
fn renderer_takes_newest_completed_frame_without_waiting_for_rtc_handoff() {
    let mut output = DirectVideoOutput::new(HW_OUTPUT_WIDTH, HW_OUTPUT_HEIGHT);
    output.set_targets(textures(3));
    let (first, _) = decode(&mut output, 1);
    let (second, _) = decode(&mut output, 2);
    assert_ne!(first, second);
    assert_eq!(shown(&mut output), Some(second));
    assert_eq!(shown(&mut output), None);
    let (third, _) = decode(&mut output, 3);
    assert_ne!(second, third);
    assert_eq!(shown(&mut output), Some(third));
}

#[test]
fn a_two_texture_fallback_never_decodes_into_the_displayed_texture() {
    let mut output = DirectVideoOutput::new(HW_OUTPUT_WIDTH, HW_OUTPUT_HEIGHT);
    output.set_targets(textures(2));
    let (displayed, _) = decode(&mut output, 1);
    assert_eq!(shown(&mut output), Some(displayed));
    for _ in 0..4 {
        let (next, _) = decode(&mut output, 2);
        assert_ne!(next, displayed);
    }
}

#[test]
fn generations_advance_and_decode_time_is_reported() {
    let mut output = DirectVideoOutput::new(960, 544);
    assert_eq!(output.width(), 960);
    assert_eq!(output.height(), 544);
    assert!(output.lock_decode_target().is_none());
    output.set_targets(textures(3));
    let (_, g1) = decode(&mut output, 10);
    assert!(output.has_pending());
    let (index, g2) = decode(&mut output, 20);
    assert_eq!((g1, g2), (1, 2));
    assert_eq!(output.take_latest_for_display(), Some((index, 20)));
    output.clear_targets();
    assert!(output.lock_decode_target().is_none());
    assert!(!output.has_pending());
}

#[test]
fn one_texture_cannot_be_decoded_while_shown() {
    let mut output = DirectVideoOutput::new(960, 544);
    output.set_targets(textures(1));
    decode(&mut output, 1);
    assert_eq!(shown(&mut output), Some(0));
    assert!(output.lock_decode_target().is_none());
}
