use green_vita::video::frame_layout::{checked_output_len, output_pitch, picture_dimensions, FrameLayoutError};
use green_vita::video::output::VideoTextureTarget;

#[test]
fn texture_pitch_is_counted_in_pixels_and_must_hold_a_row() {
    let target = VideoTextureTarget { ptr: 0, pitch: 1920, capacity: 1920 * 544 };
    assert_eq!(output_pitch(target, 960), Ok(960));
    assert_eq!(output_pitch(target, 961), Err(FrameLayoutError::PitchTooNarrow { pitch: 960, width: 961 }));
}

#[test]
fn reported_pitch_must_fit_the_texture() {
    assert_eq!(checked_output_len(960, 544, 1920 * 544), Ok(1920 * 544));
    assert_eq!(
        checked_output_len(1024, 544, 1920 * 544),
        Err(FrameLayoutError::TooLarge { needed: 2048 * 544, capacity: 1920 * 544 })
    );
    assert_eq!(checked_output_len(u32::MAX, 1, 10), Err(FrameLayoutError::PitchOverflow { pitch: u32::MAX }));
    assert_eq!(
        checked_output_len(0x8000, 0x1_0000, 10),
        Err(FrameLayoutError::SizeOverflow { row_bytes: 0x1_0000, height: 0x1_0000 })
    );
}

#[test]
fn picture_size_packs_width_above_height() {
    assert_eq!(picture_dimensions(960, 544), (960u64 << 32) | 544);
}
