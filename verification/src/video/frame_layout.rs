//! Checks around a hardware decode into a texture: the decoder is told the texture's
//! row pitch in pixels, and the pitch it reports back must fit the texture before its
//! picture is trusted.
use vstd::prelude::*;
use crate::video::output::VideoTextureTarget;
use crate::video::metrics::picture_size_text;
use crate::text::decimal;

verus! {

/// The decoder writes two bytes per pixel.
pub const OUTPUT_BYTES_PER_PIXEL: u32 = 2;

/// Why a decoded picture cannot be placed in its texture.
#[derive(Clone, Copy, Debug, PartialEq, Eq, Structural)]
pub enum FrameLayoutError {
    /// The texture's rows are narrower, in pixels, than the picture.
    PitchTooNarrow { pitch: u32, width: u32 },
    /// The reported pitch in bytes does not fit 32 bits.
    PitchOverflow { pitch: u32 },
    /// The picture's size in bytes does not fit 32 bits.
    SizeOverflow { row_bytes: u32, height: u32 },
    /// The picture needs more bytes than the texture holds.
    TooLarge { needed: u32, capacity: u32 },
}

/// The texture's row pitch in pixels, which must hold a row of the picture.
pub fn output_pitch(target: VideoTextureTarget, width: u32) -> (pitch: Result<u32, FrameLayoutError>)
    ensures
        target.pitch / 2 >= width ==> pitch == Ok::<u32, FrameLayoutError>(target.pitch / 2),
        target.pitch / 2 < width ==> pitch == Err::<u32, FrameLayoutError>(
            FrameLayoutError::PitchTooNarrow { pitch: target.pitch / 2, width },
        ),
{
    let pitch = target.pitch / OUTPUT_BYTES_PER_PIXEL;
    if pitch < width {
        return Err(FrameLayoutError::PitchTooNarrow { pitch, width });
    }
    Ok(pitch)
}

/// The bytes a picture with the reported pitch (in pixels) and height covers, which the
/// texture must hold.
pub fn checked_output_len(frame_pitch: u32, height: u32, capacity: u32) -> (len: Result<u32, FrameLayoutError>)
    ensures
        frame_pitch * 2 > u32::MAX ==> len == Err::<u32, FrameLayoutError>(
            FrameLayoutError::PitchOverflow { pitch: frame_pitch },
        ),
        frame_pitch * 2 <= u32::MAX && frame_pitch * 2 * height > u32::MAX ==> len == Err::<u32, FrameLayoutError>(
            FrameLayoutError::SizeOverflow { row_bytes: (frame_pitch * 2) as u32, height },
        ),
        frame_pitch * 2 <= u32::MAX && frame_pitch * 2 * height <= u32::MAX && frame_pitch * 2 * height > capacity
            ==> len == Err::<
            u32,
            FrameLayoutError,
        >(FrameLayoutError::TooLarge { needed: (frame_pitch * 2 * height) as u32, capacity }),
        frame_pitch * 2 <= u32::MAX && frame_pitch * 2 * height <= capacity ==> len == Ok::<u32, FrameLayoutError>(
            (frame_pitch * 2 * height) as u32,
        ),
{
    let row_bytes = match frame_pitch.checked_mul(OUTPUT_BYTES_PER_PIXEL) {
        Some(bytes) => bytes,
        None => return Err(FrameLayoutError::PitchOverflow { pitch: frame_pitch }),
    };
    let needed = match row_bytes.checked_mul(height) {
        Some(bytes) => bytes,
        None => return Err(FrameLayoutError::SizeOverflow { row_bytes, height }),
    };
    if needed > capacity {
        return Err(FrameLayoutError::TooLarge { needed, capacity });
    }
    Ok(needed)
}

/// A decoded picture's size as the metrics keep it: width in the high and height in the
/// low 32 bits.
pub fn picture_dimensions(width: u32, height: u32) -> (code: u64)
    ensures
        code == width * 0x1_0000_0000 + height,
        code / 0x1_0000_0000 == width,
        code % 0x1_0000_0000 == height,
{
    let code = (width as u64) * 0x1_0000_0000 + (height as u64);
    assert(code / 0x1_0000_0000 == width && code % 0x1_0000_0000 == height) by (nonlinear_arith)
        requires
            code == width * 0x1_0000_0000 + height,
            height < 0x1_0000_0000,
    ;
    code
}

/// The summary names a decoded picture by its width and height, as `WxH`, whenever
/// either is known.
pub proof fn law_summary_shows_the_decoded_size(width: u32, height: u32)
    requires
        width > 0 || height > 0,
    ensures
        picture_size_text((width * 0x1_0000_0000 + height) as u64) == decimal(width as nat) + "x"@ + decimal(
            height as nat,
        ),
{
    let code = (width * 0x1_0000_0000 + height) as u64;
    assert(code / 0x1_0000_0000 == width && code % 0x1_0000_0000 == height && code != 0) by (nonlinear_arith)
        requires
            code == width * 0x1_0000_0000 + height,
            height < 0x1_0000_0000,
            width > 0 || height > 0,
    ;
}

} // verus!
