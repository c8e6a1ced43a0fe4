use green_vita::audio::gain::{AudioGain, UNITY};
use green_vita::audio::timing::TimedAudio;

const MS: u64 = 1000;
const START: u64 = 1_000_000_000;

#[test]
fn gain_is_bounded_and_preserves_stereo_and_full_scale() {
    let mut gain = AudioGain::default();
    let mut pcm = vec![i16::MIN, i16::MAX];
    gain.set_percent(255);
    gain.apply_stereo(&mut pcm);
    assert_eq!(pcm, [i16::MIN, i16::MAX]);
    gain.set_percent(50);
    gain.apply_stereo(&mut vec![0; 960]);
    gain.apply_stereo(&mut pcm);
    assert_eq!(pcm, [-16384, 16383]);
}

#[test]
fn volume_changes_ramp_across_buffers_and_mute_reaches_silence() {
    let mut gain = AudioGain::default();
    gain.set_percent(0);
    let mut first = vec![10000; 480];
    gain.apply_stereo(&mut first);
    assert!(first[0] > 9900 && first[478] >= 4900 && first[478] <= 5100);
    assert!(first.chunks_exact(2).all(|pair| pair[0] == pair[1]));
    gain.set_percent(0);
    let mut rest = vec![10000; 482];
    gain.apply_stereo(&mut rest);
    assert_eq!(&rest[478..], &[0, 0, 0, 0]);
    gain.set_percent(100);
    gain.apply_stereo(&mut rest);
    gain.apply_stereo(&mut rest);
    assert_eq!(gain.current_gain(), UNITY);
}

#[test]
fn unity_gain_leaves_samples_untouched() {
    let mut gain = AudioGain::new();
    let mut pcm = vec![1, -2, 3, -4, i16::MAX, i16::MIN];
    gain.apply_stereo(&mut pcm);
    assert_eq!(pcm, vec![1, -2, 3, -4, i16::MAX, i16::MIN]);
    gain.set_percent(100);
    gain.apply_stereo(&mut pcm);
    assert_eq!(pcm, vec![1, -2, 3, -4, i16::MAX, i16::MIN]);
}

#[test]
fn one_frame_ramp_step_is_exact() {
    let mut gain = AudioGain::new();
    gain.set_percent(0);
    let mut pcm = vec![25600, 25600];
    gain.apply_stereo(&mut pcm);
    // 25600 - 25600/480 = 25547; 25600 * 25547 / 25600 = 25547.
    assert_eq!(gain.current_gain(), 25547);
    assert_eq!(pcm, vec![25547, 25547]);
}

#[test]
fn handoffs_and_empty_output_queue_cannot_make_old_audio_fresh() {
    let packet = TimedAudio { data: vec![1u8], received_at_us: START };
    let pcm = packet.map(vec![42i16; 1920]);
    assert!(!pcm.fits_playback(START + 6_000 * MS, 0, 20 * MS));
    assert_eq!(pcm.received_at_us, START);
}

#[test]
fn admission_includes_audio_already_queued_and_the_entire_new_buffer() {
    let pcm = TimedAudio { data: (), received_at_us: START };
    assert!(pcm.fits_playback(START + 120 * MS, 80 * MS, 40 * MS));
    assert!(!pcm.fits_playback(START + 121 * MS, 80 * MS, 40 * MS));
}

#[test]
fn clock_going_backwards_counts_as_no_age_and_sums_saturate() {
    let pcm = TimedAudio { data: 0u8, received_at_us: START };
    assert!(pcm.fits_playback(START - 5 * MS, 0, 240 * MS));
    assert!(!pcm.fits_playback(START, u64::MAX, u64::MAX));
}
