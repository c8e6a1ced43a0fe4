//! Age follows audio from authenticated RTP reception to playback admission.
//! This is a local residence bound, not capture age or input-to-speaker latency.
use vstd::prelude::*;
use crate::rtc::congestion::sat_add;
use crate::rtc::reorder::elapsed;

verus! {

pub const MAX_LOCAL_AUDIO_AGE_US: u64 = 240_000;

/// Audio data with the monotonic time its RTP packet was received.
pub struct TimedAudio<T> {
    pub data: T,
    pub received_at_us: u64,
}

impl<T> TimedAudio<T> {
    /// Replace the data, keeping the original receive time through every handoff.
    pub fn map<U>(self, data: U) -> (mapped: TimedAudio<U>)
        ensures
            mapped.data == data,
            mapped.received_at_us == self.received_at_us,
    {
        TimedAudio { data, received_at_us: self.received_at_us }
    }

    /// Admission counts the audio already queued and the entire new buffer.
    pub fn fits_playback(&self, now_us: u64, queued_us: u64, duration_us: u64) -> (fits: bool)
        ensures
            fits == (sat_add(sat_add(elapsed(now_us, self.received_at_us), queued_us), duration_us) <= MAX_LOCAL_AUDIO_AGE_US),
    {
        let age: u64 = if now_us >= self.received_at_us { now_us - self.received_at_us } else { 0 };
        age.saturating_add(queued_us).saturating_add(duration_us) <= MAX_LOCAL_AUDIO_AGE_US
    }
}

} // verus!
