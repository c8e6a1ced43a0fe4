//! Diagnostic video age. It never initiates a reconnect or a decoder flush.
use vstd::prelude::*;
use crate::rtc::reorder::elapsed;
use crate::video::timing::PresentedFrame;

verus! {

/// How long a rendered frame counts as a current observation.
pub const PRESENTED_FRESH_US: u64 = 1_500_000;

/// The newest video sample and the delay it was observed with.
#[derive(Clone, Copy, Debug)]
pub struct VideoTiming {
    pub timestamp: u32,
    pub received_at_us: u64,
    pub added_delay_ms: u64,
}

impl VideoTiming {
    /// Prefer a recently rendered frame's own receive-to-render age when it exceeds the
    /// arrival delay; keep the output's identity and time so that reading one old
    /// rendered frame repeatedly does not count as continuously observed delay.
    pub fn with_presented_frame(self, frame: Option<PresentedFrame>, now_us: u64) -> (measured: Self)
        ensures
            match frame {
                None => measured == self,
                Some(f) => {
                    let age_ms = elapsed(f.rendered_at_us, f.timing.received_at_us) / 1000;
                    if elapsed(now_us, f.rendered_at_us) <= PRESENTED_FRESH_US && age_ms > self.added_delay_ms {
                        measured == (VideoTiming {
                            timestamp: f.timing.rtp_timestamp,
                            received_at_us: f.rendered_at_us,
                            added_delay_ms: age_ms as u64,
                        })
                    } else {
                        measured == self
                    }
                },
            },
    {
        let frame = match frame {
            Some(frame) => frame,
            None => return self,
        };
        let age_us: u64 = if frame.rendered_at_us >= frame.timing.received_at_us {
            frame.rendered_at_us - frame.timing.received_at_us
        } else {
            0
        };
        let age_ms = age_us / 1000;
        let since: u64 = if now_us >= frame.rendered_at_us { now_us - frame.rendered_at_us } else { 0 };
        if since <= PRESENTED_FRESH_US && age_ms > self.added_delay_ms {
            VideoTiming {
                timestamp: frame.timing.rtp_timestamp,
                received_at_us: frame.rendered_at_us,
                added_delay_ms: age_ms,
            }
        } else {
            self
        }
    }
}

} // verus!
