//! When the session asks the Xbox for a keyframe: a watchdog for a connection on which
//! no video RTP has arrived yet, and a cooldown between any two keyframe requests.
//!
//! Times are monotonic microseconds.
use vstd::prelude::*;
use crate::rtc::reorder::elapsed;

verus! {

/// Least time between two keyframe requests.
pub const KEYFRAME_REQUEST_COOLDOWN_US: u64 = 300_000;
/// How long a connected session waits for its first video packet before asking.
pub const INITIAL_VIDEO_GRACE_US: u64 = 500_000;
/// Least time between two requests of the initial-video watchdog.
pub const INITIAL_VIDEO_KEYFRAME_INTERVAL_US: u64 = 500_000;

/// Watches a connected session that has not received any video RTP yet.
#[derive(Clone, Copy, Debug, PartialEq, Eq, Structural)]
pub struct InitialVideoWatchdog {
    /// When the connection was first seen without video.
    pub started_at: Option<u64>,
    /// When the watchdog last asked for a keyframe.
    pub last_request_at: Option<u64>,
}

impl InitialVideoWatchdog {
    /// The watchdog after a check at `now`, and whether a keyframe is due: never once
    /// video has arrived or while disconnected (both reset the watchdog); otherwise
    /// only after the grace since the connection was first seen, and at most once per
    /// interval.
    pub open spec fn after(self, received_video: bool, connected: bool, now: u64) -> (Self, bool) {
        if received_video || !connected {
            (InitialVideoWatchdog { started_at: None, last_request_at: None }, false)
        } else {
            let connected_at = match self.started_at {
                Some(t) => t,
                None => now,
            };
            let started = InitialVideoWatchdog { started_at: Some(connected_at), ..self };
            if elapsed(now, connected_at) < INITIAL_VIDEO_GRACE_US {
                (started, false)
            } else if self.last_request_at matches Some(r) && elapsed(now, r) < INITIAL_VIDEO_KEYFRAME_INTERVAL_US {
                (started, false)
            } else {
                (InitialVideoWatchdog { last_request_at: Some(now), ..started }, true)
            }
        }
    }

    pub fn new() -> (watchdog: Self)
        ensures
            watchdog.started_at is None,
            watchdog.last_request_at is None,
    {
        InitialVideoWatchdog { started_at: None, last_request_at: None }
    }

    /// Whether the watchdog asks for a keyframe at `now`.
    pub fn due(&mut self, received_video: bool, connected: bool, now: u64) -> (due: bool)
        ensures
            (*final(self), due) == old(self).after(received_video, connected, now),
    {
        if received_video || !connected {
            self.started_at = None;
            self.last_request_at = None;
            return false;
        }
        let connected_at = match self.started_at {
            Some(t) => t,
            None => now,
        };
        self.started_at = Some(connected_at);
        let since_connect = if now >= connected_at { now - connected_at } else { 0 };
        if since_connect < INITIAL_VIDEO_GRACE_US {
            return false;
        }
        match self.last_request_at {
            Some(r) => {
                let since_request = if now >= r { now - r } else { 0 };
                if since_request < INITIAL_VIDEO_KEYFRAME_INTERVAL_US {
                    return false;
                }
            },
            None => {},
        }
        self.last_request_at = Some(now);
        true
    }
}

impl Default for InitialVideoWatchdog {
    fn default() -> (watchdog: Self)
        ensures
            watchdog.started_at is None,
            watchdog.last_request_at is None,
    {
        InitialVideoWatchdog::new()
    }
}

/// Spaces keyframe requests out: one is sent only when asked for and at least the
/// cooldown after the previous one.
#[derive(Clone, Copy, Debug, PartialEq, Eq, Structural)]
pub struct KeyframeThrottle {
    pub last_request_at: Option<u64>,
}

impl KeyframeThrottle {
    pub open spec fn cooled_down(self, now: u64) -> bool {
        match self.last_request_at {
            Some(r) => elapsed(now, r) >= KEYFRAME_REQUEST_COOLDOWN_US,
            None => true,
        }
    }

    /// The throttle after a pass at `now`, and whether a request goes out.
    pub open spec fn after(self, requested: bool, now: u64) -> (Self, bool) {
        if requested && self.cooled_down(now) {
            (KeyframeThrottle { last_request_at: Some(now) }, true)
        } else {
            (self, false)
        }
    }

    pub fn new() -> (throttle: Self)
        ensures
            throttle.last_request_at is None,
    {
        KeyframeThrottle { last_request_at: None }
    }

    /// Whether a keyframe request is sent for this pass.
    pub fn request(&mut self, requested: bool, now: u64) -> (send: bool)
        ensures
            (*final(self), send) == old(self).after(requested, now),
    {
        let cooled_down = match self.last_request_at {
            Some(r) => (if now >= r { now - r } else { 0 }) >= KEYFRAME_REQUEST_COOLDOWN_US,
            None => true,
        };
        if !requested || !cooled_down {
            return false;
        }
        self.last_request_at = Some(now);
        true
    }
}

impl Default for KeyframeThrottle {
    fn default() -> (throttle: Self)
        ensures
            throttle.last_request_at is None,
    {
        KeyframeThrottle::new()
    }
}

/// Once video has arrived the watchdog stays quiet and forgets the connection.
pub proof fn law_video_silences_the_watchdog(w: InitialVideoWatchdog, connected: bool, now: u64)
    ensures
        !w.after(true, connected, now).1,
        w.after(true, connected, now).0 == (InitialVideoWatchdog { started_at: None, last_request_at: None }),
{
}

/// The watchdog never asks within the grace after the connection was first seen, so the
/// check that first sees a connection never asks.
pub proof fn law_watchdog_waits_out_the_grace(w: InitialVideoWatchdog, now: u64)
    ensures
        w.after(false, true, now).1 ==> (w.started_at matches Some(c) && elapsed(now, c) >= INITIAL_VIDEO_GRACE_US),
        w.started_at is None ==> !w.after(false, true, now).1,
{
}

/// Two watchdog requests are at least the interval apart.
pub proof fn law_watchdog_requests_are_spaced(w: InitialVideoWatchdog, first: u64, later: u64)
    requires
        w.after(false, true, first).1,
    ensures
        w.after(false, true, first).0.after(false, true, later).1 ==> elapsed(later, first)
            >= INITIAL_VIDEO_KEYFRAME_INTERVAL_US,
{
}

/// Two keyframe requests are at least the cooldown apart, and nothing goes out unasked.
pub proof fn law_requests_respect_the_cooldown(t: KeyframeThrottle, first: u64, later: u64, requested: bool)
    ensures
        !t.after(false, first).1,
        t.after(true, first).1 ==> (t.after(true, first).0.after(requested, later).1 ==> elapsed(later, first)
            >= KEYFRAME_REQUEST_COOLDOWN_US),
        t.last_request_at is None ==> t.after(true, first).1,
{
}

} // verus!
