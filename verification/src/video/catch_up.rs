//! Ask for a new random-access point without stopping a still-valid stream.
//! This is a recovery request, not proof that the sender cleared its backlog.
use vstd::prelude::*;
use crate::rtc::reorder::{bump, elapsed};

verus! {

pub const QUEUED_FRAMES: usize = 8;
pub const PERSISTENCE_US: u64 = 500_000;
pub const MAX_SAMPLE_GAP_US: u64 = 250_000;
pub const REQUEST_INTERVAL_US: u64 = 5_000_000;

/// Abstract state of the catch-up trigger.
pub ghost struct CatchUpModel {
    pub last_sample: Option<(u32, u64)>,
    pub pressure_since: Option<u64>,
    pub last_request: Option<u64>,
    pub requests: u64,
}

impl CatchUpModel {
    pub open spec fn requested(self, now: u64) -> Self {
        CatchUpModel { last_request: Some(now), pressure_since: None, requests: bump(self.requests, 1), ..self }
    }

    /// State and verdict after observing the newest video sample.
    pub open spec fn observe(self, timestamp: u32, received_at: u64, queued: usize, recovering: bool, now: u64) -> (Self, bool) {
        if recovering || elapsed(now, received_at) > MAX_SAMPLE_GAP_US {
            (CatchUpModel { pressure_since: None, ..self }, false)
        } else if self.last_sample matches Some((previous, _)) && (timestamp.wrapping_sub(previous) == 0
            || timestamp.wrapping_sub(previous) >= 0x8000_0000) {
            (self, false)
        } else {
            let gap = self.last_sample matches Some((_, at)) && elapsed(received_at, at) > MAX_SAMPLE_GAP_US;
            let s = CatchUpModel {
                pressure_since: if gap { None } else { self.pressure_since },
                last_sample: Some((timestamp, received_at)),
                ..self
            };
            if queued < QUEUED_FRAMES {
                (CatchUpModel { pressure_since: None, ..s }, false)
            } else {
                let since = match s.pressure_since { Some(p) => p, None => received_at };
                let s = CatchUpModel { pressure_since: Some(since), ..s };
                if elapsed(received_at, since) < PERSISTENCE_US || (s.last_request matches Some(at)
                    && elapsed(now, at) < REQUEST_INTERVAL_US) {
                    (s, false)
                } else {
                    (s.requested(now), true)
                }
            }
        }
    }
}

/// Decides when local decode-queue pressure justifies a keyframe request.
pub struct CatchUp {
    last_sample: Option<(u32, u64)>,
    pressure_since: Option<u64>,
    last_request: Option<u64>,
    requests: u64,
}

impl View for CatchUp {
    type V = CatchUpModel;

    closed spec fn view(&self) -> CatchUpModel {
        CatchUpModel {
            last_sample: self.last_sample,
            pressure_since: self.pressure_since,
            last_request: self.last_request,
            requests: self.requests,
        }
    }
}

impl CatchUp {
    pub fn new() -> (state: Self)
        ensures
            state@ == (CatchUpModel { last_sample: None, pressure_since: None, last_request: None, requests: 0 }),
    {
        CatchUp { last_sample: None, pressure_since: None, last_request: None, requests: 0 }
    }

    /// A keyframe was requested at `now_us` (automatically or by the user).
    pub fn requested(&mut self, now_us: u64)
        ensures
            final(self)@ == old(self)@.requested(now_us),
    {
        self.last_request = Some(now_us);
        self.pressure_since = None;
        self.requests = self.requests.saturating_add(1);
    }

    pub fn requests(&self) -> (requests: u64)
        ensures
            requests == self@.requests,
    {
        self.requests
    }

    /// Only distinct, advancing frames count. A paused game, repeated status,
    /// brief packet burst, or an existing damage recovery cannot trigger this.
    pub fn observe(&mut self, timestamp: u32, received_at_us: u64, delay_ms: u64, queued: usize, recovering: bool, now_us: u64) -> (request: bool)
        ensures
            (final(self)@, request) == old(self)@.observe(timestamp, received_at_us, queued, recovering, now_us),
    {
        if recovering || (now_us >= received_at_us && now_us - received_at_us > MAX_SAMPLE_GAP_US) {
            self.pressure_since = None;
            return false;
        }
        if let Some((previous, at)) = self.last_sample {
            let forward = timestamp.wrapping_sub(previous);
            if forward == 0 || forward >= 0x8000_0000 {
                return false;
            }
            if received_at_us >= at && received_at_us - at > MAX_SAMPLE_GAP_US {
                self.pressure_since = None;
            }
        }
        self.last_sample = Some((timestamp, received_at_us));
        // A keyframe can replace local queued dependencies; it cannot bypass
        // a sender/network queue. Arrival delay by itself caused an IDR every
        // five seconds, adding burst traffic to an already delayed stream.
        if queued < QUEUED_FRAMES {
            self.pressure_since = None;
            return false;
        }
        let since = match self.pressure_since {
            Some(p) => p,
            None => received_at_us,
        };
        self.pressure_since = Some(since);
        let persisted = received_at_us >= since && received_at_us - since >= PERSISTENCE_US;
        let cooling = match self.last_request {
            Some(at) => !(now_us >= at && now_us - at >= REQUEST_INTERVAL_US),
            None => false,
        };
        if !persisted || cooling {
            return false;
        }
        self.requested(now_us);
        true
    }
}

impl Default for CatchUp {
    fn default() -> (state: Self)
        ensures
            state@ == (CatchUpModel { last_sample: None, pressure_since: None, last_request: None, requests: 0 }),
    {
        CatchUp::new()
    }
}

/// Arrival delay alone never triggers a refresh: without local queue pressure no
/// keyframe is requested.
pub proof fn law_no_request_without_queue_pressure(m: CatchUpModel, timestamp: u32, received_at: u64, queued: usize, recovering: bool, now: u64)
    requires
        queued < QUEUED_FRAMES,
    ensures
        !m.observe(timestamp, received_at, queued, recovering, now).1,
{
}

/// Automatic requests are at least the request interval apart.
pub proof fn law_requests_respect_interval(m: CatchUpModel, timestamp: u32, received_at: u64, queued: usize, recovering: bool, now: u64)
    requires
        m.last_request matches Some(at) && elapsed(now, at) < REQUEST_INTERVAL_US,
    ensures
        !m.observe(timestamp, received_at, queued, recovering, now).1,
{
}

/// A repeated or older frame timestamp never triggers a request.
pub proof fn law_stale_sample_never_requests(m: CatchUpModel, timestamp: u32, received_at: u64, queued: usize, recovering: bool, now: u64)
    requires
        m.last_sample matches Some((previous, _)) && (timestamp.wrapping_sub(previous) >= 0x8000_0000
            || previous == timestamp),
    ensures
        !m.observe(timestamp, received_at, queued, recovering, now).1,
{
}

} // verus!
