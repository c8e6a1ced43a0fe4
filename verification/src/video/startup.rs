//! A per-session hint, not a decoder reset or an automatic remote-game stop.
use vstd::prelude::*;
use crate::rtc::reorder::elapsed;

verus! {

pub const HELP_AFTER_US: u64 = 30_000_000;
pub const LAG_THRESHOLD_MS: u64 = 500;
pub const LAG_PERSISTENCE_US: u64 = 3_000_000;
pub const SAMPLE_FRESH_US: u64 = 1_500_000;

/// Whether the first picture arrived within the help threshold.
pub struct VideoStartup {
    pub started_at_us: u64,
    pub picture_seen: bool,
}

impl VideoStartup {
    pub fn new(now_us: u64) -> (startup: Self)
        ensures
            startup.started_at_us == now_us,
            !startup.picture_seen,
    {
        VideoStartup { started_at_us: now_us, picture_seen: false }
    }

    /// A picture ends the startup wait for good; later loss is not another startup.
    pub fn observe_picture(&mut self, has_picture: bool)
        ensures
            final(self).picture_seen == (old(self).picture_seen || has_picture),
            final(self).started_at_us == old(self).started_at_us,
    {
        self.picture_seen = self.picture_seen || has_picture;
    }

    pub fn picture_seen(&self) -> (seen: bool)
        ensures
            seen == self.picture_seen,
    {
        self.picture_seen
    }

    pub fn needs_help(&self, now_us: u64) -> (help: bool)
        ensures
            help == (!self.picture_seen && elapsed(now_us, self.started_at_us) >= HELP_AFTER_US),
    {
        !self.picture_seen && now_us >= self.started_at_us && now_us - self.started_at_us >= HELP_AFTER_US
    }
}

/// Advancing, fresh measurements are required; a stale status snapshot cannot
/// turn one hiccup into a persistent-lag warning. This only offers manual recovery.
pub struct VideoLagHelp {
    pub since: Option<u64>,
    pub latest: Option<u64>,
}

/// State after a delay measurement taken at `measured_at`.
pub open spec fn lag_observe(since: Option<u64>, latest: Option<u64>, measured_at: u64, delay_ms: u64) -> (Option<u64>, Option<u64>) {
    if latest matches Some(last) && measured_at <= last {
        (since, latest)
    } else {
        let since = if latest matches Some(last) && measured_at - last > SAMPLE_FRESH_US { None } else { since };
        let since = if delay_ms >= LAG_THRESHOLD_MS {
            match since { Some(s) => Some(s), None => Some(measured_at) }
        } else {
            None
        };
        (since, Some(measured_at))
    }
}

impl VideoLagHelp {
    pub fn new() -> (lag: Self)
        ensures
            lag.since is None,
            lag.latest is None,
    {
        VideoLagHelp { since: None, latest: None }
    }

    pub fn observe(&mut self, measured_at_us: u64, delay_ms: u64)
        ensures
            (final(self).since, final(self).latest) == lag_observe(old(self).since, old(self).latest, measured_at_us, delay_ms),
    {
        if let Some(last) = self.latest {
            if measured_at_us <= last {
                return;
            }
            if measured_at_us - last > SAMPLE_FRESH_US {
                self.since = None;
            }
        }
        self.latest = Some(measured_at_us);
        if delay_ms >= LAG_THRESHOLD_MS {
            if self.since.is_none() {
                self.since = Some(measured_at_us);
            }
        } else {
            self.since = None;
        }
    }

    /// Lag has lasted three seconds of fresh samples, the latest one still current.
    pub fn needs_help(&self, now_us: u64) -> (help: bool)
        ensures
            help == (match (self.since, self.latest) {
                (Some(since), Some(latest)) => elapsed(latest, since) >= LAG_PERSISTENCE_US
                    && elapsed(now_us, latest) <= SAMPLE_FRESH_US,
                _ => false,
            }),
    {
        match (self.since, self.latest) {
            (Some(since), Some(latest)) => {
                let lasted: u64 = if latest >= since { latest - since } else { 0 };
                let age: u64 = if now_us >= latest { now_us - latest } else { 0 };
                lasted >= LAG_PERSISTENCE_US && age <= SAMPLE_FRESH_US
            },
            _ => false,
        }
    }
}

impl Default for VideoLagHelp {
    fn default() -> (lag: Self)
        ensures
            lag.since is None,
            lag.latest is None,
    {
        VideoLagHelp::new()
    }
}

/// A measurement below the lag threshold clears the warning at once.
pub proof fn law_recovered_sample_clears_lag(since: Option<u64>, latest: Option<u64>, measured_at: u64, delay_ms: u64)
    requires
        delay_ms < LAG_THRESHOLD_MS,
        latest matches Some(last) ==> measured_at > last,
    ensures
        lag_observe(since, latest, measured_at, delay_ms).0 is None,
{
}

/// Stale or repeated measurements never advance the lag state.
pub proof fn law_stale_sample_is_ignored(since: Option<u64>, latest: Option<u64>, measured_at: u64, delay_ms: u64)
    requires
        latest matches Some(last) && measured_at <= last,
    ensures
        lag_observe(since, latest, measured_at, delay_ms) == (since, latest),
{
}

} // verus!
