//! Bounded, metadata-only flight recorder. No media payloads, URLs or tokens.
//! Timestamps identify submissions, not guaranteed AVC output PTS: a no-picture
//! decoder call means hardware output association must not be assumed exact.
//! The explicit picture_output_rtp / receive_to_gpu_done_us / frame_feedback
//! stages instead carry a verified output RTP identity. decoder_output_pts uses
//! the submission RTP column and stores the decoder's raw 90 kHz PTS in value.
//! decoder_poll_output_pts has no submission; its value is the returned PTS.
use vstd::prelude::*;
use std::collections::VecDeque;
use crate::text::{decimal, push_decimal, push_str, same_text};

verus! {

pub const CAPACITY: usize = 4096;
pub const INCIDENT_CAPACITY: usize = 1024;
/// At least 35 minutes of once-per-second history.
pub const HISTORY_CAPACITY: usize = 2100;
/// A longer pause between completed access units, or between new pictures, is an incident.
pub const GAP_INCIDENT_US: u64 = 50_000;

/// One recorded pipeline event.
#[derive(Clone, Copy, Debug)]
pub struct TraceEvent {
    pub time_us: u64,
    pub stage: &'static str,
    pub timestamp: u32,
    pub value: u64,
}

/// One status snapshot.
pub struct StatusEntry {
    pub elapsed_ms: u64,
    pub status: String,
}

/// Stages that always matter after the fact; `au_drop_reason` does unless its reason is 5.
pub open spec fn is_incident(stage: Seq<char>, value: u64) -> bool {
    ||| stage == "recovery_begin"@
    ||| stage == "recovery_end_ms"@
    ||| stage == "au_abandon"@
    ||| stage == "age_drop"@
    ||| stage == "output_wait_expired"@
    ||| stage == "queue_byte_limit"@
    ||| stage == "queue_frame_limit"@
    ||| stage == "au_queue_pressure_us"@
    ||| stage == "receiver_ceiling_bps"@
    ||| stage == "receiver_ceiling_delay_ms"@
    ||| stage == "rtp_gap_released_packets"@
    ||| stage == "decoder_poll_failed"@
    ||| stage == "keyframe_request"@
    ||| stage == "manual_refresh"@
    ||| stage == "lag_keyframe_request"@
    ||| stage == "keyframe_cutover_units"@
    ||| (stage == "au_drop_reason"@ && value != 5)
}

/// `q` with `x` appended, dropping the oldest entry when it already holds `capacity`.
pub open spec fn ring_push<T>(q: Seq<T>, x: T, capacity: nat) -> Seq<T> {
    (if q.len() >= capacity { q.drop_first() } else { q }).push(x)
}

/// The column header of the event files.
pub open spec fn csv_header() -> Seq<char> {
    "elapsed_us,stage,submission_rtp_timestamp,value_us_or_reason\n"@
}

pub open spec fn csv_line(e: TraceEvent) -> Seq<char> {
    decimal(e.time_us as nat) + ","@ + e.stage@ + ","@ + decimal(e.timestamp as nat) + ","@ + decimal(e.value as nat)
        + "\n"@
}

pub open spec fn csv_lines(es: Seq<TraceEvent>) -> Seq<char>
    decreases es.len(),
{
    if es.len() == 0 {
        Seq::empty()
    } else {
        csv_lines(es.drop_last()) + csv_line(es.last())
    }
}

pub open spec fn history_lines(h: Seq<(u64, Seq<char>)>) -> Seq<char>
    decreases h.len(),
{
    if h.len() == 0 {
        Seq::empty()
    } else {
        history_lines(h.drop_last()) + "elapsed_ms="@ + decimal(h.last().0 as nat) + "\n"@ + h.last().1 + "\n\n"@
    }
}

/// Abstract state of the recorder.
pub ghost struct TraceModel {
    pub start: u64,
    pub events: Seq<TraceEvent>,
    pub history: Seq<(u64, Seq<char>)>,
    pub incidents: Seq<TraceEvent>,
    pub last_au: Option<u64>,
    pub last_picture: Option<u64>,
}

impl TraceModel {
    pub open spec fn wf(self) -> bool {
        &&& self.events.len() <= CAPACITY
        &&& self.incidents.len() <= INCIDENT_CAPACITY
        &&& self.history.len() <= HISTORY_CAPACITY
    }

    /// Recording an event at `time` (microseconds since the start). Every event enters
    /// the verbose ring; incidents also enter the smaller incident ring, as does a long
    /// gap before a completed access unit or a new picture.
    pub open spec fn push(self, e: TraceEvent) -> Self {
        let events = ring_push(self.events, e, CAPACITY as nat);
        let incidents = if is_incident(e.stage@, e.value) {
            ring_push(self.incidents, e, INCIDENT_CAPACITY as nat)
        } else {
            self.incidents
        };
        let au = e.stage@ == "au_complete"@;
        let picture = e.stage@ == "receive_to_gpu_done_us"@;
        let previous = if au { self.last_au } else if picture { self.last_picture } else { None };
        let incidents = match previous {
            Some(p) => {
                let gap = if e.time_us >= p { (e.time_us - p) as u64 } else { 0u64 };
                if gap > GAP_INCIDENT_US {
                    ring_push(
                        incidents,
                        TraceEvent {
                            time_us: e.time_us,
                            stage: if au { "au_delivery_gap_us" } else { "new_picture_gap_us" },
                            timestamp: e.timestamp,
                            value: gap,
                        },
                        INCIDENT_CAPACITY as nat,
                    )
                } else {
                    incidents
                }
            },
            None => incidents,
        };
        TraceModel {
            events,
            incidents,
            last_au: if au { Some(e.time_us) } else { self.last_au },
            last_picture: if picture { Some(e.time_us) } else { self.last_picture },
            ..self
        }
    }

    /// A status snapshot at `elapsed_ms` is kept unless the previous one is under a
    /// second old.
    pub open spec fn snapshot(self, elapsed_ms: u64, status: Seq<char>) -> Self {
        if self.history.len() > 0 && elapsed_ms < self.history.last().0 + 1000 {
            self
        } else {
            TraceModel { history: ring_push(self.history, (elapsed_ms, status), HISTORY_CAPACITY as nat), ..self }
        }
    }
}

/// The flight recorder.
pub struct Trace {
    start: u64,
    events: VecDeque<TraceEvent>,
    history: VecDeque<StatusEntry>,
    incidents: VecDeque<TraceEvent>,
    last_au: Option<u64>,
    last_picture: Option<u64>,
}

pub open spec fn entry_views(h: Seq<StatusEntry>) -> Seq<(u64, Seq<char>)> {
    h.map_values(|e: StatusEntry| (e.elapsed_ms, e.status@))
}

impl View for Trace {
    type V = TraceModel;

    closed spec fn view(&self) -> TraceModel {
        TraceModel {
            start: self.start,
            events: self.events@,
            history: entry_views(self.history@),
            incidents: self.incidents@,
            last_au: self.last_au,
            last_picture: self.last_picture,
        }
    }
}

fn is_incident_stage(stage: &str, value: u64) -> (incident: bool)
    ensures
        incident == is_incident(stage@, value),
{
    same_text(stage, "recovery_begin") || same_text(stage, "recovery_end_ms") || same_text(stage, "au_abandon")
        || same_text(stage, "age_drop") || same_text(stage, "output_wait_expired") || same_text(
        stage,
        "queue_byte_limit",
    ) || same_text(stage, "queue_frame_limit") || same_text(stage, "au_queue_pressure_us") || same_text(
        stage,
        "receiver_ceiling_bps",
    ) || same_text(stage, "receiver_ceiling_delay_ms") || same_text(stage, "rtp_gap_released_packets")
        || same_text(stage, "decoder_poll_failed") || same_text(stage, "keyframe_request") || same_text(
        stage,
        "manual_refresh",
    ) || same_text(stage, "lag_keyframe_request") || same_text(stage, "keyframe_cutover_units") || (same_text(
        stage,
        "au_drop_reason",
    ) && value != 5)
}

fn ring_append<T>(q: &mut VecDeque<T>, x: T, capacity: usize)
    requires
        old(q)@.len() <= capacity,
        capacity > 0,
    ensures
        final(q)@ == ring_push(old(q)@, x, capacity as nat),
        final(q)@.len() <= capacity,
{
    if q.len() >= capacity {
        q.pop_front();
    }
    q.push_back(x);
}

impl Trace {
    /// An empty recorder whose clock starts at `start_us`.
    pub fn new(start_us: u64) -> (trace: Self)
        ensures
            trace@ == (TraceModel {
                start: start_us,
                events: Seq::empty(),
                history: Seq::empty(),
                incidents: Seq::empty(),
                last_au: None,
                last_picture: None,
            }),
    {
        let trace = Trace {
            start: start_us,
            events: VecDeque::new(),
            history: VecDeque::new(),
            incidents: VecDeque::new(),
            last_au: None,
            last_picture: None,
        };
        assert(entry_views(trace.history@) =~= Seq::empty());
        trace
    }

    pub fn events(&self) -> (events: &VecDeque<TraceEvent>)
        ensures
            events@ == self@.events,
    {
        &self.events
    }

    pub fn incidents(&self) -> (incidents: &VecDeque<TraceEvent>)
        ensures
            incidents@ == self@.incidents,
    {
        &self.incidents
    }

    fn incident(&mut self, e: TraceEvent)
        requires
            old(self)@.wf(),
        ensures
            final(self)@.wf(),
            final(self)@ == (TraceModel {
                incidents: ring_push(old(self)@.incidents, e, INCIDENT_CAPACITY as nat),
                ..old(self)@
            }),
    {
        ring_append(&mut self.incidents, e, INCIDENT_CAPACITY);
    }

    /// Records an event at `time_us` microseconds since the start.
    pub fn push(&mut self, time_us: u64, stage: &'static str, timestamp: u32, value: u64)
        requires
            old(self)@.wf(),
        ensures
            final(self)@.wf(),
            final(self)@ == old(self)@.push(TraceEvent { time_us, stage, timestamp, value }),
    {
        let e = TraceEvent { time_us, stage, timestamp, value };
        ring_append(&mut self.events, e, CAPACITY);
        if is_incident_stage(stage, value) {
            self.incident(e);
        }
        let au = same_text(stage, "au_complete");
        let picture = same_text(stage, "receive_to_gpu_done_us");
        let previous = if au { self.last_au } else if picture { self.last_picture } else { None };
        if au {
            self.last_au = Some(time_us);
        }
        if picture {
            self.last_picture = Some(time_us);
        }
        if let Some(p) = previous {
            let gap: u64 = if time_us >= p { time_us - p } else { 0 };
            if gap > GAP_INCIDENT_US {
                let name: &'static str = if au { "au_delivery_gap_us" } else { "new_picture_gap_us" };
                self.incident(TraceEvent { time_us, stage: name, timestamp, value: gap });
            }
        }
    }

    /// Records an event now, timed from the recorder's start.
    pub fn record(&mut self, now_us: u64, stage: &'static str, timestamp: u32, value: u64)
        requires
            old(self)@.wf(),
        ensures
            final(self)@.wf(),
            final(self)@ == old(self)@.push(
                TraceEvent {
                    time_us: if now_us >= old(self)@.start { (now_us - old(self)@.start) as u64 } else { 0 },
                    stage,
                    timestamp,
                    value,
                },
            ),
    {
        let time: u64 = if now_us >= self.start { now_us - self.start } else { 0 };
        self.push(time, stage, timestamp, value);
    }

    /// Keeps the once-per-second diagnostics, at most one per second.
    pub fn status_snapshot(&mut self, now_us: u64, status: &str)
        requires
            old(self)@.wf(),
        ensures
            final(self)@.wf(),
            final(self)@ == old(self)@.snapshot(
                (if now_us >= old(self)@.start { (now_us - old(self)@.start) as u64 } else { 0u64 }) / 1000,
                status@,
            ),
    {
        let elapsed_ms: u64 = (if now_us >= self.start { now_us - self.start } else { 0 }) / 1000;
        let n = self.history.len();
        if n > 0 {
            let last = self.history[n - 1].elapsed_ms;
            assert(entry_views(self.history@).last().0 == last);
            if elapsed_ms < last || elapsed_ms - last < 1000 {
                return;
            }
        }
        let ghost before = self.history@;
        let entry = StatusEntry { elapsed_ms, status: status.to_owned() };
        let ghost added = entry;
        ring_append(&mut self.history, entry, HISTORY_CAPACITY);
        proof {
            let views = entry_views(self.history@);
            let want = ring_push(entry_views(before), (elapsed_ms, status@), HISTORY_CAPACITY as nat);
            assert(views.len() == want.len());
            assert forall|i: int| 0 <= i < views.len() implies views[i] == want[i] by {
                if before.len() >= HISTORY_CAPACITY {
                    if i < views.len() - 1 {
                        assert(self.history@[i] == before[i + 1]);
                    }
                } else {
                    if i < views.len() - 1 {
                        assert(self.history@[i] == before[i]);
                    }
                }
            }
            assert(views =~= want);
        }
    }
}

fn push_csv_line(text: &mut String, e: &TraceEvent)
    ensures
        final(text)@ == old(text)@ + csv_line(*e),
{
    push_decimal(text, e.time_us as u128);
    push_str(text, ",");
    push_str(text, e.stage);
    push_str(text, ",");
    push_decimal(text, e.timestamp as u128);
    push_str(text, ",");
    push_decimal(text, e.value as u128);
    push_str(text, "\n");
    assert(final(text)@ =~= old(text)@ + csv_line(*e));
}

fn csv(events: &VecDeque<TraceEvent>) -> (text: String)
    ensures
        text@ == csv_header() + csv_lines(events@),
{
    let mut text = String::new();
    push_str(&mut text, "elapsed_us,stage,submission_rtp_timestamp,value_us_or_reason\n");
    let mut k: usize = 0;
    while k < events.len()
        invariant
            k <= events@.len(),
            text@ == csv_header() + csv_lines(events@.take(k as int)),
        decreases events@.len() - k,
    {
        assert(events@.take(k as int + 1).drop_last() =~= events@.take(k as int));
        push_csv_line(&mut text, &events[k]);
        k += 1;
        assert(text@ =~= csv_header() + csv_lines(events@.take(k as int)));
    }
    assert(events@.take(k as int) =~= events@);
    text
}

impl Trace {
    /// Every retained event, one CSV line each, oldest first.
    pub fn events_csv(&self) -> (text: String)
        ensures
            text@ == csv_header() + csv_lines(self@.events),
    {
        csv(&self.events)
    }

    /// Every retained incident, one CSV line each, oldest first.
    pub fn incidents_csv(&self) -> (text: String)
        ensures
            text@ == csv_header() + csv_lines(self@.incidents),
    {
        csv(&self.incidents)
    }

    /// The retained status snapshots, each after its elapsed time.
    pub fn history_text(&self) -> (text: String)
        ensures
            text@ == history_lines(self@.history),
    {
        let ghost all = entry_views(self.history@);
        let mut text = String::new();
        let mut k: usize = 0;
        while k < self.history.len()
            invariant
                k <= self.history@.len(),
                all == entry_views(self.history@),
                text@ == history_lines(all.take(k as int)),
            decreases self.history@.len() - k,
        {
            assert(all.take(k as int + 1).drop_last() =~= all.take(k as int));
            let entry = &self.history[k];
            push_str(&mut text, "elapsed_ms=");
            push_decimal(&mut text, entry.elapsed_ms as u128);
            push_str(&mut text, "\n");
            push_str(&mut text, entry.status.as_str());
            push_str(&mut text, "\n\n");
            k += 1;
            assert(text@ =~= history_lines(all.take(k as int)));
        }
        assert(all.take(k as int) =~= all);
        text
    }
}

/// Snapshots at least a second apart.
pub open spec fn spaced(h: Seq<(u64, Seq<char>)>) -> bool {
    forall|i: int| 0 < i < h.len() ==> #[trigger] h[i].0 >= h[i - 1].0 + 1000
}

/// An incident stage is always kept in the incident ring, which outlives the verbose one.
pub proof fn law_incident_is_kept(m: TraceModel, e: TraceEvent)
    requires
        is_incident(e.stage@, e.value),
        e.stage@ != "au_complete"@,
        e.stage@ != "receive_to_gpu_done_us"@,
    ensures
        m.push(e).incidents.last() == e,
        m.push(e).events.last() == e,
{
}

/// A pause of more than 50ms before a completed access unit is kept as an incident
/// carrying the real gap.
pub proof fn law_delivery_gap_is_kept(m: TraceModel, e: TraceEvent)
    requires
        e.stage@ == "au_complete"@,
        m.last_au matches Some(p) && p <= e.time_us && e.time_us - p > GAP_INCIDENT_US,
    ensures
        m.push(e).incidents.last() == (TraceEvent {
            time_us: e.time_us,
            stage: "au_delivery_gap_us",
            timestamp: e.timestamp,
            value: (e.time_us - m.last_au->0) as u64,
        }),
        m.push(e).last_au == Some(e.time_us),
{
}

/// Retained status snapshots stay at least a second apart.
pub proof fn law_snapshots_stay_a_second_apart(m: TraceModel, elapsed_ms: u64, status: Seq<char>)
    requires
        spaced(m.history),
    ensures
        spaced(m.snapshot(elapsed_ms, status).history),
{
    let after = m.snapshot(elapsed_ms, status).history;
    if after != m.history {
        assert forall|i: int| 0 < i < after.len() implies #[trigger] after[i].0 >= after[i - 1].0 + 1000 by {
            if m.history.len() >= HISTORY_CAPACITY {
                if i < after.len() - 1 {
                    assert(after[i] == m.history[i + 1]);
                    assert(after[i - 1] == m.history[i]);
                } else {
                    assert(after[i - 1] == m.history.last());
                }
            } else {
                if i < after.len() - 1 {
                    assert(after[i] == m.history[i]);
                    assert(after[i - 1] == m.history[i - 1]);
                } else {
                    assert(after[i - 1] == m.history.last());
                }
            }
        }
    }
}

} // verus!
