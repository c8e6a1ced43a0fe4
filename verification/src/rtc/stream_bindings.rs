//! Bookkeeping of the receive-report interceptor: which remote streams are bound, under
//! which clock rate, to the receiver-report generator; which streams carry the
//! transport-wide arrival extension; and the latest sender report of each bound stream.
//! A stream is bound when the provider's clock for its payload type is known: either
//! when the library binds it or when its first packet reveals the payload type. An
//! unknown payload type is never guessed.
use vstd::prelude::*;
use std::collections::HashMap;
use crate::text::{decimal, push_decimal, push_str, same_text};

verus! {

broadcast use vstd::std_specs::hash::group_hash_axioms;

/// The header extension that carries transport-wide arrival feedback.
pub const TRANSPORT_CC_URI: &'static str = "http://www.ietf.org/id/draft-holmer-rmcat-transport-wide-cc-extensions-01";

/// At most this many sender reports wait to be taken.
pub const MAX_CLOCK_REPORTS: usize = 8;

/// A sender report of a bound stream with the stream's clock rate.
#[derive(Clone, Copy, Debug, PartialEq, Eq, Structural)]
pub struct ClockReport {
    pub clock_rate: u32,
    pub ssrc: u32,
    pub ntp_time: u64,
    pub rtp_time: u32,
}

/// Counters kept for the status text; like the shared atomic counters they wrap.
#[derive(Clone, Copy, Debug, PartialEq, Eq, Structural)]
pub struct ReportCounters {
    pub generated: u64,
    pub sender_reports: u64,
    pub arrival_packets: u64,
    pub video_arrival_packets: u64,
    pub empty_rtp: u64,
}

pub open spec fn wrapping_inc(x: u64) -> u64 {
    if x == u64::MAX { 0 } else { (x + 1) as u64 }
}

/// The clock rate of the first provider clock for `payload_type`.
pub open spec fn clock_for(clocks: Seq<(u8, u32)>, payload_type: u8) -> Option<u32>
    decreases clocks.len(),
{
    if clocks.len() == 0 {
        None
    } else if clocks[0].0 == payload_type {
        Some(clocks[0].1)
    } else {
        clock_for(clocks.drop_first(), payload_type)
    }
}

/// The payload type is one of the provider's 90 kHz (video) payload types.
pub open spec fn video_payload(clocks: Seq<(u8, u32)>, payload_type: u8) -> bool {
    exists|i: int| 0 <= i < clocks.len() && #[trigger] clocks[i] == (payload_type, 90_000u32)
}

/// The id of the first arrival-feedback extension with a usable id (1 to 255).
pub open spec fn arrival_id(extensions: Seq<(Seq<char>, u16)>) -> Option<u8>
    decreases extensions.len(),
{
    if extensions.len() == 0 {
        None
    } else if extensions[0].0 == TRANSPORT_CC_URI@ && 1 <= extensions[0].1 <= 255 {
        Some(extensions[0].1 as u8)
    } else {
        arrival_id(extensions.drop_first())
    }
}

/// Abstract state of the bookkeeping.
pub ghost struct BindingsModel {
    pub clocks: Seq<(u8, u32)>,
    pub bound: Map<u32, u32>,
    pub arrival: Map<u32, u8>,
    pub reports: Seq<ClockReport>,
    pub counters: ReportCounters,
}

impl BindingsModel {
    /// Binding a stream with a clock: nothing happens for a zero clock or a stream
    /// already bound with that clock (its report history is kept); else it is (re)bound.
    pub open spec fn bind_once(self, ssrc: u32, clock_rate: u32) -> (Self, bool) {
        if clock_rate == 0 || (self.bound.contains_key(ssrc) && self.bound[ssrc] == clock_rate) {
            (self, false)
        } else {
            (BindingsModel { bound: self.bound.insert(ssrc, clock_rate), ..self }, true)
        }
    }

    /// The library binds a remote stream: its arrival extension is registered, then it is
    /// bound once.
    pub open spec fn bind_remote(self, ssrc: u32, clock_rate: u32, extensions: Seq<(Seq<char>, u16)>) -> (Self, bool) {
        let registered = match arrival_id(extensions) {
            Some(id) => BindingsModel { arrival: self.arrival.insert(ssrc, id), ..self },
            None => self,
        };
        registered.bind_once(ssrc, clock_rate)
    }

    /// An RTP packet: empty payloads are counted; a registered arrival extension of at
    /// least two bytes counts an arrival packet (a video one for a 90 kHz payload type);
    /// a payload type with a provider clock binds the stream once.
    pub open spec fn rtp(self, ssrc: u32, payload_type: u8, empty: bool, extension_len: Option<usize>) -> (Self, Option<u32>) {
        let c = self.counters;
        let arrival = self.arrival.contains_key(ssrc) && (extension_len matches Some(n) && n >= 2);
        let counted = ReportCounters {
            empty_rtp: if empty { wrapping_inc(c.empty_rtp) } else { c.empty_rtp },
            arrival_packets: if arrival { wrapping_inc(c.arrival_packets) } else { c.arrival_packets },
            video_arrival_packets: if arrival && video_payload(self.clocks, payload_type) {
                wrapping_inc(c.video_arrival_packets)
            } else {
                c.video_arrival_packets
            },
            ..c
        };
        let s = BindingsModel { counters: counted, ..self };
        match clock_for(self.clocks, payload_type) {
            Some(rate) => {
                let (t, bound) = s.bind_once(ssrc, rate);
                (t, if bound { Some(rate) } else { None })
            },
            None => (s, None),
        }
    }

    /// A sender report: counted; for a bound stream it replaces that stream's waiting
    /// report, and is kept while fewer than the limit wait.
    pub open spec fn sender_report(self, ssrc: u32, ntp_time: u64, rtp_time: u32) -> Self {
        let counted = ReportCounters { sender_reports: wrapping_inc(self.counters.sender_reports), ..self.counters };
        if self.bound.contains_key(ssrc) {
            let others = self.reports.filter(|r: ClockReport| r.ssrc != ssrc);
            let reports = if others.len() < MAX_CLOCK_REPORTS {
                others.push(ClockReport { clock_rate: self.bound[ssrc], ssrc, ntp_time, rtp_time })
            } else {
                others
            };
            BindingsModel { reports, counters: counted, ..self }
        } else {
            BindingsModel { counters: counted, ..self }
        }
    }

    pub open spec fn summary(self) -> Seq<char> {
        "RR tracks:"@ + decimal(self.bound.len()) + " made:"@ + decimal(self.counters.generated as nat) + " SRseen:"@
            + decimal(self.counters.sender_reports as nat) + " TWCC tracks:"@ + decimal(self.arrival.len())
            + " pk:"@ + decimal(self.counters.arrival_packets as nat) + " emptyRTP:"@ + decimal(
            self.counters.empty_rtp as nat,
        )
    }
}

/// The interceptor's bookkeeping.
pub struct StreamBindings {
    clocks: Vec<(u8, u32)>,
    bound: HashMap<u32, u32>,
    arrival: HashMap<u32, u8>,
    reports: Vec<ClockReport>,
    counters: ReportCounters,
}

impl View for StreamBindings {
    type V = BindingsModel;

    closed spec fn view(&self) -> BindingsModel {
        BindingsModel {
            clocks: self.clocks@,
            bound: self.bound@,
            arrival: self.arrival@,
            reports: self.reports@,
            counters: self.counters,
        }
    }
}

fn clock_of(clocks: &Vec<(u8, u32)>, payload_type: u8) -> (rate: Option<u32>)
    ensures
        rate == clock_for(clocks@, payload_type),
{
    let mut k: usize = 0;
    assert(clocks@.skip(0) =~= clocks@);
    while k < clocks.len()
        invariant
            k <= clocks@.len(),
            clock_for(clocks@, payload_type) == clock_for(clocks@.skip(k as int), payload_type),
        decreases clocks@.len() - k,
    {
        assert(clocks@.skip(k as int).drop_first() =~= clocks@.skip(k as int + 1));
        if clocks[k].0 == payload_type {
            return Some(clocks[k].1);
        }
        k += 1;
    }
    None
}

fn is_video_payload(clocks: &Vec<(u8, u32)>, payload_type: u8) -> (video: bool)
    ensures
        video == video_payload(clocks@, payload_type),
{
    let mut k: usize = 0;
    while k < clocks.len()
        invariant
            k <= clocks@.len(),
            forall|i: int| 0 <= i < k ==> #[trigger] clocks@[i] != (payload_type, 90_000u32),
        decreases clocks@.len() - k,
    {
        if clocks[k].0 == payload_type && clocks[k].1 == 90_000 {
            assert(clocks@[k as int] == (payload_type, 90_000u32));
            return true;
        }
        k += 1;
    }
    false
}

fn find_arrival_id(extensions: &Vec<(String, u16)>) -> (id: Option<u8>)
    ensures
        id == arrival_id(extensions@.map_values(|e: (String, u16)| (e.0@, e.1))),
{
    let ghost view = extensions@.map_values(|e: (String, u16)| (e.0@, e.1));
    let mut k: usize = 0;
    assert(view.skip(0) =~= view);
    while k < extensions.len()
        invariant
            k <= extensions@.len(),
            view == extensions@.map_values(|e: (String, u16)| (e.0@, e.1)),
            arrival_id(view) == arrival_id(view.skip(k as int)),
        decreases extensions@.len() - k,
    {
        assert(view.skip(k as int).drop_first() =~= view.skip(k as int + 1));
        assert(view.skip(k as int)[0] == (extensions@[k as int].0@, extensions@[k as int].1));
        let id = extensions[k].1;
        if same_text(extensions[k].0.as_str(), TRANSPORT_CC_URI) && 1 <= id && id <= 255 {
            return Some(id as u8);
        }
        k += 1;
    }
    None
}

impl StreamBindings {
    /// Empty bookkeeping for the provider's `(payload type, clock rate)` pairs.
    pub fn new(clocks: Vec<(u8, u32)>) -> (b: Self)
        ensures
            b@ == (BindingsModel {
                clocks: clocks@,
                bound: Map::empty(),
                arrival: Map::empty(),
                reports: Seq::empty(),
                counters: ReportCounters {
                    generated: 0,
                    sender_reports: 0,
                    arrival_packets: 0,
                    video_arrival_packets: 0,
                    empty_rtp: 0,
                },
            }),
    {
        StreamBindings {
            clocks,
            bound: HashMap::new(),
            arrival: HashMap::new(),
            reports: Vec::new(),
            counters: ReportCounters {
                generated: 0,
                sender_reports: 0,
                arrival_packets: 0,
                video_arrival_packets: 0,
                empty_rtp: 0,
            },
        }
    }

    /// Binds a stream with a clock once; returns whether the report generator must be
    /// bound to it now.
    pub fn bind_once(&mut self, ssrc: u32, clock_rate: u32) -> (bind: bool)
        ensures
            (final(self)@, bind) == old(self)@.bind_once(ssrc, clock_rate),
    {
        if clock_rate == 0 {
            return false;
        }
        match self.bound.get(&ssrc) {
            Some(rate) => {
                if *rate == clock_rate {
                    return false;
                }
            },
            None => {},
        }
        self.bound.insert(ssrc, clock_rate);
        true
    }

    /// The library binds a remote stream with its header extensions (uri and id).
    pub fn bind_remote(&mut self, ssrc: u32, clock_rate: u32, extensions: &Vec<(String, u16)>) -> (bind: bool)
        ensures
            (final(self)@, bind) == old(self)@.bind_remote(
                ssrc,
                clock_rate,
                extensions@.map_values(|e: (String, u16)| (e.0@, e.1)),
            ),
    {
        match find_arrival_id(extensions) {
            Some(id) => {
                self.arrival.insert(ssrc, id);
            },
            None => {},
        }
        self.bind_once(ssrc, clock_rate)
    }

    /// The arrival-extension id registered for a stream.
    pub fn arrival_extension(&self, ssrc: u32) -> (id: Option<u8>)
        ensures
            id == (if self@.arrival.contains_key(ssrc) { Some(self@.arrival[ssrc]) } else { None::<u8> }),
    {
        match self.arrival.get(&ssrc) {
            Some(id) => Some(*id),
            None => None,
        }
    }

    /// An RTP packet of `ssrc`; `extension_len` is the length of its registered arrival
    /// extension, when present. Returns the clock rate to bind the report generator
    /// with, when the packet binds its stream.
    pub fn rtp(&mut self, ssrc: u32, payload_type: u8, empty: bool, extension_len: Option<usize>) -> (bind: Option<u32>)
        ensures
            (final(self)@, bind) == old(self)@.rtp(ssrc, payload_type, empty, extension_len),
    {
        if empty {
            self.counters.empty_rtp = self.counters.empty_rtp.wrapping_add(1);
        }
        let registered = self.arrival.contains_key(&ssrc);
        let arrival = registered && match extension_len {
            Some(n) => n >= 2,
            None => false,
        };
        if arrival {
            self.counters.arrival_packets = self.counters.arrival_packets.wrapping_add(1);
            if is_video_payload(&self.clocks, payload_type) {
                self.counters.video_arrival_packets = self.counters.video_arrival_packets.wrapping_add(1);
            }
        }
        match clock_of(&self.clocks, payload_type) {
            Some(rate) => {
                if self.bind_once(ssrc, rate) {
                    Some(rate)
                } else {
                    None
                }
            },
            None => None,
        }
    }

    /// The library unbinds a remote stream.
    pub fn unbind(&mut self, ssrc: u32)
        ensures
            final(self)@ == (BindingsModel {
                bound: old(self)@.bound.remove(ssrc),
                arrival: old(self)@.arrival.remove(ssrc),
                ..old(self)@
            }),
    {
        self.bound.remove(&ssrc);
        self.arrival.remove(&ssrc);
    }

    /// A sender report read from the network, before the report generator consumes it.
    pub fn sender_report(&mut self, ssrc: u32, ntp_time: u64, rtp_time: u32)
        ensures
            final(self)@ == old(self)@.sender_report(ssrc, ntp_time, rtp_time),
    {
        self.counters.sender_reports = self.counters.sender_reports.wrapping_add(1);
        let rate = match self.bound.get(&ssrc) {
            Some(rate) => *rate,
            None => {
                return;
            },
        };
        let ghost old_reports = self.reports@;
        let mut others: Vec<ClockReport> = Vec::new();
        let mut k: usize = 0;
        while k < self.reports.len()
            invariant
                k <= self.reports@.len(),
                self.reports@ == old_reports,
                others@ == old_reports.take(k as int).filter(|r: ClockReport| r.ssrc != ssrc),
            decreases self.reports@.len() - k,
        {
            let r = self.reports[k];
            assert(old_reports.take(k as int + 1).drop_last() =~= old_reports.take(k as int));
            proof {
                reveal(Seq::filter);
            }
            if r.ssrc != ssrc {
                others.push(r);
            }
            k += 1;
        }
        assert(old_reports.take(k as int) =~= old_reports);
        if others.len() < MAX_CLOCK_REPORTS {
            others.push(ClockReport { clock_rate: rate, ssrc, ntp_time, rtp_time });
        }
        self.reports = others;
    }

    /// Takes the waiting sender reports, oldest first.
    pub fn take_clock_reports(&mut self) -> (reports: Vec<ClockReport>)
        ensures
            reports@ == old(self)@.reports,
            final(self)@ == (BindingsModel { reports: Seq::empty(), ..old(self)@ }),
    {
        let mut taken: Vec<ClockReport> = Vec::new();
        std::mem::swap(&mut taken, &mut self.reports);
        taken
    }

    /// Counts receiver reports the generator wrote.
    pub fn generated(&mut self, count: u64)
        ensures
            final(self)@ == (BindingsModel {
                counters: ReportCounters {
                    generated: ((old(self)@.counters.generated + count) % 0x1_0000_0000_0000_0000) as u64,
                    ..old(self)@.counters
                },
                ..old(self)@
            }),
    {
        self.counters.generated = self.counters.generated.wrapping_add(count);
    }

    /// Video packets that carried arrival feedback.
    pub fn video_arrival_packets(&self) -> (packets: u64)
        ensures
            packets == self@.counters.video_arrival_packets,
    {
        self.counters.video_arrival_packets
    }

    /// The one-line report status.
    pub fn summary(&self) -> (text: String)
        ensures
            text@ == self@.summary(),
    {
        let mut t = String::new();
        push_str(&mut t, "RR tracks:");
        push_decimal(&mut t, self.bound.len() as u128);
        push_str(&mut t, " made:");
        push_decimal(&mut t, self.counters.generated as u128);
        push_str(&mut t, " SRseen:");
        push_decimal(&mut t, self.counters.sender_reports as u128);
        push_str(&mut t, " TWCC tracks:");
        push_decimal(&mut t, self.arrival.len() as u128);
        push_str(&mut t, " pk:");
        push_decimal(&mut t, self.counters.arrival_packets as u128);
        push_str(&mut t, " emptyRTP:");
        push_decimal(&mut t, self.counters.empty_rtp as u128);
        assert(t@ =~= self@.summary());
        t
    }
}

/// A stream bound once keeps its binding, so binding it again with the same clock does
/// not restart its report history; unbinding forgets it and its arrival extension.
pub proof fn law_binding_is_idempotent(m: BindingsModel, ssrc: u32, clock_rate: u32)
    ensures
        m.bind_once(ssrc, clock_rate).0.bind_once(ssrc, clock_rate) == (m.bind_once(ssrc, clock_rate).0, false),
{
}

/// A payload type without a provider clock never binds a stream.
pub proof fn law_unknown_payload_is_not_guessed(m: BindingsModel, ssrc: u32, payload_type: u8, empty: bool, len: Option<usize>)
    requires
        clock_for(m.clocks, payload_type) is None,
    ensures
        m.rtp(ssrc, payload_type, empty, len).1 is None,
        m.rtp(ssrc, payload_type, empty, len).0.bound == m.bound,
{
}

/// Arrival packets are counted only for streams with a registered extension, and video
/// arrival only for the provider's 90 kHz payload types.
pub proof fn law_arrival_needs_its_extension(m: BindingsModel, ssrc: u32, payload_type: u8, empty: bool, len: Option<usize>)
    ensures
        m.rtp(ssrc, payload_type, empty, len).0.counters.video_arrival_packets != m.counters.video_arrival_packets
            ==> m.arrival.contains_key(ssrc) && video_payload(m.clocks, payload_type) && (len matches Some(n) && n >= 2),
{
}

/// Waiting sender reports hold at most one per stream and never more than the limit.
pub proof fn law_reports_stay_bounded(m: BindingsModel, ssrc: u32, ntp_time: u64, rtp_time: u32)
    requires
        m.reports.len() <= MAX_CLOCK_REPORTS,
    ensures
        m.sender_report(ssrc, ntp_time, rtp_time).reports.len() <= MAX_CLOCK_REPORTS,
        m.bound.contains_key(ssrc) ==> (forall|i: int|
            0 <= i < m.sender_report(ssrc, ntp_time, rtp_time).reports.len() - 1
                ==> #[trigger] m.sender_report(ssrc, ntp_time, rtp_time).reports[i].ssrc != ssrc),
{
    let others = m.reports.filter(|r: ClockReport| r.ssrc != ssrc);
    m.reports.lemma_filter_len(|r: ClockReport| r.ssrc != ssrc);
    if m.bound.contains_key(ssrc) {
        assert forall|i: int| 0 <= i < others.len() implies #[trigger] others[i].ssrc != ssrc by {
            m.reports.lemma_filter_pred(|r: ClockReport| r.ssrc != ssrc, i);
        }
    }
}

} // verus!
