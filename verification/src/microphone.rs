//! Session-local microphone state. Mute and final RTP admission are decided together:
//! no clip survives a mute, an unmute or a reconnect, and a stalled sender drops
//! audio rather than accumulating a delayed conversation.
//!
//! The caller holds this state under one lock, keeps the captured peak level beside it,
//! and sends the clips `next_sendable` hands out.
use vstd::prelude::*;
use std::collections::VecDeque;
use crate::rtc::reorder::{bump, elapsed};
use crate::text::{decimal, push_decimal, push_str};

verus! {

pub const MAX_PENDING_CLIPS: usize = 3;
/// A clip older than this is never sent.
pub const MAX_CLIP_AGE_US: u64 = 80_000;
/// How long a captured level stays current.
pub const LEVEL_FRESH_US: u64 = 250_000;

/// Permission to capture, valid until the next mute, unmute or readiness change.
#[derive(Clone, Copy, Debug, PartialEq, Eq, Structural)]
pub struct CaptureTicket {
    pub epoch: u64,
}

/// One encoded voice clip.
pub struct VoiceClip {
    pub ticket: CaptureTicket,
    pub captured_at_us: u64,
    pub timestamp: u32,
    pub opus: Vec<u8>,
}

/// Abstract microphone state.
pub ghost struct MicModel {
    /// The audio uplink exists.
    pub ready: bool,
    /// The user unmuted.
    pub on: bool,
    pub epoch: u64,
    pub pending: Seq<VoiceClip>,
    pub level_at: Option<u64>,
    pub sent: u64,
    pub discarded: u64,
    pub error: Option<Seq<char>>,
}

impl MicModel {
    pub open spec fn wf(self) -> bool {
        self.pending.len() <= MAX_PENDING_CLIPS
    }

    /// Sending `clip` at `now` is still wanted.
    pub open spec fn sendable(self, clip: VoiceClip, now: u64) -> bool {
        &&& self.ready
        &&& self.on
        &&& self.epoch == clip.ticket.epoch
        &&& elapsed(now, clip.captured_at_us) <= MAX_CLIP_AGE_US
    }

    /// How many clips at the front of the queue are no longer wanted.
    pub open spec fn unwanted_prefix(self, q: Seq<VoiceClip>, now: u64) -> nat
        decreases q.len(),
    {
        if q.len() == 0 || self.sendable(q[0], now) {
            0
        } else {
            1 + self.unwanted_prefix(q.drop_first(), now)
        }
    }

    /// A clip with this ticket would be queued.
    pub open spec fn accepts(self, ticket: CaptureTicket) -> bool {
        self.ready && self.on && self.epoch == ticket.epoch
    }

    pub open spec fn after_set_ready(self, ready: bool) -> Self {
        MicModel {
            ready,
            on: false,
            epoch: self.epoch.wrapping_add(1),
            error: if ready { None } else { self.error },
            pending: Seq::empty(),
            level_at: None,
            ..self
        }
    }

    /// Muting always succeeds; unmuting needs the uplink.
    pub open spec fn after_set_on(self, on: bool) -> Self {
        if on && !self.ready {
            self
        } else {
            MicModel {
                on,
                epoch: if on != self.on { self.epoch.wrapping_add(1) } else { self.epoch },
                pending: if on != self.on { Seq::empty() } else { self.pending },
                level_at: None,
                ..self
            }
        }
    }

    pub open spec fn status_text(self) -> Seq<char> {
        match self.error {
            Some(error) => "Mic unavailable: "@ + error,
            None => if !self.ready {
                "Mic: waiting for audio uplink"@
            } else if !self.on {
                "Mic off"@
            } else {
                "Mic on \u{b7} sent "@ + decimal(self.sent as nat) + " \u{b7} dropped "@ + decimal(
                    self.discarded as nat,
                )
            },
        }
    }
}

/// The microphone state.
pub struct Microphone {
    ready: bool,
    on: bool,
    epoch: u64,
    pending: VecDeque<VoiceClip>,
    level_at: Option<u64>,
    sent: u64,
    discarded: u64,
    error: Option<String>,
}

impl View for Microphone {
    type V = MicModel;

    closed spec fn view(&self) -> MicModel {
        MicModel {
            ready: self.ready,
            on: self.on,
            epoch: self.epoch,
            pending: self.pending@,
            level_at: self.level_at,
            sent: self.sent,
            discarded: self.discarded,
            error: match self.error {
                Some(e) => Some(e@),
                None => None,
            },
        }
    }
}

impl Microphone {
    pub fn new() -> (mic: Self)
        ensures
            mic@ == (MicModel {
                ready: false,
                on: false,
                epoch: 0,
                pending: Seq::empty(),
                level_at: None,
                sent: 0,
                discarded: 0,
                error: None,
            }),
    {
        Microphone {
            ready: false,
            on: false,
            epoch: 0,
            pending: VecDeque::new(),
            level_at: None,
            sent: 0,
            discarded: 0,
            error: None,
        }
    }

    pub fn available(&self) -> (ready: bool)
        ensures
            ready == self@.ready,
    {
        self.ready
    }

    pub fn is_on(&self) -> (on: bool)
        ensures
            on == self@.on,
    {
        self.on
    }

    /// The uplink appeared or went away. Either way the microphone is muted, every
    /// outstanding ticket and queued clip becomes invalid, and readiness clears any error.
    pub fn set_ready(&mut self, ready: bool)
        ensures
            final(self)@ == old(self)@.after_set_ready(ready),
    {
        self.ready = ready;
        self.on = false;
        self.epoch = self.epoch.wrapping_add(1);
        if ready {
            self.error = None;
        }
        self.pending.clear();
        self.level_at = None;
    }

    /// The uplink failed with `error`.
    pub fn fail(&mut self, error: String)
        ensures
            final(self)@ == (MicModel {
                ready: false,
                on: false,
                epoch: old(self)@.epoch.wrapping_add(1),
                error: Some(error@),
                pending: Seq::empty(),
                level_at: None,
                ..old(self)@
            }),
    {
        self.set_ready(false);
        self.error = Some(error);
    }

    /// Mute or unmute. Unmuting needs the uplink; a change of state invalidates every
    /// outstanding ticket and queued clip.
    pub fn set_on(&mut self, on: bool) -> (changed: bool)
        ensures
            changed == (!on || old(self)@.ready),
            final(self)@ == old(self)@.after_set_on(on),
    {
        if on && !self.ready {
            return false;
        }
        if self.on != on {
            self.epoch = self.epoch.wrapping_add(1);
            self.pending.clear();
        }
        self.on = on;
        self.level_at = None;
        true
    }

    /// A ticket for the next capture, while unmuted with an uplink.
    pub fn begin_capture(&self) -> (ticket: Option<CaptureTicket>)
        ensures
            ticket == (if self@.ready && self@.on { Some(CaptureTicket { epoch: self@.epoch }) } else { None }),
    {
        if self.ready && self.on {
            Some(CaptureTicket { epoch: self.epoch })
        } else {
            None
        }
    }

    /// Queue a captured clip at `now`, dropping the oldest beyond three. Returns whether
    /// the clip was taken; a clip of an older ticket never is.
    pub fn publish(&mut self, clip: VoiceClip, now_us: u64) -> (accepted: bool)
        requires
            old(self)@.wf(),
        ensures
            final(self)@.wf(),
            accepted == old(self)@.accepts(clip.ticket),
            !accepted ==> final(self)@ == old(self)@,
            accepted ==> final(self)@ == (MicModel {
                pending: if old(self)@.pending.len() == MAX_PENDING_CLIPS {
                    old(self)@.pending.drop_first().push(clip)
                } else {
                    old(self)@.pending.push(clip)
                },
                discarded: if old(self)@.pending.len() == MAX_PENDING_CLIPS {
                    bump(old(self)@.discarded, 1)
                } else {
                    old(self)@.discarded
                },
                level_at: Some(now_us),
                ..old(self)@
            }),
    {
        if !self.ready || !self.on || self.epoch != clip.ticket.epoch {
            return false;
        }
        if self.pending.len() == MAX_PENDING_CLIPS {
            self.pending.pop_front();
            self.discarded = self.discarded.saturating_add(1);
            assert(self.pending@ =~= old(self)@.pending.drop_first());
        }
        self.level_at = Some(now_us);
        self.pending.push_back(clip);
        true
    }

    /// The oldest queued clip still worth sending at `now`, removed from the queue;
    /// the unwanted clips before it are discarded. `None` once the queue is empty.
    pub fn next_sendable(&mut self, now_us: u64) -> (clip: Option<VoiceClip>)
        requires
            old(self)@.wf(),
        ensures
            final(self)@.wf(),
            ({
                let m = old(self)@;
                let skip = m.unwanted_prefix(m.pending, now_us);
                if skip < m.pending.len() {
                    &&& clip == Some(m.pending[skip as int])
                    &&& final(self)@ == (MicModel {
                        pending: m.pending.skip(skip + 1int),
                        discarded: bump(m.discarded, skip as int),
                        ..m
                    })
                } else {
                    &&& clip is None
                    &&& final(self)@ == (MicModel {
                        pending: Seq::empty(),
                        discarded: bump(m.discarded, m.pending.len() as int),
                        ..m
                    })
                }
            }),
    {
        let ghost m = old(self)@;
        let ghost mut skipped: nat = 0;
        assert(m.pending.skip(0) =~= m.pending);
        loop
            invariant
                self@ == (MicModel {
                    pending: m.pending.skip(skipped as int),
                    discarded: bump(m.discarded, skipped as int),
                    ..m
                }),
                skipped <= m.pending.len(),
                m == old(self)@,
                m.wf(),
                m.unwanted_prefix(m.pending, now_us) == skipped + m.unwanted_prefix(m.pending.skip(skipped as int), now_us),
            decreases m.pending.len() - skipped,
        {
            let ghost rest = self.pending@;
            match self.pending.pop_front() {
                None => {
                    assert(m.pending.skip(skipped as int).len() == 0);
                    assert(skipped == m.pending.len());
                    assert(self.pending@ =~= Seq::<VoiceClip>::empty());
                    return None;
                },
                Some(clip) => {
                    let wanted = self.ready && self.on && self.epoch == clip.ticket.epoch && (if now_us
                        >= clip.captured_at_us { now_us - clip.captured_at_us } else { 0 }) <= MAX_CLIP_AGE_US;
                    assert(rest[0] == clip);
                    assert(rest == m.pending.skip(skipped as int));
                    assert(wanted == m.sendable(rest[0], now_us));
                    if wanted {
                        assert(m.sendable(rest[0], now_us));
                        assert(self.pending@ =~= m.pending.skip(skipped as int + 1));
                        assert(m.pending[skipped as int] == clip);
                        return Some(clip);
                    }
                    self.discarded = self.discarded.saturating_add(1);
                    proof {
                        assert(rest.drop_first() =~= m.pending.skip(skipped as int + 1));
                        assert(m.unwanted_prefix(rest, now_us) == 1 + m.unwanted_prefix(rest.drop_first(), now_us));
                        assert(self.pending@ =~= rest.drop_first());
                        skipped = skipped + 1;
                    }
                },
            }
        }
    }

    /// The outcome of sending a clip handed out by `next_sendable`.
    pub fn sent(&mut self, accepted: bool)
        ensures
            final(self)@ == (MicModel {
                sent: if accepted { bump(old(self)@.sent, 1) } else { old(self)@.sent },
                discarded: if accepted { old(self)@.discarded } else { bump(old(self)@.discarded, 1) },
                ..old(self)@
            }),
    {
        if accepted {
            self.sent = self.sent.saturating_add(1);
        } else {
            self.discarded = self.discarded.saturating_add(1);
        }
    }

    /// Whether the last captured level is current: unmuted, and captured within 250ms.
    pub fn level_fresh(&self, now_us: u64) -> (fresh: bool)
        ensures
            fresh == (self@.on && (self@.level_at matches Some(at) && elapsed(now_us, at) < LEVEL_FRESH_US)),
    {
        self.on && match self.level_at {
            Some(at) => (if now_us >= at { now_us - at } else { 0 }) < LEVEL_FRESH_US,
            None => false,
        }
    }

    pub fn status(&self) -> (text: String)
        ensures
            text@ == self@.status_text(),
    {
        let mut text = String::new();
        match &self.error {
            Some(error) => {
                push_str(&mut text, "Mic unavailable: ");
                push_str(&mut text, error.as_str());
            },
            None => {
                if !self.ready {
                    push_str(&mut text, "Mic: waiting for audio uplink");
                } else if !self.on {
                    push_str(&mut text, "Mic off");
                } else {
                    push_str(&mut text, "Mic on \u{b7} sent ");
                    push_decimal(&mut text, self.sent as u128);
                    push_str(&mut text, " \u{b7} dropped ");
                    push_decimal(&mut text, self.discarded as u128);
                }
            },
        }
        text
    }
}

impl Default for Microphone {
    fn default() -> (mic: Self)
        ensures
            mic@ == (MicModel {
                ready: false,
                on: false,
                epoch: 0,
                pending: Seq::empty(),
                level_at: None,
                sent: 0,
                discarded: 0,
                error: None,
            }),
    {
        Microphone::new()
    }
}

proof fn lemma_prefix_ends_at_wanted(m: MicModel, q: Seq<VoiceClip>, now: u64)
    ensures
        m.unwanted_prefix(q, now) <= q.len(),
        m.unwanted_prefix(q, now) < q.len() ==> m.sendable(q[m.unwanted_prefix(q, now) as int], now),
    decreases q.len(),
{
    if q.len() > 0 && !m.sendable(q[0], now) {
        lemma_prefix_ends_at_wanted(m, q.drop_first(), now);
    }
}

/// Only a clip of the current ticket, captured at most 80ms ago while unmuted with an
/// uplink, is ever handed out for sending.
pub proof fn law_only_current_fresh_audio_is_sent(m: MicModel, now: u64)
    ensures
        m.unwanted_prefix(m.pending, now) < m.pending.len() ==> m.sendable(
            m.pending[m.unwanted_prefix(m.pending, now) as int],
            now,
        ),
{
    lemma_prefix_ends_at_wanted(m, m.pending, now);
}

/// Muting or unmuting drops every queued clip and invalidates every outstanding ticket.
pub proof fn law_toggle_discards_queued_audio(m: MicModel, on: bool)
    requires
        on != m.on,
        !on || m.ready,
    ensures
        m.after_set_on(on).pending.len() == 0,
        m.after_set_on(on).epoch != m.epoch,
{
}

/// A clip captured before a mute is refused even after the microphone is unmuted again.
pub proof fn law_capture_before_mute_is_refused_after_unmute(m: MicModel, ticket: CaptureTicket)
    requires
        m.accepts(ticket),
    ensures
        !m.after_set_on(false).after_set_on(true).accepts(ticket),
{
}

/// A new or lost uplink always leaves the microphone muted, with nothing queued and
/// every earlier ticket refused.
pub proof fn law_reconnect_requires_explicit_unmute(m: MicModel, ready: bool, ticket: CaptureTicket)
    requires
        ticket.epoch == m.epoch,
    ensures
        !m.after_set_ready(ready).on,
        m.after_set_ready(ready).pending.len() == 0,
        !m.after_set_ready(ready).accepts(ticket),
{
}

} // verus!
