//! The audio receive path: Opus RTP packets of the negotiated payload type go through
//! `rtc`'s sample builder, which puts them back in order; this side keeps the sequence
//! and timestamp bookkeeping and hands out at most a bounded number of pending packets.
use vstd::prelude::*;

verus! {

/// Decoded-side queue limit: packets waiting for the Opus decoder.
pub const MAX_PENDING_AUDIO_PACKETS: usize = 32;
/// How many packets late the sample builder still waits for.
pub const AUDIO_MAX_LATE_PACKETS: u16 = 32;

/// `rtc`'s Opus sample builder, opaque here: the library only pushes packets into it and
/// takes finished samples out.
#[verifier::external_body]
pub struct OpusSamples {
    builder: rtc::media::io::sample_builder::SampleBuilder<rtc::rtp::codec::opus::OpusPacket>,
}

/// The fields of an audio RTP packet that the receive path reads.
pub struct AudioPacket {
    pub payload_type: u8,
    pub sequence: u16,
    pub timestamp: u32,
    pub marker: bool,
    pub payload: Vec<u8>,
}

/// A sample the builder released: its Opus data, RTP timestamp, and the packets it
/// dropped before it (of which some were padding).
pub struct AudioSample {
    pub data: Vec<u8>,
    pub packet_timestamp: u32,
    pub prev_dropped_packets: u16,
    pub prev_padding_packets: u16,
}

/// What the Opus sample builder holds, as plain values.
pub ghost struct BuilderState {
    /// The clock rate, and the timestamp span (80ms of it) after which a waiting sample
    /// is given up.
    pub sample_rate: u32,
    pub max_late_timestamp: u32,
    /// Its packet slots: sequence number to (timestamp, marker, payload).
    pub buffer: Map<u16, (u32, bool, Seq<u8>)>,
    /// The sequence spans (head, one past the end; empty when equal) it has filled and
    /// that it builds the next sample from.
    pub filled: (u16, u16),
    pub active: (u16, u16),
    /// Samples built and not yet handed out (those between the head and the tail of its
    /// ring), oldest first, as (timestamp, data, packets dropped before it, of which
    /// padding).
    pub prepared: Seq<(u32, Seq<u8>, u16, u16)>,
    /// Packets given up since the last sample, and how many of them were padding.
    pub dropped: u16,
    pub padding: u16,
    pub last_sample_timestamp: Option<u32>,
}

/// The builder's contents.
pub uninterp spec fn builder_contents(samples: OpusSamples) -> BuilderState;

/// The contents after `SampleBuilder::push` of a packet (sequence, timestamp, marker,
/// payload).
pub uninterp spec fn push_step(state: BuilderState, packet: (u16, u32, bool, Seq<u8>)) -> BuilderState;

/// The contents after `SampleBuilder::pop`, and the sample it hands out.
pub uninterp spec fn pop_step(state: BuilderState) -> (BuilderState, Option<(u32, Seq<u8>, u16, u16)>);

/// The sample that a pop hands out for certain, when the source makes it plain: the
/// oldest built sample (while its ring of 65,536 slots is not full); else, with nothing
/// built, the packet at the head of the span it builds from (the filled span when that
/// one is empty), once the packet after it has arrived and its payload is not empty (an
/// Opus packet is a sample of its own).
pub open spec fn sure_release(s: BuilderState) -> Option<(u32, Seq<u8>, u16, u16)> {
    if s.prepared.len() > 0 && s.prepared.len() < 0xFFFF {
        Some(s.prepared[0])
    } else if s.prepared.len() > 0 {
        None
    } else {
        let span = if s.active.0 != s.active.1 { s.active } else { s.filled };
        let head = span.0;
        if span.0 != span.1 && s.buffer.contains_key(head) && s.buffer[head].2.len() > 0
            && s.buffer.contains_key(head.wrapping_add(1)) {
            Some((s.buffer[head].0, s.buffer[head].2, s.dropped, s.padding))
        } else {
            None
        }
    }
}

/// Whether `pos` lies in the span (head, one past the end), the way the builder compares
/// sequence numbers: spans may wrap around the 16-bit circle.
pub open spec fn in_span(span: (u16, u16), pos: u16) -> bool {
    span.0 != span.1 && if span.0 < span.1 {
        span.0 <= pos && pos < span.1
    } else {
        span.0 <= pos || pos < span.1
    }
}

/// The builder's usual shape between calls: nothing built waits, its filled span holds
/// something, and the span it builds from is empty or starts where the filled span
/// starts and ends at or inside its end.
pub open spec fn settled(s: BuilderState) -> bool {
    &&& s.prepared.len() == 0
    &&& s.filled.0 != s.filled.1
    &&& (s.active.0 == s.active.1 || (s.active.0 == s.filled.0 && (s.active.1 == s.filled.1 || in_span(
        s.filled,
        s.active.1,
    ))))
}

/// A settled builder whose oldest packet (not empty) is followed by the next one: a pop
/// builds a sample of that packet alone.
pub open spec fn builds_head(s: BuilderState) -> bool {
    &&& settled(s)
    &&& s.buffer.contains_key(s.filled.0)
    &&& s.buffer[s.filled.0].2.len() > 0
    &&& s.buffer.contains_key(s.filled.0.wrapping_add(1))
}

/// The contents after such a pop: the packet's slot is released, both spans start one
/// further on, and the counts of given-up packets start again.
pub open spec fn after_head_built(s: BuilderState) -> BuilderState {
    let next = s.filled.0.wrapping_add(1);
    BuilderState {
        buffer: s.buffer.remove(s.filled.0),
        filled: (next, s.filled.1),
        active: (next, s.filled.1),
        dropped: 0,
        padding: 0,
        last_sample_timestamp: Some(s.buffer[s.filled.0].0),
        ..s
    }
}

/// The samples that pops hand out one after another from a settled builder, packet by
/// packet from the head of its filled span, while each packet is followed by the next:
/// at most `room` of them.
pub open spec fn head_run(s: BuilderState, room: nat) -> Seq<(u32, Seq<u8>, u16, u16)>
    decreases room,
{
    if room == 0 || !builds_head(s) {
        Seq::empty()
    } else {
        seq![(s.buffer[s.filled.0].0, s.buffer[s.filled.0].2, s.dropped, s.padding)] + head_run(
            after_head_built(s),
            (room - 1) as nat,
        )
    }
}

/// The sequence number `k` places after `base` on the 16-bit circle.
pub open spec fn slot(base: u16, k: int) -> u16 {
    ((base + k) % 0x1_0000) as u16
}

/// In a settled builder whose filled span holds the next `n` packets in sequence, none
/// empty, followed by one more packet, pops release those `n` packets in sequence
/// order, each as a sample of its own: the first carries the packets given up before
/// it, the others none.
pub proof fn law_settled_packets_come_out_in_sequence(s: BuilderState, n: nat, room: nat)
    requires
        settled(s),
        n <= room,
        n < s.filled.1.wrapping_sub(s.filled.0),
        forall|k: int| 0 <= k < n ==> s.buffer.contains_key(#[trigger] slot(s.filled.0, k)) && s.buffer[slot(
            s.filled.0,
            k,
        )].2.len() > 0,
        s.buffer.contains_key(slot(s.filled.0, n as int)),
    ensures
        head_run(s, room).len() >= n,
        forall|k: int| 0 <= k < n ==> #[trigger] head_run(s, room)[k] == (
            s.buffer[slot(s.filled.0, k)].0,
            s.buffer[slot(s.filled.0, k)].2,
            if k == 0 { s.dropped } else { 0u16 },
            if k == 0 { s.padding } else { 0u16 },
        ),
    decreases n,
{
    if n > 0 {
        let head = s.filled.0;
        assert(slot(head, 0) == head);
        assert(slot(head, 1) == head.wrapping_add(1));
        assert(s.buffer.contains_key(slot(head, 0)));
        if n > 1 {
            assert(s.buffer.contains_key(slot(head, 1)));
        }
        assert(builds_head(s));
        let t = after_head_built(s);
        assert(t.filled.1.wrapping_sub(t.filled.0) == s.filled.1.wrapping_sub(s.filled.0) - 1);
        assert(settled(t));
        assert forall|k: int| 0 <= k < n - 1 implies t.buffer.contains_key(#[trigger] slot(t.filled.0, k)) && t.buffer[slot(
            t.filled.0,
            k,
        )].2.len() > 0 by {
            assert(slot(t.filled.0, k) == slot(head, k + 1));
            assert(slot(head, k + 1) != head);
            assert(s.buffer.contains_key(slot(head, k + 1)));
        }
        assert(slot(t.filled.0, n - 1) == slot(head, n as int));
        assert(slot(head, n as int) != head);
        law_settled_packets_come_out_in_sequence(t, (n - 1) as nat, (room - 1) as nat);
        let rest = head_run(t, (room - 1) as nat);
        let first = (s.buffer[head].0, s.buffer[head].2, s.dropped, s.padding);
        assert(head_run(s, room) == seq![first] + rest);
        assert forall|k: int| 0 <= k < n implies #[trigger] head_run(s, room)[k] == (
            s.buffer[slot(s.filled.0, k)].0,
            s.buffer[slot(s.filled.0, k)].2,
            if k == 0 { s.dropped } else { 0u16 },
            if k == 0 { s.padding } else { 0u16 },
        ) by {
            if k > 0 {
                assert(head_run(s, room)[k] == rest[k - 1]);
                assert(slot(t.filled.0, k - 1) == slot(head, k));
                assert(slot(head, k) != head);
                assert(t.buffer[slot(head, k)] == s.buffer[slot(head, k)]);
            }
        }
    }
}

pub open spec fn sample_view(s: AudioSample) -> (u32, Seq<u8>, u16, u16) {
    (s.packet_timestamp, s.data@, s.prev_dropped_packets, s.prev_padding_packets)
}

pub open spec fn packet_view(p: AudioPacket) -> (u16, u32, bool, Seq<u8>) {
    (p.sequence, p.timestamp, p.marker, p.payload@)
}

/// The contents of a builder that holds nothing yet, at the given clock rate.
pub open spec fn empty_builder(sample_rate: u32) -> BuilderState {
    BuilderState {
        sample_rate,
        max_late_timestamp: (sample_rate as nat * 80 / 1000) as u32,
        buffer: Map::empty(),
        filled: (0u16, 0u16),
        active: (0u16, 0u16),
        prepared: Seq::empty(),
        dropped: 0,
        padding: 0,
        last_sample_timestamp: None,
    }
}

/// How far the filled span can reach once a packet with this sequence number joins it:
/// its own length, or its extension back to the packet or forward to it.
pub open spec fn push_reach(filled: (u16, u16), sequence: u16) -> nat {
    let len = filled.1.wrapping_sub(filled.0) as nat;
    let back = filled.1.wrapping_sub(sequence) as nat;
    let ahead = sequence.wrapping_add(1).wrapping_sub(filled.0) as nat;
    let longer = if back >= ahead { back } else { ahead };
    if len >= longer { len } else { longer }
}

/// A push cannot overflow the builder's 16-bit count of given-up packets: each pass of
/// its purge gives up at most one packet and moves the filled head on by one.
pub open spec fn drops_fit(s: BuilderState, sequence: u16) -> bool {
    s.dropped as nat + push_reach(s.filled, sequence) <= u16::MAX as nat
}

/// Makes the Opus sample builder: it waits up to 32 packets, and 80ms of timestamps,
/// for a missing packet (`SampleBuilder::new` with `with_max_time_delay`). It holds
/// nothing yet.
#[verifier::external_body]
fn new_opus_sample_builder(sample_rate: u32) -> (samples: OpusSamples)
    requires
        sample_rate > 0,
    ensures
        builder_contents(samples) == empty_builder(sample_rate),
{
    let builder = rtc::media::io::sample_builder::SampleBuilder::new(
        AUDIO_MAX_LATE_PACKETS,
        rtc::rtp::codec::opus::OpusPacket,
        sample_rate,
    );
    OpusSamples { builder: builder.with_max_time_delay(std::time::Duration::from_millis(80)) }
}

/// Hands a packet to the sample builder (`SampleBuilder::push`). The builder reads the
/// sequence number, timestamp, marker and payload, which the rebuilt packet carries. A
/// zero clock rate would make a sample's duration panic, and so would an overflow of the
/// 16-bit count of given-up packets, which `drops_fit` rules out (for Opus only the purge
/// adds to it, once per packet it moves past).
#[verifier::external_body]
fn push_sample_packet(samples: &mut OpusSamples, packet: AudioPacket)
    requires
        builder_contents(*old(samples)).sample_rate > 0,
        drops_fit(builder_contents(*old(samples)), packet.sequence),
    ensures
        builder_contents(*final(samples)) == push_step(builder_contents(*old(samples)), packet_view(packet)),
        builder_contents(*final(samples)).sample_rate == builder_contents(*old(samples)).sample_rate,
{
    let header = rtc::rtp::header::Header {
        version: 2,
        marker: packet.marker,
        payload_type: packet.payload_type,
        sequence_number: packet.sequence,
        timestamp: packet.timestamp,
        ..Default::default()
    };
    samples.builder.push(std::time::Instant::now(), rtc::rtp::Packet { header, payload: bytes::Bytes::from(packet.payload) });
}

/// The next finished sample of the builder, if any (`SampleBuilder::pop`): the oldest
/// built one, else one built now from the head of its span (see `sure_release`; from a
/// settled builder, the contents after it are `after_head_built`). Release depends only
/// on the packets pushed so far: the time passed to it only stamps the sample, which is
/// not kept.
#[verifier::external_body]
fn pop_sample(samples: &mut OpusSamples) -> (sample: Option<AudioSample>)
    requires
        builder_contents(*old(samples)).sample_rate > 0,
    ensures
        (builder_contents(*final(samples)), match sample {
            Some(s) => Some(sample_view(s)),
            None => None,
        }) == pop_step(builder_contents(*old(samples))),
        builder_contents(*final(samples)).sample_rate == builder_contents(*old(samples)).sample_rate,
        sure_release(builder_contents(*old(samples))) matches Some(x) ==> (sample matches Some(s) && sample_view(s)
            == x),
        builds_head(builder_contents(*old(samples))) ==> builder_contents(*final(samples)) == after_head_built(
            builder_contents(*old(samples)),
        ),
{
    samples.builder.pop(std::time::Instant::now()).map(
        |sample| AudioSample {
            data: sample.data.to_vec(),
            packet_timestamp: sample.packet_timestamp,
            prev_dropped_packets: sample.prev_dropped_packets,
            prev_padding_packets: sample.prev_padding_packets,
        },
    )
}

/// Pops until the builder hands out nothing or `room` samples came out: the contents
/// then, and the samples in order.
pub open spec fn drain(s: BuilderState, room: nat) -> (BuilderState, Seq<(u32, Seq<u8>, u16, u16)>)
    decreases room,
{
    if room == 0 {
        (s, Seq::empty())
    } else {
        match pop_step(s) {
            (t, None) => (t, Seq::empty()),
            (t, Some(x)) => {
                let (u, rest) = drain(t, (room - 1) as nat);
                (u, seq![x] + rest)
            },
        }
    }
}

/// Sequence bookkeeping: a packet ahead of the last one (by less than half the circle)
/// becomes the last and counts the skipped numbers as gaps; one behind it counts as
/// late; a repeat changes nothing. The first packet starts the count.
pub open spec fn sequence_step(last: Option<u16>, sequence: u16) -> (Option<u16>, u64, u64) {
    match last {
        None => (Some(sequence), 0, 0),
        Some(previous) => {
            let forward = sequence.wrapping_sub(previous);
            if forward > 0 && forward < 0x8000 {
                (Some(sequence), (forward - 1) as u64, 0)
            } else if forward >= 0x8000 {
                (last, 0, 1)
            } else {
                (last, 0, 0)
            }
        },
    }
}

/// The newest timestamp seen: replaced by one ahead of it by less than half the circle.
pub open spec fn timestamp_step(latest: Option<u32>, timestamp: u32) -> Option<u32> {
    match latest {
        None => Some(timestamp),
        Some(l) => {
            let forward = timestamp.wrapping_sub(l);
            if forward > 0 && forward < 0x8000_0000 { Some(timestamp) } else { latest }
        },
    }
}

/// Packets lost before the samples: dropped ones that were not padding.
pub open spec fn lost_before(samples: Seq<AudioSample>) -> u64
    decreases samples.len(),
{
    if samples.len() == 0 {
        0
    } else {
        let s = samples.last();
        let dropped = if s.prev_dropped_packets >= s.prev_padding_packets {
            s.prev_dropped_packets - s.prev_padding_packets
        } else {
            0
        };
        let total = lost_before(samples.drop_last()) + dropped;
        if total > u64::MAX { u64::MAX } else { total as u64 }
    }
}

/// How far, in milliseconds, the newest timestamp is ahead of the last sample that is
/// behind it; none when no sample is behind it or the rate is unknown.
pub open spec fn backlog_ms(samples: Seq<AudioSample>, latest: Option<u32>, sample_rate: u32) -> Option<u64>
    decreases samples.len(),
{
    if samples.len() == 0 {
        None
    } else {
        let s = samples.last();
        match latest {
            Some(l) if l.wrapping_sub(s.packet_timestamp) < 0x8000_0000 && sample_rate > 0 => Some(
                (l.wrapping_sub(s.packet_timestamp) as nat * 1000 / sample_rate as nat) as u64,
            ),
            _ => backlog_ms(samples.drop_last(), latest, sample_rate),
        }
    }
}

/// What one packet produced.
pub struct AudioReceiveOutcome {
    /// Samples released for the decoder, oldest first.
    pub samples: Vec<AudioSample>,
    /// Sequence numbers skipped by this packet.
    pub gaps: u64,
    /// 1 when the packet came behind the newest one.
    pub late: u64,
    /// Lead of the newest timestamp over the last released sample, when known.
    pub backlog_ms: Option<u64>,
    /// Packets the builder gave up on before the released samples.
    pub lost: u64,
}

/// Abstract state of the audio receive path.
pub ghost struct AudioModel {
    pub payload_type: u8,
    pub sample_rate: u32,
    pub last_sequence: Option<u16>,
    pub latest_timestamp: Option<u32>,
    /// What the sample builder holds.
    pub builder: BuilderState,
}

pub struct AudioRtp {
    samples: OpusSamples,
    payload_type: u8,
    sample_rate: u32,
    last_sequence: Option<u16>,
    latest_timestamp: Option<u32>,
}

impl View for AudioRtp {
    type V = AudioModel;

    closed spec fn view(&self) -> AudioModel {
        AudioModel {
            payload_type: self.payload_type,
            sample_rate: self.sample_rate,
            last_sequence: self.last_sequence,
            latest_timestamp: self.latest_timestamp,
            builder: builder_contents(self.samples),
        }
    }
}

/// Room for samples while `pending` packets wait for the decoder.
pub open spec fn room_for(pending: usize) -> nat {
    if pending < MAX_PENDING_AUDIO_PACKETS { (MAX_PENDING_AUDIO_PACKETS - pending) as nat } else { 0 }
}

impl AudioRtp {
    /// The builder runs at the path's clock rate, which is positive.
    pub closed spec fn wf(&self) -> bool {
        builder_contents(self.samples).sample_rate == self.sample_rate && self.sample_rate > 0
    }

    pub fn new(sample_rate: u32, payload_type: u8) -> (rtp: Self)
        requires
            sample_rate > 0,
        ensures
            rtp.wf(),
            rtp@ == (AudioModel {
                payload_type,
                sample_rate,
                last_sequence: None,
                latest_timestamp: None,
                builder: empty_builder(sample_rate),
            }),
    {
        AudioRtp {
            samples: new_opus_sample_builder(sample_rate),
            payload_type,
            sample_rate,
            last_sequence: None,
            latest_timestamp: None,
        }
    }

    /// Receives one RTP packet while `pending` packets already wait for the decoder.
    /// Packets of another payload type are ignored. A packet of the negotiated type goes
    /// to the sample builder, and then the builder is popped until it has nothing
    /// finished or the pending packets reach the limit: the outcome's samples are what
    /// those pops handed out, in order. In particular, the sample that the builder owes
    /// (`sure_release`: a built one, or the oldest packet once the one after it is held)
    /// comes out first whenever there is room, and from a settled builder the packets in
    /// sequence from its head come out one by one (`head_run`) as far as room allows.
    /// The packet must not overflow the builder's count of given-up packets
    /// (`drops_fit`), on which `rtc` itself would panic in a debug build.
    pub fn receive(&mut self, packet: AudioPacket, pending: usize) -> (out: AudioReceiveOutcome)
        requires
            old(self).wf(),
            packet.payload_type == old(self)@.payload_type ==> drops_fit(old(self)@.builder, packet.sequence),
        ensures
            final(self).wf(),
            packet.payload_type != old(self)@.payload_type ==> final(self)@ == old(self)@ && out.samples@.len() == 0
                && out.gaps == 0 && out.late == 0 && out.lost == 0 && out.backlog_ms is None,
            packet.payload_type == old(self)@.payload_type ==> {
                let (last, gaps, late) = sequence_step(old(self)@.last_sequence, packet.sequence);
                let latest = timestamp_step(old(self)@.latest_timestamp, packet.timestamp);
                let pushed = push_step(old(self)@.builder, packet_view(packet));
                let (after, taken) = drain(pushed, room_for(pending));
                &&& final(self)@ == (AudioModel {
                    last_sequence: last,
                    latest_timestamp: latest,
                    builder: after,
                    ..old(self)@
                })
                &&& out.samples@.map_values(|s: AudioSample| sample_view(s)) == taken
                &&& (room_for(pending) > 0 && sure_release(pushed) is Some) ==> (out.samples@.len() > 0
                    && sample_view(out.samples@[0]) == sure_release(pushed)->0)
                &&& head_run(pushed, room_for(pending)).len() <= out.samples@.len()
                &&& out.samples@.map_values(|s: AudioSample| sample_view(s)).take(
                    head_run(pushed, room_for(pending)).len() as int,
                ) == head_run(pushed, room_for(pending))
                &&& out.gaps == gaps
                &&& out.late == late
                &&& out.lost == lost_before(out.samples@)
                &&& out.backlog_ms == backlog_ms(out.samples@, latest, old(self)@.sample_rate)
                &&& pending + out.samples@.len() <= MAX_PENDING_AUDIO_PACKETS || out.samples@.len() == 0
            },
    {
        let mut out = AudioReceiveOutcome { samples: Vec::new(), gaps: 0, late: 0, backlog_ms: None, lost: 0 };
        if packet.payload_type != self.payload_type {
            return out;
        }
        let sequence = packet.sequence;
        match self.last_sequence {
            Some(previous) => {
                let forward = sequence.wrapping_sub(previous);
                if forward > 0 && forward < 0x8000 {
                    out.gaps = (forward - 1) as u64;
                    self.last_sequence = Some(sequence);
                } else if forward >= 0x8000 {
                    out.late = 1;
                }
            },
            None => {
                self.last_sequence = Some(sequence);
            },
        }
        let timestamp = packet.timestamp;
        let newer = match self.latest_timestamp {
            Some(latest) => {
                let forward = timestamp.wrapping_sub(latest);
                forward > 0 && forward < 0x8000_0000
            },
            None => true,
        };
        if newer {
            self.latest_timestamp = Some(timestamp);
        }
        let ghost room = room_for(pending);
        push_sample_packet(&mut self.samples, packet);
        let ghost pushed = self@.builder;
        let mut count: usize = pending;
        let ghost settled = self@;
        let ghost counted = (out.gaps, out.late);
        let ghost mut stalled = false;
        let ghost mut aligned = true;
        let ghost run = head_run(pushed, room);
        while count < MAX_PENDING_AUDIO_PACKETS
            invariant_except_break
                !stalled,
            invariant
                self@ == (AudioModel { builder: self@.builder, ..settled }),
                builder_contents(self.samples).sample_rate == self.sample_rate,
                self.sample_rate > 0,
                room == room_for(pending),
                (out.gaps, out.late) == counted,
                count == pending + out.samples@.len(),
                out.samples@.len() <= room,
                pending >= MAX_PENDING_AUDIO_PACKETS ==> out.samples@.len() == 0,
                pending < MAX_PENDING_AUDIO_PACKETS ==> count <= MAX_PENDING_AUDIO_PACKETS,
                out.samples@.len() == 0 && !stalled ==> self@.builder == pushed,
                out.samples@.len() > 0 ==> (sure_release(pushed) matches Some(x) ==> sample_view(out.samples@[0]) == x),
                stalled ==> out.samples@.len() == 0 ==> sure_release(pushed) is None,
                !stalled ==> drain(pushed, room).0 == drain(self@.builder, (room - out.samples@.len()) as nat).0,
                !stalled ==> drain(pushed, room).1 == out.samples@.map_values(|s: AudioSample| sample_view(s)) + drain(
                    self@.builder,
                    (room - out.samples@.len()) as nat,
                ).1,
                stalled ==> drain(pushed, room) == (self@.builder, out.samples@.map_values(|s: AudioSample| sample_view(s))),
                run == head_run(pushed, room),
                stalled ==> !aligned,
                aligned ==> out.samples@.map_values(|s: AudioSample| sample_view(s)) + head_run(
                    self@.builder,
                    (room - out.samples@.len()) as nat,
                ) == run,
                !aligned ==> run.len() <= out.samples@.len() && out.samples@.map_values(|s: AudioSample| sample_view(s)).take(
                    run.len() as int,
                ) == run,
                out.lost == lost_before(out.samples@),
                out.backlog_ms == backlog_ms(out.samples@, self.latest_timestamp, self.sample_rate),
            ensures
                stalled || count >= MAX_PENDING_AUDIO_PACKETS,
            decreases MAX_PENDING_AUDIO_PACKETS - count,
        {
            let ghost before_pop = self@.builder;
            let ghost left = (room - out.samples@.len()) as nat;
            let ghost regular = builds_head(before_pop);
            let ghost view_before = out.samples@.map_values(|s: AudioSample| sample_view(s));
            proof {
                if aligned && !regular {
                    assert(head_run(before_pop, left) == Seq::<(u32, Seq<u8>, u16, u16)>::empty());
                    assert(view_before + Seq::<(u32, Seq<u8>, u16, u16)>::empty() =~= view_before);
                    assert(view_before.take(run.len() as int) =~= run);
                    aligned = false;
                }
            }
            let sample = match pop_sample(&mut self.samples) {
                Some(s) => s,
                None => {
                    proof {
                        let view = out.samples@.map_values(|s: AudioSample| sample_view(s));
                        assert(view + Seq::<(u32, Seq<u8>, u16, u16)>::empty() =~= view);
                        assert(left > 0);
                        assert(pop_step(before_pop) == (self@.builder, None::<(u32, Seq<u8>, u16, u16)>));
                        assert(drain(before_pop, left) == (self@.builder, Seq::<(u32, Seq<u8>, u16, u16)>::empty()));
                        stalled = true;
                        assert(!aligned);
                    }
                    break;
                },
            };
            let ghost x = sample_view(sample);
            match self.latest_timestamp {
                Some(latest) => {
                    let lead = latest.wrapping_sub(sample.packet_timestamp);
                    if lead < 0x8000_0000 && self.sample_rate > 0 {
                        out.backlog_ms = Some((lead as u64) * 1000 / (self.sample_rate as u64));
                    }
                },
                None => {},
            }
            let dropped = sample.prev_dropped_packets.saturating_sub(sample.prev_padding_packets);
            out.lost = out.lost.saturating_add(dropped as u64);
            let ghost before = out.samples@;
            out.samples.push(sample);
            proof {
                assert(out.samples@.drop_last() =~= before);
                assert(out.samples@.map_values(|s: AudioSample| sample_view(s)) =~= before.map_values(
                    |s: AudioSample| sample_view(s),
                ).push(x));
                if aligned {
                    assert(head_run(before_pop, left) == seq![x] + head_run(self@.builder, (left - 1) as nat));
                    assert(view_before.push(x) + head_run(self@.builder, (left - 1) as nat) =~= view_before + (seq![x]
                        + head_run(self@.builder, (left - 1) as nat)));
                } else {
                    assert(view_before.push(x).take(run.len() as int) =~= view_before.take(run.len() as int));
                }
                let rest = drain(self@.builder, (left - 1) as nat).1;
                assert(before.map_values(|s: AudioSample| sample_view(s)) + (seq![x] + rest) =~= before.map_values(
                    |s: AudioSample| sample_view(s),
                ).push(x) + rest);
            }
            count += 1;
        }
        proof {
            let view = out.samples@.map_values(|s: AudioSample| sample_view(s));
            if !stalled {
                assert(out.samples@.len() == room);
                assert(view + Seq::<(u32, Seq<u8>, u16, u16)>::empty() =~= view);
            }
            if aligned {
                assert(!stalled);
                assert(head_run(self@.builder, 0) == Seq::<(u32, Seq<u8>, u16, u16)>::empty());
                assert(view.take(run.len() as int) =~= run);
            }
        }
        out
    }
}

} // verus!
