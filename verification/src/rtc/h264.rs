//! H.264 RTP access-unit checks: fragment structure and why an unfinished unit is abandoned.
use vstd::prelude::*;
use bytes::Bytes;

verus! {

/// Why an access unit did not reach the decoder.
#[derive(Clone, Copy, PartialEq, Eq, Debug)]
pub enum DropReason {
    MissingSequence,
    IncompleteFuA,
    Malformed,
    QueueFull,
    SpsRejected,
    IdrWait,
    Other,
}

/// Trace code of a drop reason (its declaration index).
pub open spec fn drop_code(reason: DropReason) -> u64 {
    match reason {
        DropReason::MissingSequence => 0,
        DropReason::IncompleteFuA => 1,
        DropReason::Malformed => 2,
        DropReason::QueueFull => 3,
        DropReason::SpsRejected => 4,
        DropReason::IdrWait => 5,
        DropReason::Other => 6,
    }
}

impl DropReason {
    /// The numeric code recorded in the pipeline trace.
    pub fn code(self) -> (code: u64)
        ensures
            code == drop_code(self),
    {
        match self {
            DropReason::MissingSequence => 0,
            DropReason::IncompleteFuA => 1,
            DropReason::Malformed => 2,
            DropReason::QueueFull => 3,
            DropReason::SpsRejected => 4,
            DropReason::IdrWait => 5,
            DropReason::Other => 6,
        }
    }
}

/// One authenticated RTP packet of the video stream.
pub struct VideoPacket {
    pub sequence: u16,
    pub timestamp: u32,
    pub marker: bool,
    pub payload: Vec<u8>,
}

/// NAL unit type of a payload header byte.
pub open spec fn nal_type(header: u8) -> u8 {
    header & 0x1f
}

/// Single NAL unit types that may stand alone or inside a STAP-A.
pub open spec fn is_single_nal(header: u8) -> bool {
    1 <= nal_type(header) <= 23
}

/// The aggregated units of a STAP-A payload, read from `offset`, each a 16-bit
/// big-endian nonzero size followed by a single NAL unit of that size.
pub open spec fn stap_units_ok(payload: Seq<u8>, offset: int) -> bool
    decreases payload.len() - offset,
{
    if offset < 0 || offset >= payload.len() {
        offset >= 0
    } else if offset + 2 > payload.len() {
        false
    } else {
        let size = payload[offset] as int * 256 + payload[offset + 1] as int;
        &&& size != 0
        &&& offset + 2 + size <= payload.len()
        &&& is_single_nal(payload[offset + 2])
        &&& stap_units_ok(payload, offset + 2 + size)
    }
}

/// FU-A in progress: (forbidden/NRI bits of the indicator, fragmented NAL type).
pub type FragmentKey = (u8, u8);

/// Effect of one payload on the open FU-A, or the reason the unit is rejected.
pub open spec fn fragment_step(open: Option<FragmentKey>, payload: Seq<u8>) -> Result<Option<FragmentKey>, DropReason> {
    if payload.len() < 2 {
        Err(DropReason::Malformed)
    } else if is_single_nal(payload[0]) {
        if open is Some { Err(DropReason::IncompleteFuA) } else { Ok(None) }
    } else if nal_type(payload[0]) == 24 {
        if open is Some {
            Err(DropReason::IncompleteFuA)
        } else if stap_units_ok(payload, 1) {
            Ok(None)
        } else {
            Err(DropReason::Malformed)
        }
    } else if nal_type(payload[0]) == 28 {
        let flags = payload[1];
        let start = flags & 0x80 != 0;
        let end = flags & 0x40 != 0;
        let kind = flags & 0x1f;
        if payload.len() < 3 || flags & 0x20 != 0 || (start && end) || !(1 <= kind <= 23) {
            Err(DropReason::Malformed)
        } else {
            let key = (payload[0] & 0xe0, kind);
            if start {
                if open is Some { Err(DropReason::IncompleteFuA) } else { Ok(Some(key)) }
            } else if open != Some(key) {
                Err(DropReason::IncompleteFuA)
            } else if end {
                Ok(None)
            } else {
                Ok(open)
            }
        }
    } else {
        Err(DropReason::Malformed)
    }
}

/// Fragment state after the payloads, in order, or the first rejection.
pub open spec fn fragments_scan(payloads: Seq<Seq<u8>>) -> Result<Option<FragmentKey>, DropReason>
    decreases payloads.len(),
{
    if payloads.len() == 0 {
        Ok(None)
    } else {
        match fragments_scan(payloads.drop_last()) {
            Err(reason) => Err(reason),
            Ok(open) => fragment_step(open, payloads.last()),
        }
    }
}

/// An access unit's payloads are well formed: every unit is complete, STAP-A sizes
/// fit, and every FU-A that starts also ends, with no foreign unit in between.
pub open spec fn fragments_verdict(payloads: Seq<Seq<u8>>) -> Result<(), DropReason> {
    match fragments_scan(payloads) {
        Err(reason) => Err(reason),
        Ok(Some(_)) => Err(DropReason::IncompleteFuA),
        Ok(None) => Ok(()),
    }
}

proof fn lemma_fragment_flag_bits(f: u8)
    by (bit_vector)
    ensures
        f & 0xe0 == 0x80 ==> (f & 0x80 != 0 && f & 0x40 == 0 && f & 0x20 == 0),
        f & 0xe0 == 0x40 ==> (f & 0x80 == 0 && f & 0x40 != 0 && f & 0x20 == 0),
        f & 0xe0 == 0 ==> (f & 0x80 == 0 && f & 0x40 == 0 && f & 0x20 == 0),
{
}

/// The bytes of one FU-A fragment: indicator type 28 with the given NRI bits, and an FU
/// header of the given NAL type whose start/end/reserved bits are `position`.
pub open spec fn fu_a_fragment(payload: Seq<u8>, nri: u8, kind: u8, position: u8) -> bool {
    &&& payload.len() >= 3
    &&& payload[0] & 0x1f == 28
    &&& payload[0] & 0xe0 == nri
    &&& payload[1] & 0x1f == kind
    &&& payload[1] & 0xe0 == position
}

/// One NAL unit sent as FU-A fragments: a start fragment (start bit 0x80), any number of
/// middle fragments (no start or end bit), then an end fragment (end bit 0x40), all
/// with one indicator and NAL type, and nothing else in the unit. Such a unit is
/// accepted, whatever the number of middle fragments.
pub proof fn law_fu_a_run_is_accepted(payloads: Seq<Seq<u8>>, nri: u8, kind: u8)
    requires
        payloads.len() >= 2,
        1 <= kind <= 23,
        fu_a_fragment(payloads[0], nri, kind, 0x80),
        forall|j: int| 0 < j < payloads.len() - 1 ==> fu_a_fragment(#[trigger] payloads[j], nri, kind, 0),
        fu_a_fragment(payloads.last(), nri, kind, 0x40),
    ensures
        fragments_verdict(payloads) == Ok::<(), DropReason>(()),
{
    let n = payloads.len() as int;
    lemma_fu_a_prefix_open(payloads, nri, kind, n - 1);
    assert(payloads.drop_last() =~= payloads.take(n - 1));
    let f = payloads.last()[1];
    lemma_fragment_flag_bits(f);
}

proof fn lemma_fu_a_prefix_open(payloads: Seq<Seq<u8>>, nri: u8, kind: u8, m: int)
    requires
        payloads.len() >= 2,
        1 <= m <= payloads.len() - 1,
        1 <= kind <= 23,
        fu_a_fragment(payloads[0], nri, kind, 0x80),
        forall|j: int| 0 < j < payloads.len() - 1 ==> fu_a_fragment(#[trigger] payloads[j], nri, kind, 0),
    ensures
        fragments_scan(payloads.take(m)) == Ok::<Option<FragmentKey>, DropReason>(Some((nri, kind))),
    decreases m,
{
    let p = payloads[m - 1];
    assert(payloads.take(m).drop_last() =~= payloads.take(m - 1));
    assert(payloads.take(m).last() == p);
    lemma_fragment_flag_bits(p[1]);
    if m == 1 {
        assert(payloads.take(0) =~= Seq::<Seq<u8>>::empty());
    } else {
        lemma_fu_a_prefix_open(payloads, nri, kind, m - 1);
        assert(fu_a_fragment(payloads[m - 1], nri, kind, 0));
    }
}

proof fn lemma_scan_error_persists(payloads: Seq<Seq<u8>>, n: int)
    requires
        0 <= n <= payloads.len(),
        fragments_scan(payloads.take(n)) is Err,
    ensures
        fragments_scan(payloads) == fragments_scan(payloads.take(n)),
    decreases payloads.len() - n,
{
    if n < payloads.len() {
        assert(payloads.take(n + 1).drop_last() =~= payloads.take(n));
        lemma_scan_error_persists(payloads, n + 1);
    } else {
        assert(payloads.take(n) =~= payloads);
    }
}

fn stap_units_valid(payload: &Vec<u8>) -> (ok: bool)
    requires
        payload@.len() >= 1,
    ensures
        ok == stap_units_ok(payload@, 1),
{
    let mut offset: usize = 1;
    while offset < payload.len()
        invariant
            1 <= offset <= payload@.len(),
            stap_units_ok(payload@, 1) == stap_units_ok(payload@, offset as int),
        decreases payload@.len() - offset,
    {
        if payload.len() - offset < 2 {
            return false;
        }
        let size = payload[offset] as usize * 256 + payload[offset + 1] as usize;
        let start = offset + 2;
        if size == 0 || size > payload.len() - start {
            return false;
        }
        if !(1 <= payload[start] & 0x1f && payload[start] & 0x1f <= 23) {
            return false;
        }
        offset = start + size;
    }
    true
}

// The rtc-rs depacketizer buffers FU-A bytes until an end fragment but does not require a
// start fragment or reject a frame ending mid-FU. Check both before sending an AU to AVCDEC.
/// Checks the fragment structure of an access unit's payloads, in sequence order.
pub fn validate_h264_rtp_fragments(payloads: &[Vec<u8>]) -> (verdict: Result<(), DropReason>)
    ensures
        verdict == fragments_verdict(payloads@.map_values(|p: Vec<u8>| p@)),
{
    let ghost all = payloads@.map_values(|p: Vec<u8>| p@);
    let mut open: Option<FragmentKey> = None;
    let mut k: usize = 0;
    while k < payloads.len()
        invariant
            k <= payloads@.len(),
            all == payloads@.map_values(|p: Vec<u8>| p@),
            fragments_scan(all.take(k as int)) == Ok::<Option<FragmentKey>, DropReason>(open),
        decreases payloads@.len() - k,
    {
        assert(all.take(k as int + 1).drop_last() =~= all.take(k as int));
        assert(all.take(k as int + 1).last() == payloads@[k as int]@);
        let payload = &payloads[k];
        proof {
            if fragments_scan(all.take(k as int + 1)) is Err {
                lemma_scan_error_persists(all, k as int + 1);
            }
        }
        if payload.len() < 2 {
            return Err(DropReason::Malformed);
        }
        let kind = payload[0] & 0x1f;
        if 1 <= kind && kind <= 23 {
            if open.is_some() {
                return Err(DropReason::IncompleteFuA);
            }
        } else if kind == 24 {
            if open.is_some() {
                return Err(DropReason::IncompleteFuA);
            }
            if !stap_units_valid(payload) {
                return Err(DropReason::Malformed);
            }
        } else if kind == 28 {
            if payload.len() < 3 {
                return Err(DropReason::Malformed);
            }
            let flags = payload[1];
            let start = flags & 0x80 != 0;
            let end = flags & 0x40 != 0;
            let fragment_type = flags & 0x1f;
            if flags & 0x20 != 0 || (start && end) || !(1 <= fragment_type && fragment_type <= 23) {
                return Err(DropReason::Malformed);
            }
            let key = (payload[0] & 0xe0, fragment_type);
            if start {
                if open.is_some() {
                    return Err(DropReason::IncompleteFuA);
                }
                open = Some(key);
            } else {
                match open {
                    Some(current) => {
                        if current.0 != key.0 || current.1 != key.1 {
                            return Err(DropReason::IncompleteFuA);
                        }
                    },
                    None => {
                        return Err(DropReason::IncompleteFuA);
                    },
                }
            }
            if end {
                open = None;
            }
        } else {
            return Err(DropReason::Malformed);
        }
        k += 1;
    }
    assert(all.take(payloads@.len() as int) =~= all);
    if open.is_some() {
        Err(DropReason::IncompleteFuA)
    } else {
        Ok(())
    }
}

/// Distance of `sequence` before the marker packet.
pub open spec fn before_marker(marker: u16, sequence: u16) -> int {
    marker.wrapping_sub(sequence) as int
}

/// Largest distance before the marker among `sequences` (the earliest packet).
pub open spec fn earliest_distance(sequences: Seq<u16>, marker: u16) -> int
    decreases sequences.len(),
{
    if sequences.len() == 0 {
        0
    } else {
        let rest = earliest_distance(sequences.drop_last(), marker);
        let d = before_marker(marker, sequences.last());
        if sequences.len() == 1 || d > rest { d } else { rest }
    }
}

/// Ordered by distance before the marker, the sequences form one gap-free run
/// without repeats: their distances are distinct and all within `len` of the earliest.
pub open spec fn gap_free_before_marker(sequences: Seq<u16>, marker: u16) -> bool {
    let top = earliest_distance(sequences, marker);
    &&& forall|i: int| 0 <= i < sequences.len()
        ==> top - sequences.len() < before_marker(marker, #[trigger] sequences[i])
    &&& forall|i: int, j: int| 0 <= i < j < sequences.len()
        ==> before_marker(marker, sequences[i]) != before_marker(marker, sequences[j])
}

pub open spec fn is_fu(payload: Seq<u8>) -> bool {
    payload.len() >= 1 && nal_type(payload[0]) == 28
}

pub open spec fn is_fu_start(payload: Seq<u8>) -> bool {
    is_fu(payload) && payload.len() >= 2 && payload[1] & 0x80 != 0
}

pub open spec fn is_fu_end(payload: Seq<u8>) -> bool {
    is_fu(payload) && payload.len() >= 2 && payload[1] & 0x40 != 0
}

/// Abstract view of an unfinished access unit.
pub ghost struct FrameModel {
    pub timestamp: u32,
    pub first_packet_at_us: u64,
    pub packets: Seq<VideoPacket>,
    pub marker: Option<u16>,
    pub bytes: usize,
}

impl FrameModel {
    pub open spec fn sequences(self) -> Seq<u16> {
        self.packets.map_values(|p: VideoPacket| p.sequence)
    }

    pub open spec fn payloads(self) -> Seq<Seq<u8>> {
        self.packets.map_values(|p: VideoPacket| p.payload@)
    }

    /// Why this unit is abandoned when a newer timestamp arrives before it completes:
    /// a missing or out-of-place packet before the marker, or an unfinished FU-A.
    pub open spec fn abandonment(self, expected: Option<u16>) -> DropReason {
        let sequences = self.sequences();
        let payloads = self.payloads();
        let fu_start = exists|k: int| 0 <= k < payloads.len() && is_fu_start(#[trigger] payloads[k]);
        let fu_end = exists|k: int| 0 <= k < payloads.len() && is_fu_end(#[trigger] payloads[k]);
        let any_fu = exists|k: int| 0 <= k < payloads.len() && is_fu(#[trigger] payloads[k]);
        if self.marker matches Some(m) && (!gap_free_before_marker(sequences, m) || (expected matches Some(e)
            && before_marker(m, e) != earliest_distance(sequences, m))) {
            DropReason::MissingSequence
        } else if (fu_start && !fu_end) || (!fu_start && any_fu) {
            DropReason::IncompleteFuA
        } else {
            DropReason::MissingSequence
        }
    }

    /// The packets follow one another without a gap.
    pub open spec fn contiguous(self) -> bool {
        forall|i: int| 0 < i < self.sequences().len() ==> #[trigger] self.sequences()[i] == self.sequences()[i
            - 1].wrapping_add(1)
    }

    /// The unit can be assembled: its marker arrived, it starts with the expected
    /// sequence number at the head of a NAL unit, and it has no gap.
    pub open spec fn assemblable(self, expected: Option<u16>) -> bool {
        &&& self.marker is Some
        &&& self.packets.len() > 0
        &&& !(expected matches Some(e) && self.sequences()[0] != e)
        &&& partition_head(self.payloads()[0])
        &&& self.contiguous()
    }
}

/// Packets of one RTP timestamp, in arrival order, not yet a complete access unit.
pub struct PendingVideoFrame {
    pub timestamp: u32,
    pub first_packet_at_us: u64,
    pub packets: Vec<VideoPacket>,
    pub marker: Option<u16>,
    pub bytes: usize,
}

impl View for PendingVideoFrame {
    type V = FrameModel;

    open spec fn view(&self) -> FrameModel {
        FrameModel {
            timestamp: self.timestamp,
            first_packet_at_us: self.first_packet_at_us,
            packets: self.packets@,
            marker: self.marker,
            bytes: self.bytes,
        }
    }
}

impl PendingVideoFrame {
    pub open spec fn sequences(&self) -> Seq<u16> {
        self@.sequences()
    }

    pub open spec fn payloads(&self) -> Seq<Seq<u8>> {
        self@.payloads()
    }

    pub open spec fn abandonment(&self, expected: Option<u16>) -> DropReason {
        self@.abandonment(expected)
    }

    pub open spec fn contiguous(&self) -> bool {
        self@.contiguous()
    }

    pub open spec fn assemblable(&self, expected: Option<u16>) -> bool {
        self@.assemblable(expected)
    }

    /// A unit started by its first packet.
    pub fn new(packet: VideoPacket, now_us: u64) -> (frame: Self)
        ensures
            frame.timestamp == packet.timestamp,
            frame.first_packet_at_us == now_us,
            frame.packets@ == seq![packet],
            frame.marker == (if packet.marker { Some(packet.sequence) } else { None::<u16> }),
            frame.bytes == packet.payload@.len(),
    {
        let marker = if packet.marker { Some(packet.sequence) } else { None };
        let bytes = packet.payload.len();
        let timestamp = packet.timestamp;
        let mut packets = Vec::new();
        packets.push(packet);
        PendingVideoFrame { timestamp, first_packet_at_us: now_us, packets, marker, bytes }
    }

    /// Appends a packet that follows the last one (within half the sequence circle);
    /// otherwise leaves the unit unchanged and returns false.
    pub fn insert(&mut self, packet: VideoPacket) -> (accepted: bool)
        ensures
            accepted == (old(self).packets@.len() == 0 || 0 < packet.sequence.wrapping_sub(
                old(self).packets@.last().sequence,
            ) < 0x8000),
            accepted ==> final(self).packets@ == old(self).packets@.push(packet)
                && final(self).bytes == (if old(self).bytes + packet.payload@.len() > usize::MAX { usize::MAX as int } else { old(self).bytes + packet.payload@.len() })
                && final(self).marker == (if packet.marker { Some(packet.sequence) } else { old(self).marker })
                && final(self).timestamp == old(self).timestamp
                && final(self).first_packet_at_us == old(self).first_packet_at_us,
            !accepted ==> *final(self) == *old(self),
    {
        let follows = if self.packets.len() == 0 {
            true
        } else {
            let forward = packet.sequence.wrapping_sub(self.packets[self.packets.len() - 1].sequence);
            forward > 0 && forward < 0x8000
        };
        if follows {
            self.bytes = self.bytes.saturating_add(packet.payload.len());
            if packet.marker {
                self.marker = Some(packet.sequence);
            }
            self.packets.push(packet);
            true
        } else {
            false
        }
    }

    pub fn marker_sequence(&self) -> (marker: Option<u16>)
        ensures
            marker == self.marker,
    {
        self.marker
    }

    fn gap_free(&self, marker: u16, expected: Option<u16>) -> (ok: bool)
        ensures
            ok == (gap_free_before_marker(self.sequences(), marker) && !(expected matches Some(e)
                && before_marker(marker, e) != earliest_distance(self.sequences(), marker))),
    {
        let ghost sequences = self.sequences();
        let n = self.packets.len();
        if n == 0 {
            return match expected {
                Some(e) => marker.wrapping_sub(e) == 0,
                None => true,
            };
        }
        let mut top: u16 = marker.wrapping_sub(self.packets[0].sequence);
        let mut k: usize = 1;
        assert(sequences.take(1).drop_last() =~= Seq::<u16>::empty());
        while k < n
            invariant
                1 <= k <= n,
                n == self.packets@.len(),
                sequences == self.sequences(),
                top as int == earliest_distance(sequences.take(k as int), marker),
            decreases n - k,
        {
            assert(sequences.take(k as int + 1).drop_last() =~= sequences.take(k as int));
            let d = marker.wrapping_sub(self.packets[k].sequence);
            if d > top {
                top = d;
            }
            k += 1;
        }
        assert(sequences.take(n as int) =~= sequences);
        proof {
            lemma_distance_bound(sequences, marker, top as int);
        }
        let mut seen: Vec<bool> = Vec::new();
        let mut f: usize = 0;
        while f < n
            invariant
                f <= n,
                seen@.len() == f,
                forall|i: int| 0 <= i < f ==> !seen@[i],
            decreases n - f,
        {
            seen.push(false);
            f += 1;
        }
        let mut j: usize = 0;
        while j < n
            invariant
                j <= n,
                n == self.packets@.len(),
                sequences == self.sequences(),
                seen@.len() == n,
                top as int == earliest_distance(sequences, marker),
                forall|i: int| 0 <= i < n ==> before_marker(marker, #[trigger] sequences[i]) <= top,
                forall|i: int| 0 <= i < j ==> top - n < before_marker(marker, #[trigger] sequences[i]),
                forall|a: int, b: int| 0 <= a < b < j
                    ==> before_marker(marker, sequences[a]) != before_marker(marker, sequences[b]),
                forall|x: int| 0 <= x < n ==> (seen@[x] <==> exists|i: int|
                    0 <= i < j && top - before_marker(marker, #[trigger] sequences[i]) == x),
            decreases n - j,
        {
            let d = marker.wrapping_sub(self.packets[j].sequence);
            assert(d as int == before_marker(marker, sequences[j as int]));
            let slot = (top - d) as usize;
            if slot >= n {
                return false;
            }
            if seen[slot] {
                return false;
            }
            seen.set(slot, true);
            j += 1;
        }
        match expected {
            Some(e) => marker.wrapping_sub(e) == top,
            None => true,
        }
    }

    /// Why this unit is abandoned: `MissingSequence` or `IncompleteFuA`.
    pub fn abandonment_reason(&self, expected_sequence: Option<u16>) -> (reason: DropReason)
        ensures
            reason == self.abandonment(expected_sequence),
    {
        if let Some(marker) = self.marker {
            if !self.gap_free(marker, expected_sequence) {
                return DropReason::MissingSequence;
            }
        }
        let ghost payloads = self.payloads();
        let mut fu_start = false;
        let mut fu_end = false;
        let mut any_fu = false;
        let mut k: usize = 0;
        while k < self.packets.len()
            invariant
                k <= self.packets@.len(),
                payloads == self.payloads(),
                fu_start == exists|i: int| 0 <= i < k && is_fu_start(#[trigger] payloads[i]),
                fu_end == exists|i: int| 0 <= i < k && is_fu_end(#[trigger] payloads[i]),
                any_fu == exists|i: int| 0 <= i < k && is_fu(#[trigger] payloads[i]),
            decreases self.packets@.len() - k,
        {
            let payload = &self.packets[k].payload;
            assert(payloads[k as int] == payload@);
            if payload.len() >= 1 && payload[0] & 0x1f == 28 {
                any_fu = true;
                if payload.len() >= 2 && payload[1] & 0x80 != 0 {
                    fu_start = true;
                }
                if payload.len() >= 2 && payload[1] & 0x40 != 0 {
                    fu_end = true;
                }
            }
            k += 1;
        }
        if (fu_start && !fu_end) || (!fu_start && any_fu) {
            DropReason::IncompleteFuA
        } else {
            DropReason::MissingSequence
        }
    }
}

proof fn lemma_distance_bound(sequences: Seq<u16>, marker: u16, top: int)
    requires
        sequences.len() > 0,
        top == earliest_distance(sequences, marker),
    ensures
        forall|i: int| 0 <= i < sequences.len() ==> before_marker(marker, #[trigger] sequences[i]) <= top,
        exists|i: int| 0 <= i < sequences.len() && before_marker(marker, #[trigger] sequences[i]) == top,
        0 <= top < 0x10000,
    decreases sequences.len(),
{
    if sequences.len() > 1 {
        let rest = sequences.drop_last();
        lemma_distance_bound(rest, marker, earliest_distance(rest, marker));
        assert forall|i: int| 0 <= i < sequences.len() implies before_marker(marker, #[trigger] sequences[i]) <= top by {
            if i < rest.len() {
                assert(rest[i] == sequences[i]);
            }
        }
        if before_marker(marker, sequences.last()) > earliest_distance(rest, marker) {
            assert(before_marker(marker, sequences[sequences.len() - 1]) == top);
        } else {
            let w = choose|i: int| 0 <= i < rest.len() && before_marker(marker, #[trigger] rest[i]) == earliest_distance(rest, marker);
            assert(rest[w] == sequences[w]);
        }
    } else {
        assert(before_marker(marker, sequences[0]) == top);
    }
}

/// The H.264 depacketizer of the `rtc` crate (RFC 6184 payloads to Annex B).
#[verifier::external_type_specification]
#[verifier::external_body]
pub struct ExH264Packet(rtc::rtp::codec::h264::H264Packet);

/// The bytes of an unfinished FU-A that the depacketizer holds, if it holds any.
pub uninterp spec fn fua_buffer(d: rtc::rtp::codec::h264::H264Packet) -> Option<Seq<u8>>;

/// Whether the depacketizer writes AVCC length prefixes instead of Annex B start codes.
pub uninterp spec fn avc_output(d: rtc::rtp::codec::h264::H264Packet) -> bool;

/// The Annex B start code.
pub open spec fn start_code() -> Seq<u8> {
    seq![0u8, 0u8, 0u8, 1u8]
}

/// The units of a STAP-A payload from `offset` on, each behind a start code.
pub open spec fn stap_annexb(payload: Seq<u8>, offset: int) -> Seq<u8>
    decreases payload.len() - offset,
{
    if offset < 0 || offset + 2 > payload.len() {
        Seq::empty()
    } else {
        let size = payload[offset] as int * 256 + payload[offset + 1] as int;
        if offset + 2 + size > payload.len() || size < 0 {
            Seq::empty()
        } else {
            start_code() + payload.subrange(offset + 2, offset + 2 + size) + stap_annexb(payload, offset + 2 + size)
        }
    }
}

/// One payload through an Annex B depacketizer that holds `buffer`: its output, or
/// `Err` for a payload it rejects, and the buffer it holds afterwards. A single NAL unit
/// comes out behind a start code; a STAP-A as its units; FU-A fragments are gathered
/// until the end fragment, which brings out the rebuilt NAL unit.
pub open spec fn depacketize_step(buffer: Option<Seq<u8>>, p: Seq<u8>) -> (Result<Seq<u8>, ()>, Option<Seq<u8>>) {
    if p.len() <= 1 || (p.len() <= 2 && nal_type(p[0]) != 9) {
        (Err(()), buffer)
    } else if is_single_nal(p[0]) {
        (Ok(start_code() + p), buffer)
    } else if nal_type(p[0]) == 24 {
        (Ok(stap_annexb(p, 1)), buffer)
    } else if nal_type(p[0]) == 28 {
        let filled = match buffer {
            Some(b) => b,
            None => Seq::empty(),
        } + p.skip(2);
        if p[1] & 0x40 != 0 {
            (Ok(start_code() + seq![(p[0] & 0x60) | (p[1] & 0x1f)] + filled), None)
        } else {
            (Ok(Seq::empty()), Some(filled))
        }
    } else {
        (Err(()), buffer)
    }
}

/// `rtc::rtp::codec::h264::H264Packet::default()`: Annex B output with nothing buffered.
#[verifier::external_body]
pub(crate) fn new_depacketizer() -> (d: rtc::rtp::codec::h264::H264Packet)
    ensures
        fua_buffer(d) is None,
        !avc_output(d),
{
    rtc::rtp::codec::h264::H264Packet::default()
}

/// `Depacketizer::depacketize` of `H264Packet`, as its source reads: the step above.
/// A STAP-A is handed over only when its unit sizes were checked, as the method would
/// read past the end of a STAP-A whose last size field is cut short.
#[verifier::external_body]
fn depacketize(d: &mut rtc::rtp::codec::h264::H264Packet, payload: &[u8]) -> (out: Result<Vec<u8>, ()>)
    requires
        !avc_output(*old(d)),
        payload@.len() > 2 && nal_type(payload@[0]) == 24 ==> stap_units_ok(payload@, 1),
    ensures
        !avc_output(*final(d)),
        fua_buffer(*final(d)) == depacketize_step(fua_buffer(*old(d)), payload@).1,
        match out {
            Ok(bytes) => depacketize_step(fua_buffer(*old(d)), payload@).0 == Ok::<Seq<u8>, ()>(bytes@),
            Err(_) => depacketize_step(fua_buffer(*old(d)), payload@).0 is Err,
        },
{
    match rtc::rtp::packetizer::Depacketizer::depacketize(d, &Bytes::copy_from_slice(payload)) {
        Ok(bytes) => Ok(bytes.to_vec()),
        Err(_) => Err(()),
    }
}

/// `Depacketizer::is_partition_head` of `H264Packet`: a payload of two bytes or more
/// that is not an FU-A or FU-B, or one that starts a fragmented unit.
#[verifier::external_body]
fn is_partition_head(d: &rtc::rtp::codec::h264::H264Packet, payload: &[u8]) -> (head: bool)
    ensures
        head == (payload@.len() >= 2 && (if nal_type(payload@[0]) == 28 || nal_type(payload@[0]) == 29 {
            payload@[1] & 0x80 != 0
        } else {
            true
        })),
{
    rtc::rtp::packetizer::Depacketizer::is_partition_head(d, &Bytes::copy_from_slice(payload))
}

/// Largest access unit handed to the decoder.
pub const MAX_H264_ACCESS_UNIT_BYTES: usize = 2 * 1024 * 1024;

/// `Depacketizer::is_partition_head` of the H.264 depacketizer.
pub open spec fn partition_head(p: Seq<u8>) -> bool {
    p.len() >= 2 && (if nal_type(p[0]) == 28 || nal_type(p[0]) == 29 { p[1] & 0x80 != 0 } else { true })
}

/// Depacketizing `payloads` in order from an empty depacketizer: the access unit and
/// what stays buffered, or why the unit is dropped (a payload the depacketizer rejects,
/// or more bytes than the size limit).
pub open spec fn annexb_unit(payloads: Seq<Seq<u8>>) -> Result<(Seq<u8>, Option<Seq<u8>>), DropReason>
    decreases payloads.len(),
{
    if payloads.len() == 0 {
        Ok((Seq::empty(), None))
    } else {
        match annexb_unit(payloads.drop_last()) {
            Err(reason) => Err(reason),
            Ok((data, buffer)) => {
                let (out, after) = depacketize_step(buffer, payloads.last());
                match out {
                    Err(_) => Err(DropReason::Malformed),
                    Ok(bytes) => if data.len() + bytes.len() > MAX_H264_ACCESS_UNIT_BYTES {
                        Err(DropReason::Other)
                    } else {
                        Ok((data + bytes, after))
                    },
                }
            },
        }
    }
}

/// What an unfinished unit amounts to so far.
pub enum FrameAssembly {
    /// Not complete yet.
    Pending,
    /// A whole access unit in Annex B form, and the sequence number of its marker packet.
    Complete { data: Vec<u8>, marker_sequence: u16 },
    /// A unit that can never be decoded.
    Invalid(DropReason),
}

proof fn lemma_verdict_checks_staps(payloads: Seq<Seq<u8>>, k: int)
    requires
        fragments_verdict(payloads) is Ok,
        0 <= k < payloads.len(),
    ensures
        payloads[k].len() > 2 && nal_type(payloads[k][0]) == 24 ==> stap_units_ok(payloads[k], 1),
{
    if fragments_scan(payloads.take(k + 1)) is Err {
        lemma_scan_error_persists(payloads, k + 1);
    }
    assert(payloads.take(k + 1).drop_last() =~= payloads.take(k));
    assert(payloads.take(k + 1).last() == payloads[k]);
}

impl PendingVideoFrame {
    /// The complete access unit, when there is one; otherwise whether to keep waiting
    /// or why the unit is invalid. The depacketizer starts and ends empty whenever the
    /// unit is depacketized.
    pub fn assemble(&self, depacketizer: &mut rtc::rtp::codec::h264::H264Packet, expected_sequence: Option<u16>) -> (assembly: FrameAssembly)
        requires
            !avc_output(*old(depacketizer)),
        ensures
            !avc_output(*final(depacketizer)),
            !self.assemblable(expected_sequence) ==> assembly is Pending && *final(depacketizer) == *old(
                depacketizer,
            ),
            self.assemblable(expected_sequence) ==> match fragments_verdict(self.payloads()) {
                Err(reason) => assembly == FrameAssembly::Invalid(reason) && *final(depacketizer) == *old(
                    depacketizer,
                ),
                Ok(()) => {
                    &&& fua_buffer(*final(depacketizer)) is None
                    &&& match annexb_unit(self.payloads()) {
                        Err(reason) => assembly == FrameAssembly::Invalid(reason),
                        Ok((data, _)) => assembly matches FrameAssembly::Complete { data: bytes, marker_sequence }
                            && bytes@ == data && Some(marker_sequence) == self.marker,
                    }
                },
            },
    {
        let marker_sequence = match self.marker {
            Some(m) => m,
            None => return FrameAssembly::Pending,
        };
        let n = self.packets.len();
        if n == 0 {
            return FrameAssembly::Pending;
        }
        let ghost sequences = self.sequences();
        let ghost payloads = self.payloads();
        assert(sequences[0] == self.packets@[0].sequence);
        assert(payloads[0] == self.packets@[0].payload@);
        if let Some(e) = expected_sequence {
            if self.packets[0].sequence != e {
                return FrameAssembly::Pending;
            }
        }
        if !is_partition_head(depacketizer, self.packets[0].payload.as_slice()) {
            return FrameAssembly::Pending;
        }
        let mut k: usize = 1;
        while k < n
            invariant
                1 <= k <= n,
                n == self.packets@.len(),
                sequences == self.sequences(),
                forall|i: int| 0 < i < k ==> #[trigger] sequences[i] == sequences[i - 1].wrapping_add(1),
                *depacketizer == *old(depacketizer),
                !avc_output(*old(depacketizer)),
            decreases n - k,
        {
            assert(sequences[k as int] == self.packets@[k as int].sequence);
            assert(sequences[k as int - 1] == self.packets@[k as int - 1].sequence);
            if self.packets[k].sequence != self.packets[k - 1].sequence.wrapping_add(1) {
                return FrameAssembly::Pending;
            }
            k += 1;
        }
        assert(self.assemblable(expected_sequence));
        let owned: Vec<Vec<u8>> = self.payload_list();
        if let Err(reason) = validate_h264_rtp_fragments(owned.as_slice()) {
            return FrameAssembly::Invalid(reason);
        }
        *depacketizer = new_depacketizer();
        let mut data: Vec<u8> = Vec::new();
        let mut j: usize = 0;
        assert(payloads.take(0) =~= Seq::<Seq<u8>>::empty());
        while j < n
            invariant
                j <= n,
                n == self.packets@.len(),
                payloads == self.payloads(),
                fragments_verdict(payloads) is Ok,
                self.assemblable(expected_sequence),
                !avc_output(*depacketizer),
                annexb_unit(payloads.take(j as int)) == Ok::<(Seq<u8>, Option<Seq<u8>>), DropReason>(
                    (data@, fua_buffer(*depacketizer)),
                ),
            decreases n - j,
        {
            assert(payloads.take(j as int + 1).drop_last() =~= payloads.take(j as int));
            assert(payloads[j as int] == self.packets@[j as int].payload@);
            proof {
                lemma_verdict_checks_staps(payloads, j as int);
            }
            match depacketize(depacketizer, self.packets[j].payload.as_slice()) {
                Err(_) => {
                    *depacketizer = new_depacketizer();
                    proof {
                        lemma_unit_error_persists(payloads, j as int + 1);
                    }
                    return FrameAssembly::Invalid(DropReason::Malformed);
                },
                Ok(nalu) => {
                    let mut nalu = nalu;
                    if nalu.len() > MAX_H264_ACCESS_UNIT_BYTES - data.len() {
                        *depacketizer = new_depacketizer();
                        proof {
                            lemma_unit_error_persists(payloads, j as int + 1);
                        }
                        return FrameAssembly::Invalid(DropReason::Other);
                    }
                    data.append(&mut nalu);
                },
            }
            j += 1;
        }
        assert(payloads.take(n as int) =~= payloads);
        *depacketizer = new_depacketizer();
        FrameAssembly::Complete { data, marker_sequence }
    }

    fn payload_list(&self) -> (list: Vec<Vec<u8>>)
        ensures
            list@.map_values(|v: Vec<u8>| v@) == self.payloads(),
    {
        let mut list: Vec<Vec<u8>> = Vec::new();
        let mut k: usize = 0;
        while k < self.packets.len()
            invariant
                k <= self.packets@.len(),
                list@.len() == k,
                forall|i: int| 0 <= i < k ==> (#[trigger] list@[i])@ == self.packets@[i].payload@,
            decreases self.packets@.len() - k,
        {
            list.push(self.packets[k].payload.clone());
            k += 1;
        }
        assert(list@.map_values(|v: Vec<u8>| v@) =~= self.payloads());
        list
    }
}

proof fn lemma_unit_error_persists(payloads: Seq<Seq<u8>>, n: int)
    requires
        0 <= n <= payloads.len(),
        annexb_unit(payloads.take(n)) is Err,
    ensures
        annexb_unit(payloads) == annexb_unit(payloads.take(n)),
    decreases payloads.len() - n,
{
    if n < payloads.len() {
        assert(payloads.take(n + 1).drop_last() =~= payloads.take(n));
        lemma_unit_error_persists(payloads, n + 1);
    } else {
        assert(payloads.take(n) =~= payloads);
    }
}

} // verus!
