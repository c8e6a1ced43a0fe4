//! Match AVCDEC output PTS to submitted AUs; never infer identity from call order.
use vstd::prelude::*;
use std::collections::VecDeque;

verus! {

pub const MAX_TRACKED_PICTURES: usize = 256;
pub const UNKNOWN_PTS: u64 = u64::MAX;

/// Monotonic-microsecond timestamps of one picture through the pipeline.
#[derive(Clone, Copy, Debug)]
pub struct FrameTiming {
    pub rtp_timestamp: u32,
    pub received_at_us: u64,
    pub submitted_at_us: u64,
    pub decoded_at_us: u64,
    pub epoch: u64,
}

/// A matched picture that finished rendering.
#[derive(Clone, Copy, Debug)]
pub struct PresentedFrame {
    pub timing: FrameTiming,
    pub rendered_at_us: u64,
}

/// Entries of `pending` whose PTS differs from `pts`, in order.
pub open spec fn without_pts(pending: Seq<(u64, FrameTiming)>, pts: u64) -> Seq<(u64, FrameTiming)>
    decreases pending.len(),
{
    if pending.len() == 0 {
        pending
    } else {
        let rest = without_pts(pending.drop_last(), pts);
        if pending.last().0 == pts { rest } else { rest.push(pending.last()) }
    }
}

/// Index of the first pending entry with `pts`, if any.
pub open spec fn pts_index(pending: Seq<(u64, FrameTiming)>, pts: u64) -> Option<int>
    decreases pending.len(),
{
    if pending.len() == 0 {
        None
    } else {
        match pts_index(pending.drop_last(), pts) {
            Some(i) => Some(i),
            None => if pending.last().0 == pts { Some(pending.len() - 1) } else { None },
        }
    }
}

/// Abstract state of the picture tracker.
pub ghost struct TrackerModel {
    pub last_rtp: Option<u32>,
    pub last_pts: u64,
    pub pending: Seq<(u64, FrameTiming)>,
}

impl TrackerModel {
    pub open spec fn wf(self) -> bool {
        &&& self.pending.len() <= MAX_TRACKED_PICTURES
        &&& forall|i: int, j: int| 0 <= i < j < self.pending.len() ==> self.pending[i].0 != self.pending[j].0
    }

    /// The 90 kHz PTS given to a submission with RTP timestamp `rtp`: the RTP
    /// timestamp itself at first, then extended across wraps by the forward distance.
    pub open spec fn next_pts(self, rtp: u32) -> u64 {
        match self.last_rtp {
            Some(last) => {
                let pts = self.last_pts + rtp.wrapping_sub(last);
                if pts > u64::MAX { u64::MAX } else { pts as u64 }
            },
            None => rtp as u64,
        }
    }

    pub open spec fn submit(self, rtp: u32, received_at: u64, submitted_at: u64, epoch: u64) -> Self {
        let pts = self.next_pts(rtp);
        let kept = without_pts(self.pending, pts);
        let room = if kept.len() == MAX_TRACKED_PICTURES { kept.drop_first() } else { kept };
        TrackerModel {
            last_rtp: Some(rtp),
            last_pts: pts,
            pending: room.push((pts, FrameTiming {
                rtp_timestamp: rtp,
                received_at_us: received_at,
                submitted_at_us: submitted_at,
                decoded_at_us: submitted_at,
                epoch,
            })),
        }
    }

    pub open spec fn output(self, pts: u64, decoded_at: u64) -> (Self, Option<FrameTiming>) {
        if pts == UNKNOWN_PTS {
            (self, None)
        } else {
            match pts_index(self.pending, pts) {
                None => (self, None),
                Some(i) => (
                    TrackerModel { pending: self.pending.remove(i), ..self },
                    Some(FrameTiming { decoded_at_us: decoded_at, ..self.pending[i].1 }),
                ),
            }
        }
    }
}

proof fn lemma_without_pts(pending: Seq<(u64, FrameTiming)>, pts: u64)
    ensures
        without_pts(pending, pts).len() <= pending.len(),
        forall|k: int| 0 <= k < without_pts(pending, pts).len() ==> (#[trigger] without_pts(pending, pts)[k]).0 != pts,
        forall|k: int| 0 <= k < without_pts(pending, pts).len()
            ==> exists|o: int| 0 <= o < pending.len() && pending[o] == #[trigger] without_pts(pending, pts)[k],
        (forall|i: int, j: int| 0 <= i < j < pending.len() ==> pending[i].0 != pending[j].0) ==> (forall|i: int, j: int|
            0 <= i < j < without_pts(pending, pts).len() ==> without_pts(pending, pts)[i].0 != without_pts(pending, pts)[j].0),
    decreases pending.len(),
{
    if pending.len() > 0 {
        let rest = pending.drop_last();
        lemma_without_pts(rest, pts);
        let w = without_pts(pending, pts);
        let wr = without_pts(rest, pts);
        assert forall|k: int| 0 <= k < w.len() implies exists|o: int| 0 <= o < pending.len() && pending[o] == #[trigger] w[k] by {
            if k < wr.len() {
                assert(w[k] == wr[k]);
                let o = choose|o: int| 0 <= o < rest.len() && rest[o] == wr[k];
                assert(pending[o] == rest[o]);
            } else {
                assert(w[k] == pending[pending.len() - 1]);
            }
        }
        if forall|i: int, j: int| 0 <= i < j < pending.len() ==> pending[i].0 != pending[j].0 {
            assert forall|i: int, j: int| 0 <= i < j < rest.len() implies rest[i].0 != rest[j].0 by {
                assert(rest[i] == pending[i] && rest[j] == pending[j]);
            }
            assert forall|i: int, j: int| 0 <= i < j < w.len() implies w[i].0 != w[j].0 by {
                if j == wr.len() && w.len() > wr.len() {
                    assert(w[j] == pending.last());
                    assert(w[i] == wr[i]);
                    let o = choose|o: int| 0 <= o < rest.len() && rest[o] == wr[i];
                    assert(pending[o] == rest[o]);
                } else {
                    assert(w[i] == wr[i] && w[j] == wr[j]);
                }
            }
        }
    }
}

proof fn lemma_pts_index(pending: Seq<(u64, FrameTiming)>, pts: u64)
    ensures
        pts_index(pending, pts) matches Some(i) ==> 0 <= i < pending.len() && pending[i].0 == pts,
        pts_index(pending, pts) is None ==> forall|k: int| 0 <= k < pending.len() ==> (#[trigger] pending[k]).0 != pts,
        pts_index(pending, pts) matches Some(i) ==> forall|k: int| 0 <= k < i ==> (#[trigger] pending[k]).0 != pts,
    decreases pending.len(),
{
    if pending.len() > 0 {
        let rest = pending.drop_last();
        lemma_pts_index(rest, pts);
        match pts_index(rest, pts) {
            Some(i) => {
                assert(rest[i] == pending[i]);
                assert forall|k: int| 0 <= k < i implies (#[trigger] pending[k]).0 != pts by {
                    assert(rest[k] == pending[k]);
                }
            },
            None => {
                assert forall|k: int| 0 <= k < pending.len() - 1 implies (#[trigger] pending[k]).0 != pts by {
                    assert(rest[k] == pending[k]);
                }
            },
        }
    }
}

/// Submitted pictures awaiting decoder output, keyed by extended 90 kHz PTS.
pub struct PictureTracker {
    last_rtp: Option<u32>,
    last_pts: u64,
    pending: VecDeque<(u64, FrameTiming)>,
}

impl View for PictureTracker {
    type V = TrackerModel;

    closed spec fn view(&self) -> TrackerModel {
        TrackerModel { last_rtp: self.last_rtp, last_pts: self.last_pts, pending: self.pending@ }
    }
}

impl PictureTracker {
    pub fn new() -> (tracker: Self)
        ensures
            tracker@ == (TrackerModel { last_rtp: None, last_pts: 0, pending: Seq::empty() }),
            tracker@.wf(),
    {
        PictureTracker { last_rtp: None, last_pts: 0, pending: VecDeque::new() }
    }

    /// Unretired metadata is a reason to try output, not a firmware readiness count.
    pub fn has_pending(&self) -> (pending: bool)
        ensures
            pending == (self@.pending.len() > 0),
    {
        self.pending.len() > 0
    }

    pub fn pending_count(&self) -> (count: usize)
        ensures
            count == self@.pending.len(),
    {
        self.pending.len()
    }

    /// RTP and Vita AVC timestamps both use 90 kHz. Extend the RTP wrap so
    /// pictures on either side retain distinct identities in the decoder.
    pub fn submit(&mut self, rtp: u32, received_at_us: u64, submitted_at_us: u64, epoch: u64) -> (pts: u64)
        requires
            old(self)@.wf(),
        ensures
            pts == old(self)@.next_pts(rtp),
            final(self)@ == old(self)@.submit(rtp, received_at_us, submitted_at_us, epoch),
            final(self)@.wf(),
    {
        let pts = match self.last_rtp {
            Some(last) => self.last_pts.saturating_add(rtp.wrapping_sub(last) as u64),
            None => rtp as u64,
        };
        self.last_pts = pts;
        self.last_rtp = Some(rtp);
        let ghost before = self.pending@;
        let mut kept: VecDeque<(u64, FrameTiming)> = VecDeque::new();
        let mut k: usize = 0;
        while k < self.pending.len()
            invariant
                k <= self.pending@.len(),
                before == self.pending@,
                kept@ == without_pts(before.take(k as int), pts),
            decreases self.pending@.len() - k,
        {
            assert(before.take(k as int + 1).drop_last() =~= before.take(k as int));
            let entry = self.pending[k];
            if entry.0 != pts {
                kept.push_back(entry);
            }
            k += 1;
        }
        assert(before.take(before.len() as int) =~= before);
        proof {
            lemma_without_pts(before, pts);
        }
        if kept.len() == MAX_TRACKED_PICTURES {
            kept.pop_front();
        }
        let ghost room = kept@;
        kept.push_back((pts, FrameTiming {
            rtp_timestamp: rtp,
            received_at_us,
            submitted_at_us,
            decoded_at_us: submitted_at_us,
            epoch,
        }));
        self.pending = kept;
        proof {
            let w = without_pts(before, pts);
            assert forall|i: int, j: int| 0 <= i < j < self.pending@.len()
                implies self.pending@[i].0 != self.pending@[j].0 by {
                if j == room.len() {
                    if w.len() == MAX_TRACKED_PICTURES {
                        assert(self.pending@[i] == w[i + 1]);
                    } else {
                        assert(self.pending@[i] == w[i]);
                    }
                } else if w.len() == MAX_TRACKED_PICTURES {
                    assert(self.pending@[i] == w[i + 1] && self.pending@[j] == w[j + 1]);
                } else {
                    assert(self.pending@[i] == w[i] && self.pending@[j] == w[j]);
                }
            }
        }
        pts
    }

    pub fn output(&mut self, pts: u64, decoded_at_us: u64) -> (timing: Option<FrameTiming>)
        requires
            old(self)@.wf(),
        ensures
            (final(self)@, timing) == old(self)@.output(pts, decoded_at_us),
            final(self)@.wf(),
    {
        if pts == UNKNOWN_PTS {
            return None;
        }
        proof {
            lemma_pts_index(self.pending@, pts);
        }
        let mut k: usize = 0;
        while k < self.pending.len()
            invariant
                k <= self.pending@.len(),
                self@ == old(self)@,
                old(self)@.wf(),
                pts != UNKNOWN_PTS,
                forall|j: int| 0 <= j < k ==> (#[trigger] self.pending@[j]).0 != pts,
            decreases self.pending@.len() - k,
        {
            if self.pending[k].0 == pts {
                let ghost before = self.pending@;
                assert(pts_index(before, pts) == Some(k as int)) by {
                    lemma_pts_index(before, pts);
                    assert(before[k as int].0 == pts);
                }
                let removed = self.pending.remove(k);
                let (_, mut timing) = match removed {
                    Some(entry) => entry,
                    None => return None,
                };
                timing.decoded_at_us = decoded_at_us;
                proof {
                    assert(self.pending@ =~= before.remove(k as int));
                    assert forall|i: int, j: int| 0 <= i < j < self.pending@.len()
                        implies self.pending@[i].0 != self.pending@[j].0 by {
                        let oi = if i < k { i } else { i + 1 };
                        let oj = if j < k { j } else { j + 1 };
                        assert(self.pending@[i] == before[oi] && self.pending@[j] == before[oj]);
                    }
                }
                return Some(timing);
            }
            k += 1;
        }
        None
    }
}

impl Default for PictureTracker {
    fn default() -> (tracker: Self)
        ensures
            tracker@ == (TrackerModel { last_rtp: None, last_pts: 0, pending: Seq::empty() }),
            tracker@.wf(),
    {
        PictureTracker::new()
    }
}

/// A single newest report, never a queue of historical acknowledgements.
pub struct PresentationState {
    generation: u64,
    pending: Option<PresentedFrame>,
    pub latest: Option<PresentedFrame>,
}

/// Abstract state of the presentation report slot.
pub ghost struct PresentationModel {
    pub generation: u64,
    pub pending: Option<PresentedFrame>,
    pub latest: Option<PresentedFrame>,
}

impl PresentationModel {
    pub open spec fn record(self, generation: u64, timing: Option<FrameTiming>, rendered_at: u64) -> Self {
        if generation <= self.generation {
            self
        } else {
            let latest = match timing {
                Some(t) => Some(PresentedFrame { timing: t, rendered_at_us: rendered_at }),
                None => None,
            };
            PresentationModel { generation, pending: latest, latest }
        }
    }
}

impl View for PresentationState {
    type V = PresentationModel;

    closed spec fn view(&self) -> PresentationModel {
        PresentationModel { generation: self.generation, pending: self.pending, latest: self.latest }
    }
}

impl PresentationState {
    pub fn new() -> (state: Self)
        ensures
            state@ == (PresentationModel { generation: 0, pending: None, latest: None }),
    {
        PresentationState { generation: 0, pending: None, latest: None }
    }

    /// Record a rendered texture generation. Only a newer generation is new video;
    /// an unmatched output clears the report rather than reusing an old identity.
    pub fn record(&mut self, generation: u64, timing: Option<FrameTiming>, rendered_at_us: u64)
        ensures
            final(self)@ == old(self)@.record(generation, timing, rendered_at_us),
    {
        if generation <= self.generation {
            return;
        }
        self.generation = generation;
        self.latest = match timing {
            Some(timing) => Some(PresentedFrame { timing, rendered_at_us }),
            None => None,
        };
        self.pending = self.latest;
    }

    /// Take the unreported frame, if any.
    pub fn take(&mut self) -> (frame: Option<PresentedFrame>)
        ensures
            frame == old(self)@.pending,
            final(self)@ == (PresentationModel { pending: None, ..old(self)@ }),
    {
        let frame = self.pending;
        self.pending = None;
        frame
    }

    pub fn latest(&self) -> (latest: Option<PresentedFrame>)
        ensures
            latest == self@.latest,
    {
        self.latest
    }
}

impl Default for PresentationState {
    fn default() -> (state: Self)
        ensures
            state@ == (PresentationModel { generation: 0, pending: None, latest: None }),
    {
        PresentationState::new()
    }
}

/// A picture output by the decoder is retired: the same PTS never yields a second match.
pub proof fn law_output_never_repeats(m: TrackerModel, pts: u64, first: u64, second: u64)
    requires
        m.wf(),
        m.output(pts, first).1 is Some,
    ensures
        m.output(pts, first).0.output(pts, second).1 is None,
        m.output(pts, first).0.wf(),
{
    lemma_pts_index(m.pending, pts);
    let i = pts_index(m.pending, pts)->0;
    let after = m.output(pts, first).0;
    assert(after.pending =~= m.pending.remove(i));
    lemma_pts_index(after.pending, pts);
    match pts_index(after.pending, pts) {
        Some(j) => {
            let o = if j < i { j } else { j + 1 };
            assert(after.pending[j] == m.pending[o]);
        },
        None => {},
    }
    assert forall|x: int, y: int| 0 <= x < y < after.pending.len()
        implies after.pending[x].0 != after.pending[y].0 by {
        let ox = if x < i { x } else { x + 1 };
        let oy = if y < i { y } else { y + 1 };
        assert(after.pending[x] == m.pending[ox] && after.pending[y] == m.pending[oy]);
    }
}

/// Output keyed by the PTS a submission returned carries that submission's own RTP
/// timestamp, receive time and epoch, whatever else was submitted since is irrelevant.
pub proof fn law_output_keeps_submitted_identity(
    m: TrackerModel,
    rtp: u32,
    received_at: u64,
    submitted_at: u64,
    epoch: u64,
    decoded_at: u64,
)
    requires
        m.wf(),
        m.next_pts(rtp) != UNKNOWN_PTS,
    ensures
        ({
            let after = m.submit(rtp, received_at, submitted_at, epoch);
            after.output(m.next_pts(rtp), decoded_at).1 == Some(FrameTiming {
                rtp_timestamp: rtp,
                received_at_us: received_at,
                submitted_at_us: submitted_at,
                decoded_at_us: decoded_at,
                epoch,
            })
        }),
{
    let pts = m.next_pts(rtp);
    let after = m.submit(rtp, received_at, submitted_at, epoch);
    lemma_without_pts(m.pending, pts);
    let kept = without_pts(m.pending, pts);
    let room = if kept.len() == MAX_TRACKED_PICTURES { kept.drop_first() } else { kept };
    lemma_pts_index(after.pending, pts);
    assert forall|k: int| 0 <= k < after.pending.len() - 1 implies (#[trigger] after.pending[k]).0 != pts by {
        assert(after.pending[k] == room[k]);
        if kept.len() == MAX_TRACKED_PICTURES {
            assert(room[k] == kept[k + 1]);
        }
    }
    assert(after.pending[after.pending.len() - 1].0 == pts);
}

/// Redrawing the same texture is not new video: a generation that is not newer than
/// the last recorded one never produces another report.
pub proof fn law_stale_generation_is_not_reported(m: PresentationModel, generation: u64, timing: Option<FrameTiming>, rendered_at: u64)
    requires
        generation <= m.generation,
    ensures
        m.record(generation, timing, rendered_at) == m,
{
}

} // verus!
