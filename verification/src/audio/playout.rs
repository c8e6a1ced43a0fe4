//! Playback-queue budgets for decoded stereo PCM at 48 kHz. The output device cannot
//! drop only its oldest audio: when fresh audio would push it past the latency
//! threshold, the device queue is reset once and only the newest buffers are kept, in
//! their original order. Opus decoding itself never stops, so its prediction state
//! keeps advancing.
use vstd::prelude::*;
use crate::audio::timing::MAX_LOCAL_AUDIO_AGE_US;
use crate::rtc::congestion::sat_add;
use crate::rtc::reorder::elapsed;

verus! {

pub const AUDIO_SAMPLE_RATE: u32 = 48_000;
pub const AUDIO_CHANNELS: u32 = 2;
pub const AUDIO_BYTES_PER_SECOND: u32 = 192_000;
/// Hard limit of queued PCM: 240ms.
pub const MAX_QUEUED_AUDIO_BYTES: u32 = 46_080;
/// Past 160ms of queued and fresh audio the queue is reset.
pub const AUDIO_TRIM_THRESHOLD_BYTES: u32 = 30_720;
/// After a reset at most 80ms of the freshest buffers are kept (at least one).
pub const AUDIO_TRIM_TARGET_BYTES: u32 = 15_360;
/// Playback starts once 40ms are queued.
pub const AUDIO_START_BUFFER_BYTES: u32 = 7_680;

pub open spec fn sat_u32(x: int) -> u32 {
    if x > u32::MAX { u32::MAX } else { x as u32 }
}

/// The total size of `sizes`, saturating.
pub open spec fn total_bytes(sizes: Seq<u32>) -> u32
    decreases sizes.len(),
{
    if sizes.len() == 0 { 0 } else { sat_u32(total_bytes(sizes.drop_last()) + sizes.last()) }
}

/// How many of the oldest fresh buffers a reset drops: while more than one is left and
/// the remaining bytes exceed the target, the oldest goes.
pub open spec fn trimmed_count(sizes: Seq<u32>, remaining: u32, dropped: nat) -> nat
    decreases sizes.len() - dropped,
{
    if dropped + 1 < sizes.len() && remaining > AUDIO_TRIM_TARGET_BYTES {
        trimmed_count(
            sizes,
            (if remaining >= sizes[dropped as int] { remaining - sizes[dropped as int] } else { 0 }) as u32,
            dropped + 1,
        )
    } else {
        dropped
    }
}

/// Whether fresh buffers of `sizes` force a reset of a device queue holding `queued`
/// bytes, and how many of the oldest fresh buffers are then dropped.
pub open spec fn trim_decision(queued: u32, sizes: Seq<u32>) -> (bool, nat) {
    let fresh = total_bytes(sizes);
    if fresh > 0 && sat_u32(queued + fresh) > AUDIO_TRIM_THRESHOLD_BYTES {
        (true, trimmed_count(sizes, fresh, 0))
    } else {
        (false, 0)
    }
}

/// Plans the queue reset for fresh decoded buffers whose byte sizes are `sizes`, with
/// `queued` bytes already in the device queue. Returns whether to reset and how many of
/// the oldest fresh buffers to drop.
pub fn trim_plan(queued: u32, sizes: &Vec<u32>) -> (plan: (bool, usize))
    ensures
        plan.0 == trim_decision(queued, sizes@).0,
        plan.1 as nat == trim_decision(queued, sizes@).1,
        plan.1 < sizes@.len() || sizes@.len() == 0,
{
    let mut fresh: u32 = 0;
    let mut k: usize = 0;
    while k < sizes.len()
        invariant
            k <= sizes@.len(),
            fresh == total_bytes(sizes@.take(k as int)),
        decreases sizes@.len() - k,
    {
        assert(sizes@.take(k as int + 1).drop_last() =~= sizes@.take(k as int));
        fresh = fresh.saturating_add(sizes[k]);
        k += 1;
    }
    assert(sizes@.take(k as int) =~= sizes@);
    if !(fresh > 0 && queued.saturating_add(fresh) > AUDIO_TRIM_THRESHOLD_BYTES) {
        return (false, 0);
    }
    assert(sizes@.len() > 0) by {
        if sizes@.len() == 0 {
            assert(total_bytes(sizes@) == 0);
        }
    }
    let mut remaining = fresh;
    let mut dropped: usize = 0;
    while sizes.len() - dropped > 1 && remaining > AUDIO_TRIM_TARGET_BYTES
        invariant
            dropped < sizes@.len(),
            trimmed_count(sizes@, remaining, dropped as nat) == trimmed_count(sizes@, fresh, 0),
        decreases sizes@.len() - dropped,
    {
        remaining = if remaining >= sizes[dropped] { remaining - sizes[dropped] } else { 0 };
        dropped += 1;
    }
    (true, dropped)
}

/// Whether a buffer of `bytes` would overrun the hard queue limit (a reset first).
pub fn overruns_queue(queued: u32, bytes: u32) -> (overrun: bool)
    ensures
        overrun == (sat_u32(queued + bytes) > MAX_QUEUED_AUDIO_BYTES),
{
    queued.saturating_add(bytes) > MAX_QUEUED_AUDIO_BYTES
}

/// Whether paused playback may start with `queued` bytes in the device queue.
pub fn ready_to_start(started: bool, queued: u32) -> (start: bool)
    ensures
        start == (!started && queued >= AUDIO_START_BUFFER_BYTES),
{
    !started && queued >= AUDIO_START_BUFFER_BYTES
}

/// Milliseconds of audio in `queued` bytes.
pub fn queued_ms(queued: u32) -> (ms: u64)
    ensures
        ms == queued as nat * 1000 / AUDIO_BYTES_PER_SECOND as nat,
{
    (queued as u64) * 1000 / (AUDIO_BYTES_PER_SECOND as u64)
}

/// What a playback pass does before taking new audio.
#[derive(Clone, Copy, Debug, PartialEq, Eq, Structural)]
pub struct ServiceStep {
    /// The device queue is cleared and paused: the pass came too long after the last one
    /// (the device may have stopped with the UI), so its bytes say nothing of their age.
    pub reset: bool,
    /// Playback ran dry: it is paused until the start buffer fills again.
    pub underrun: bool,
    /// Whether playback runs after this step.
    pub started: bool,
}

pub open spec fn service_decision(now_us: u64, last_service_us: Option<u64>, started: bool, queued: u32) -> ServiceStep {
    let reset = last_service_us matches Some(last) && elapsed(now_us, last) > MAX_LOCAL_AUDIO_AGE_US;
    let running = started && !reset;
    let underrun = running && queued == 0;
    ServiceStep { reset, underrun, started: running && !underrun }
}

/// The start of a playback pass at `now_us`, with `queued` bytes in the device queue.
pub fn service_step(now_us: u64, last_service_us: Option<u64>, started: bool, queued: u32) -> (step: ServiceStep)
    ensures
        step == service_decision(now_us, last_service_us, started, queued),
{
    let reset = match last_service_us {
        Some(last) => (if now_us >= last { now_us - last } else { 0 }) > MAX_LOCAL_AUDIO_AGE_US,
        None => false,
    };
    let running = started && !reset;
    let underrun = running && queued == 0;
    ServiceStep { reset, underrun, started: running && !underrun }
}

/// Microseconds of audio in `bytes`, rounded down.
pub open spec fn bytes_us(bytes: u32) -> u64 {
    (bytes as nat * 1_000_000 / AUDIO_BYTES_PER_SECOND as nat) as u64
}

/// What happens to one fresh buffer of `bytes`, received at `received_at_us`, with
/// `queued` bytes in the device queue.
#[derive(Clone, Copy, Debug, PartialEq, Eq, Structural)]
pub enum BufferStep {
    /// Its age, the queue ahead of it and its own length exceed the local bound.
    Discard,
    /// Queue it; `reset_first` clears the device queue first, as the buffer would
    /// overrun the hard limit.
    Queue { reset_first: bool },
}

pub open spec fn buffer_decision(queued: u32, now_us: u64, received_at_us: u64, bytes: u32) -> BufferStep {
    let age = elapsed(now_us, received_at_us);
    if sat_add(sat_add(age, bytes_us(queued)), bytes_us(bytes)) > MAX_LOCAL_AUDIO_AGE_US {
        BufferStep::Discard
    } else {
        BufferStep::Queue { reset_first: sat_u32(queued + bytes) > MAX_QUEUED_AUDIO_BYTES }
    }
}

/// The admission of one fresh buffer, in order, after any trim.
pub fn buffer_step(queued: u32, now_us: u64, received_at_us: u64, bytes: u32) -> (step: BufferStep)
    ensures
        step == buffer_decision(queued, now_us, received_at_us, bytes),
{
    let age: u64 = if now_us >= received_at_us { now_us - received_at_us } else { 0 };
    let ahead: u64 = (queued as u64) * 1_000_000 / (AUDIO_BYTES_PER_SECOND as u64);
    let own: u64 = (bytes as u64) * 1_000_000 / (AUDIO_BYTES_PER_SECOND as u64);
    if age.saturating_add(ahead).saturating_add(own) > MAX_LOCAL_AUDIO_AGE_US {
        BufferStep::Discard
    } else {
        BufferStep::Queue { reset_first: overruns_queue(queued, bytes) }
    }
}

/// A reset never drops the newest buffer, and it keeps at most the target unless only
/// one buffer remains.
pub proof fn law_trim_keeps_the_newest(queued: u32, sizes: Seq<u32>)
    requires
        sizes.len() > 0,
    ensures
        trim_decision(queued, sizes).1 < sizes.len(),
{
    lemma_trim_bound(sizes, total_bytes(sizes), 0);
}

proof fn lemma_trim_bound(sizes: Seq<u32>, remaining: u32, dropped: nat)
    requires
        dropped < sizes.len(),
    ensures
        dropped <= trimmed_count(sizes, remaining, dropped) < sizes.len(),
    decreases sizes.len() - dropped,
{
    if dropped + 1 < sizes.len() && remaining > AUDIO_TRIM_TARGET_BYTES {
        lemma_trim_bound(
            sizes,
            (if remaining >= sizes[dropped as int] { remaining - sizes[dropped as int] } else { 0 }) as u32,
            dropped + 1,
        );
    }
}

} // verus!
