//! Decisions of the hardware decode worker around its epoch: the generation that every
//! queued access unit and every decoded picture carries, and the flag that asks the RTP
//! side for recovery. Only damage or a decoder failure invalidates the chain; queue age
//! is pressure, not corruption.
use vstd::prelude::*;
use crate::video::policy::QueueReservation;

verus! {

/// The epoch after an invalidation: the generation moves on (wrapping, as the shared
/// atomic counter does) and recovery is requested.
pub open spec fn next_generation(generation: u64) -> u64 {
    if generation == u64::MAX { 0 } else { (generation + 1) as u64 }
}

/// A dequeued access unit is decoded only when it is of the current generation and no
/// recovery is pending.
pub open spec fn admits(unit_generation: u64, generation: u64, recovery_needed: bool) -> bool {
    unit_generation == generation && !recovery_needed
}

/// Whether a dequeued access unit is decoded. Its queue credit is released either way.
pub fn decodes_queued_unit(unit_generation: u64, generation: u64, recovery_needed: bool) -> (decode: bool)
    ensures
        decode == admits(unit_generation, generation, recovery_needed),
{
    unit_generation == generation && !recovery_needed
}

/// Takes an access unit off the decode queue, which holds `used` bytes: its byte
/// reservation is released whether or not it is decoded, even for a stale generation.
/// Returns the bytes the queue then holds and whether the unit is decoded.
pub fn dequeue_access_unit(
    used: usize,
    reservation: Option<QueueReservation>,
    unit_generation: u64,
    generation: u64,
    recovery_needed: bool,
) -> (taken: (usize, bool))
    requires
        reservation matches Some(r) ==> r.bytes <= used,
    ensures
        taken.0 == (match reservation {
            Some(r) => (used - r.bytes) as usize,
            None => used,
        }),
        taken.1 == admits(unit_generation, generation, recovery_needed),
{
    let left = match reservation {
        Some(r) => r.release(used),
        None => used,
    };
    (left, decodes_queued_unit(unit_generation, generation, recovery_needed))
}

/// Invalidates the current chain (no decoder could be made, no output texture was
/// free, or the decoder failed): returns the new generation and the recovery request.
pub fn invalidate(generation: u64) -> (epoch: (u64, bool))
    ensures
        epoch == (next_generation(generation), true),
{
    (generation.wrapping_add(1), true)
}

/// What a decoder call gave back.
#[derive(Clone, Copy, Debug, PartialEq, Eq, Structural)]
pub enum DecodeOutcome {
    /// A picture; `epoch` is the generation of the access unit it came from, when the
    /// decoder handed back a known presentation timestamp.
    Picture { epoch: Option<u64> },
    /// The call consumed input and produced no picture.
    NoPicture,
    /// The call failed or panicked.
    Failed,
}

/// What the worker does with a decoder result.
#[derive(Clone, Copy, Debug, PartialEq, Eq, Structural)]
pub enum DecodeAction {
    /// The call began in an older generation: the picture is removed and not shown.
    StaleCall,
    /// The picture comes from an older generation's access unit: removed, not shown.
    OldEpoch,
    /// The picture's timestamp is unknown; output identity cannot be proved.
    Unmatched,
    /// Publish the picture to the renderer.
    Publish,
    /// Nothing came out.
    Nothing,
    /// Drop the decoder, invalidate the chain and report the error.
    Reset,
}

pub open spec fn action_for(call_generation: u64, generation: u64, outcome: DecodeOutcome) -> DecodeAction {
    match outcome {
        DecodeOutcome::Picture { epoch } => if call_generation != generation {
            DecodeAction::StaleCall
        } else {
            match epoch {
                Some(e) => if e != generation { DecodeAction::OldEpoch } else { DecodeAction::Publish },
                None => DecodeAction::Unmatched,
            }
        },
        DecodeOutcome::NoPicture => DecodeAction::Nothing,
        DecodeOutcome::Failed => DecodeAction::Reset,
    }
}

/// Classifies a decoder result of a call made in `call_generation`, with `generation`
/// current now.
pub fn decode_action(call_generation: u64, generation: u64, outcome: DecodeOutcome) -> (action: DecodeAction)
    ensures
        action == action_for(call_generation, generation, outcome),
{
    match outcome {
        DecodeOutcome::Picture { epoch } => {
            if call_generation != generation {
                return DecodeAction::StaleCall;
            }
            match epoch {
                Some(e) => if e != generation {
                    DecodeAction::OldEpoch
                } else {
                    DecodeAction::Publish
                },
                None => DecodeAction::Unmatched,
            }
        },
        DecodeOutcome::NoPicture => DecodeAction::Nothing,
        DecodeOutcome::Failed => DecodeAction::Reset,
    }
}

/// Whether the result took a picture out of the decoder, shown or not: the worker keeps
/// draining while this holds.
pub fn removed_picture(action: DecodeAction) -> (removed: bool)
    ensures
        removed == (action is StaleCall || action is OldEpoch || action is Unmatched || action is Publish),
{
    match action {
        DecodeAction::StaleCall | DecodeAction::OldEpoch | DecodeAction::Unmatched | DecodeAction::Publish => true,
        DecodeAction::Nothing | DecodeAction::Reset => false,
    }
}

/// Only a picture decoded in the current generation, from an access unit of the current
/// generation, reaches the screen; and every picture that came out is counted as drained.
pub proof fn law_only_current_pictures_are_published(call_generation: u64, generation: u64, outcome: DecodeOutcome)
    ensures
        action_for(call_generation, generation, outcome) is Publish <==> (call_generation == generation
            && outcome == (DecodeOutcome::Picture { epoch: Some(generation) })),
        outcome is Picture ==> !(action_for(call_generation, generation, outcome) is Nothing
            || action_for(call_generation, generation, outcome) is Reset),
{
}

/// After an invalidation no unit queued under the old generation is decoded, not even
/// once recovery has been taken back, and nothing decoded in it is published.
pub proof fn law_invalidation_retires_the_old_generation(
    generation: u64,
    recovery_needed: bool,
    call_outcome: DecodeOutcome,
)
    ensures
        !admits(generation, next_generation(generation), recovery_needed),
        !(action_for(generation, next_generation(generation), call_outcome) is Publish),
{
}

} // verus!
