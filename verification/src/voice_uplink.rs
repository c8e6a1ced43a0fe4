//! Decisions of the opt-in voice uplink. The initial streaming SDP stays receive-only;
//! chat audio is negotiated through its own SDP exchange on the first explicit unmute,
//! once per session, and a failed negotiation stops voice without touching game media.
//! Voice RTP is packetised here: one sequence number per packet actually written, and
//! a marker whenever a packet does not follow the previous one by exactly one 20ms frame.
use vstd::prelude::*;

verus! {

/// RTP timestamp ticks of one 20ms Opus frame at 48 kHz.
pub const OPUS_FRAME_TICKS: u32 = 960;

/// The uplink's state; the peer connection and the capture live with the caller.
#[derive(Clone, Copy, Debug, PartialEq, Eq, Structural)]
pub struct VoiceUplink {
    pub connected: bool,
    pub negotiated: bool,
    /// A chat offer was sent and its answer is awaited.
    pub pending: bool,
    /// The negotiation failed: voice stays off for this session.
    pub failed: bool,
    /// The sequence number of the next packet.
    pub sequence: u16,
    /// The RTP timestamp of the last packet written.
    pub previous_timestamp: Option<u32>,
}

/// What the microphone is told after a change of connection.
#[derive(Clone, Copy, Debug, PartialEq, Eq, Structural)]
pub struct MicrophoneSignal {
    /// Capture may be switched on.
    pub ready: bool,
    /// Audio may flow to the Xbox.
    pub negotiated: bool,
}

impl VoiceUplink {
    pub open spec fn may_negotiate(self, microphone_on: bool) -> bool {
        self.connected && microphone_on && !self.negotiated && !self.pending && !self.failed
    }

    /// The uplink after its negotiation ended.
    pub open spec fn finished(self, accepted: bool) -> Self {
        if accepted {
            VoiceUplink { pending: false, negotiated: true, ..self }
        } else {
            VoiceUplink { pending: false, negotiated: false, failed: true, ..self }
        }
    }

    /// The marker of a packet with `timestamp`: set unless it follows the previous packet
    /// by exactly one frame.
    pub open spec fn marker_for(self, timestamp: u32) -> bool {
        match self.previous_timestamp {
            Some(previous) => timestamp.wrapping_sub(previous) != OPUS_FRAME_TICKS,
            None => true,
        }
    }

    /// A new uplink whose first packet gets `first_sequence`.
    pub fn new(first_sequence: u16) -> (uplink: Self)
        ensures
            uplink == (VoiceUplink {
                connected: false,
                negotiated: false,
                pending: false,
                failed: false,
                sequence: first_sequence,
                previous_timestamp: None,
            }),
    {
        VoiceUplink {
            connected: false,
            negotiated: false,
            pending: false,
            failed: false,
            sequence: first_sequence,
            previous_timestamp: None,
        }
    }

    /// Whether to start the chat negotiation now: connected, unmuted, and neither done,
    /// under way nor failed.
    pub fn should_negotiate(&self, microphone_on: bool) -> (start: bool)
        ensures
            start == self.may_negotiate(microphone_on),
    {
        self.connected && microphone_on && !self.negotiated && !self.pending && !self.failed
    }

    /// The chat offer went out.
    pub fn offer_sent(&mut self)
        ensures
            *final(self) == (VoiceUplink { pending: true, ..*old(self) }),
    {
        self.pending = true;
    }

    /// The negotiation ended: accepted with a sending direction, or failed (no offer,
    /// no answer, or the Xbox declined microphone audio).
    pub fn negotiation_finished(&mut self, accepted: bool)
        ensures
            *final(self) == old(self).finished(accepted),
    {
        self.pending = false;
        if accepted {
            self.negotiated = true;
        } else {
            self.failed = true;
            self.negotiated = false;
        }
    }

    /// The peer connection is (or is no longer) connected; `capturing` tells whether the
    /// capture worker runs. On a change, what the microphone is told.
    pub fn connection(&mut self, connected: bool, capturing: bool) -> (signal: Option<MicrophoneSignal>)
        ensures
            connected == old(self).connected ==> signal is None && *final(self) == *old(self),
            connected != old(self).connected ==> *final(self) == (VoiceUplink { connected, ..*old(self) })
                && signal == Some(
                MicrophoneSignal {
                    ready: connected && capturing && !old(self).failed,
                    negotiated: connected && old(self).negotiated,
                },
            ),
    {
        if connected == self.connected {
            return None;
        }
        self.connected = connected;
        Some(MicrophoneSignal { ready: connected && capturing && !self.failed, negotiated: connected && self.negotiated })
    }

    /// Whether voice packets may be written.
    pub fn sending(&self) -> (send: bool)
        ensures
            send == (self.connected && self.negotiated),
    {
        self.connected && self.negotiated
    }

    /// The sequence number and marker of the next packet, for a clip at `timestamp`.
    pub fn header(&self, timestamp: u32) -> (header: (u16, bool))
        ensures
            header == (self.sequence, self.marker_for(timestamp)),
    {
        let marker = match self.previous_timestamp {
            Some(previous) => timestamp.wrapping_sub(previous) != OPUS_FRAME_TICKS,
            None => true,
        };
        (self.sequence, marker)
    }

    /// The packet of the clip at `timestamp` was written.
    pub fn written(&mut self, timestamp: u32)
        ensures
            *final(self) == (VoiceUplink {
                sequence: old(self).sequence.wrapping_add(1),
                previous_timestamp: Some(timestamp),
                ..*old(self)
            }),
    {
        self.sequence = self.sequence.wrapping_add(1);
        self.previous_timestamp = Some(timestamp);
    }
}

/// One negotiation at a time, and none after a failure or once negotiated.
pub proof fn law_negotiation_happens_at_most_once(u: VoiceUplink, on: bool, accepted: bool)
    ensures
        u.pending || u.failed || u.negotiated ==> !u.may_negotiate(on),
        !u.finished(accepted).may_negotiate(on),
{
}

/// Consecutive 20ms clips run without a marker and with consecutive sequence numbers.
pub proof fn law_consecutive_clips_continue_the_stream(u: VoiceUplink, timestamp: u32)
    ensures
        ({
            let v = VoiceUplink {
                sequence: u.sequence.wrapping_add(1),
                previous_timestamp: Some(timestamp),
                ..u
            };
            &&& !v.marker_for(timestamp.wrapping_add(OPUS_FRAME_TICKS))
            &&& v.marker_for(timestamp)
            &&& v.sequence == u.sequence.wrapping_add(1)
        }),
{
    assert(timestamp.wrapping_add(OPUS_FRAME_TICKS).wrapping_sub(timestamp) == OPUS_FRAME_TICKS) by (bit_vector);
}

} // verus!
