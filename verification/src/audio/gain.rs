//! Playback-only gain for the mixed Xbox stream. Never changes microphone gain.
use vstd::prelude::*;
use crate::text::div_trunc;

verus! {

pub const UNITY: i32 = 100 * 256;
/// 10ms at 48kHz, shared by both stereo channels.
pub const RAMP_FRAMES: i32 = 480;

/// Gain and ramp position after one stereo frame.
pub open spec fn ramp_step(current: int, target: int, remaining: int) -> (int, int) {
    if remaining > 0 {
        (current + div_trunc(target - current, remaining), remaining - 1)
    } else {
        (current, remaining)
    }
}

/// Gain and ramp position after `frames` stereo frames.
pub open spec fn ramp_after(current: int, target: int, remaining: int, frames: nat) -> (int, int)
    decreases frames,
{
    if frames == 0 {
        (current, remaining)
    } else {
        let (c, r) = ramp_after(current, target, remaining, (frames - 1) as nat);
        ramp_step(c, target, r)
    }
}

/// One sample scaled by `gain / UNITY`, truncating toward zero.
pub open spec fn scaled(sample: i16, gain: int) -> i16 {
    div_trunc(sample as int * gain, UNITY as int) as i16
}

/// Number of (possibly partial) stereo frames in `len` samples.
pub open spec fn frames(len: nat) -> nat {
    (len + 1) / 2
}

/// Linear-in-steps ramp toward the requested volume.
pub struct AudioGain {
    current: i32,
    target: i32,
    remaining: i32,
}

impl AudioGain {
    pub closed spec fn current(&self) -> int {
        self.current as int
    }

    pub closed spec fn target(&self) -> int {
        self.target as int
    }

    pub closed spec fn remaining(&self) -> int {
        self.remaining as int
    }

    /// Gains stay between silence and unity; the ramp is at most `RAMP_FRAMES` long.
    pub open spec fn wf(&self) -> bool {
        &&& 0 <= self.current() <= UNITY
        &&& 0 <= self.target() <= UNITY
        &&& 0 <= self.remaining() <= RAMP_FRAMES
    }

    pub fn new() -> (gain: Self)
        ensures
            gain.wf(),
            gain.current() == UNITY,
            gain.target() == UNITY,
            gain.remaining() == 0,
    {
        AudioGain { current: UNITY, target: UNITY, remaining: 0 }
    }

    /// The current playback gain in 1/256 percent.
    pub fn current_gain(&self) -> (gain: i32)
        ensures
            gain == self.current(),
    {
        self.current
    }

    /// Request a volume (capped at 100%); an unchanged request does not restart the ramp.
    pub fn set_percent(&mut self, percent: u8)
        requires
            old(self).wf(),
        ensures
            final(self).wf(),
            final(self).current() == old(self).current(),
            ({
                let target = (if percent > 100 { 100 } else { percent as int }) * 256;
                if target != old(self).target() {
                    final(self).target() == target && final(self).remaining() == RAMP_FRAMES
                } else {
                    final(self).target() == old(self).target() && final(self).remaining() == old(self).remaining()
                }
            }),
    {
        let capped: i32 = if percent > 100 { 100 } else { percent as i32 };
        let target = capped * 256;
        if target != self.target {
            self.target = target;
            self.remaining = RAMP_FRAMES;
        }
    }

    /// Scale interleaved stereo samples in place. Each frame first advances the ramp
    /// one step, then scales both of its samples by the same gain.
    pub fn apply_stereo(&mut self, samples: &mut Vec<i16>)
        requires
            old(self).wf(),
        ensures
            final(self).wf(),
            final(self).target() == old(self).target(),
            final(samples)@.len() == old(samples)@.len(),
            old(self).remaining() == 0 && old(self).current() == UNITY ==> final(samples)@ == old(samples)@
                && final(self).current() == old(self).current() && final(self).remaining() == old(self).remaining(),
            !(old(self).remaining() == 0 && old(self).current() == UNITY) ==> {
                &&& (final(self).current(), final(self).remaining()) == ramp_after(
                    old(self).current(),
                    old(self).target(),
                    old(self).remaining(),
                    frames(old(samples)@.len()),
                )
                &&& forall|i: int| 0 <= i < old(samples)@.len() ==> #[trigger] final(samples)@[i] == scaled(
                    old(samples)@[i],
                    ramp_after(old(self).current(), old(self).target(), old(self).remaining(), (i / 2 + 1) as nat).0,
                )
            },
    {
        if self.remaining == 0 && self.current == UNITY {
            return;
        }
        let ghost c0 = self.current as int;
        let ghost t0 = self.target as int;
        let ghost r0 = self.remaining as int;
        let ghost original = samples@;
        let n = samples.len();
        let mut i: usize = 0;
        while i < n
            invariant
                n == samples@.len(),
                samples@.len() == original.len(),
                i <= n,
                i % 2 == 0 || i == n,
                self.wf(),
                self.target() == t0,
                (self.current(), self.remaining()) == ramp_after(c0, t0, r0, ((i + 1) / 2) as nat),
                forall|j: int| i <= j < n ==> samples@[j] == original[j],
                forall|j: int| 0 <= j < i ==> #[trigger] samples@[j] == scaled(
                    original[j],
                    ramp_after(c0, t0, r0, (j / 2 + 1) as nat).0,
                ),
            decreases n - i,
        {
            if self.remaining > 0 {
                let step = (self.target - self.current) / self.remaining;
                proof {
                    let d = t0 - self.current();
                    assert(div_trunc(d, self.remaining() as int) == step);
                    if d >= 0 {
                        assert(d / self.remaining() <= d) by (nonlinear_arith)
                            requires d >= 0, self.remaining() >= 1;
                    } else {
                        assert((-d) / self.remaining() <= -d) by (nonlinear_arith)
                            requires -d >= 0, self.remaining() >= 1;
                    }
                }
                self.current = self.current + step;
                self.remaining = self.remaining - 1;
            }
            let gain = self.current;
            let first = samples[i];
            proof {
                assert(-32768 * 25600 <= first as int * gain as int <= 32767 * 25600) by (nonlinear_arith)
                    requires -32768 <= first <= 32767, 0 <= gain <= 25600;
                lemma_scaled_fits(first, gain as int);
            }
            samples.set(i, ((first as i32) * gain / UNITY) as i16);
            if i + 1 < n {
                let second = samples[i + 1];
                proof {
                    assert(-32768 * 25600 <= second as int * gain as int <= 32767 * 25600) by (nonlinear_arith)
                        requires -32768 <= second <= 32767, 0 <= gain <= 25600;
                    lemma_scaled_fits(second, gain as int);
                }
                samples.set(i + 1, ((second as i32) * gain / UNITY) as i16);
            }
            proof {
                assert(((i + 1) / 2) as int == i / 2);
                assert(((i + 3) / 2) as int == i / 2 + 1);
                assert(((i + 2) / 2) as int == i / 2 + 1);
            }
            i = if i + 1 < n { i + 2 } else { i + 1 };
        }
    }
}

impl Default for AudioGain {
    fn default() -> (gain: Self)
        ensures
            gain.wf(),
            gain.current() == UNITY,
            gain.target() == UNITY,
            gain.remaining() == 0,
    {
        AudioGain::new()
    }
}

proof fn lemma_scaled_fits(sample: i16, gain: int)
    requires
        0 <= gain <= UNITY,
    ensures
        -32768 <= div_trunc(sample as int * gain, UNITY as int) <= 32767,
{
    let p = sample as int * gain;
    if p >= 0 {
        assert(p <= 32767 * 25600) by (nonlinear_arith)
            requires p == sample as int * gain, 0 <= gain <= 25600, sample <= 32767, p >= 0;
    } else {
        assert(-p <= 32768 * 25600) by (nonlinear_arith)
            requires p == sample as int * gain, 0 <= gain <= 25600, sample >= -32768, p < 0;
    }
}

/// The playback gain never amplifies: every scaled sample is at most the input in magnitude
/// and keeps its sign.
pub proof fn law_gain_never_amplifies(sample: i16, gain: int)
    requires
        0 <= gain <= UNITY,
    ensures
        sample >= 0 ==> 0 <= scaled(sample, gain) <= sample,
        sample < 0 ==> sample <= scaled(sample, gain) <= 0,
{
    lemma_scaled_fits(sample, gain);
    let p = sample as int * gain;
    if sample >= 0 {
        assert(0 <= p <= sample as int * 25600) by (nonlinear_arith)
            requires p == sample as int * gain, 0 <= gain <= 25600, sample >= 0;
    } else {
        assert(sample as int * 25600 <= p <= 0) by (nonlinear_arith)
            requires p == sample as int * gain, 0 <= gain <= 25600, sample < 0;
    }
}

/// A ramp step moves the gain toward the target without overshooting it.
pub proof fn law_ramp_moves_toward_target(current: int, target: int, remaining: int)
    requires
        remaining > 0,
    ensures
        current <= target ==> current <= ramp_step(current, target, remaining).0 <= target,
        current >= target ==> target <= ramp_step(current, target, remaining).0 <= current,
{
    let d = target - current;
    if d >= 0 {
        assert(d / remaining <= d) by (nonlinear_arith)
            requires d >= 0, remaining >= 1;
    } else {
        assert((-d) / remaining <= -d) by (nonlinear_arith)
            requires -d >= 0, remaining >= 1;
    }
}

/// The last ramp step lands exactly on the target.
pub proof fn law_ramp_ends_on_target(current: int, target: int)
    ensures
        ramp_step(current, target, 1) == (target, 0int),
{
}

} // verus!
