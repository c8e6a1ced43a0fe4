//! Hand-off of decoded textures between the decoder and the renderer. The caller holds
//! this state under one lock; texture memory is named by integers so that the
//! platform-specific boundary stays with the code that registers and draws them.
use vstd::prelude::*;

verus! {

pub const STREAM_WIDTH: u32 = 1280;
pub const STREAM_HEIGHT: u32 = 720;
/// The stock Vita AVC decoder capacity, kept independently of the requested stream size.
pub const HW_DECODER_WIDTH: u32 = 1280;
pub const HW_DECODER_HEIGHT: u32 = 720;
pub const HW_OUTPUT_WIDTH: u32 = 960;
pub const HW_OUTPUT_HEIGHT: u32 = 544;

/// A texture the decoder may write: its address, row pitch and size in bytes.
#[derive(Clone, Copy, Debug)]
pub struct VideoTextureTarget {
    pub ptr: usize,
    pub pitch: u32,
    pub capacity: u32,
}

/// A picture handed to the renderer.
#[derive(Clone, Copy, Debug)]
pub struct DecodedFrame {
    pub texture_index: usize,
    pub generation: u64,
}

/// Decoder and output dimensions.
#[derive(Clone, Copy, Debug)]
pub struct DecoderConfig {
    pub decode_width: u32,
    pub decode_height: u32,
    pub output_width: u32,
    pub output_height: u32,
}

/// Abstract state of the texture hand-off.
pub ghost struct OutputModel {
    pub targets: Option<Seq<VideoTextureTarget>>,
    /// The texture the renderer shows.
    pub displayed: Option<usize>,
    /// The newest completed texture not yet taken: index, generation, decode time.
    pub pending: Option<(usize, u64, u64)>,
    pub next_generation: u64,
}

pub open spec fn pending_index(m: OutputModel) -> Option<usize> {
    match m.pending {
        Some((index, _, _)) => Some(index),
        None => None,
    }
}

/// A texture the decoder may use without touching the shown or the pending one.
pub open spec fn is_spare(m: OutputModel, i: usize) -> bool {
    Some(i) != m.displayed && Some(i) != pending_index(m)
}

/// The lowest spare texture below `n`.
pub open spec fn first_spare(m: OutputModel, n: nat) -> Option<usize>
    decreases n,
{
    if n == 0 {
        None
    } else {
        match first_spare(m, (n - 1) as nat) {
            Some(i) => Some(i),
            None => if is_spare(m, (n - 1) as usize) { Some((n - 1) as usize) } else { None },
        }
    }
}

/// Where the decoder writes next: the lowest spare texture; when there is none (the
/// renderer is behind), the pending texture, replaced; never the displayed one.
pub open spec fn decode_choice(m: OutputModel) -> Option<usize> {
    match m.targets {
        None => None,
        Some(targets) => match first_spare(m, targets.len()) {
            Some(i) => Some(i),
            None => match pending_index(m) {
                Some(p) => if Some(p) != m.displayed && p < targets.len() { Some(p) } else { None },
                None => None,
            },
        },
    }
}

/// The texture hand-off state.
pub struct DirectVideoOutput {
    targets: Option<Vec<VideoTextureTarget>>,
    displayed: Option<usize>,
    pending: Option<(usize, u64, u64)>,
    next_generation: u64,
    width: u32,
    height: u32,
}

impl View for DirectVideoOutput {
    type V = OutputModel;

    closed spec fn view(&self) -> OutputModel {
        OutputModel {
            targets: match self.targets {
                Some(v) => Some(v@),
                None => None,
            },
            displayed: self.displayed,
            pending: self.pending,
            next_generation: self.next_generation,
        }
    }
}

/// The texture chosen for the next decode.
pub struct DirectVideoTargetGuard {
    pub target: VideoTextureTarget,
    pub index: usize,
}

proof fn lemma_first_spare_found(m: OutputModel, n: nat)
    ensures
        first_spare(m, n) matches Some(i) ==> i < n && is_spare(m, i),
        first_spare(m, n) is None ==> forall|i: usize| i < n ==> !is_spare(m, i),
    decreases n,
{
    if n > 0 {
        lemma_first_spare_found(m, (n - 1) as nat);
    }
}

impl DirectVideoOutput {
    pub closed spec fn dims(&self) -> (u32, u32) {
        (self.width, self.height)
    }

    pub fn new(width: u32, height: u32) -> (output: Self)
        ensures
            output@ == (OutputModel { targets: None, displayed: None, pending: None, next_generation: 0 }),
            output.dims() == (width, height),
    {
        DirectVideoOutput { targets: None, displayed: None, pending: None, next_generation: 0, width, height }
    }

    pub fn width(&self) -> (width: u32)
        ensures
            width == self.dims().0,
    {
        self.width
    }

    pub fn height(&self) -> (height: u32)
        ensures
            height == self.dims().1,
    {
        self.height
    }

    /// New textures: nothing is shown or pending in them yet.
    pub fn set_targets(&mut self, targets: Vec<VideoTextureTarget>)
        ensures
            final(self)@ == (OutputModel { targets: Some(targets@), displayed: None, pending: None, ..old(self)@ }),
            final(self).dims() == old(self).dims(),
    {
        self.targets = Some(targets);
        self.displayed = None;
        self.pending = None;
    }

    pub fn clear_targets(&mut self)
        ensures
            final(self)@ == (OutputModel { targets: None, displayed: None, pending: None, ..old(self)@ }),
            final(self).dims() == old(self).dims(),
    {
        self.targets = None;
        self.displayed = None;
        self.pending = None;
    }

    pub fn has_pending(&self) -> (pending: bool)
        ensures
            pending == self@.pending is Some,
    {
        self.pending.is_some()
    }

    /// The renderer takes the newest completed texture, which becomes the displayed one.
    /// Returns its index and decode time.
    pub fn take_latest_for_display(&mut self) -> (taken: Option<(usize, u64)>)
        ensures
            final(self).dims() == old(self).dims(),
            match old(self)@.pending {
                Some((index, _, decoded_at)) => {
                    &&& taken == Some((index, decoded_at))
                    &&& final(self)@ == (OutputModel { displayed: Some(index), pending: None, ..old(self)@ })
                },
                None => taken is None && final(self)@ == old(self)@,
            },
    {
        match self.pending {
            Some((index, _, decoded_at)) => {
                self.pending = None;
                self.displayed = Some(index);
                Some((index, decoded_at))
            },
            None => None,
        }
    }

    /// The texture to decode into next, if any may be written.
    pub fn lock_decode_target(&self) -> (guard: Option<DirectVideoTargetGuard>)
        ensures
            match decode_choice(self@) {
                Some(i) => guard matches Some(g) && g.index == i && g.target == self@.targets->0[i as int],
                None => guard is None,
            },
    {
        let targets = match &self.targets {
            Some(targets) => targets,
            None => return None,
        };
        let pending_at: Option<usize> = match self.pending {
            Some((index, _, _)) => Some(index),
            None => None,
        };
        let ghost m = self@;
        let mut k: usize = 0;
        while k < targets.len()
            invariant
                k <= targets@.len(),
                m == self@,
                self.targets == Some(*targets),
                pending_at == pending_index(m),
                first_spare(m, k as nat) is None,
            decreases targets@.len() - k,
        {
            if Some(k) != self.displayed && Some(k) != pending_at {
                proof {
                    lemma_first_spare_found(m, targets@.len() as nat);
                    lemma_first_spare_prefix(m, (k + 1) as nat, targets@.len() as nat);
                }
                return Some(DirectVideoTargetGuard { target: targets[k], index: k });
            }
            k += 1;
        }
        match pending_at {
            Some(p) => {
                if Some(p) != self.displayed && p < targets.len() {
                    Some(DirectVideoTargetGuard { target: targets[p], index: p })
                } else {
                    None
                }
            },
            None => None,
        }
    }
}

proof fn lemma_first_spare_prefix(m: OutputModel, k: nat, n: nat)
    requires
        k <= n,
        first_spare(m, k) is Some,
    ensures
        first_spare(m, n) == first_spare(m, k),
    decreases n - k,
{
    if k < n {
        lemma_first_spare_prefix(m, k, (n - 1) as nat);
    }
}

impl DirectVideoTargetGuard {
    /// The decoded picture in the chosen texture becomes the pending one, under a new
    /// wrapping generation number. Returns the texture index and the generation.
    pub fn publish(self, output: &mut DirectVideoOutput, now_us: u64) -> (published: (usize, u64))
        ensures
            published == (self.index, old(output)@.next_generation.wrapping_add(1)),
            final(output)@ == (OutputModel {
                pending: Some((self.index, published.1, now_us)),
                next_generation: published.1,
                ..old(output)@
            }),
            final(output).dims() == old(output).dims(),
    {
        output.next_generation = output.next_generation.wrapping_add(1);
        let generation = output.next_generation;
        output.pending = Some((self.index, generation, now_us));
        (self.index, generation)
    }
}

/// The decoder never writes the texture the renderer shows, and only ever a texture
/// that exists.
pub proof fn law_never_decode_into_displayed(m: OutputModel)
    ensures
        decode_choice(m) matches Some(i) ==> (Some(i) != m.displayed && (m.targets matches Some(t) && i < t.len())),
{
    if m.targets is Some {
        lemma_first_spare_found(m, m.targets->0.len() as nat);
    }
}

/// With three or more textures the decoder always has a spare one: it neither stalls
/// nor replaces the picture waiting for the renderer.
pub proof fn law_three_textures_never_replace_pending(m: OutputModel)
    requires
        m.targets matches Some(t) && t.len() >= 3,
    ensures
        decode_choice(m) matches Some(i) && is_spare(m, i),
{
    let n = m.targets->0.len() as nat;
    lemma_first_spare_found(m, 3);
    if first_spare(m, 3) is None {
        assert(!is_spare(m, 0));
        assert(!is_spare(m, 1));
        assert(!is_spare(m, 2));
        assert(false);
    }
    lemma_first_spare_prefix(m, 3, n);
    lemma_first_spare_found(m, n);
}

/// With two textures the decoder keeps working while one is shown: it replaces the
/// pending picture when the renderer is behind.
pub proof fn law_two_textures_keep_decoding(m: OutputModel)
    requires
        m.targets matches Some(t) && t.len() == 2,
        m.displayed matches Some(d) && d < 2,
    ensures
        decode_choice(m) is Some,
{
    lemma_first_spare_found(m, 2);
    if first_spare(m, 2) is None {
        let other: usize = if m.displayed->0 == 0 { 1 } else { 0 };
        assert(!is_spare(m, other));
        assert(pending_index(m) == Some(other));
    }
}

} // verus!
