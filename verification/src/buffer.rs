use vstd::prelude::*;

verus! {

/// An interleaved output buffer: `frames` frames of `channels` samples each,
/// frame by frame, in fixed-point sample units.
///
/// The render pipeline only ever adds to the stored samples; whoever hands
/// the buffer in decides its initial contents (typically silence).
#[derive(Debug)]
pub struct Buffer {
    /// The interleaved sample storage, of length `frames * channels`.
    pub data: Vec<i64>,
    /// The per-frame channel capacity of the output device.
    pub channels: usize,
    /// The number of frames the device requested.
    pub frames: usize,
}

/// A frame and channel index pair addresses a slot inside the interleaved
/// storage.
pub proof fn lemma_slot_in_storage(f: int, c: int, frames: int, channels: int)
    requires
        0 <= f < frames,
        0 <= c < channels,
    ensures
        0 <= f * channels + c < frames * channels,
{
    assert(0 <= f * channels + c < frames * channels) by (nonlinear_arith)
        requires
            0 <= f < frames,
            0 <= c < channels,
    ;
}

/// Distinct frame and channel index pairs address distinct slots.
pub proof fn lemma_slot_injective(f1: int, c1: int, f2: int, c2: int, channels: int)
    requires
        0 <= f1,
        0 <= f2,
        0 <= c1 < channels,
        0 <= c2 < channels,
        f1 != f2 || c1 != c2,
    ensures
        f1 * channels + c1 != f2 * channels + c2,
{
    assert(f1 * channels + c1 != f2 * channels + c2) by (nonlinear_arith)
        requires
            0 <= f1,
            0 <= f2,
            0 <= c1 < channels,
            0 <= c2 < channels,
            f1 != f2 || c1 != c2,
    ;
}

impl Buffer {
    /// The storage length matches the declared frame and channel counts.
    pub open spec fn wf(self) -> bool {
        self.data@.len() == self.frames * self.channels
    }

    /// The number of frames.
    pub open spec fn spec_frames(self) -> int {
        self.frames as int
    }

    /// The per-frame channel capacity.
    pub open spec fn spec_channels(self) -> int {
        self.channels as int
    }

    /// The sample stored for channel `c` of frame `f`.
    pub open spec fn spec_at(self, f: int, c: int) -> int {
        self.data@[f * self.channels + c] as int
    }

    /// Allocates a buffer of silence.
    pub fn new(frames: usize, channels: usize) -> (r: Buffer)
        requires
            frames * channels <= usize::MAX,
        ensures
            r.wf(),
            r.spec_frames() == frames,
            r.spec_channels() == channels,
            forall|f: int, c: int|
                0 <= f < frames && 0 <= c < channels ==> #[trigger] r.spec_at(f, c) == 0,
    {
        let total = frames * channels;
        let mut data: Vec<i64> = Vec::new();
        while data.len() < total
            invariant
                data@.len() <= total,
                forall|k: int| 0 <= k < data@.len() ==> #[trigger] data@[k] == 0,
            decreases total - data@.len(),
        {
            data.push(0);
        }
        proof {
            assert forall|f: int, c: int| 0 <= f < frames && 0 <= c < channels implies #[trigger] (
            Buffer { data, channels, frames }).spec_at(f, c) == 0 by {
                lemma_slot_in_storage(f, c, frames as int, channels as int);
            }
        }
        Buffer { data, channels, frames }
    }

    /// The number of frames.
    pub fn len_frames(&self) -> (r: usize)
        ensures
            r == self.spec_frames(),
    {
        self.frames
    }

    /// The per-frame channel capacity.
    pub fn len_channels(&self) -> (r: usize)
        ensures
            r == self.spec_channels(),
    {
        self.channels
    }

    /// Reads the sample at channel `c` of frame `f`.
    pub fn at(&self, f: usize, c: usize) -> (r: i64)
        requires
            self.wf(),
            f < self.spec_frames(),
            c < self.spec_channels(),
        ensures
            r as int == self.spec_at(f as int, c as int),
    {
        let n = self.data.len();
        proof {
            lemma_slot_in_storage(f as int, c as int, self.frames as int, self.channels as int);
        }
        self.data[f * self.channels + c]
    }

    /// Overwrites the sample at channel `c` of frame `f` (for seeding the
    /// buffer's initial contents; the render pipeline itself only adds).
    pub fn set_at(&mut self, f: usize, c: usize, v: i64)
        requires
            old(self).wf(),
            f < old(self).spec_frames(),
            c < old(self).spec_channels(),
        ensures
            final(self).wf(),
            final(self).spec_frames() == old(self).spec_frames(),
            final(self).spec_channels() == old(self).spec_channels(),
            final(self).data@ == old(self).data@.update(
                f * old(self).spec_channels() + c,
                v,
            ),
            final(self).spec_at(f as int, c as int) == v as int,
    {
        let n = self.data.len();
        proof {
            lemma_slot_in_storage(f as int, c as int, self.frames as int, self.channels as int);
        }
        let idx = f * self.channels + c;
        self.data[idx] = v;
    }
}

} // verus!
