use vstd::arithmetic::div_mod::{
    lemma_div_is_ordered, lemma_div_multiples_vanish, lemma_div_pos_is_pos,
    lemma_fundamental_div_mod_converse_mod, lemma_multiply_divide_lt,
};
use vstd::arithmetic::mul::{
    lemma_mul_inequality, lemma_mul_is_commutative, lemma_mul_nonnegative,
    lemma_mul_strict_inequality,
};
use vstd::prelude::*;

use crate::buffer::{lemma_slot_in_storage, lemma_slot_injective, Buffer};
use crate::geom::{
    cos_fp, distance_2, scale_spread, sin_fp, spec_channel_angle, spec_channel_point, Angle, Point,
    COORD_LIMIT, POINT_LIMIT, SPREAD_LIMIT, TURN,
};
use crate::metres::Metres;
use crate::mix::{
    channel_mix, lemma_mix_bound, lemma_mix_take_step, lemma_pair_mix_bound,
    lemma_pair_mix_is_channel_mix, lemma_proximity_pairs_props, lemma_sample_index_in_signal,
    lemma_sound_mix_upto_bound, mix, pair_mix, proximity_pairs, sample_at, slot,
    sound_frame_ready, sound_mix_upto, spec_amplitude, spec_channel_point_of, spec_scale,
};
use crate::sound::Sound;
use crate::speaker::Speaker;

verus! {

/// Sounds are only output to speakers within this distance of a channel
/// position, in thousandths of a metre (five metres).
pub const PROXIMITY_LIMIT: i64 = 5_000;

/// The proximity limit squared, in squared thousandths of a metre (for
/// distance comparisons without a square root).
pub const PROXIMITY_LIMIT_2: i64 = 25_000_000;

/// The maximum number of audio channels.
pub const MAX_CHANNELS: usize = 32;

/// The desired sample rate of the output stream, in hertz.
pub const SAMPLE_RATE: u32 = 44_100;

/// The desired number of frames requested at a time.
pub const FRAMES_PER_BUFFER: usize = 64;

/// Largest magnitude of a fixed-point sample value handed to the mixer.
pub const SAMPLE_LIMIT: i64 = 2_147_483_648;

/// The most sounds the render state will hold at once.
pub const MAX_SOUNDS: usize = 1_024;

/// Largest magnitude the output buffer's initial samples may have: leaves
/// room for everything one render call can add without overflowing an `i64`.
pub const BUFFER_START_LIMIT: i64 = 1_152_921_504_606_846_976;

/// An amplitude multiplier, as the numerator of an exact fraction over
/// `PROXIMITY_LIMIT_2`.
pub type Amplitude = i64;

/// State that lives on the audio thread: the active sounds and speakers,
/// and the two scratch buffers the render pipeline clears and refills on
/// every use (their capacity, not their content, is what persists - the
/// steady-state allocation-avoidance device of the hot path).
#[derive(Debug)]
pub struct Model {
    /// The active sounds.
    pub sounds: Vec<Sound>,
    /// The active speakers.
    pub speakers: Vec<Speaker>,
    /// Scratch: the speakers within proximity of the channel position most
    /// recently queried.
    pub speakers_in_proximity: Vec<(Amplitude, usize)>,
    /// Scratch: the samples most recently pulled for the sound being
    /// processed.
    pub unmixed_samples: Vec<i64>,
}

impl Model {
    /// Validity of the render state: every sound and speaker is valid, ids
    /// are unique per collection, and the collections stay within the sizes
    /// the mixer's arithmetic is proved against.
    pub open spec fn wf(self) -> bool {
        &&& self.sounds@.len() <= MAX_SOUNDS
        &&& self.speakers@.len() <= MAX_CHANNELS
        &&& forall|i: int| 0 <= i < self.sounds@.len() ==> (#[trigger] self.sounds@[i]).wf()
        &&& forall|i: int| 0 <= i < self.speakers@.len() ==> (#[trigger] self.speakers@[i]).wf()
        &&& forall|i: int, j: int|
            0 <= i < j < self.sounds@.len() ==> (#[trigger] self.sounds@[i]).id != (
            #[trigger] self.sounds@[j]).id
        &&& forall|i: int, j: int|
            0 <= i < j < self.speakers@.len() ==> (#[trigger] self.speakers@[i]).id != (
            #[trigger] self.speakers@[j]).id
    }

    /// Initialises an empty render state.
    pub fn new() -> (r: Self)
        ensures
            r.wf(),
            r.sounds@.len() == 0,
            r.speakers@.len() == 0,
    {
        Model {
            sounds: Vec::new(),
            speakers: Vec::new(),
            speakers_in_proximity: Vec::new(),
            unmixed_samples: Vec::new(),
        }
    }
}

/// Some sound in the collection carries this id.
pub open spec fn contains_sound_id(sounds: Seq<Sound>, id: u64) -> bool {
    exists|i: int| 0 <= i < sounds.len() && (#[trigger] sounds[i]).id == id
}

/// Some speaker in the collection carries this id.
pub open spec fn contains_speaker_id(speakers: Seq<Speaker>, id: u64) -> bool {
    exists|i: int| 0 <= i < speakers.len() && (#[trigger] speakers[i]).id == id
}

impl Model {
    /// Finds the position of the sound with the given id, if any.
    fn index_of_sound(&self, id: u64) -> (r: Option<usize>)
        ensures
            match r {
                Some(k) => k < self.sounds@.len() && self.sounds@[k as int].id == id,
                None => !contains_sound_id(self.sounds@, id),
            },
    {
        let mut k: usize = 0;
        while k < self.sounds.len()
            invariant
                k <= self.sounds@.len(),
                forall|m: int| 0 <= m < k ==> (#[trigger] self.sounds@[m]).id != id,
            decreases self.sounds@.len() - k,
        {
            if self.sounds[k].id == id {
                return Some(k);
            }
            k = k + 1;
        }
        None
    }

    /// Finds the position of the speaker with the given id, if any.
    fn index_of_speaker(&self, id: u64) -> (r: Option<usize>)
        ensures
            match r {
                Some(k) => k < self.speakers@.len() && self.speakers@[k as int].id == id,
                None => !contains_speaker_id(self.speakers@, id),
            },
    {
        let mut k: usize = 0;
        while k < self.speakers.len()
            invariant
                k <= self.speakers@.len(),
                forall|m: int| 0 <= m < k ==> (#[trigger] self.speakers@[m]).id != id,
            decreases self.speakers@.len() - k,
        {
            if self.speakers[k].id == id {
                return Some(k);
            }
            k = k + 1;
        }
        None
    }

    /// Adds a sound.  Refused (returning `false`, with the state unchanged)
    /// when the collection is full or the id is already taken.
    pub fn add_sound(&mut self, sound: Sound) -> (r: bool)
        requires
            old(self).wf(),
            sound.wf(),
        ensures
            final(self).wf(),
            final(self).speakers@ == old(self).speakers@,
            r == (old(self).sounds@.len() < MAX_SOUNDS && !contains_sound_id(
                old(self).sounds@,
                sound.id,
            )),
            r ==> final(self).sounds@ == old(self).sounds@.push(sound),
            !r ==> final(self).sounds@ == old(self).sounds@,
    {
        if self.sounds.len() >= MAX_SOUNDS {
            return false;
        }
        match self.index_of_sound(sound.id) {
            Some(_) => false,
            None => {
                self.sounds.push(sound);
                true
            },
        }
    }

    /// Removes the sound with the given id and returns it, releasing its
    /// signal batch to the caller.
    pub fn remove_sound(&mut self, id: u64) -> (r: Option<Sound>)
        requires
            old(self).wf(),
        ensures
            final(self).wf(),
            final(self).speakers@ == old(self).speakers@,
            match r {
                Some(s) => s.id == id && exists|k: int|
                    0 <= k < old(self).sounds@.len() && #[trigger] old(self).sounds@[k] == s
                        && final(self).sounds@ == old(self).sounds@.remove(k),
                None => !contains_sound_id(old(self).sounds@, id) && final(self).sounds@ == old(
                    self,
                ).sounds@,
            },
    {
        match self.index_of_sound(id) {
            Some(k) => {
                let s = self.sounds.remove(k);
                Some(s)
            },
            None => None,
        }
    }

    /// Moves a sound: replaces its centre point, spread and rotation in
    /// place.  Returns whether a sound with the id was found.
    pub fn reposition_sound(&mut self, id: u64, point: Point, spread: Metres, rotation: Angle) -> (r:
        bool)
        requires
            old(self).wf(),
            point.bounded(COORD_LIMIT as int),
            0 <= spread.0 <= SPREAD_LIMIT,
            rotation.wf(),
        ensures
            final(self).wf(),
            final(self).speakers@ == old(self).speakers@,
            r == contains_sound_id(old(self).sounds@, id),
            r ==> exists|k: int|
                0 <= k < old(self).sounds@.len() && (#[trigger] old(self).sounds@[k]).id == id
                    && final(self).sounds@ == old(self).sounds@.update(
                    k,
                    Sound {
                        point,
                        spread,
                        rotation,
                        id: old(self).sounds@[k].id,
                        channels: old(self).sounds@[k].channels,
                        signal: old(self).sounds@[k].signal,
                    },
                ),
            !r ==> final(self).sounds@ == old(self).sounds@,
    {
        match self.index_of_sound(id) {
            Some(k) => {
                let s = self.sounds.remove(k);
                let Sound { id: sid, channels, signal, .. } = s;
                let moved = Sound { id: sid, point, channels, spread, rotation, signal };
                self.sounds.insert(k, moved);
                proof {
                    assert(self.sounds@ =~= old(self).sounds@.update(k as int, moved));
                }
                true
            },
            None => false,
        }
    }

    /// Replaces the interleaved signal batch of the sound with the given id:
    /// the control side's hand-off of freshly pulled samples before a render
    /// call.  Returns whether a sound with the id was found.
    pub fn set_sound_signal(&mut self, id: u64, signal: Vec<i64>) -> (r: bool)
        requires
            old(self).wf(),
            forall|k: int|
                0 <= k < signal@.len() ==> -SAMPLE_LIMIT <= #[trigger] signal@[k] <= SAMPLE_LIMIT,
        ensures
            final(self).wf(),
            final(self).speakers@ == old(self).speakers@,
            r == contains_sound_id(old(self).sounds@, id),
            r ==> exists|k: int|
                0 <= k < old(self).sounds@.len() && (#[trigger] old(self).sounds@[k]).id == id
                    && final(self).sounds@ == old(self).sounds@.update(
                    k,
                    Sound {
                        signal: signal,
                        id: old(self).sounds@[k].id,
                        point: old(self).sounds@[k].point,
                        channels: old(self).sounds@[k].channels,
                        spread: old(self).sounds@[k].spread,
                        rotation: old(self).sounds@[k].rotation,
                    },
                ),
            !r ==> final(self).sounds@ == old(self).sounds@,
    {
        match self.index_of_sound(id) {
            Some(k) => {
                let s = self.sounds.remove(k);
                let Sound { id: sid, point, channels, spread, rotation, .. } = s;
                let fed = Sound { id: sid, point, channels, spread, rotation, signal };
                self.sounds.insert(k, fed);
                proof {
                    assert(self.sounds@ =~= old(self).sounds@.update(k as int, fed));
                }
                true
            },
            None => false,
        }
    }

    /// Adds a speaker.  Refused (returning `false`, with the state
    /// unchanged) when the collection is full or the id is already taken.
    pub fn add_speaker(&mut self, speaker: Speaker) -> (r: bool)
        requires
            old(self).wf(),
            speaker.wf(),
        ensures
            final(self).wf(),
            final(self).sounds@ == old(self).sounds@,
            r == (old(self).speakers@.len() < MAX_CHANNELS && !contains_speaker_id(
                old(self).speakers@,
                speaker.id,
            )),
            r ==> final(self).speakers@ == old(self).speakers@.push(speaker),
            !r ==> final(self).speakers@ == old(self).speakers@,
    {
        if self.speakers.len() >= MAX_CHANNELS {
            return false;
        }
        match self.index_of_speaker(speaker.id) {
            Some(_) => false,
            None => {
                self.speakers.push(speaker);
                true
            },
        }
    }

    /// Removes the speaker with the given id and returns it.
    pub fn remove_speaker(&mut self, id: u64) -> (r: Option<Speaker>)
        requires
            old(self).wf(),
        ensures
            final(self).wf(),
            final(self).sounds@ == old(self).sounds@,
            match r {
                Some(s) => s.id == id && exists|k: int|
                    0 <= k < old(self).speakers@.len() && #[trigger] old(self).speakers@[k] == s
                        && final(self).speakers@ == old(self).speakers@.remove(k),
                None => !contains_speaker_id(old(self).speakers@, id) && final(self).speakers@
                    == old(self).speakers@,
            },
    {
        match self.index_of_speaker(id) {
            Some(k) => {
                let s = self.speakers.remove(k);
                Some(s)
            },
            None => None,
        }
    }

    /// Moves a speaker to a new position on the floor plan.  Returns whether
    /// a speaker with the id was found.
    pub fn reposition_speaker(&mut self, id: u64, point: Point) -> (r: bool)
        requires
            old(self).wf(),
            point.bounded(COORD_LIMIT as int),
        ensures
            final(self).wf(),
            final(self).sounds@ == old(self).sounds@,
            r == contains_speaker_id(old(self).speakers@, id),
            r ==> exists|k: int|
                0 <= k < old(self).speakers@.len() && (#[trigger] old(self).speakers@[k]).id == id
                    && final(self).speakers@ == old(self).speakers@.update(
                    k,
                    Speaker {
                        point,
                        id: old(self).speakers@[k].id,
                        channel: old(self).speakers@[k].channel,
                    },
                ),
            !r ==> final(self).speakers@ == old(self).speakers@,
    {
        match self.index_of_speaker(id) {
            Some(k) => {
                let s = self.speakers[k];
                self.speakers[k] = Speaker { id: s.id, point, channel: s.channel };
                true
            },
            None => false,
        }
    }

    /// Rewires a speaker to another device channel.  Returns whether a
    /// speaker with the id was found.
    pub fn reassign_speaker(&mut self, id: u64, channel: usize) -> (r: bool)
        requires
            old(self).wf(),
            channel < MAX_CHANNELS,
        ensures
            final(self).wf(),
            final(self).sounds@ == old(self).sounds@,
            r == contains_speaker_id(old(self).speakers@, id),
            r ==> exists|k: int|
                0 <= k < old(self).speakers@.len() && (#[trigger] old(self).speakers@[k]).id == id
                    && final(self).speakers@ == old(self).speakers@.update(
                    k,
                    Speaker {
                        channel,
                        id: old(self).speakers@[k].id,
                        point: old(self).speakers@[k].point,
                    },
                ),
            !r ==> final(self).speakers@ == old(self).speakers@,
    {
        match self.index_of_speaker(id) {
            Some(k) => {
                let s = self.speakers[k];
                self.speakers[k] = Speaker { id: s.id, point: s.point, channel };
                true
            },
            None => false,
        }
    }
}

/// Converts a squared distance to an amplitude multiplier.
///
/// The falloff is linear in the squared distance: full gain
/// (`PROXIMITY_LIMIT_2`, standing for 1) at distance zero, zero gain at the
/// proximity limit.
pub fn distance_2_to_amplitude(distance_2: i64) -> (r: Amplitude)
    requires
        0 <= distance_2 <= PROXIMITY_LIMIT_2,
    ensures
        r == spec_amplitude(distance_2 as int),
        0 <= r <= PROXIMITY_LIMIT_2,
{
    PROXIMITY_LIMIT_2 - distance_2
}

/// Weights a sample by an amplitude: `sample * amp / PROXIMITY_LIMIT_2`,
/// rounded towards zero.  The result never exceeds the sample's own
/// magnitude, since the amplitude stands for a gain of at most 1.
pub fn scale_sample(sample: i64, amp: Amplitude) -> (r: i64)
    requires
        -SAMPLE_LIMIT <= sample <= SAMPLE_LIMIT,
        0 <= amp <= PROXIMITY_LIMIT_2,
    ensures
        r == spec_scale(sample as int, amp as int),
        sample >= 0 ==> 0 <= r <= sample,
        sample < 0 ==> sample <= r <= 0,
{
    let mag = if sample >= 0 {
        sample
    } else {
        -sample
    };
    proof {
        lemma_mul_nonnegative(mag as int, amp as int);
        lemma_mul_inequality(amp as int, PROXIMITY_LIMIT_2 as int, mag as int);
        lemma_mul_is_commutative(mag as int, amp as int);
        lemma_mul_is_commutative(mag as int, PROXIMITY_LIMIT_2 as int);
        lemma_div_is_ordered(mag as int * amp as int, mag as int * PROXIMITY_LIMIT_2 as int,
            PROXIMITY_LIMIT_2 as int);
        lemma_div_multiples_vanish(mag as int, PROXIMITY_LIMIT_2 as int);
        lemma_mul_is_commutative(PROXIMITY_LIMIT_2 as int, mag as int);
        lemma_div_pos_is_pos(mag as int * amp as int, PROXIMITY_LIMIT_2 as int);
    }
    let num = (mag as u64) * (amp as u64);
    let q = (num / (PROXIMITY_LIMIT_2 as u64)) as i64;
    if sample >= 0 {
        q
    } else {
        -q
    }
}

/// Computes the absolute position of one channel of a multi-channel sound.
///
/// A single-channel sound keeps its centre, whatever the spread and
/// rotation.  Otherwise the channels are placed evenly around a circle of
/// radius `spread` centred on the sound's point: channel `i` of `n` sits at
/// the fraction `i / n` of a full turn past the sound's own rotation, offset
/// by `(-spread * cos, spread * sin)` of that angle.
///
/// Asking for a channel index at or past the declared channel count is a
/// programming error; the precondition rules it out, so unverified callers
/// must check it themselves (and fail loudly) before calling.
pub fn channel_point(
    sound_point: Point,
    channel_index: usize,
    total_channels: usize,
    spread: Metres,
    rotation: Angle,
) -> (p: Point)
    requires
        channel_index < total_channels,
        total_channels <= MAX_CHANNELS,
        sound_point.bounded(COORD_LIMIT as int),
        0 <= spread.0 <= SPREAD_LIMIT,
        rotation.wf(),
    ensures
        p == spec_channel_point(
            sound_point,
            channel_index as int,
            total_channels as int,
            spread.0 as int,
            rotation.0 as int,
        ),
        p.bounded(POINT_LIMIT as int),
{
    if total_channels == 1 {
        sound_point
    } else {
        let ci = channel_index as u64;
        let tc = total_channels as u64;
        proof {
            lemma_mul_nonnegative(ci as int, TURN as int);
            lemma_mul_strict_inequality(ci as int, tc as int, TURN as int);
            lemma_mul_is_commutative(tc as int, TURN as int);
            lemma_multiply_divide_lt(ci as int * TURN as int, tc as int, TURN as int);
            lemma_div_pos_is_pos(ci as int * TURN as int, tc as int);
        }
        let phase = ((ci * (TURN as u64)) / tc) as i64;
        let sum = rotation.0 + phase;
        let a = if sum >= TURN {
            sum - TURN
        } else {
            sum
        };
        proof {
            if rotation.0 + phase >= TURN {
                lemma_fundamental_div_mod_converse_mod(
                    rotation.0 as int + phase as int,
                    TURN as int,
                    1,
                    rotation.0 as int + phase as int - TURN,
                );
            } else {
                lemma_fundamental_div_mod_converse_mod(
                    rotation.0 as int + phase as int,
                    TURN as int,
                    0,
                    rotation.0 as int + phase as int,
                );
            }
            assert(a == spec_channel_angle(rotation.0 as int, ci as int, tc as int));
        }
        let c = cos_fp(a);
        let s = sin_fp(a);
        let rel_x = scale_spread(spread.0, c);
        let rel_y = scale_spread(spread.0, s);
        Point { x: Metres(sound_point.x.0 - rel_x), y: Metres(sound_point.y.0 + rel_y) }
    }
}

/// Renders one output buffer: mixes every active sound onto the relevant
/// output channels, adding to the buffer's existing contents.
///
/// For each sound, the pipeline takes the `frames * channels` interleaved
/// samples of its signal batch, computes every channel's absolute position,
/// finds the speakers in proximity of that position, and accumulates each
/// frame's weighted sample onto each such speaker's device channel.  A
/// speaker wired to a channel beyond the buffer's capacity is silently
/// skipped.  The buffer's prior contents are never overwritten, only added
/// to, and the state comes back with its sounds and speakers untouched.
#[verifier::loop_isolation(false)]
#[verifier::rlimit(90)]
pub fn render(model: Model, buffer: Buffer) -> (r: (Model, Buffer))
    requires
        model.wf(),
        buffer.wf(),
        forall|k: int|
            0 <= k < buffer.data@.len() ==> -BUFFER_START_LIMIT <= #[trigger] buffer.data@[k]
                <= BUFFER_START_LIMIT,
        forall|si: int|
            0 <= si < model.sounds@.len() ==> sound_frame_ready(
                #[trigger] model.sounds@[si],
                buffer.frames as int,
            ),
    ensures
        r.0.wf(),
        r.0.sounds@ == model.sounds@,
        r.0.speakers@ == model.speakers@,
        r.1.wf(),
        r.1.frames == buffer.frames,
        r.1.channels == buffer.channels,
        forall|f: int, c: int|
            0 <= f < buffer.frames && 0 <= c < buffer.channels ==> #[trigger] r.1.spec_at(f, c)
                == buffer.spec_at(f, c) + mix(model.sounds@, model.speakers@, f, c),
{
    let Model { sounds, speakers, mut speakers_in_proximity, mut unmixed_samples } = model;
    let Buffer { mut data, channels: buf_channels, frames } = buffer;
    let ghost init_data = data@;
    let mut si: usize = 0;
    while si < sounds.len()
        invariant
            si <= sounds@.len(),
            data@.len() == init_data.len(),
            forall|f: int, c: int|
                0 <= f < frames && 0 <= c < buf_channels ==> #[trigger] slot(
                    data@,
                    buf_channels as int,
                    f,
                    c,
                ) == slot(init_data, buf_channels as int, f, c) + mix(
                    sounds@.take(si as int),
                    speakers@,
                    f,
                    c,
                ),
        decreases sounds@.len() - si,
    {
        let sound = &sounds[si];
        let ghost data_sound = data@;
        proof {
            assert(forall|f: int, c: int|
                0 <= f < frames && 0 <= c < buf_channels ==> #[trigger] slot(
                    data_sound,
                    buf_channels as int,
                    f,
                    c,
                ) == slot(init_data, buf_channels as int, f, c) + mix(
                    sounds@.take(si as int),
                    speakers@,
                    f,
                    c,
                ));
        }
        let sig_len = sound.signal.len();
        let num_samples = frames * sound.channels;

        // Clear the unmixed samples, ready to collect the new ones.
        unmixed_samples.clear();
        let mut k: usize = 0;
        while k < num_samples
            invariant
                k <= num_samples,
                unmixed_samples@ == sound.signal@.take(k as int),
            decreases num_samples - k,
        {
            unmixed_samples.push(sound.signal[k]);
            k = k + 1;
            proof {
                assert(unmixed_samples@ =~= sound.signal@.take(k as int));
            }
        }

        // Mix the sound's signal onto each of its channels in turn.
        let mut i: usize = 0;
        while i < sound.channels
            invariant
                i <= sound.channels,
                data@.len() == init_data.len(),
                unmixed_samples@ == sound.signal@.take(num_samples as int),
                forall|f: int, c: int|
                    0 <= f < frames && 0 <= c < buf_channels ==> #[trigger] slot(
                        data@,
                        buf_channels as int,
                        f,
                        c,
                    ) == slot(data_sound, buf_channels as int, f, c) + sound_mix_upto(
                        sounds@[si as int],
                        speakers@,
                        f,
                        c,
                        i as int,
                    ),
            decreases sound.channels - i,
        {
            let ghost data_chan = data@;
            proof {
                assert(forall|f: int, c: int|
                    0 <= f < frames && 0 <= c < buf_channels ==> #[trigger] slot(
                        data_chan,
                        buf_channels as int,
                        f,
                        c,
                    ) == slot(data_sound, buf_channels as int, f, c) + sound_mix_upto(
                        sounds@[si as int],
                        speakers@,
                        f,
                        c,
                        i as int,
                    ));
            }

            // Find the absolute position of the channel.
            let cp = channel_point(sound.point, i, sound.channels, sound.spread, sound.rotation);
            proof {
                assert(cp == spec_channel_point_of(sounds@[si as int], i as int));
            }

            // Find the speakers that are closest to the channel.
            find_closest_speakers(&cp, &mut speakers_in_proximity, &speakers);
            proof {
                lemma_proximity_pairs_props(cp, speakers@);
            }

            let mut f: usize = 0;
            while f < frames
                invariant
                    f <= frames,
                    data@.len() == init_data.len(),
                    speakers_in_proximity@ == proximity_pairs(cp, speakers@),
                    forall|fp: int, c: int|
                        0 <= fp < f && 0 <= c < buf_channels ==> #[trigger] slot(
                            data@,
                            buf_channels as int,
                            fp,
                            c,
                        ) == slot(data_chan, buf_channels as int, fp, c) + channel_mix(
                            sample_at(sounds@[si as int], i as int, fp),
                            cp,
                            speakers@,
                            c,
                        ),
                    forall|fp: int, c: int|
                        f <= fp < frames && 0 <= c < buf_channels ==> #[trigger] slot(
                            data@,
                            buf_channels as int,
                            fp,
                            c,
                        ) == slot(data_chan, buf_channels as int, fp, c),
                decreases frames - f,
            {
                proof {
                    lemma_sample_index_in_signal(
                        sounds@[si as int],
                        i as int,
                        f as int,
                        frames as int,
                    );
                }
                let sample_index = i + f * sound.channels;
                let channel_sample = unmixed_samples[sample_index];
                let ghost data_frame = data@;
                let ghost sample = sample_at(sounds@[si as int], i as int, f as int);
                proof {
                    assert(channel_sample as int == sample);
                    assert(forall|fp: int, c: int|
                        0 <= fp < f && 0 <= c < buf_channels ==> #[trigger] slot(
                            data_frame,
                            buf_channels as int,
                            fp,
                            c,
                        ) == slot(data_chan, buf_channels as int, fp, c) + channel_mix(
                            sample_at(sounds@[si as int], i as int, fp),
                            cp,
                            speakers@,
                            c,
                        ));
                    assert(forall|fp: int, c: int|
                        f <= fp < frames && 0 <= c < buf_channels ==> #[trigger] slot(
                            data_frame,
                            buf_channels as int,
                            fp,
                            c,
                        ) == slot(data_chan, buf_channels as int, fp, c));
                }
                let mut j: usize = 0;
                while j < speakers_in_proximity.len()
                    invariant
                        j <= speakers_in_proximity@.len(),
                        data@.len() == init_data.len(),
                        forall|c: int|
                            0 <= c < buf_channels ==> #[trigger] slot(
                                data@,
                                buf_channels as int,
                                f as int,
                                c,
                            ) == slot(data_frame, buf_channels as int, f as int, c) + pair_mix(
                                sample,
                                speakers_in_proximity@.take(j as int),
                                c,
                            ),
                        forall|fp: int, c: int|
                            0 <= fp < frames && fp != f && 0 <= c < buf_channels ==> #[trigger] slot(
                                data@,
                                buf_channels as int,
                                fp,
                                c,
                            ) == slot(data_frame, buf_channels as int, fp, c),
                    decreases speakers_in_proximity@.len() - j,
                {
                    let ghost data_iter = data@;
                    let pair = speakers_in_proximity[j];
                    let amp = pair.0;
                    let channel = pair.1;
                    // Only write to the channels that will be read by the
                    // audio device.
                    if channel < buf_channels {
                        let weighted = scale_sample(channel_sample, amp);
                        proof {
                            lemma_slot_in_storage(
                                f as int,
                                channel as int,
                                frames as int,
                                buf_channels as int,
                            );
                            lemma_mix_bound(
                                sounds@.take(si as int),
                                speakers@,
                                f as int,
                                frames as int,
                                channel as int,
                            );
                            lemma_sound_mix_upto_bound(
                                sounds@[si as int],
                                speakers@,
                                f as int,
                                frames as int,
                                channel as int,
                                i as int,
                            );
                            lemma_pair_mix_bound(
                                sample,
                                speakers_in_proximity@.take(j as int),
                                channel as int,
                            );
                            assert(slot(data@, buf_channels as int, f as int, channel as int)
                                == slot(init_data, buf_channels as int, f as int, channel as int)
                                + mix(sounds@.take(si as int), speakers@, f as int, channel as int)
                                + sound_mix_upto(
                                sounds@[si as int],
                                speakers@,
                                f as int,
                                channel as int,
                                i as int,
                            ) + pair_mix(
                                sample,
                                speakers_in_proximity@.take(j as int),
                                channel as int,
                            ));
                            assert(-BUFFER_START_LIMIT <= slot(
                                init_data,
                                buf_channels as int,
                                f as int,
                                channel as int,
                            ) <= BUFFER_START_LIMIT);
                        }
                        let dlen = data.len();
                        let idx = f * buf_channels + channel;
                        let cur = data[idx];
                        data[idx] = cur + weighted;
                        proof {
                            let pairs = speakers_in_proximity@;
                            assert(pairs.take(j + 1).drop_last() =~= pairs.take(j as int));
                            assert(pairs.take(j + 1).last() == pairs[j as int]);
                            assert forall|c: int| 0 <= c < buf_channels implies #[trigger] slot(
                                data@,
                                buf_channels as int,
                                f as int,
                                c,
                            ) == slot(data_frame, buf_channels as int, f as int, c) + pair_mix(
                                sample,
                                pairs.take(j + 1),
                                c,
                            ) by {
                                lemma_slot_in_storage(
                                    f as int,
                                    c,
                                    frames as int,
                                    buf_channels as int,
                                );
                                assert(slot(data_iter, buf_channels as int, f as int, c) == slot(
                                    data_frame,
                                    buf_channels as int,
                                    f as int,
                                    c,
                                ) + pair_mix(sample, pairs.take(j as int), c));
                                if c != channel {
                                    lemma_slot_injective(
                                        f as int,
                                        c,
                                        f as int,
                                        channel as int,
                                        buf_channels as int,
                                    );
                                    assert(data@[f as int * buf_channels + c] == data_iter[f as int
                                        * buf_channels + c]);
                                } else {
                                    assert(slot(data@, buf_channels as int, f as int, c) == cur
                                        as int + weighted as int);
                                }
                            }
                            assert forall|fp: int, c: int|
                                0 <= fp < frames && fp != f && 0 <= c
                                    < buf_channels implies #[trigger] slot(
                                data@,
                                buf_channels as int,
                                fp,
                                c,
                            ) == slot(data_frame, buf_channels as int, fp, c) by {
                                lemma_slot_in_storage(fp, c, frames as int, buf_channels as int);
                                assert(slot(data_iter, buf_channels as int, fp, c) == slot(
                                    data_frame,
                                    buf_channels as int,
                                    fp,
                                    c,
                                ));
                                lemma_slot_injective(
                                    fp,
                                    c,
                                    f as int,
                                    channel as int,
                                    buf_channels as int,
                                );
                                assert(data@[fp * buf_channels + c] == data_iter[fp * buf_channels
                                    + c]);
                            }
                        }
                    } else {
                        proof {
                            let pairs = speakers_in_proximity@;
                            assert(pairs.take(j + 1).drop_last() =~= pairs.take(j as int));
                            assert(pairs.take(j + 1).last() == pairs[j as int]);
                        }
                    }
                    j = j + 1;
                }
                proof {
                    let pairs = speakers_in_proximity@;
                    assert(pairs.take(pairs.len() as int) =~= pairs);
                    assert forall|c: int| 0 <= c < buf_channels implies pair_mix(sample, pairs, c)
                        == channel_mix(sample, cp, speakers@, c) by {
                        lemma_pair_mix_is_channel_mix(sample, cp, speakers@, c);
                    }
                }
                f = f + 1;
            }
            i = i + 1;
            proof {
                assert forall|fp: int, c: int|
                    0 <= fp < frames && 0 <= c < buf_channels implies #[trigger] slot(
                    data@,
                    buf_channels as int,
                    fp,
                    c,
                ) == slot(data_sound, buf_channels as int, fp, c) + sound_mix_upto(
                    sounds@[si as int],
                    speakers@,
                    fp,
                    c,
                    i as int,
                ) by {
                    assert(sound_mix_upto(sounds@[si as int], speakers@, fp, c, i as int)
                        == sound_mix_upto(sounds@[si as int], speakers@, fp, c, i as int - 1)
                        + channel_mix(
                        sample_at(sounds@[si as int], i as int - 1, fp),
                        spec_channel_point_of(sounds@[si as int], i as int - 1),
                        speakers@,
                        c,
                    ));
                }
            }
        }
        si = si + 1;
        proof {
            assert forall|f: int, c: int|
                0 <= f < frames && 0 <= c < buf_channels implies #[trigger] slot(
                data@,
                buf_channels as int,
                f,
                c,
            ) == slot(init_data, buf_channels as int, f, c) + mix(
                sounds@.take(si as int),
                speakers@,
                f,
                c,
            ) by {
                lemma_mix_take_step(sounds@, speakers@, f, c, si as int - 1);
            }
        }
    }
    proof {
        assert(sounds@.take(sounds@.len() as int) =~= sounds@);
        assert forall|f: int, c: int|
            0 <= f < buffer.frames && 0 <= c < buffer.channels implies #[trigger] (Buffer {
            data,
            channels: buf_channels,
            frames,
        }).spec_at(f, c) == buffer.spec_at(f, c) + mix(model.sounds@, model.speakers@, f, c) by {
            lemma_slot_in_storage(f, c, frames as int, buf_channels as int);
            assert(slot(data@, buf_channels as int, f, c) == slot(init_data, buf_channels as int, f, c)
                + mix(sounds@.take(sounds@.len() as int), speakers@, f, c));
        }
    }
    (
        Model { sounds, speakers, speakers_in_proximity, unmixed_samples },
        Buffer { data, channels: buf_channels, frames },
    )
}

/// Scans the whole speaker collection and collects, for every speaker
/// strictly within the proximity limit of `point`, its amplitude and device
/// channel.  The scratch vector is cleared and refilled; its capacity is
/// what persists across calls.
pub fn find_closest_speakers(
    point: &Point,
    closest: &mut Vec<(Amplitude, usize)>,
    speakers: &Vec<Speaker>,
)
    requires
        point.bounded(POINT_LIMIT as int),
        forall|j: int| 0 <= j < speakers@.len() ==> (#[trigger] speakers@[j]).wf(),
    ensures
        final(closest)@ == proximity_pairs(*point, speakers@),
{
    closest.clear();
    let mut j: usize = 0;
    while j < speakers.len()
        invariant
            j <= speakers@.len(),
            closest@ == proximity_pairs(*point, speakers@.take(j as int)),
            point.bounded(POINT_LIMIT as int),
            forall|k: int| 0 <= k < speakers@.len() ==> (#[trigger] speakers@[k]).wf(),
        decreases speakers@.len() - j,
    {
        let speaker = &speakers[j];
        let d2 = distance_2(point, &speaker.point);
        if d2 < PROXIMITY_LIMIT_2 {
            let amp = distance_2_to_amplitude(d2);
            closest.push((amp, speaker.channel));
        }
        j = j + 1;
        proof {
            assert(speakers@.take(j as int).drop_last() =~= speakers@.take(j as int - 1));
            assert(speakers@.take(j as int).last() == speakers@[j as int - 1]);
        }
    }
    proof {
        assert(speakers@.take(speakers@.len() as int) =~= speakers@);
    }
}

} // verus!
