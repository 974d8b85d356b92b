use vstd::arithmetic::div_mod::{
    lemma_div_is_ordered, lemma_div_multiples_vanish, lemma_div_pos_is_pos,
};
use vstd::arithmetic::mul::{
    lemma_mul_inequality, lemma_mul_is_commutative, lemma_mul_nonnegative,
};
use vstd::prelude::*;

use crate::audio::{PROXIMITY_LIMIT_2, SAMPLE_LIMIT};
use crate::geom::{spec_channel_point, spec_distance_2, Point};
use crate::sound::Sound;
use crate::speaker::Speaker;

verus! {

/// The gain a speaker receives from a sound channel at squared distance
/// `d2`, as the numerator of the exact fraction `(PROXIMITY_LIMIT_2 - d2) /
/// PROXIMITY_LIMIT_2`: the linear falloff `1 - d2 / limit2` scaled by
/// `PROXIMITY_LIMIT_2` so that full gain (distance zero) is
/// `PROXIMITY_LIMIT_2` and the gain at the proximity limit is zero.
pub open spec fn spec_amplitude(d2: int) -> int {
    PROXIMITY_LIMIT_2 - d2
}

/// Whether a speaker is strictly within the proximity limit of a channel
/// position.
pub open spec fn in_proximity(p: Point, k: Speaker) -> bool {
    spec_distance_2(p, k.point) < PROXIMITY_LIMIT_2
}

/// A sample weighted by an amplitude: `sample * amp / PROXIMITY_LIMIT_2`,
/// rounded towards zero.
pub open spec fn spec_scale(sample: int, amp: int) -> int {
    if sample >= 0 {
        (sample * amp) / (PROXIMITY_LIMIT_2 as int)
    } else {
        -(((-sample) * amp) / (PROXIMITY_LIMIT_2 as int))
    }
}

/// The absolute position of channel `index` of a sound.
pub open spec fn spec_channel_point_of(sound: Sound, index: int) -> Point {
    spec_channel_point(
        sound.point,
        index,
        sound.channels as int,
        sound.spread.0 as int,
        sound.rotation.0 as int,
    )
}

/// The sample a sound contributes on channel `chan` of frame `frame`, read
/// from its interleaved signal batch.
pub open spec fn sample_at(sound: Sound, chan: int, frame: int) -> int {
    sound.signal@[chan + frame * sound.channels] as int
}

/// The sound's signal batch covers `frames` frames of interleaved samples.
pub open spec fn sound_frame_ready(sound: Sound, frames: int) -> bool {
    frames * sound.channels <= sound.signal@.len()
}

/// The `(amplitude, device channel)` pairs of the speakers strictly within
/// the proximity limit of `p`, in speaker-collection order.
pub open spec fn proximity_pairs(p: Point, sp: Seq<Speaker>) -> Seq<(i64, usize)>
    decreases sp.len(),
{
    if sp.len() == 0 {
        Seq::empty()
    } else {
        let prev = proximity_pairs(p, sp.drop_last());
        let k = sp.last();
        if in_proximity(p, k) {
            prev.push((spec_amplitude(spec_distance_2(p, k.point)) as i64, k.channel))
        } else {
            prev
        }
    }
}

/// The total weighted sample that a list of proximity pairs adds to device
/// channel `chan` for one frame's sample.
pub open spec fn pair_mix(sample: int, pairs: Seq<(i64, usize)>, chan: int) -> int
    decreases pairs.len(),
{
    if pairs.len() == 0 {
        0
    } else {
        pair_mix(sample, pairs.drop_last(), chan) + {
            let pr = pairs.last();
            if pr.1 == chan {
                spec_scale(sample, pr.0 as int)
            } else {
                0
            }
        }
    }
}

/// The total weighted sample that one sound channel at position `p` adds to
/// device channel `chan`, summed over the whole speaker collection.
pub open spec fn channel_mix(sample: int, p: Point, sp: Seq<Speaker>, chan: int) -> int
    decreases sp.len(),
{
    if sp.len() == 0 {
        0
    } else {
        channel_mix(sample, p, sp.drop_last(), chan) + {
            let k = sp.last();
            if in_proximity(p, k) && k.channel == chan {
                spec_scale(sample, spec_amplitude(spec_distance_2(p, k.point)))
            } else {
                0
            }
        }
    }
}

/// The contribution of a sound's first `upto` channels to device channel
/// `chan` of frame `frame`.
pub open spec fn sound_mix_upto(
    sound: Sound,
    sp: Seq<Speaker>,
    frame: int,
    chan: int,
    upto: int,
) -> int
    decreases upto,
{
    if upto <= 0 {
        0
    } else {
        sound_mix_upto(sound, sp, frame, chan, upto - 1) + channel_mix(
            sample_at(sound, upto - 1, frame),
            spec_channel_point_of(sound, upto - 1),
            sp,
            chan,
        )
    }
}

/// The contribution of one whole sound to device channel `chan` of frame
/// `frame`.
pub open spec fn sound_mix(sound: Sound, sp: Seq<Speaker>, frame: int, chan: int) -> int {
    sound_mix_upto(sound, sp, frame, chan, sound.channels as int)
}

/// The contribution of a collection of sounds to device channel `chan` of
/// frame `frame`: what one render call adds to that slot of the output
/// buffer.
pub open spec fn mix(sounds: Seq<Sound>, sp: Seq<Speaker>, frame: int, chan: int) -> int
    decreases sounds.len(),
{
    if sounds.len() == 0 {
        0
    } else {
        mix(sounds.drop_last(), sp, frame, chan) + sound_mix(sounds.last(), sp, frame, chan)
    }
}

/// The sample stored at channel `c` of frame `f` of an interleaved buffer.
pub open spec fn slot(data: Seq<i64>, channels: int, f: int, c: int) -> int {
    data[f * channels + c] as int
}

/// The amplitude model: full gain at distance zero, zero gain at the
/// proximity limit, and strictly monotonically decreasing in the squared
/// distance in between.
pub proof fn lemma_amplitude_model(d2_near: int, d2_far: int)
    requires
        0 <= d2_near < d2_far <= PROXIMITY_LIMIT_2,
    ensures
        spec_amplitude(0) == PROXIMITY_LIMIT_2,
        spec_amplitude(PROXIMITY_LIMIT_2 as int) == 0,
        spec_amplitude(d2_near) > spec_amplitude(d2_far),
{
}

/// A weighted sample never exceeds the sample's own magnitude: the
/// amplitude stands for a gain of at most one.
pub proof fn lemma_scale_magnitude(sample: int, amp: int)
    requires
        0 <= amp <= PROXIMITY_LIMIT_2,
    ensures
        sample >= 0 ==> 0 <= spec_scale(sample, amp) <= sample,
        sample < 0 ==> sample <= spec_scale(sample, amp) <= 0,
{
    let mag = if sample >= 0 {
        sample
    } else {
        -sample
    };
    lemma_mul_nonnegative(mag, amp);
    lemma_mul_inequality(amp, PROXIMITY_LIMIT_2 as int, mag);
    lemma_mul_is_commutative(mag, amp);
    lemma_mul_is_commutative(mag, PROXIMITY_LIMIT_2 as int);
    lemma_div_is_ordered(mag * amp, mag * (PROXIMITY_LIMIT_2 as int), PROXIMITY_LIMIT_2 as int);
    lemma_div_multiples_vanish(mag, PROXIMITY_LIMIT_2 as int);
    lemma_mul_is_commutative(PROXIMITY_LIMIT_2 as int, mag);
    lemma_div_pos_is_pos(mag * amp, PROXIMITY_LIMIT_2 as int);
}

/// Every proximity pair carries an amplitude in `(0, PROXIMITY_LIMIT_2]`,
/// and there is at most one pair per speaker.
pub proof fn lemma_proximity_pairs_props(p: Point, sp: Seq<Speaker>)
    ensures
        proximity_pairs(p, sp).len() <= sp.len(),
        forall|j: int|
            0 <= j < proximity_pairs(p, sp).len() ==> 0 < (#[trigger] proximity_pairs(p, sp)[j]).0
                <= PROXIMITY_LIMIT_2,
    decreases sp.len(),
{
    if sp.len() == 0 {
    } else {
        lemma_proximity_pairs_props(p, sp.drop_last());
        let k = sp.last();
        if in_proximity(p, k) {
            crate::geom::lemma_distance_2_nonneg(p, k.point);
        }
    }
}

/// What a list of proximity pairs adds to one slot sample is bounded by the
/// number of pairs times the sample magnitude limit.
pub proof fn lemma_pair_mix_bound(sample: int, pairs: Seq<(i64, usize)>, chan: int)
    requires
        -SAMPLE_LIMIT <= sample <= SAMPLE_LIMIT,
        forall|j: int| 0 <= j < pairs.len() ==> 0 <= (#[trigger] pairs[j]).0 <= PROXIMITY_LIMIT_2,
    ensures
        -(pairs.len() * SAMPLE_LIMIT) <= pair_mix(sample, pairs, chan) <= pairs.len()
            * SAMPLE_LIMIT,
    decreases pairs.len(),
{
    if pairs.len() == 0 {
    } else {
        assert(forall|j: int|
            0 <= j < pairs.drop_last().len() ==> (#[trigger] pairs.drop_last()[j]) == pairs[j]);
        lemma_pair_mix_bound(sample, pairs.drop_last(), chan);
        let pr = pairs.last();
        if pr.1 == chan {
            lemma_scale_magnitude(sample, pr.0 as int);
        }
    }
}

/// What one sound channel adds to one slot sample is bounded by the number
/// of speakers times the sample magnitude limit.
pub proof fn lemma_channel_mix_bound(sample: int, p: Point, sp: Seq<Speaker>, chan: int)
    requires
        -SAMPLE_LIMIT <= sample <= SAMPLE_LIMIT,
    ensures
        -(sp.len() * SAMPLE_LIMIT) <= channel_mix(sample, p, sp, chan) <= sp.len() * SAMPLE_LIMIT,
    decreases sp.len(),
{
    if sp.len() == 0 {
    } else {
        lemma_channel_mix_bound(sample, p, sp.drop_last(), chan);
        let k = sp.last();
        if in_proximity(p, k) && k.channel == chan {
            crate::geom::lemma_distance_2_nonneg(p, k.point);
            lemma_scale_magnitude(sample, spec_amplitude(spec_distance_2(p, k.point)));
        }
    }
}

/// Walking the proximity pairs of a channel position accumulates exactly the
/// channel's mix over the whole speaker collection: the pairs are just the
/// speakers in range, so the two sums agree.
pub proof fn lemma_pair_mix_is_channel_mix(sample: int, p: Point, sp: Seq<Speaker>, chan: int)
    ensures
        pair_mix(sample, proximity_pairs(p, sp), chan) == channel_mix(sample, p, sp, chan),
    decreases sp.len(),
{
    if sp.len() == 0 {
    } else {
        lemma_pair_mix_is_channel_mix(sample, p, sp.drop_last(), chan);
        let k = sp.last();
        let prev = proximity_pairs(p, sp.drop_last());
        if in_proximity(p, k) {
            crate::geom::lemma_distance_2_nonneg(p, k.point);
            let pr = (spec_amplitude(spec_distance_2(p, k.point)) as i64, k.channel);
            assert(proximity_pairs(p, sp) == prev.push(pr));
            assert(prev.push(pr).drop_last() =~= prev);
            assert(prev.push(pr).last() == pr);
        }
    }
}

/// A sound's index arithmetic stays inside its signal batch: channel `chan`
/// of frame `frame` reads a sample the batch really holds.
pub proof fn lemma_sample_index_in_signal(sound: Sound, chan: int, frame: int, frames: int)
    requires
        sound.wf(),
        0 <= chan < sound.channels,
        0 <= frame < frames,
        sound_frame_ready(sound, frames),
    ensures
        0 <= chan + frame * sound.channels < frames * sound.channels,
        chan + frame * sound.channels < sound.signal@.len(),
        -SAMPLE_LIMIT <= sample_at(sound, chan, frame) <= SAMPLE_LIMIT,
{
    assert(0 <= chan + frame * (sound.channels as int) && chan + frame * (sound.channels as int)
        + 1 <= frame * (sound.channels as int) + sound.channels <= frames * (
    sound.channels as int)) by (nonlinear_arith)
        requires
            0 <= chan < sound.channels,
            0 <= frame < frames,
    ;
}

/// What one sound adds to one slot sample is bounded by a constant: at most
/// `MAX_CHANNELS` channels, each over at most `MAX_CHANNELS` speakers, each
/// adding at most the sample magnitude limit.
pub proof fn lemma_sound_mix_upto_bound(
    sound: Sound,
    sp: Seq<Speaker>,
    frame: int,
    frames: int,
    chan: int,
    upto: int,
)
    requires
        sound.wf(),
        sp.len() <= crate::audio::MAX_CHANNELS,
        0 <= frame < frames,
        sound_frame_ready(sound, frames),
        0 <= upto <= sound.channels,
    ensures
        -(upto * 68_719_476_736) <= sound_mix_upto(sound, sp, frame, chan, upto) <= upto
            * 68_719_476_736,
    decreases upto,
{
    if upto <= 0 {
    } else {
        lemma_sound_mix_upto_bound(sound, sp, frame, frames, chan, upto - 1);
        lemma_sample_index_in_signal(sound, upto - 1, frame, frames);
        lemma_channel_mix_bound(
            sample_at(sound, upto - 1, frame),
            spec_channel_point_of(sound, upto - 1),
            sp,
            chan,
        );
    }
}

/// What one render call adds to one slot sample is bounded by the number of
/// sounds times the largest single-sound contribution.
pub proof fn lemma_mix_bound(sounds: Seq<Sound>, sp: Seq<Speaker>, frame: int, frames: int, chan: int)
    requires
        forall|si: int| 0 <= si < sounds.len() ==> (#[trigger] sounds[si]).wf(),
        forall|si: int|
            0 <= si < sounds.len() ==> sound_frame_ready(#[trigger] sounds[si], frames),
        sp.len() <= crate::audio::MAX_CHANNELS,
        0 <= frame < frames,
    ensures
        -(sounds.len() * 2_199_023_255_552) <= mix(sounds, sp, frame, chan) <= sounds.len()
            * 2_199_023_255_552,
    decreases sounds.len(),
{
    if sounds.len() == 0 {
    } else {
        assert(forall|j: int|
            0 <= j < sounds.drop_last().len() ==> (#[trigger] sounds.drop_last()[j]) == sounds[j]);
        lemma_mix_bound(sounds.drop_last(), sp, frame, frames, chan);
        let sound = sounds.last();
        lemma_sound_mix_upto_bound(sound, sp, frame, frames, chan, sound.channels as int);
    }
}

/// Extending the prefix of mixed sounds by one adds exactly that sound's own
/// contribution.
pub proof fn lemma_mix_take_step(
    sounds: Seq<Sound>,
    sp: Seq<Speaker>,
    frame: int,
    chan: int,
    si: int,
)
    requires
        0 <= si < sounds.len(),
    ensures
        mix(sounds.take(si + 1), sp, frame, chan) == mix(sounds.take(si), sp, frame, chan)
            + sound_mix(sounds[si], sp, frame, chan),
{
    assert(sounds.take(si + 1).drop_last() =~= sounds.take(si));
    assert(sounds.take(si + 1).last() == sounds[si]);
}

/// With no sounds at all, a render call adds nothing: the mix of the empty
/// collection is zero at every slot.
pub proof fn lemma_mix_empty(sounds: Seq<Sound>, sp: Seq<Speaker>, frame: int, chan: int)
    requires
        sounds.len() == 0,
    ensures
        mix(sounds, sp, frame, chan) == 0,
{
}

/// Superposition: the sounds contribute independently, so the mix of two
/// collections played together is the sum of their separate mixes.
pub proof fn lemma_mix_additive(
    a: Seq<Sound>,
    b: Seq<Sound>,
    sp: Seq<Speaker>,
    frame: int,
    chan: int,
)
    ensures
        mix(a + b, sp, frame, chan) == mix(a, sp, frame, chan) + mix(b, sp, frame, chan),
    decreases b.len(),
{
    if b.len() == 0 {
        assert(a + b =~= a);
    } else {
        lemma_mix_additive(a, b.drop_last(), sp, frame, chan);
        assert((a + b).drop_last() =~= a + b.drop_last());
        assert((a + b).last() == b.last());
    }
}

/// A speaker at or beyond the proximity limit is excluded from the
/// proximity pairs and contributes nothing to any channel's mix.
pub proof fn lemma_far_speaker_no_contribution(
    sample: int,
    p: Point,
    sp: Seq<Speaker>,
    k: Speaker,
    chan: int,
)
    requires
        spec_distance_2(p, k.point) >= PROXIMITY_LIMIT_2,
    ensures
        proximity_pairs(p, sp.push(k)) == proximity_pairs(p, sp),
        channel_mix(sample, p, sp.push(k), chan) == channel_mix(sample, p, sp, chan),
{
    assert(sp.push(k).drop_last() =~= sp);
    assert(sp.push(k).last() == k);
}

/// A speaker exactly at a channel's position receives the full amplitude:
/// its proximity pair carries the unity gain `PROXIMITY_LIMIT_2`.
pub proof fn lemma_coincident_speaker_full_gain(p: Point, sp: Seq<Speaker>, k: Speaker)
    requires
        spec_distance_2(p, k.point) == 0,
    ensures
        proximity_pairs(p, sp.push(k)) == proximity_pairs(p, sp).push(
            (PROXIMITY_LIMIT_2, k.channel),
        ),
{
    assert(sp.push(k).drop_last() =~= sp);
    assert(sp.push(k).last() == k);
}

} // verus!
