use vstd::prelude::*;

use crate::audio::{MAX_CHANNELS, SAMPLE_LIMIT};
use crate::geom::{Angle, Point, COORD_LIMIT, SPREAD_LIMIT};
use crate::metres::Metres;

verus! {

/// A currently playing source instance.
///
/// `signal` holds the interleaved samples that the control side has pulled
/// from the sound's external source for the buffer that is about to be
/// rendered: for a sound with `C` channels, consecutive entries cycle through
/// channels `0..C` before advancing to the next frame.  The render pipeline
/// only reads it; the control side replaces it before every render call, so
/// the source itself is consumed strictly sequentially and never rewound.
#[derive(Debug)]
pub struct Sound {
    /// Unique id, stable for the sound's lifetime.
    pub id: u64,
    /// Position of the sound's logical centre on the floor plan.
    pub point: Point,
    /// Count of independent output channels this sound emits.
    pub channels: usize,
    /// Radial distance from the centre at which per-channel positions are
    /// placed when `channels > 1`.
    pub spread: Metres,
    /// Rotation offset applied to the even angular distribution of channels.
    pub rotation: Angle,
    /// Interleaved samples pulled for the pending buffer.
    pub signal: Vec<i64>,
}

impl Sound {
    /// Validity of a sound's spatial state and sample batch.
    pub open spec fn wf(self) -> bool {
        &&& 1 <= self.channels <= MAX_CHANNELS
        &&& self.point.bounded(COORD_LIMIT as int)
        &&& 0 <= self.spread.0 <= SPREAD_LIMIT
        &&& self.rotation.wf()
        &&& forall|k: int|
            0 <= k < self.signal@.len() ==> -SAMPLE_LIMIT <= #[trigger] self.signal@[k]
                <= SAMPLE_LIMIT
    }

    /// Builds a sound from already validated parts.
    pub fn new(
        id: u64,
        point: Point,
        channels: usize,
        spread: Metres,
        rotation: Angle,
        signal: Vec<i64>,
    ) -> (r: Sound)
        requires
            1 <= channels <= MAX_CHANNELS,
            point.bounded(COORD_LIMIT as int),
            0 <= spread.0 <= SPREAD_LIMIT,
            rotation.wf(),
            forall|k: int|
                0 <= k < signal@.len() ==> -SAMPLE_LIMIT <= #[trigger] signal@[k] <= SAMPLE_LIMIT,
        ensures
            r.wf(),
            r.id == id,
            r.point == point,
            r.channels == channels,
            r.spread == spread,
            r.rotation == rotation,
            r.signal == signal,
    {
        Sound { id, point, channels, spread, rotation, signal }
    }
}

} // verus!
