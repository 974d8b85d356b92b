use vstd::prelude::*;

use crate::audio::MAX_CHANNELS;
use crate::geom::{Point, COORD_LIMIT};

verus! {

/// A physical output destination.
#[derive(Clone, Copy, Debug, PartialEq, Eq, Structural)]
pub struct Speaker {
    /// Unique id, stable for the speaker's lifetime.
    pub id: u64,
    /// Position on the floor plan.
    pub point: Point,
    /// Index of the physical output channel this speaker is wired to.
    pub channel: usize,
}

impl Speaker {
    /// Validity of a speaker's state.
    pub open spec fn wf(self) -> bool {
        &&& self.point.bounded(COORD_LIMIT as int)
        &&& self.channel < MAX_CHANNELS
    }

    /// Builds a speaker from already validated parts.
    pub fn new(id: u64, point: Point, channel: usize) -> (r: Speaker)
        requires
            point.bounded(COORD_LIMIT as int),
            channel < MAX_CHANNELS,
        ensures
            r.wf(),
            r.id == id,
            r.point == point,
            r.channel == channel,
    {
        Speaker { id, point, channel }
    }
}

} // verus!
