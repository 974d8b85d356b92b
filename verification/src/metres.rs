use vstd::prelude::*;

verus! {

/// A distance on the floor plan, stored as a fixed-point count of
/// thousandths of a metre (so `Metres(5_000)` is five metres).
///
/// The audio core works in squared distances wherever it can, so the
/// fixed-point unit is chosen small enough that squares of all plan
/// coordinates still fit comfortably in an `i64`.
#[derive(Clone, Copy, Debug, PartialEq, Eq, Structural)]
pub struct Metres(pub i64);

impl Metres {
    /// The smaller of the two distances.
    pub fn min(self, other: Self) -> (r: Self)
        ensures
            r.0 == if other.0 < self.0 {
                other.0
            } else {
                self.0
            },
    {
        if other.0 < self.0 {
            other
        } else {
            self
        }
    }

    /// The larger of the two distances.
    pub fn max(self, other: Self) -> (r: Self)
        ensures
            r.0 == if other.0 > self.0 {
                other.0
            } else {
                self.0
            },
    {
        if other.0 > self.0 {
            other
        } else {
            self
        }
    }
}

} // verus!
