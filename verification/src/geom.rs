use vstd::arithmetic::div_mod::{
    lemma_div_is_ordered, lemma_div_multiples_vanish, lemma_div_pos_is_pos,
    lemma_fundamental_div_mod, lemma_fundamental_div_mod_converse_mod,
};
use vstd::arithmetic::mul::{
    lemma_mul_inequality, lemma_mul_is_commutative, lemma_mul_nonnegative, lemma_mul_upper_bound,
};
use vstd::prelude::*;

use crate::metres::Metres;

verus! {

/// Number of angle units in one full turn.
///
/// Rotations are fixed-point fractions of a revolution: `TURN / 4` units are a
/// quarter turn.  The unit count is a multiple of four so that the quadrant
/// angles - the ones the even distribution of 2 or 4 sound channels lands on -
/// are represented exactly.
pub const TURN: i64 = 4096;

/// Half a turn, in angle units.
pub const HALF_TURN: i64 = 2048;

/// A quarter turn, in angle units.
pub const QUARTER_TURN: i64 = 1024;

/// Fixed-point unit of the trigonometric values: `sin_fp` and `cos_fp` return
/// `TRIG_ONE` where the mathematical function returns 1.
///
/// The value equals `QUARTER_TURN * QUARTER_TURN`, which lets the quadratic
/// sine below reach its extremes without any rounding.
pub const TRIG_ONE: i64 = 1_048_576;

/// Largest magnitude allowed for a coordinate of a sound's or speaker's
/// position, in thousandths of a metre: room to spare for any floor plan,
/// small enough that squared distances fit an `i64`.
pub const COORD_LIMIT: i64 = 1_000_000_000;

/// Largest spread radius of a multi-channel sound, in thousandths of a metre.
pub const SPREAD_LIMIT: i64 = 1_000_000;

/// Largest magnitude of a coordinate of a computed channel position: a sound
/// centre coordinate offset by at most the spread.
pub const POINT_LIMIT: i64 = COORD_LIMIT + SPREAD_LIMIT;

/// A position on the 2D floor plan.
#[derive(Clone, Copy, Debug, PartialEq, Eq, Structural)]
pub struct Point {
    pub x: Metres,
    pub y: Metres,
}

impl Point {
    /// Both coordinates lie within `limit` of the origin.
    pub open spec fn bounded(self, limit: int) -> bool {
        &&& -limit <= self.x.0 <= limit
        &&& -limit <= self.y.0 <= limit
    }
}

/// A rotation, stored as a canonical count of angle units in `[0, TURN)`.
#[derive(Clone, Copy, Debug, PartialEq, Eq, Structural)]
pub struct Angle(pub i64);

impl Angle {
    /// The stored unit count is in the canonical range.
    pub open spec fn wf(self) -> bool {
        0 <= self.0 < TURN
    }

    /// Reduces an arbitrary (possibly negative) count of angle units to the
    /// canonical range `[0, TURN)`.
    pub fn new(units: i64) -> (r: Angle)
        requires
            units > i64::MIN,
        ensures
            r.wf(),
            r.0 == units as int % (TURN as int),
    {
        if units >= 0 {
            let m = ((units as u64) % (TURN as u64)) as i64;
            proof {
                lemma_fundamental_div_mod(units as int, TURN as int);
            }
            Angle(m)
        } else {
            let n = -units;
            let m = ((n as u64) % (TURN as u64)) as i64;
            proof {
                lemma_fundamental_div_mod(n as int, TURN as int);
                let q = n as int / TURN as int;
                if m == 0 {
                    assert(units as int == (-q) * TURN) by (nonlinear_arith)
                        requires
                            units as int == -(q * TURN as int),
                    ;
                    lemma_fundamental_div_mod_converse_mod(units as int, TURN as int, -q, 0);
                } else {
                    assert(units as int == (-q - 1) * TURN + (TURN - m)) by (nonlinear_arith)
                        requires
                            units as int == -(q * TURN as int + m as int),
                    ;
                    lemma_fundamental_div_mod_converse_mod(
                        units as int,
                        TURN as int,
                        -q - 1,
                        TURN as int - m,
                    );
                }
            }
            if m == 0 {
                Angle(0)
            } else {
                Angle(TURN - m)
            }
        }
    }
}

/// The fixed-point sine of an angle in canonical units, scaled by `TRIG_ONE`.
///
/// The curve is the classic quadratic approximation of the sine - a parabola
/// through the zero crossings on each half turn.  It is exact at every
/// quarter-turn multiple (0, `TRIG_ONE`, 0, `-TRIG_ONE`) and stays within
/// about six percent of the true sine in between, which is the resolution
/// this installation's channel placement works at.
pub open spec fn spec_sin(a: int) -> int {
    if a <= HALF_TURN {
        a * (HALF_TURN - a)
    } else {
        -((a - HALF_TURN) * (TURN - a))
    }
}

/// The fixed-point cosine: the sine shifted back by a quarter turn.
pub open spec fn spec_cos(a: int) -> int {
    spec_sin((a + QUARTER_TURN) % (TURN as int))
}

/// The quadratic arch `a * (span - a)` stays within `[0, (span/2)^2]`.
proof fn lemma_parabola_range(a: int, span: int)
    requires
        0 <= a <= span,
        span == 2048,
    ensures
        0 <= a * (span - a) <= 1_048_576,
{
    assert(0 <= a * (span - a) <= 1_048_576) by (nonlinear_arith)
        requires
            0 <= a <= span,
            span == 2048,
    ;
}

/// Fixed-point sine of a canonical angle.
pub fn sin_fp(a: i64) -> (r: i64)
    requires
        0 <= a < TURN,
    ensures
        r == spec_sin(a as int),
        -TRIG_ONE <= r <= TRIG_ONE,
{
    if a <= HALF_TURN {
        proof {
            lemma_parabola_range(a as int, HALF_TURN as int);
        }
        a * (HALF_TURN - a)
    } else {
        proof {
            lemma_parabola_range(a as int - HALF_TURN as int, HALF_TURN as int);
            assert((a - HALF_TURN) * (TURN - a) == (a - HALF_TURN) * (HALF_TURN - (a - HALF_TURN)))
                by (nonlinear_arith);
        }
        -((a - HALF_TURN) * (TURN - a))
    }
}

/// Fixed-point cosine of a canonical angle.
pub fn cos_fp(a: i64) -> (r: i64)
    requires
        0 <= a < TURN,
    ensures
        r == spec_cos(a as int),
        -TRIG_ONE <= r <= TRIG_ONE,
{
    let b = a + QUARTER_TURN;
    let b = if b >= TURN {
        b - TURN
    } else {
        b
    };
    proof {
        if a + QUARTER_TURN >= TURN {
            lemma_fundamental_div_mod_converse_mod(
                a as int + QUARTER_TURN,
                TURN as int,
                1,
                a as int + QUARTER_TURN - TURN,
            );
        } else {
            lemma_fundamental_div_mod_converse_mod(
                a as int + QUARTER_TURN,
                TURN as int,
                0,
                a as int + QUARTER_TURN,
            );
        }
    }
    sin_fp(b)
}

/// The offset `spread * t / TRIG_ONE` of a trigonometric value `t` applied to
/// a spread radius, rounded towards zero.
pub open spec fn spec_scale_spread(spread: int, t: int) -> int {
    if t >= 0 {
        (spread * t) / (TRIG_ONE as int)
    } else {
        -((spread * (-t)) / (TRIG_ONE as int))
    }
}

/// Scales a spread radius by a fixed-point trigonometric value.
pub fn scale_spread(spread: i64, t: i64) -> (r: i64)
    requires
        0 <= spread <= SPREAD_LIMIT,
        -TRIG_ONE <= t <= TRIG_ONE,
    ensures
        r == spec_scale_spread(spread as int, t as int),
        -spread <= r <= spread,
{
    let mag = if t >= 0 {
        t
    } else {
        -t
    };
    proof {
        lemma_mul_upper_bound(spread as int, SPREAD_LIMIT as int, mag as int, TRIG_ONE as int);
        lemma_mul_is_commutative(spread as int, mag as int);
        lemma_mul_nonnegative(spread as int, mag as int);
        lemma_mul_inequality(mag as int, TRIG_ONE as int, spread as int);
        lemma_div_is_ordered(spread as int * mag as int, spread as int * TRIG_ONE as int,
            TRIG_ONE as int);
        lemma_div_multiples_vanish(spread as int, TRIG_ONE as int);
        lemma_mul_is_commutative(spread as int, TRIG_ONE as int);
        lemma_div_pos_is_pos(spread as int * mag as int, TRIG_ONE as int);
    }
    let num = (spread as u64) * (mag as u64);
    let q = (num / (TRIG_ONE as u64)) as i64;
    if t >= 0 {
        q
    } else {
        -q
    }
}

/// The canonical angle at which channel `index` of `total` evenly distributed
/// channels sits, after applying the sound's own rotation.
pub open spec fn spec_channel_angle(rotation: int, index: int, total: int) -> int {
    (rotation + (index * TURN) / total) % (TURN as int)
}

/// The absolute position of one channel of a multi-channel sound.
///
/// A single-channel sound keeps its centre.  Otherwise the channels sit
/// evenly on a circle of radius `spread` around the centre, rotated by the
/// sound's rotation, with the axis convention
/// `x = centre.x - spread * cos`, `y = centre.y + spread * sin`.
pub open spec fn spec_channel_point(
    centre: Point,
    index: int,
    total: int,
    spread: int,
    rotation: int,
) -> Point {
    if total == 1 {
        centre
    } else {
        let a = spec_channel_angle(rotation, index, total);
        Point {
            x: Metres((centre.x.0 - spec_scale_spread(spread, spec_cos(a))) as i64),
            y: Metres((centre.y.0 + spec_scale_spread(spread, spec_sin(a))) as i64),
        }
    }
}

/// The squared Euclidean distance between two plan positions, in squared
/// thousandths of a metre.
pub open spec fn spec_distance_2(a: Point, b: Point) -> int {
    (a.x.0 - b.x.0) * (a.x.0 - b.x.0) + (a.y.0 - b.y.0) * (a.y.0 - b.y.0)
}

/// A squared distance is never negative.
pub proof fn lemma_distance_2_nonneg(a: Point, b: Point)
    ensures
        spec_distance_2(a, b) >= 0,
{
    assert((a.x.0 - b.x.0) * (a.x.0 - b.x.0) >= 0 && (a.y.0 - b.y.0) * (a.y.0 - b.y.0) >= 0)
        by (nonlinear_arith);
}

/// A single-channel sound keeps its centre: whatever the spread and the
/// rotation, the one channel of a sound with a total of one channel sits
/// exactly on the sound's own point.
pub proof fn lemma_channel_point_single(centre: Point, index: int, spread: int, rotation: int)
    ensures
        spec_channel_point(centre, index, 1, spread, rotation) == centre,
{
}

/// With four channels and no rotation, the four channel points sit on a
/// circle of radius `spread` around the centre, at the quarter-turn angles,
/// with the axis convention `x = centre.x - spread * cos`,
/// `y = centre.y + spread * sin`.
pub proof fn lemma_channel_point_quadrants(centre: Point, spread: int)
    requires
        centre.bounded(COORD_LIMIT as int),
        0 <= spread <= SPREAD_LIMIT,
    ensures
        ({
            let p = spec_channel_point(centre, 0, 4, spread, 0);
            p.x.0 == centre.x.0 - spread && p.y.0 == centre.y.0 && spec_distance_2(p, centre)
                == spread * spread
        }),
        ({
            let p = spec_channel_point(centre, 1, 4, spread, 0);
            p.x.0 == centre.x.0 && p.y.0 == centre.y.0 + spread && spec_distance_2(p, centre)
                == spread * spread
        }),
        ({
            let p = spec_channel_point(centre, 2, 4, spread, 0);
            p.x.0 == centre.x.0 + spread && p.y.0 == centre.y.0 && spec_distance_2(p, centre)
                == spread * spread
        }),
        ({
            let p = spec_channel_point(centre, 3, 4, spread, 0);
            p.x.0 == centre.x.0 && p.y.0 == centre.y.0 - spread && spec_distance_2(p, centre)
                == spread * spread
        }),
{
    lemma_div_multiples_vanish(spread, TRIG_ONE as int);
    lemma_mul_is_commutative(TRIG_ONE as int, spread);
    assert(spec_scale_spread(spread, TRIG_ONE as int) == spread);
    assert(spec_scale_spread(spread, -(TRIG_ONE as int)) == -spread);
    assert(spec_scale_spread(spread, 0) == 0) by {
        vstd::arithmetic::div_mod::lemma_div_of0(TRIG_ONE as int);
        assert(spread * 0 == 0) by (nonlinear_arith);
    }
    assert(spec_channel_angle(0, 0, 4) == 0);
    assert(spec_channel_angle(0, 1, 4) == QUARTER_TURN);
    assert(spec_channel_angle(0, 2, 4) == HALF_TURN);
    assert(spec_channel_angle(0, 3, 4) == HALF_TURN + QUARTER_TURN);
    vstd::arithmetic::div_mod::lemma_small_mod(1024nat, 4096nat);
    vstd::arithmetic::div_mod::lemma_small_mod(2048nat, 4096nat);
    vstd::arithmetic::div_mod::lemma_small_mod(3072nat, 4096nat);
    vstd::arithmetic::div_mod::lemma_mod_self_0(4096int);
    assert(spec_cos(0) == TRIG_ONE && spec_sin(0) == 0);
    assert(spec_cos(QUARTER_TURN as int) == 0 && spec_sin(QUARTER_TURN as int) == TRIG_ONE);
    assert(spec_cos(HALF_TURN as int) == -(TRIG_ONE as int) && spec_sin(HALF_TURN as int) == 0);
    assert(spec_cos((HALF_TURN + QUARTER_TURN) as int) == 0 && spec_sin(
        (HALF_TURN + QUARTER_TURN) as int,
    ) == -(TRIG_ONE as int));
    assert((-spread) * (-spread) == spread * spread && 0 * 0 == 0) by (nonlinear_arith);
}

/// Computes the squared distance between two bounded plan positions.
pub fn distance_2(a: &Point, b: &Point) -> (r: i64)
    requires
        a.bounded(POINT_LIMIT as int),
        b.bounded(POINT_LIMIT as int),
    ensures
        r == spec_distance_2(*a, *b),
        0 <= r <= 8_016_008_000_000_000_000,
{
    let dx = a.x.0 - b.x.0;
    let dy = a.y.0 - b.y.0;
    proof {
        assert(0 <= dx * dx <= 4_008_004_000_000_000_000 && 0 <= dy * dy
            <= 4_008_004_000_000_000_000) by (nonlinear_arith)
            requires
                -2_002_000_000 <= dx <= 2_002_000_000,
                -2_002_000_000 <= dy <= 2_002_000_000,
        ;
    }
    dx * dx + dy * dy
}

} // verus!
