use audio_server::audio::channel_point;
use audio_server::geom::{cos_fp, distance_2, sin_fp, Angle, Point, TRIG_ONE, TURN};
use audio_server::metres::Metres;

fn pt(x: i64, y: i64) -> Point {
    Point {
        x: Metres(x),
        y: Metres(y),
    }
}

#[test]
fn metres_min_max() {
    assert_eq!(Metres(3).min(Metres(7)), Metres(3));
    assert_eq!(Metres(7).min(Metres(3)), Metres(3));
    assert_eq!(Metres(-2).min(Metres(2)), Metres(-2));
    assert_eq!(Metres(3).max(Metres(7)), Metres(7));
    assert_eq!(Metres(7).max(Metres(3)), Metres(7));
    assert_eq!(Metres(-2).max(Metres(2)), Metres(2));
}

#[test]
fn angle_normalisation() {
    assert_eq!(Angle::new(0).0, 0);
    assert_eq!(Angle::new(17).0, 17);
    assert_eq!(Angle::new(TURN).0, 0);
    assert_eq!(Angle::new(TURN + 1).0, 1);
    assert_eq!(Angle::new(-1).0, TURN - 1);
    assert_eq!(Angle::new(-TURN).0, 0);
    assert_eq!(Angle::new(10 * TURN + 123).0, 123);
}

#[test]
fn trig_quadrants_exact() {
    assert_eq!(sin_fp(0), 0);
    assert_eq!(sin_fp(TURN / 4), TRIG_ONE);
    assert_eq!(sin_fp(TURN / 2), 0);
    assert_eq!(sin_fp(3 * TURN / 4), -TRIG_ONE);
    assert_eq!(cos_fp(0), TRIG_ONE);
    assert_eq!(cos_fp(TURN / 4), 0);
    assert_eq!(cos_fp(TURN / 2), -TRIG_ONE);
    assert_eq!(cos_fp(3 * TURN / 4), 0);
}

#[test]
fn trig_stays_in_unit_range() {
    for a in 0..TURN {
        let s = sin_fp(a);
        let c = cos_fp(a);
        assert!(-TRIG_ONE <= s && s <= TRIG_ONE);
        assert!(-TRIG_ONE <= c && c <= TRIG_ONE);
    }
}

#[test]
fn squared_distance() {
    assert_eq!(distance_2(&pt(0, 0), &pt(3, 4)), 25);
    assert_eq!(distance_2(&pt(-3, 0), &pt(0, 4)), 25);
    assert_eq!(distance_2(&pt(1_000, 2_000), &pt(1_000, 2_000)), 0);
    assert_eq!(distance_2(&pt(10_000, 0), &pt(0, 0)), 100_000_000);
}

#[test]
fn single_channel_keeps_centre() {
    // One channel: the centre comes back unchanged whatever the spread and
    // rotation.
    let centre = pt(123_456, -654_321);
    let p = channel_point(centre, 0, 1, Metres(999_999), Angle::new(1234));
    assert_eq!(p, centre);
    let p = channel_point(centre, 0, 1, Metres(0), Angle::new(0));
    assert_eq!(p, centre);
}

#[test]
fn four_channels_on_quadrants() {
    // Four channels, no rotation: the points sit on the circle of radius
    // `spread` at the four quadrant angles, with the x = centre - spread*cos
    // and y = centre + spread*sin convention.
    let centre = pt(10_000, 20_000);
    let spread = Metres(2_000);
    let rot = Angle::new(0);
    assert_eq!(channel_point(centre, 0, 4, spread, rot), pt(8_000, 20_000));
    assert_eq!(channel_point(centre, 1, 4, spread, rot), pt(10_000, 22_000));
    assert_eq!(channel_point(centre, 2, 4, spread, rot), pt(12_000, 20_000));
    assert_eq!(channel_point(centre, 3, 4, spread, rot), pt(10_000, 18_000));
    // Each of the four points lies exactly on the circle of radius `spread`.
    for i in 0..4 {
        let p = channel_point(centre, i, 4, spread, rot);
        assert_eq!(distance_2(&p, &centre), 2_000 * 2_000);
    }
}

#[test]
fn two_channels_oppose() {
    let centre = pt(0, 0);
    let spread = Metres(5_000);
    let rot = Angle::new(0);
    assert_eq!(channel_point(centre, 0, 2, spread, rot), pt(-5_000, 0));
    assert_eq!(channel_point(centre, 1, 2, spread, rot), pt(5_000, 0));
}

#[test]
fn rotation_shifts_channels() {
    // A quarter-turn rotation moves channel 0 of 4 to where channel 1 sat.
    let centre = pt(0, 0);
    let spread = Metres(1_000);
    let quarter = Angle::new(TURN / 4);
    assert_eq!(channel_point(centre, 0, 4, spread, quarter), pt(0, 1_000));
}
