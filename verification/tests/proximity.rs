use audio_server::audio::{
    distance_2_to_amplitude, find_closest_speakers, scale_sample, PROXIMITY_LIMIT_2,
};
use audio_server::geom::Point;
use audio_server::metres::Metres;
use audio_server::speaker::Speaker;

fn pt(x: i64, y: i64) -> Point {
    Point {
        x: Metres(x),
        y: Metres(y),
    }
}

#[test]
fn amplitude_endpoints() {
    // Distance zero gives unity gain; the proximity limit itself gives zero.
    assert_eq!(distance_2_to_amplitude(0), PROXIMITY_LIMIT_2);
    assert_eq!(distance_2_to_amplitude(PROXIMITY_LIMIT_2), 0);
}

#[test]
fn amplitude_strictly_decreasing() {
    let mut previous = distance_2_to_amplitude(0);
    for step in 1..=25 {
        let amp = distance_2_to_amplitude(step * 1_000_000);
        assert!(amp < previous);
        previous = amp;
    }
}

#[test]
fn scale_sample_exact_and_truncating() {
    // Unity gain passes the sample through untouched.
    assert_eq!(scale_sample(1_000_000, PROXIMITY_LIMIT_2), 1_000_000);
    // Half gain halves it.
    assert_eq!(scale_sample(1_000, PROXIMITY_LIMIT_2 / 2), 500);
    // Zero gain silences it.
    assert_eq!(scale_sample(123_456, 0), 0);
    // Rounding is towards zero for both signs.
    assert_eq!(scale_sample(3, PROXIMITY_LIMIT_2 / 2), 1);
    assert_eq!(scale_sample(-3, PROXIMITY_LIMIT_2 / 2), -1);
    // Negative samples scale symmetrically.
    assert_eq!(scale_sample(-1_000, PROXIMITY_LIMIT_2 / 2), -500);
}

#[test]
fn speaker_on_boundary_is_excluded() {
    // Squared distance exactly at the limit: strictly-less-than excludes it.
    let speakers = vec![Speaker::new(1, pt(5_000, 0), 0)];
    let mut closest = Vec::new();
    find_closest_speakers(&pt(0, 0), &mut closest, &speakers);
    assert!(closest.is_empty());
}

#[test]
fn speaker_at_query_point_gets_full_gain() {
    let speakers = vec![Speaker::new(1, pt(7_000, -3_000), 4)];
    let mut closest = Vec::new();
    find_closest_speakers(&pt(7_000, -3_000), &mut closest, &speakers);
    assert_eq!(closest, vec![(PROXIMITY_LIMIT_2, 4)]);
}

#[test]
fn far_speaker_contributes_nothing() {
    let speakers = vec![
        Speaker::new(1, pt(10_000, 0), 0),
        Speaker::new(2, pt(0, 40_000), 1),
    ];
    let mut closest = Vec::new();
    find_closest_speakers(&pt(0, 0), &mut closest, &speakers);
    assert!(closest.is_empty());
}

#[test]
fn near_speakers_collected_with_amplitudes() {
    let speakers = vec![
        Speaker::new(1, pt(3_000, 0), 0),
        Speaker::new(2, pt(5_000, 0), 1),
        Speaker::new(3, pt(0, 4_000), 2),
    ];
    let mut closest = Vec::new();
    find_closest_speakers(&pt(0, 0), &mut closest, &speakers);
    // Speaker 2 sits exactly on the limit and is excluded; the others carry
    // the linear-falloff amplitudes for 9 and 16 square metres.
    assert_eq!(
        closest,
        vec![(PROXIMITY_LIMIT_2 - 9_000_000, 0), (PROXIMITY_LIMIT_2 - 16_000_000, 2)]
    );
}

#[test]
fn scratch_vector_is_refilled() {
    let near = vec![Speaker::new(1, pt(0, 0), 3)];
    let far = vec![Speaker::new(2, pt(30_000, 0), 5)];
    let mut closest = Vec::new();
    find_closest_speakers(&pt(0, 0), &mut closest, &near);
    assert_eq!(closest.len(), 1);
    // A second query must clear the previous results.
    find_closest_speakers(&pt(0, 0), &mut closest, &far);
    assert!(closest.is_empty());
}
