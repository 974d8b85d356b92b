use audio_server::audio::{render, Model, PROXIMITY_LIMIT_2};
use audio_server::buffer::Buffer;
use audio_server::geom::{Angle, Point};
use audio_server::metres::Metres;
use audio_server::sound::Sound;
use audio_server::speaker::Speaker;

fn pt(x: i64, y: i64) -> Point {
    Point {
        x: Metres(x),
        y: Metres(y),
    }
}

fn mono_sound(id: u64, point: Point, signal: Vec<i64>) -> Sound {
    Sound::new(id, point, 1, Metres(0), Angle::new(0), signal)
}

#[test]
fn empty_model_leaves_buffer_unchanged() {
    // With no sounds at all a render call is a pure pass-through.
    let mut model = Model::new();
    assert!(model.add_speaker(Speaker::new(1, pt(0, 0), 0)));
    let mut buffer = Buffer::new(4, 2);
    buffer.set_at(0, 0, 77);
    buffer.set_at(3, 1, -5);
    let (_, buffer) = render(model, buffer);
    assert_eq!(buffer.at(0, 0), 77);
    assert_eq!(buffer.at(3, 1), -5);
    assert_eq!(buffer.at(1, 0), 0);
    assert_eq!(buffer.at(2, 1), 0);
}

#[test]
fn coincident_speaker_passes_sample_through() {
    // One mono sound and one speaker, both at the origin: unity gain, so
    // the output sample is exactly the source sample.
    let mut model = Model::new();
    assert!(model.add_sound(mono_sound(1, pt(0, 0), vec![1_000_000])));
    assert!(model.add_speaker(Speaker::new(1, pt(0, 0), 0)));
    let buffer = Buffer::new(1, 1);
    let (_, buffer) = render(model, buffer);
    assert_eq!(buffer.at(0, 0), 1_000_000);
}

#[test]
fn out_of_range_speaker_stays_silent() {
    // The same setup with the speaker ten metres away: past the five-metre
    // proximity limit, so nothing is contributed.
    let mut model = Model::new();
    assert!(model.add_sound(mono_sound(1, pt(0, 0), vec![1_000_000])));
    assert!(model.add_speaker(Speaker::new(1, pt(10_000, 0), 0)));
    let buffer = Buffer::new(1, 1);
    let (_, buffer) = render(model, buffer);
    assert_eq!(buffer.at(0, 0), 0);
}

#[test]
fn two_sounds_superpose() {
    // Two mono sounds at the origin, a speaker three metres away: gains are
    // exact fractions, and the slot receives v1*g + v2*g.
    let mut model = Model::new();
    assert!(model.add_sound(mono_sound(1, pt(0, 0), vec![1_000])));
    assert!(model.add_sound(mono_sound(2, pt(0, 0), vec![2_000])));
    assert!(model.add_speaker(Speaker::new(1, pt(3_000, 0), 0)));
    let buffer = Buffer::new(1, 1);
    let (_, buffer) = render(model, buffer);
    // d2 = 9 m^2, amplitude = (25 - 9)/25 = 0.64: 640 + 1280.
    assert_eq!(buffer.at(0, 0), 1_920);
}

#[test]
fn render_adds_to_existing_contents() {
    let mut model = Model::new();
    assert!(model.add_sound(mono_sound(1, pt(0, 0), vec![1_000])));
    assert!(model.add_speaker(Speaker::new(1, pt(0, 0), 0)));
    let mut buffer = Buffer::new(1, 1);
    buffer.set_at(0, 0, 500);
    let (_, buffer) = render(model, buffer);
    assert_eq!(buffer.at(0, 0), 1_500);
}

#[test]
fn frames_consume_signal_in_order() {
    let mut model = Model::new();
    assert!(model.add_sound(mono_sound(1, pt(0, 0), vec![100, 200, 300])));
    assert!(model.add_speaker(Speaker::new(1, pt(0, 0), 0)));
    let buffer = Buffer::new(3, 1);
    let (_, buffer) = render(model, buffer);
    assert_eq!(buffer.at(0, 0), 100);
    assert_eq!(buffer.at(1, 0), 200);
    assert_eq!(buffer.at(2, 0), 300);
}

#[test]
fn interleaved_channels_sum_onto_shared_speaker() {
    // A two-channel sound with zero spread: both channel positions collapse
    // onto the centre, so a speaker there hears the sum of the interleaved
    // pair of every frame.
    let mut model = Model::new();
    let sound = Sound::new(1, pt(0, 0), 2, Metres(0), Angle::new(0), vec![10, 1, 20, 2]);
    assert!(model.add_sound(sound));
    assert!(model.add_speaker(Speaker::new(1, pt(0, 0), 0)));
    let buffer = Buffer::new(2, 1);
    let (_, buffer) = render(model, buffer);
    assert_eq!(buffer.at(0, 0), 11);
    assert_eq!(buffer.at(1, 0), 22);
}

#[test]
fn spread_channels_reach_different_speakers() {
    // A two-channel sound spread four metres wide: channel 0 sits four
    // metres to the left, channel 1 four metres to the right.  A speaker on
    // each side hears only its own channel, at the gain of distance zero.
    let mut model = Model::new();
    let sound = Sound::new(1, pt(0, 0), 2, Metres(4_000), Angle::new(0), vec![100, 7, 200, 9]);
    assert!(model.add_sound(sound));
    assert!(model.add_speaker(Speaker::new(1, pt(-4_000, 0), 0)));
    assert!(model.add_speaker(Speaker::new(2, pt(4_000, 0), 1)));
    let buffer = Buffer::new(2, 2);
    let (_, buffer) = render(model, buffer);
    assert_eq!(buffer.at(0, 0), 100);
    assert_eq!(buffer.at(1, 0), 200);
    assert_eq!(buffer.at(0, 1), 7);
    assert_eq!(buffer.at(1, 1), 9);
}

#[test]
fn speaker_beyond_device_capacity_is_dropped() {
    // A speaker wired to channel 5 with a single-channel device: the
    // contribution is silently dropped, not an error.
    let mut model = Model::new();
    assert!(model.add_sound(mono_sound(1, pt(0, 0), vec![1_000])));
    assert!(model.add_speaker(Speaker::new(1, pt(0, 0), 5)));
    let buffer = Buffer::new(1, 1);
    let (_, buffer) = render(model, buffer);
    assert_eq!(buffer.at(0, 0), 0);
}

#[test]
fn state_survives_render_untouched() {
    let mut model = Model::new();
    assert!(model.add_sound(mono_sound(9, pt(1_000, 2_000), vec![5])));
    assert!(model.add_speaker(Speaker::new(3, pt(0, 0), 2)));
    let buffer = Buffer::new(1, 4);
    let (model, buffer) = render(model, buffer);
    assert_eq!(model.sounds.len(), 1);
    assert_eq!(model.sounds[0].id, 9);
    assert_eq!(model.sounds[0].signal, vec![5]);
    assert_eq!(model.speakers.len(), 1);
    assert_eq!(model.speakers[0].id, 3);
    assert_eq!(buffer.len_frames(), 1);
    assert_eq!(buffer.len_channels(), 4);
}
