use audio_server::audio::{Model, MAX_CHANNELS};
use audio_server::geom::{Angle, Point};
use audio_server::metres::Metres;
use audio_server::sound::Sound;
use audio_server::speaker::Speaker;

fn pt(x: i64, y: i64) -> Point {
    Point {
        x: Metres(x),
        y: Metres(y),
    }
}

fn sound(id: u64) -> Sound {
    Sound::new(id, pt(0, 0), 1, Metres(0), Angle::new(0), Vec::new())
}

#[test]
fn new_model_is_empty() {
    let model = Model::new();
    assert!(model.sounds.is_empty());
    assert!(model.speakers.is_empty());
}

#[test]
fn add_and_remove_sound() {
    let mut model = Model::new();
    assert!(model.add_sound(sound(1)));
    assert!(model.add_sound(sound(2)));
    // A taken id is refused.
    assert!(!model.add_sound(sound(1)));
    assert_eq!(model.sounds.len(), 2);
    let removed = model.remove_sound(1).expect("sound 1 should be present");
    assert_eq!(removed.id, 1);
    assert_eq!(model.sounds.len(), 1);
    assert_eq!(model.sounds[0].id, 2);
    assert!(model.remove_sound(1).is_none());
}

#[test]
fn add_and_remove_speaker() {
    let mut model = Model::new();
    assert!(model.add_speaker(Speaker::new(1, pt(0, 0), 0)));
    assert!(model.add_speaker(Speaker::new(2, pt(1_000, 0), 1)));
    assert!(!model.add_speaker(Speaker::new(2, pt(2_000, 0), 2)));
    assert_eq!(model.speakers.len(), 2);
    let removed = model.remove_speaker(2).expect("speaker 2 should be present");
    assert_eq!(removed.id, 2);
    assert_eq!(removed.point, pt(1_000, 0));
    assert_eq!(model.speakers.len(), 1);
    assert!(model.remove_speaker(2).is_none());
}

#[test]
fn speaker_collection_is_capped() {
    let mut model = Model::new();
    for id in 0..MAX_CHANNELS as u64 {
        assert!(model.add_speaker(Speaker::new(id, pt(0, 0), (id as usize) % MAX_CHANNELS)));
    }
    // The collection is bounded by the channel capacity.
    assert!(!model.add_speaker(Speaker::new(999, pt(0, 0), 0)));
    assert_eq!(model.speakers.len(), MAX_CHANNELS);
}

#[test]
fn reposition_sound_in_place() {
    let mut model = Model::new();
    assert!(model.add_sound(sound(1)));
    assert!(model.reposition_sound(1, pt(5_000, -5_000), Metres(750), Angle::new(100)));
    assert_eq!(model.sounds[0].point, pt(5_000, -5_000));
    assert_eq!(model.sounds[0].spread, Metres(750));
    assert_eq!(model.sounds[0].rotation, Angle::new(100));
    assert_eq!(model.sounds[0].id, 1);
    assert!(!model.reposition_sound(42, pt(0, 0), Metres(0), Angle::new(0)));
}

#[test]
fn set_sound_signal_replaces_batch() {
    let mut model = Model::new();
    assert!(model.add_sound(sound(1)));
    assert!(model.set_sound_signal(1, vec![4, 5, 6]));
    assert_eq!(model.sounds[0].signal, vec![4, 5, 6]);
    assert!(model.set_sound_signal(1, vec![7]));
    assert_eq!(model.sounds[0].signal, vec![7]);
    assert!(!model.set_sound_signal(2, vec![8]));
}

#[test]
fn reposition_and_reassign_speaker() {
    let mut model = Model::new();
    assert!(model.add_speaker(Speaker::new(1, pt(0, 0), 0)));
    assert!(model.reposition_speaker(1, pt(9_000, 9_000)));
    assert_eq!(model.speakers[0].point, pt(9_000, 9_000));
    assert_eq!(model.speakers[0].channel, 0);
    assert!(model.reassign_speaker(1, 7));
    assert_eq!(model.speakers[0].channel, 7);
    assert_eq!(model.speakers[0].point, pt(9_000, 9_000));
    assert!(!model.reposition_speaker(2, pt(0, 0)));
    assert!(!model.reassign_speaker(2, 1));
}
