use tracker_sound::{
    Channel, DecodeError, Sound, EFFECT_FADEOUT, EFFECT_NONE, EFFECT_SLIDE, EFFECT_VIBRATO,
    INITIAL_SPEED, TONE_NOISE, TONE_PULSE, TONE_SQUARE, TONE_TRIANGLE,
};

#[test]
fn new() {
    let sound = Sound::new();
    assert_eq!(sound.lock().notes.len(), 0);
    assert_eq!(sound.lock().tones.len(), 0);
    assert_eq!(sound.lock().volumes.len(), 0);
    assert_eq!(sound.lock().effects.len(), 0);
    assert_eq!(sound.lock().speed, INITIAL_SPEED);
}

#[test]
fn set() {
    let sound = Sound::new();

    assert_eq!(sound.lock().set("c0d-0d0d#0", "tspn", "0123", "nsvf", 123), Ok(()));
    assert_eq!(&sound.lock().notes, &vec![0, 1, 2, 3]);
    assert_eq!(
        &sound.lock().tones,
        &vec![TONE_TRIANGLE, TONE_SQUARE, TONE_PULSE, TONE_NOISE]
    );
    assert_eq!(&sound.lock().volumes, &vec![0, 1, 2, 3]);
    assert_eq!(
        &sound.lock().effects,
        &vec![EFFECT_NONE, EFFECT_SLIDE, EFFECT_VIBRATO, EFFECT_FADEOUT]
    );
    assert_eq!(sound.lock().speed, 123);
}

#[test]
fn set_note() {
    let sound = Sound::new();

    assert_eq!(
        sound.lock().set_note(" c 0 d # 1 r e 2 f 3 g 4 r a - 0 b 1 "),
        Ok(())
    );
    assert_eq!(&sound.lock().notes, &vec![0, 15, -1, 28, 41, 55, -1, 8, 23]);
}

#[test]
fn set_tone() {
    let sound = Sound::new();

    assert_eq!(sound.lock().set_tone(" t s p n "), Ok(()));
    assert_eq!(
        &sound.lock().tones,
        &vec![TONE_TRIANGLE, TONE_SQUARE, TONE_PULSE, TONE_NOISE]
    );
}

#[test]
fn set_volume() {
    let sound = Sound::new();

    assert_eq!(sound.lock().set_volume(" 0 1 2 3 4 5 6 7 "), Ok(()));
    assert_eq!(&sound.lock().volumes, &vec![0, 1, 2, 3, 4, 5, 6, 7]);
}

#[test]
fn set_effect() {
    let sound = Sound::new();

    assert_eq!(sound.lock().set_effect(" n s v f "), Ok(()));
    assert_eq!(
        &sound.lock().effects,
        &vec![EFFECT_NONE, EFFECT_SLIDE, EFFECT_VIBRATO, EFFECT_FADEOUT]
    );
}

fn notes_of(notation: &str) -> Vec<i32> {
    let mut sound = Sound::default();
    assert_eq!(sound.set_note(notation), Ok(()));
    sound.notes
}

fn refusal(channel: Channel, position: usize) -> Result<(), DecodeError> {
    Err(DecodeError { channel, position })
}

#[test]
fn default_is_empty_at_the_initial_speed() {
    let sound = Sound::default();
    assert!(sound.notes.is_empty());
    assert!(sound.tones.is_empty());
    assert!(sound.volumes.is_empty());
    assert!(sound.effects.is_empty());
    assert_eq!(sound.speed, 30);
    assert_eq!(INITIAL_SPEED, 30);
}

#[test]
fn single_note_tokens() {
    assert_eq!(notes_of("c0"), vec![0]);
    assert_eq!(notes_of("d#1"), vec![15]);
    assert_eq!(notes_of("r"), vec![-1]);
    assert_eq!(notes_of("e2"), vec![28]);
    assert_eq!(notes_of("f3"), vec![41]);
    assert_eq!(notes_of("g4"), vec![55]);
    assert_eq!(notes_of("a-0"), vec![8]);
    assert_eq!(notes_of("b1"), vec![23]);
}

#[test]
fn note_string_without_blanks() {
    assert_eq!(
        notes_of("c0d#1re2f3g4ra-0b1"),
        vec![0, 15, -1, 28, 41, 55, -1, 8, 23]
    );
}

#[test]
fn extreme_notes() {
    assert_eq!(notes_of("b#4"), vec![60]);
    assert_eq!(notes_of("b4"), vec![59]);
    assert_eq!(notes_of("c-0"), vec![-1]);
    assert_eq!(notes_of(""), Vec::<i32>::new());
    assert_eq!(notes_of(" \t\r\n"), Vec::<i32>::new());
}

#[test]
fn blanks_mean_nothing() {
    assert_eq!(notes_of("c\t0\nd\r#  1"), notes_of("c0d#1"));
    let mut spaced = Sound::default();
    let mut tight = Sound::default();
    assert_eq!(spaced.set(" c 0 ", "t\n", "\t7", " f ", 1), Ok(()));
    assert_eq!(tight.set("c0", "t", "7", "f", 1), Ok(()));
    assert_eq!(spaced, tight);
}

#[test]
fn note_letter_refused() {
    let mut sound = Sound::default();
    assert_eq!(sound.set_note("c0h1"), refusal(Channel::Note, 2));
    assert_eq!(sound.set_note("C0"), refusal(Channel::Note, 0));
    assert_eq!(sound.set_note(" x"), refusal(Channel::Note, 0));
    assert_eq!(sound.set_note("c0 #"), refusal(Channel::Note, 2));
}

#[test]
fn octave_missing_or_out_of_range() {
    let mut sound = Sound::default();
    assert_eq!(sound.set_note("c"), refusal(Channel::Note, 1));
    assert_eq!(sound.set_note("c#"), refusal(Channel::Note, 2));
    assert_eq!(sound.set_note("c5"), refusal(Channel::Note, 1));
    assert_eq!(sound.set_note("d-9"), refusal(Channel::Note, 2));
    assert_eq!(sound.set_note("c0d#r"), refusal(Channel::Note, 4));
    assert_eq!(sound.set_note("e##1"), refusal(Channel::Note, 2));
}

#[test]
fn volume_eight_is_refused() {
    let mut sound = Sound::default();
    assert_eq!(sound.set_volume("8"), refusal(Channel::Volume, 0));
    assert_eq!(sound.set_volume("0129"), refusal(Channel::Volume, 3));
    assert_eq!(sound.set_volume("7"), Ok(()));
    assert_eq!(sound.volumes, vec![7]);
}

#[test]
fn tone_and_effect_letters_refused() {
    let mut sound = Sound::default();
    assert_eq!(sound.set_tone("tsx"), refusal(Channel::Tone, 2));
    assert_eq!(sound.set_tone("v"), refusal(Channel::Tone, 0));
    assert_eq!(sound.set_effect("nsp"), refusal(Channel::Effect, 2));
    assert_eq!(sound.set_effect("t"), refusal(Channel::Effect, 0));
    assert_eq!(sound.set_effect("n s 1"), refusal(Channel::Effect, 2));
}

#[test]
fn tone_and_effect_codes() {
    assert_eq!(
        (TONE_TRIANGLE, TONE_SQUARE, TONE_PULSE, TONE_NOISE),
        (0, 1, 2, 3)
    );
    assert_eq!(
        (EFFECT_NONE, EFFECT_SLIDE, EFFECT_VIBRATO, EFFECT_FADEOUT),
        (0, 1, 2, 3)
    );
    let mut sound = Sound::default();
    assert_eq!(sound.set_tone("tspn"), Ok(()));
    assert_eq!(sound.set_effect("nsvf"), Ok(()));
    assert_eq!(sound.tones, vec![0, 1, 2, 3]);
    assert_eq!(sound.effects, vec![0, 1, 2, 3]);
}

#[test]
fn a_refused_channel_is_left_as_it_was() {
    let mut sound = Sound::default();
    assert_eq!(sound.set("c0", "t", "1", "n", 7), Ok(()));
    let before = sound.clone();
    assert_eq!(sound.set_note("c0d"), refusal(Channel::Note, 3));
    assert_eq!(sound.set_tone("tq"), refusal(Channel::Tone, 1));
    assert_eq!(sound.set_volume("18"), refusal(Channel::Volume, 1));
    assert_eq!(sound.set_effect("nq"), refusal(Channel::Effect, 1));
    assert_eq!(sound, before);
}

#[test]
fn set_changes_nothing_unless_all_four_are_accepted() {
    let mut sound = Sound::default();
    assert_eq!(sound.set("c0", "t", "1", "n", 7), Ok(()));
    let before = sound.clone();
    assert_eq!(sound.set("d1", "s", "2", "x", 9), refusal(Channel::Effect, 0));
    assert_eq!(sound, before);
    assert_eq!(sound.set("d1", "s", "9", "x", 9), refusal(Channel::Volume, 0));
    assert_eq!(sound, before);
    assert_eq!(sound.set("d1", "?", "9", "x", 9), refusal(Channel::Tone, 0));
    assert_eq!(sound, before);
    assert_eq!(sound.set("d", "?", "9", "x", 9), refusal(Channel::Note, 1));
    assert_eq!(sound, before);
}

#[test]
fn setting_replaces_and_never_appends() {
    let mut sound = Sound::default();
    assert_eq!(sound.set("c0c0c0", "ttt", "111", "nnn", 7), Ok(()));
    assert_eq!(sound.set_note("d1"), Ok(()));
    assert_eq!(sound.notes, vec![14]);
    assert_eq!(sound.tones, vec![0, 0, 0]);
    assert_eq!(sound.set_tone("n"), Ok(()));
    assert_eq!(sound.set_volume(""), Ok(()));
    assert_eq!(sound.set_effect("fv"), Ok(()));
    assert_eq!(sound.tones, vec![3]);
    assert_eq!(sound.volumes, Vec::<u32>::new());
    assert_eq!(sound.effects, vec![3, 2]);
    assert_eq!(sound.notes, vec![14]);
    assert_eq!(sound.speed, 7);
}

#[test]
fn decoding_twice_gives_the_same() {
    let mut first = Sound::default();
    let mut second = Sound::default();
    assert_eq!(second.set("rrr", "n", "7", "f", 1), Ok(()));
    assert_eq!(first.set("c0d#1", "ts", "01", "ns", 5), Ok(()));
    assert_eq!(second.set("c0d#1", "ts", "01", "ns", 5), Ok(()));
    assert_eq!(first, second);
    assert_eq!(first.set_note("c0d#1"), Ok(()));
    assert_eq!(first, second);
}

#[test]
fn channels_need_not_match_in_length() {
    let mut sound = Sound::default();
    assert_eq!(sound.set("c0d0e0", "t", "", "nsvf", -4), Ok(()));
    assert_eq!(sound.notes.len(), 3);
    assert_eq!(sound.tones.len(), 1);
    assert_eq!(sound.volumes.len(), 0);
    assert_eq!(sound.effects.len(), 4);
    assert_eq!(sound.speed, -4);
}

#[test]
fn clear_resets_nothing() {
    let mut sound = Sound::default();
    assert_eq!(sound.set("c0", "t", "1", "n", 7), Ok(()));
    let before = sound.clone();
    sound.clear();
    assert_eq!(sound, before);
}

#[test]
fn resource_names() {
    assert_eq!(Sound::resource_name(3), "resource/sound03");
    assert_eq!(Sound::resource_name(0), "resource/sound00");
    assert_eq!(Sound::resource_name(10), "resource/sound10");
    assert_eq!(Sound::resource_name(63), "resource/sound63");
    assert_eq!(Sound::resource_name(100), "resource/sound100");
    assert_eq!(
        Sound::resource_name(u32::MAX),
        "resource/sound4294967295"
    );
    assert_eq!(
        Sound::resource_name(7),
        format!("{}sound{:02}", tracker_sound::RESOURCE_ARCHIVE_DIRNAME, 7)
    );
}
