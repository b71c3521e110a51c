//! What holds of every sound: the laws that relate its operations.

use vstd::prelude::*;
use crate::types::{BlockError, Speed};
use crate::text::{
    is_blank, lemma_nth_line_of_joined, lemma_trim_plain, line_then, normalize, nth_line,
};
use crate::notation::{lemma_codes_in_range, lemma_notes_in_range};
use crate::block::{
    codes_line, lemma_codes_line_round_trip, lemma_notes_line_round_trip,
    lemma_speed_line_round_trip, notes_line, speed_line,
};
use crate::sound::SoundView;

verus! {

/// Setting the notes of a valid sound from a notation leaves it valid.
pub proof fn lemma_set_note_keeps_valid(sound: SoundView, notation: Seq<char>)
    requires
        sound.is_valid(),
    ensures
        sound.set_note(notation) is Ok ==> sound.set_note(notation)->Ok_0.is_valid(),
{
    if sound.set_note(notation) is Ok {
        lemma_notes_in_range(normalize(notation), 0);
    }
}

/// Setting the tones of a valid sound from a notation leaves it valid.
pub proof fn lemma_set_tone_keeps_valid(sound: SoundView, notation: Seq<char>)
    requires
        sound.is_valid(),
    ensures
        sound.set_tone(notation) is Ok ==> sound.set_tone(notation)->Ok_0.is_valid(),
{
    lemma_codes_in_range(normalize(notation));
}

/// Setting the volumes of a valid sound from a notation leaves it valid.
pub proof fn lemma_set_volume_keeps_valid(sound: SoundView, notation: Seq<char>)
    requires
        sound.is_valid(),
    ensures
        sound.set_volume(notation) is Ok ==> sound.set_volume(notation)->Ok_0.is_valid(),
{
    lemma_codes_in_range(normalize(notation));
}

/// Setting the effects of a valid sound from a notation leaves it valid.
pub proof fn lemma_set_effect_keeps_valid(sound: SoundView, notation: Seq<char>)
    requires
        sound.is_valid(),
    ensures
        sound.set_effect(notation) is Ok ==> sound.set_effect(notation)->Ok_0.is_valid(),
{
    lemma_codes_in_range(normalize(notation));
}

/// Setting all channels from notations gives a valid sound, whatever the
/// sound was before.
pub proof fn lemma_set_valid(
    sound: SoundView,
    notes: Seq<char>,
    tones: Seq<char>,
    volumes: Seq<char>,
    effects: Seq<char>,
    speed: Speed,
)
    ensures
        sound.set(notes, tones, volumes, effects, speed) is Ok ==> sound.set(
            notes,
            tones,
            volumes,
            effects,
            speed,
        )->Ok_0.is_valid(),
{
    if sound.set(notes, tones, volumes, effects, speed) is Ok {
        lemma_notes_in_range(normalize(notes), 0);
        lemma_codes_in_range(normalize(tones));
        lemma_codes_in_range(normalize(volumes));
        lemma_codes_in_range(normalize(effects));
    }
}

/// A valid sound is storable.
pub proof fn lemma_valid_is_storable(sound: SoundView)
    requires
        sound.is_valid(),
    ensures
        sound.is_storable(),
{
}

/// Decoding depends on the notation alone: from any two sounds, the same
/// four notations and speed are refused with the same error or give the
/// same sound.
pub proof fn lemma_set_forgets(
    a: SoundView,
    b: SoundView,
    notes: Seq<char>,
    tones: Seq<char>,
    volumes: Seq<char>,
    effects: Seq<char>,
    speed: Speed,
)
    ensures
        a.set(notes, tones, volumes, effects, speed) == b.set(
            notes,
            tones,
            volumes,
            effects,
            speed,
        ),
{
}

/// Setting one channel replaces it and nothing else: from any two sounds
/// the same notation gives the same steps in that channel, or the same
/// error, and the other channels and the speed stay.
pub proof fn lemma_set_channel_replaces(a: SoundView, b: SoundView, notation: Seq<char>)
    ensures
        match (a.set_note(notation), b.set_note(notation)) {
            (Ok(x), Ok(y)) => x.notes == y.notes && x == (SoundView { notes: x.notes, ..a }),
            (Err(e), Err(f)) => e == f,
            _ => false,
        },
        match (a.set_tone(notation), b.set_tone(notation)) {
            (Ok(x), Ok(y)) => x.tones == y.tones && x == (SoundView { tones: x.tones, ..a }),
            (Err(e), Err(f)) => e == f,
            _ => false,
        },
        match (a.set_volume(notation), b.set_volume(notation)) {
            (Ok(x), Ok(y)) => x.volumes == y.volumes && x == (SoundView {
                volumes: x.volumes,
                ..a
            }),
            (Err(e), Err(f)) => e == f,
            _ => false,
        },
        match (a.set_effect(notation), b.set_effect(notation)) {
            (Ok(x), Ok(y)) => x.effects == y.effects && x == (SoundView {
                effects: x.effects,
                ..a
            }),
            (Err(e), Err(f)) => e == f,
            _ => false,
        },
{
}

/// Setting a channel a second time from the same notation changes nothing.
pub proof fn lemma_set_twice(sound: SoundView, notation: Seq<char>)
    ensures
        sound.set_note(notation) is Ok ==> sound.set_note(notation)->Ok_0.set_note(notation)
            == sound.set_note(notation),
        sound.set_tone(notation) is Ok ==> sound.set_tone(notation)->Ok_0.set_tone(notation)
            == sound.set_tone(notation),
        sound.set_volume(notation) is Ok ==> sound.set_volume(notation)->Ok_0.set_volume(
            notation,
        ) == sound.set_volume(notation),
        sound.set_effect(notation) is Ok ==> sound.set_effect(notation)->Ok_0.set_effect(
            notation,
        ) == sound.set_effect(notation),
{
}

/// A blank put anywhere into a notation changes nothing of what it writes.
pub proof fn lemma_blank_ignored(notation: Seq<char>, at: int, c: char)
    requires
        0 <= at <= notation.len(),
        is_blank(c),
    ensures
        normalize(notation.insert(at, c)) == normalize(notation),
{
    let keep = |c: char| !is_blank(c);
    let front = notation.take(at);
    let back = notation.skip(at);
    assert(notation.insert(at, c) =~= (front + seq![c]) + back);
    assert(notation =~= front + back);
    Seq::filter_distributes_over_add(front + seq![c], back, keep);
    Seq::filter_distributes_over_add(front, seq![c], keep);
    Seq::filter_distributes_over_add(front, back, keep);
    reveal_with_fuel(Seq::filter, 2);
    assert(seq![c].filter(keep) =~= Seq::<char>::empty());
    assert(front.filter(keep) + Seq::<char>::empty() =~= front.filter(keep));
}

/// The stored block of a sound without steps is the empty text.
pub proof fn lemma_empty_block(sound: SoundView)
    requires
        sound.is_empty(),
    ensures
        sound.block_text() == Seq::<char>::empty(),
{
}

/// A storable sound that is written as a block and read back is the same
/// sound. Of a sound without steps the block is empty and holds no speed:
/// there the sound that reads it must have that speed already.
pub proof fn lemma_round_trip(sound: SoundView, reader: SoundView)
    requires
        sound.is_storable(),
        sound.is_empty() ==> reader.speed == sound.speed,
    ensures
        reader.read_block(sound.block_text()) == Ok::<SoundView, BlockError>(sound),
{
    if sound.is_empty() {
        assert(sound.notes =~= Seq::empty());
        assert(sound.tones =~= Seq::empty());
        assert(sound.volumes =~= Seq::empty());
        assert(sound.effects =~= Seq::empty());
    } else {
        let l0 = notes_line(sound.notes);
        let l1 = codes_line(sound.tones);
        let l2 = codes_line(sound.volumes);
        let l3 = codes_line(sound.effects);
        let l4 = speed_line(sound.speed);
        let t4 = line_then(l4, Seq::empty());
        let t3 = line_then(l3, t4);
        let t2 = line_then(l2, t3);
        let t1 = line_then(l1, t2);
        let t0 = line_then(l0, t1);
        lemma_notes_line_round_trip(sound.notes);
        lemma_codes_line_round_trip(sound.tones);
        lemma_codes_line_round_trip(sound.volumes);
        lemma_codes_line_round_trip(sound.effects);
        lemma_speed_line_round_trip(sound.speed);
        lemma_trim_plain(l0);
        lemma_trim_plain(l1);
        lemma_trim_plain(l2);
        lemma_trim_plain(l3);
        lemma_trim_plain(l4);
        assert(nth_line(t0, 0) == l0) by {
            lemma_nth_line_of_joined(l0, t1, 0);
        }
        assert(nth_line(t0, 1) == l1) by {
            lemma_nth_line_of_joined(l0, t1, 0);
            lemma_nth_line_of_joined(l1, t2, 0);
        }
        assert(nth_line(t0, 2) == l2) by {
            lemma_nth_line_of_joined(l0, t1, 1);
            lemma_nth_line_of_joined(l1, t2, 0);
            lemma_nth_line_of_joined(l2, t3, 0);
        }
        assert(nth_line(t0, 3) == l3) by {
            lemma_nth_line_of_joined(l0, t1, 2);
            lemma_nth_line_of_joined(l1, t2, 1);
            lemma_nth_line_of_joined(l2, t3, 0);
            lemma_nth_line_of_joined(l3, t4, 0);
        }
        assert(nth_line(t0, 4) == l4) by {
            lemma_nth_line_of_joined(l0, t1, 3);
            lemma_nth_line_of_joined(l1, t2, 2);
            lemma_nth_line_of_joined(l2, t3, 1);
            lemma_nth_line_of_joined(l3, t4, 0);
            lemma_nth_line_of_joined(l4, Seq::empty(), 0);
        }
        assert(t0.len() > 0);
        assert(sound.block_text() == t0);
    }
}

/// A storable sound that reads its own block stays as it is.
pub proof fn lemma_reads_own_block(sound: SoundView)
    requires
        sound.is_storable(),
    ensures
        sound.read_block(sound.block_text()) == Ok::<SoundView, BlockError>(sound),
{
    lemma_round_trip(sound, sound);
}

/// A sound read from a block is storable: written again and read again, it
/// is the same sound.
pub proof fn lemma_read_block_storable(reader: SoundView, text: Seq<char>)
    ensures
        reader.read_block(text) is Ok ==> reader.read_block(text)->Ok_0.is_storable(),
{
}

} // verus!
