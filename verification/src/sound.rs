//! The sound record: four channels and a speed, set from notation.

use vstd::prelude::*;
use vstd::string::StringExecFns;
use std::sync::Arc;
use crate::types::{
    BlockError, BlockLine, Channel, DecodeError, Effect, Note, Speed, Tone, Volume,
    EFFECT_FADEOUT, INITIAL_SPEED, MAX_NOTE, MAX_VOLUME, REST, TONE_NOISE,
};
use crate::text::{
    chars_of, line_then, normalize, nth_line, simplify_string, split_line, string_of, trim,
};
use crate::digits::{decimal_text, lemma_decimal_text_len, push_decimal, two_wide};
use crate::block::{
    codes_line, notes_line, parse_codes_line, parse_notes_line, parse_speed_line,
    read_codes_line, read_notes_line, read_speed_line, speed_line, storable_codes,
    storable_notes, write_codes_line, write_notes_line, write_speed_line,
};
use crate::notation::{
    decode_effects, decode_notes, decode_tones, decode_volumes, read_effects, read_notes,
    read_tones, read_volumes,
};
use crate::shared::{initial_sound, locked, SharedSound};
use crate::laws::{
    lemma_read_block_storable, lemma_set_effect_keeps_valid, lemma_set_note_keeps_valid,
    lemma_set_tone_keeps_valid, lemma_set_valid, lemma_set_volume_keeps_valid,
};

verus! {

/// One playable sound: a note, a tone, a volume and an effect per step, each
/// channel with a length of its own, and the speed at which steps follow.
#[derive(Clone, Debug, PartialEq, Eq)]
pub struct Sound {
    pub notes: Vec<Note>,
    pub tones: Vec<Tone>,
    pub volumes: Vec<Volume>,
    pub effects: Vec<Effect>,
    pub speed: Speed,
}

/// What a sound holds, as sequences.
pub struct SoundView {
    pub notes: Seq<Note>,
    pub tones: Seq<Tone>,
    pub volumes: Seq<Volume>,
    pub effects: Seq<Effect>,
    pub speed: Speed,
}

impl View for Sound {
    type V = SoundView;

    open spec fn view(&self) -> SoundView {
        SoundView {
            notes: self.notes@,
            tones: self.tones@,
            volumes: self.volumes@,
            effects: self.effects@,
            speed: self.speed,
        }
    }
}

/// The error of a notation that fails at `position` in `channel`.
pub open spec fn refusal(channel: Channel, position: int) -> DecodeError {
    DecodeError { channel, position: position as usize }
}

impl SoundView {
    /// No channel has a step.
    pub open spec fn is_empty(self) -> bool {
        &&& self.notes.len() == 0
        &&& self.tones.len() == 0
        &&& self.volumes.len() == 0
        &&& self.effects.len() == 0
    }

    /// Every step holds a value that the notation can write: a rest or a
    /// pitch up to `MAX_NOTE`, one of the four tones, a volume up to
    /// `MAX_VOLUME`, one of the four effects.
    pub open spec fn is_valid(self) -> bool {
        &&& forall|i: int|
            0 <= i < self.notes.len() ==> REST <= #[trigger] self.notes[i] <= MAX_NOTE
        &&& forall|i: int| 0 <= i < self.tones.len() ==> #[trigger] self.tones[i] <= TONE_NOISE
        &&& forall|i: int| 0 <= i < self.volumes.len() ==> #[trigger] self.volumes[i] <= MAX_VOLUME
        &&& forall|i: int|
            0 <= i < self.effects.len() ==> #[trigger] self.effects[i] <= EFFECT_FADEOUT
    }

    /// Every step holds a value that a stored block gives back as it is: a
    /// rest or a pitch below 255, and codes of one decimal digit.
    pub open spec fn is_storable(self) -> bool {
        &&& storable_notes(self.notes)
        &&& storable_codes(self.tones)
        &&& storable_codes(self.volumes)
        &&& storable_codes(self.effects)
    }

    /// The sound after its notes are set from `notation`, or the error where
    /// the notation is refused.
    pub open spec fn set_note(self, notation: Seq<char>) -> Result<SoundView, DecodeError> {
        match decode_notes(normalize(notation)) {
            Ok(notes) => Ok(SoundView { notes, ..self }),
            Err(p) => Err(refusal(Channel::Note, p)),
        }
    }

    /// The sound after its tones are set from `notation`, or the error where
    /// the notation is refused.
    pub open spec fn set_tone(self, notation: Seq<char>) -> Result<SoundView, DecodeError> {
        match decode_tones(normalize(notation)) {
            Ok(tones) => Ok(SoundView { tones, ..self }),
            Err(p) => Err(refusal(Channel::Tone, p)),
        }
    }

    /// The sound after its volumes are set from `notation`, or the error
    /// where the notation is refused.
    pub open spec fn set_volume(self, notation: Seq<char>) -> Result<SoundView, DecodeError> {
        match decode_volumes(normalize(notation)) {
            Ok(volumes) => Ok(SoundView { volumes, ..self }),
            Err(p) => Err(refusal(Channel::Volume, p)),
        }
    }

    /// The sound after its effects are set from `notation`, or the error
    /// where the notation is refused.
    pub open spec fn set_effect(self, notation: Seq<char>) -> Result<SoundView, DecodeError> {
        match decode_effects(normalize(notation)) {
            Ok(effects) => Ok(SoundView { effects, ..self }),
            Err(p) => Err(refusal(Channel::Effect, p)),
        }
    }

    /// The sound after all four channels and the speed are set, or the error
    /// of the first channel, in the order note, tone, volume, effect, whose
    /// notation is refused.
    pub open spec fn set(
        self,
        notes: Seq<char>,
        tones: Seq<char>,
        volumes: Seq<char>,
        effects: Seq<char>,
        speed: Speed,
    ) -> Result<SoundView, DecodeError> {
        match self.set_note(notes) {
            Err(e) => Err(e),
            Ok(a) => match a.set_tone(tones) {
                Err(e) => Err(e),
                Ok(b) => match b.set_volume(volumes) {
                    Err(e) => Err(e),
                    Ok(c) => match c.set_effect(effects) {
                        Err(e) => Err(e),
                        Ok(d) => Ok(SoundView { speed, ..d }),
                    },
                },
            },
        }
    }
}

impl SoundView {
    /// The stored block of the sound: nothing where no channel has a step,
    /// else five lines, each ended by a line feed: notes, tones, volumes,
    /// effects, speed.
    pub open spec fn block_text(self) -> Seq<char> {
        if self.is_empty() {
            Seq::empty()
        } else {
            line_then(
                notes_line(self.notes),
                line_then(
                    codes_line(self.tones),
                    line_then(
                        codes_line(self.volumes),
                        line_then(
                            codes_line(self.effects),
                            line_then(speed_line(self.speed), Seq::empty()),
                        ),
                    ),
                ),
            )
        }
    }

    /// The sound after it is read from the block `text`, or the first line
    /// that is not in its form.
    ///
    /// An empty text leaves every channel without steps and the speed as it
    /// is. Else the first five lines are read, each without the blanks at
    /// its ends, and a line past the end of the text counts as empty.
    pub open spec fn read_block(self, text: Seq<char>) -> Result<SoundView, BlockError> {
        if text.len() == 0 {
            Ok(
                SoundView {
                    notes: Seq::empty(),
                    tones: Seq::empty(),
                    volumes: Seq::empty(),
                    effects: Seq::empty(),
                    speed: self.speed,
                },
            )
        } else {
            match parse_notes_line(trim(nth_line(text, 0))) {
                None => Err(BlockError { line: BlockLine::Notes }),
                Some(notes) => match parse_codes_line(trim(nth_line(text, 1))) {
                    None => Err(BlockError { line: BlockLine::Tones }),
                    Some(tones) => match parse_codes_line(trim(nth_line(text, 2))) {
                        None => Err(BlockError { line: BlockLine::Volumes }),
                        Some(volumes) => match parse_codes_line(trim(nth_line(text, 3))) {
                            None => Err(BlockError { line: BlockLine::Effects }),
                            Some(effects) => match parse_speed_line(trim(nth_line(text, 4))) {
                                None => Err(BlockError { line: BlockLine::Speed }),
                                Some(speed) => Ok(
                                    SoundView { notes, tones, volumes, effects, speed },
                                ),
                            },
                        },
                    },
                },
            }
        }
    }
}

/// The directory of a resource archive that holds the stored items.
pub const RESOURCE_ARCHIVE_DIRNAME: &'static str = "resource/";

impl Default for Sound {
    /// The sound with no steps, at the initial speed.
    fn default() -> (sound: Sound)
        ensures
            sound@.is_empty(),
            sound@.speed == INITIAL_SPEED,
            sound@.is_valid(),
    {
        Sound {
            notes: Vec::new(),
            tones: Vec::new(),
            volumes: Vec::new(),
            effects: Vec::new(),
            speed: INITIAL_SPEED,
        }
    }
}

impl Sound {
    /// A shared sound with no steps, at the initial speed: the sound of
    /// `default`, behind a lock of its own.
    pub fn new() -> (shared: SharedSound)
        ensures
            initial_sound(*shared).is_empty(),
            initial_sound(*shared).speed == INITIAL_SPEED,
            initial_sound(*shared).is_valid(),
    {
        Arc::new(locked(Sound::default()))
    }

    /// Sets all four channels from their notations, and the speed.
    ///
    /// Nothing is changed unless all four notations are accepted.
    pub fn set(
        &mut self,
        note_str: &str,
        tone_str: &str,
        volume_str: &str,
        effect_str: &str,
        speed: Speed,
    ) -> (r: Result<(), DecodeError>)
        ensures
            match old(self)@.set(note_str@, tone_str@, volume_str@, effect_str@, speed) {
                Ok(after) => r is Ok && final(self)@ == after,
                Err(e) => r == Err::<(), DecodeError>(e) && *final(self) == *old(self),
            },
            r is Ok ==> final(self)@.is_valid(),
    {
        proof {
            lemma_set_valid(self@, note_str@, tone_str@, volume_str@, effect_str@, speed);
        }
        let notes = match read_notes(&simplify_string(note_str)) {
            Ok(notes) => notes,
            Err(e) => {
                return Err(e);
            },
        };
        let tones = match read_tones(&simplify_string(tone_str)) {
            Ok(tones) => tones,
            Err(e) => {
                return Err(e);
            },
        };
        let volumes = match read_volumes(&simplify_string(volume_str)) {
            Ok(volumes) => volumes,
            Err(e) => {
                return Err(e);
            },
        };
        let effects = match read_effects(&simplify_string(effect_str)) {
            Ok(effects) => effects,
            Err(e) => {
                return Err(e);
            },
        };
        self.notes = notes;
        self.tones = tones;
        self.volumes = volumes;
        self.effects = effects;
        self.speed = speed;
        Ok(())
    }

    /// Replaces the notes by those that `note_str` writes.
    ///
    /// Blanks apart, the notation is a run of tokens: `r` for a rest, or a
    /// letter from `a` to `g`, an optional `#` or `-`, and an octave from `0`
    /// to `4`. Where it is refused the sound is left as it was.
    pub fn set_note(&mut self, note_str: &str) -> (r: Result<(), DecodeError>)
        ensures
            match old(self)@.set_note(note_str@) {
                Ok(after) => r is Ok && final(self)@ == after,
                Err(e) => r == Err::<(), DecodeError>(e) && *final(self) == *old(self),
            },
            old(self)@.is_valid() ==> final(self)@.is_valid(),
    {
        proof {
            if self@.is_valid() {
                lemma_set_note_keeps_valid(self@, note_str@);
            }
        }
        match read_notes(&simplify_string(note_str)) {
            Ok(notes) => {
                self.notes = notes;
                Ok(())
            },
            Err(e) => Err(e),
        }
    }

    /// Replaces the tones by those that `tone_str` writes: blanks apart, one
    /// of `t`, `s`, `p`, `n` per step. Where it is refused the sound is left
    /// as it was.
    pub fn set_tone(&mut self, tone_str: &str) -> (r: Result<(), DecodeError>)
        ensures
            match old(self)@.set_tone(tone_str@) {
                Ok(after) => r is Ok && final(self)@ == after,
                Err(e) => r == Err::<(), DecodeError>(e) && *final(self) == *old(self),
            },
            old(self)@.is_valid() ==> final(self)@.is_valid(),
    {
        proof {
            if self@.is_valid() {
                lemma_set_tone_keeps_valid(self@, tone_str@);
            }
        }
        match read_tones(&simplify_string(tone_str)) {
            Ok(tones) => {
                self.tones = tones;
                Ok(())
            },
            Err(e) => Err(e),
        }
    }

    /// Replaces the volumes by those that `volume_str` writes: blanks apart,
    /// one digit from `0` to `7` per step. Where it is refused the sound is
    /// left as it was.
    pub fn set_volume(&mut self, volume_str: &str) -> (r: Result<(), DecodeError>)
        ensures
            match old(self)@.set_volume(volume_str@) {
                Ok(after) => r is Ok && final(self)@ == after,
                Err(e) => r == Err::<(), DecodeError>(e) && *final(self) == *old(self),
            },
            old(self)@.is_valid() ==> final(self)@.is_valid(),
    {
        proof {
            if self@.is_valid() {
                lemma_set_volume_keeps_valid(self@, volume_str@);
            }
        }
        match read_volumes(&simplify_string(volume_str)) {
            Ok(volumes) => {
                self.volumes = volumes;
                Ok(())
            },
            Err(e) => Err(e),
        }
    }

    /// Replaces the effects by those that `effect_str` writes: blanks apart,
    /// one of `n`, `s`, `v`, `f` per step. Where it is refused the sound is
    /// left as it was.
    pub fn set_effect(&mut self, effect_str: &str) -> (r: Result<(), DecodeError>)
        ensures
            match old(self)@.set_effect(effect_str@) {
                Ok(after) => r is Ok && final(self)@ == after,
                Err(e) => r == Err::<(), DecodeError>(e) && *final(self) == *old(self),
            },
            old(self)@.is_valid() ==> final(self)@.is_valid(),
    {
        proof {
            if self@.is_valid() {
                lemma_set_effect_keeps_valid(self@, effect_str@);
            }
        }
        match read_effects(&simplify_string(effect_str)) {
            Ok(effects) => {
                self.effects = effects;
                Ok(())
            },
            Err(e) => Err(e),
        }
    }

    /// The name under which the sound of slot `sound_no` is stored: the
    /// archive directory, the word `sound`, and the slot in decimal, two
    /// digits wide at least.
    pub fn resource_name(sound_no: u32) -> (name: String)
        ensures
            name@ == RESOURCE_ARCHIVE_DIRNAME@ + "sound"@ + two_wide(
                decimal_text(sound_no as nat),
            ),
    {
        let mut number: Vec<char> = Vec::new();
        if sound_no < 10 {
            number.push('0');
        }
        push_decimal(&mut number, sound_no);
        proof {
            lemma_decimal_text_len(sound_no as nat);
            assert(number@ =~= two_wide(decimal_text(sound_no as nat)));
        }
        let mut name = String::from_str(RESOURCE_ARCHIVE_DIRNAME);
        name.append("sound");
        name.append(string_of(&number).as_str());
        name
    }

    /// The stored block of the sound.
    pub fn serialize(&self) -> (text: String)
        ensures
            text@ == self@.block_text(),
    {
        let mut out: Vec<char> = Vec::new();
        if self.notes.len() == 0 && self.tones.len() == 0 && self.volumes.len() == 0
            && self.effects.len() == 0 {
            return string_of(&out);
        }
        write_notes_line(&mut out, &self.notes);
        out.push('\n');
        write_codes_line(&mut out, &self.tones);
        out.push('\n');
        write_codes_line(&mut out, &self.volumes);
        out.push('\n');
        write_codes_line(&mut out, &self.effects);
        out.push('\n');
        write_speed_line(&mut out, self.speed);
        out.push('\n');
        assert(out@ =~= self@.block_text());
        string_of(&out)
    }

    /// Replaces the sound by the one that the stored block `input` holds.
    ///
    /// An empty block empties the four channels and keeps the speed. Where
    /// a line is not in its form the sound is left as it was.
    pub fn deserialize(&mut self, input: &str) -> (r: Result<(), BlockError>)
        ensures
            match old(self)@.read_block(input@) {
                Ok(after) => r is Ok && final(self)@ == after,
                Err(e) => r == Err::<(), BlockError>(e) && *final(self) == *old(self),
            },
            r is Ok ==> final(self)@.is_storable(),
    {
        proof {
            lemma_read_block_storable(self@, input@);
        }
        let text = chars_of(input);
        if text.len() == 0 {
            self.notes = Vec::new();
            self.tones = Vec::new();
            self.volumes = Vec::new();
            self.effects = Vec::new();
            return Ok(());
        }
        proof {
            reveal_with_fuel(nth_line, 5);
        }
        let (line, rest) = split_line(text.as_slice());
        let notes = match read_notes_line(line) {
            Some(notes) => notes,
            None => {
                return Err(BlockError { line: BlockLine::Notes });
            },
        };
        let (line, rest) = split_line(rest);
        let tones = match read_codes_line(line) {
            Some(tones) => tones,
            None => {
                return Err(BlockError { line: BlockLine::Tones });
            },
        };
        let (line, rest) = split_line(rest);
        let volumes = match read_codes_line(line) {
            Some(volumes) => volumes,
            None => {
                return Err(BlockError { line: BlockLine::Volumes });
            },
        };
        let (line, rest) = split_line(rest);
        let effects = match read_codes_line(line) {
            Some(effects) => effects,
            None => {
                return Err(BlockError { line: BlockLine::Effects });
            },
        };
        let (line, _) = split_line(rest);
        let speed = match read_speed_line(line) {
            Some(speed) => speed,
            None => {
                return Err(BlockError { line: BlockLine::Speed });
            },
        };
        self.notes = notes;
        self.tones = tones;
        self.volumes = volumes;
        self.effects = effects;
        self.speed = speed;
        Ok(())
    }

    /// Resets nothing: the sound stays as it is.
    pub fn clear(&mut self)
        ensures
            *final(self) == *old(self),
    {
    }
}

} // verus!
