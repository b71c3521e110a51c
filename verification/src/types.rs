//! The values a sound is made of, and the errors its codecs report.

use vstd::prelude::*;

verus! {

/// A step's pitch: `REST`, or semitones above the lowest C.
pub type Note = i32;

/// A step's waveform, one of the `TONE_*` codes.
pub type Tone = u32;

/// A step's loudness, from 0 to `MAX_VOLUME`.
pub type Volume = u32;

/// A step's playback effect, one of the `EFFECT_*` codes.
pub type Effect = u32;

/// The playback step rate of a sound.
pub type Speed = i32;

/// The note of a silent step.
pub const REST: Note = -1;

/// The highest pitch the notation can name: a sharpened B in octave 4.
pub const MAX_NOTE: Note = 60;

pub const TONE_TRIANGLE: Tone = 0;

pub const TONE_SQUARE: Tone = 1;

pub const TONE_PULSE: Tone = 2;

pub const TONE_NOISE: Tone = 3;

/// The loudest volume.
pub const MAX_VOLUME: Volume = 7;

pub const EFFECT_NONE: Effect = 0;

pub const EFFECT_SLIDE: Effect = 1;

pub const EFFECT_VIBRATO: Effect = 2;

pub const EFFECT_FADEOUT: Effect = 3;

/// The speed of a sound that has not been given one.
pub const INITIAL_SPEED: Speed = 30;

/// One of the four parallel sequences of a sound.
#[derive(Clone, Copy, Debug, PartialEq, Eq, Structural)]
pub enum Channel {
    Note,
    Tone,
    Volume,
    Effect,
}

/// A notation string that its channel's grammar does not accept.
///
/// `position` counts characters of the notation once its blanks are removed:
/// it is the place of the first character that the grammar refuses, or the
/// length of the notation where it ends inside a token.
#[derive(Clone, Copy, Debug, PartialEq, Eq, Structural)]
pub struct DecodeError {
    pub channel: Channel,
    pub position: usize,
}

/// One of the five lines of a stored block, in their fixed order.
#[derive(Clone, Copy, Debug, PartialEq, Eq, Structural)]
pub enum BlockLine {
    Notes,
    Tones,
    Volumes,
    Effects,
    Speed,
}

/// A stored block that cannot be read: `line` is the first line that is
/// not in its expected form.
#[derive(Clone, Copy, Debug, PartialEq, Eq, Structural)]
pub struct BlockError {
    pub line: BlockLine,
}

} // verus!
