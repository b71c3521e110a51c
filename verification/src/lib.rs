//! Tracker-style sound definitions: four per-step channels (note, tone,
//! volume, effect) and a playback speed, with the compact notation that
//! fills them and the text block that stores them.

pub mod types;
pub mod digits;
pub mod text;
pub mod notation;
pub mod block;
pub mod sound;
pub mod shared;
pub mod laws;

pub use crate::shared::SharedSound;
pub use crate::sound::{Sound, SoundView, RESOURCE_ARCHIVE_DIRNAME};
pub use crate::types::{
    BlockError, BlockLine, Channel, DecodeError, Effect, Note, Speed, Tone, Volume,
    EFFECT_FADEOUT, EFFECT_NONE, EFFECT_SLIDE, EFFECT_VIBRATO, INITIAL_SPEED, MAX_NOTE,
    MAX_VOLUME, REST, TONE_NOISE, TONE_PULSE, TONE_SQUARE, TONE_TRIANGLE,
};
