//! The compact notation of the four channels: what each string means, and
//! the decoders that read it.

use vstd::prelude::*;
use crate::types::{
    Channel, DecodeError, Effect, Note, Tone, Volume, EFFECT_FADEOUT, EFFECT_NONE, EFFECT_SLIDE,
    EFFECT_VIBRATO, MAX_NOTE, MAX_VOLUME, REST, TONE_NOISE, TONE_PULSE, TONE_SQUARE, TONE_TRIANGLE,
};

verus! {

/// The semitone that a note letter names, counted from C.
pub open spec fn semitone_of(c: char) -> Option<int> {
    if c == 'c' {
        Some(0)
    } else if c == 'd' {
        Some(2)
    } else if c == 'e' {
        Some(4)
    } else if c == 'f' {
        Some(5)
    } else if c == 'g' {
        Some(7)
    } else if c == 'a' {
        Some(9)
    } else if c == 'b' {
        Some(11)
    } else {
        None
    }
}

/// The octave that a digit names: `0` to `4`.
pub open spec fn octave_of(c: char) -> Option<int> {
    if '0' <= c && c <= '4' {
        Some(c as int - '0' as int)
    } else {
        None
    }
}

/// The tone that a letter names.
pub open spec fn tone_of(c: char) -> Option<Tone> {
    if c == 't' {
        Some(TONE_TRIANGLE)
    } else if c == 's' {
        Some(TONE_SQUARE)
    } else if c == 'p' {
        Some(TONE_PULSE)
    } else if c == 'n' {
        Some(TONE_NOISE)
    } else {
        None
    }
}

/// The volume that a digit names: `0` to `7`.
pub open spec fn volume_of(c: char) -> Option<Volume> {
    if '0' <= c && c <= '7' {
        Some((c as int - '0' as int) as u32)
    } else {
        None
    }
}

/// The effect that a letter names.
pub open spec fn effect_of(c: char) -> Option<Effect> {
    if c == 'n' {
        Some(EFFECT_NONE)
    } else if c == 's' {
        Some(EFFECT_SLIDE)
    } else if c == 'v' {
        Some(EFFECT_VIBRATO)
    } else if c == 'f' {
        Some(EFFECT_FADEOUT)
    } else {
        None
    }
}

/// The note token that starts at `i`: its note and the position after it,
/// or the position at which the grammar fails.
///
/// A token is `r`, a rest, or a letter from `a` to `g`, then an optional `#`
/// or `-` that raises or lowers it by a semitone, then the octave digit.
pub open spec fn note_token(s: Seq<char>, i: int) -> Result<(Note, int), int>
    recommends
        0 <= i < s.len(),
{
    if s[i] == 'r' {
        Ok((REST, i + 1))
    } else {
        match semitone_of(s[i]) {
            None => Err(i),
            Some(base) => {
                let sharp = i + 1 < s.len() && s[i + 1] == '#';
                let flat = i + 1 < s.len() && s[i + 1] == '-';
                let shift: int = if sharp {
                    1
                } else if flat {
                    -1
                } else {
                    0
                };
                let j = if sharp || flat {
                    i + 2
                } else {
                    i + 1
                };
                if j < s.len() && octave_of(s[j]) is Some {
                    Ok(((base + shift + 12 * octave_of(s[j])->0) as i32, j + 1))
                } else {
                    Err(j)
                }
            },
        }
    }
}

/// The notes that `s` writes from position `i` on, or the position at which
/// the first token that fails does so.
pub open spec fn notes_from(s: Seq<char>, i: int) -> Result<Seq<Note>, int>
    decreases s.len() - i,
{
    if i < 0 || i >= s.len() {
        Ok(Seq::empty())
    } else {
        match note_token(s, i) {
            Err(p) => Err(p),
            Ok((note, next)) => match notes_from(s, next) {
                Err(p) => Err(p),
                Ok(rest) => Ok(seq![note] + rest),
            },
        }
    }
}

/// The meaning of a note string without blanks.
pub open spec fn decode_notes(s: Seq<char>) -> Result<Seq<Note>, int> {
    notes_from(s, 0)
}

/// The place of the first character of `s` that `of` gives no value.
pub open spec fn first_refused(s: Seq<char>, of: spec_fn(char) -> Option<u32>) -> int {
    choose|p: int| refused_first_at(s, of, p)
}

/// `p` is the place of the first character of `s` that `of` gives no value.
pub open spec fn refused_first_at(s: Seq<char>, of: spec_fn(char) -> Option<u32>, p: int) -> bool {
    &&& 0 <= p < s.len()
    &&& of(s[p]) is None
    &&& forall|i: int| 0 <= i < p ==> (#[trigger] of(s[i])) is Some
}

/// The meaning of a string without blanks in a channel that writes one
/// character per step: each character's value under `of`, or the place of
/// the first character that has none.
pub open spec fn decode_each(s: Seq<char>, of: spec_fn(char) -> Option<u32>) -> Result<
    Seq<u32>,
    int,
> {
    if forall|i: int| 0 <= i < s.len() ==> (#[trigger] of(s[i])) is Some {
        Ok(Seq::new(s.len(), |i: int| of(s[i])->0))
    } else {
        Err(first_refused(s, of))
    }
}

/// The meaning of a tone string without blanks.
pub open spec fn decode_tones(s: Seq<char>) -> Result<Seq<Tone>, int> {
    decode_each(s, |c: char| tone_of(c))
}

/// The meaning of a volume string without blanks.
pub open spec fn decode_volumes(s: Seq<char>) -> Result<Seq<Volume>, int> {
    decode_each(s, |c: char| volume_of(c))
}

/// The meaning of an effect string without blanks.
pub open spec fn decode_effects(s: Seq<char>) -> Result<Seq<Effect>, int> {
    decode_each(s, |c: char| effect_of(c))
}

/// `rest` behind the notes `done`: the whole, where `rest` is one.
pub open spec fn behind(done: Seq<Note>, rest: Result<Seq<Note>, int>) -> Result<Seq<Note>, int> {
    match rest {
        Ok(notes) => Ok(done + notes),
        Err(p) => Err(p),
    }
}

/// Where `p` is the first place that `of` refuses, the string has no
/// meaning and `p` is the place reported.
pub proof fn lemma_refused_at(s: Seq<char>, of: spec_fn(char) -> Option<u32>, p: int)
    requires
        refused_first_at(s, of, p),
    ensures
        decode_each(s, of) == Err::<Seq<u32>, int>(p),
{
    let q = first_refused(s, of);
    assert(refused_first_at(s, of, q));
    if q < p {
        assert(of(s[q]) is Some);
    }
    if p < q {
        assert(of(s[p]) is Some);
    }
}

/// Every note that a note string writes is a rest or a pitch up to
/// `MAX_NOTE`.
pub proof fn lemma_notes_in_range(s: Seq<char>, i: int)
    requires
        notes_from(s, i) is Ok,
    ensures
        forall|k: int|
            0 <= k < notes_from(s, i)->Ok_0.len() ==> REST <= #[trigger] notes_from(
                s,
                i,
            )->Ok_0[k] <= MAX_NOTE,
    decreases s.len() - i,
{
    if 0 <= i < s.len() {
        let (note, next) = note_token(s, i)->Ok_0;
        lemma_notes_in_range(s, next);
        let rest = notes_from(s, next)->Ok_0;
        let notes = notes_from(s, i)->Ok_0;
        assert(notes == seq![note] + rest);
        assert forall|k: int| 0 <= k < notes.len() implies REST <= #[trigger] notes[k]
            <= MAX_NOTE by {
            if k > 0 {
                assert(notes[k] == rest[k - 1]);
            }
        }
    }
}

/// Every code that a tone, volume or effect string writes is one of its
/// channel.
pub proof fn lemma_codes_in_range(s: Seq<char>)
    ensures
        decode_tones(s) is Ok ==> forall|k: int|
            0 <= k < decode_tones(s)->Ok_0.len() ==> #[trigger] decode_tones(s)->Ok_0[k]
                <= TONE_NOISE,
        decode_volumes(s) is Ok ==> forall|k: int|
            0 <= k < decode_volumes(s)->Ok_0.len() ==> #[trigger] decode_volumes(s)->Ok_0[k]
                <= MAX_VOLUME,
        decode_effects(s) is Ok ==> forall|k: int|
            0 <= k < decode_effects(s)->Ok_0.len() ==> #[trigger] decode_effects(s)->Ok_0[k]
                <= EFFECT_FADEOUT,
{
    if decode_tones(s) is Ok {
        assert forall|k: int| 0 <= k < s.len() implies #[trigger] decode_tones(s)->Ok_0[k]
            <= TONE_NOISE by {
            let of = |c: char| tone_of(c);
            assert(of(s[k]) is Some);
        }
    }
    if decode_volumes(s) is Ok {
        assert forall|k: int| 0 <= k < s.len() implies #[trigger] decode_volumes(s)->Ok_0[k]
            <= MAX_VOLUME by {
            let of = |c: char| volume_of(c);
            assert(of(s[k]) is Some);
        }
    }
    if decode_effects(s) is Ok {
        assert forall|k: int| 0 <= k < s.len() implies #[trigger] decode_effects(s)->Ok_0[k]
            <= EFFECT_FADEOUT by {
            let of = |c: char| effect_of(c);
            assert(of(s[k]) is Some);
        }
    }
}

/// The semitone that `c` names, where it is a note letter.
fn semitone(c: char) -> (v: Option<i32>)
    ensures
        v is Some == semitone_of(c) is Some,
        v is Some ==> v->0 == semitone_of(c)->0,
{
    match c {
        'c' => Some(0),
        'd' => Some(2),
        'e' => Some(4),
        'f' => Some(5),
        'g' => Some(7),
        'a' => Some(9),
        'b' => Some(11),
        _ => None,
    }
}

/// The tone that `c` names, where it names one.
fn tone(c: char) -> (v: Option<Tone>)
    ensures
        v == tone_of(c),
{
    match c {
        't' => Some(TONE_TRIANGLE),
        's' => Some(TONE_SQUARE),
        'p' => Some(TONE_PULSE),
        'n' => Some(TONE_NOISE),
        _ => None,
    }
}

/// The volume that `c` names, where it names one.
fn volume(c: char) -> (v: Option<Volume>)
    ensures
        v == volume_of(c),
{
    if c >= '0' && c <= '7' {
        Some(c as u32 - '0' as u32)
    } else {
        None
    }
}

/// The effect that `c` names, where it names one.
fn effect(c: char) -> (v: Option<Effect>)
    ensures
        v == effect_of(c),
{
    match c {
        'n' => Some(EFFECT_NONE),
        's' => Some(EFFECT_SLIDE),
        'v' => Some(EFFECT_VIBRATO),
        'f' => Some(EFFECT_FADEOUT),
        _ => None,
    }
}

/// Reads the note token that starts at `i`.
fn read_note_token(s: &Vec<char>, i: usize) -> (r: Result<(Note, usize), usize>)
    requires
        i < s.len(),
    ensures
        match note_token(s@, i as int) {
            Ok((note, next)) => r == Ok::<(Note, usize), usize>((note, next as usize)) && i < next
                <= s.len(),
            Err(p) => r == Err::<(Note, usize), usize>(p as usize) && i <= p <= s.len(),
        },
{
    let c = s[i];
    if c == 'r' {
        return Ok((REST, i + 1));
    }
    let base: i32 = match semitone(c) {
        None => {
            return Err(i);
        },
        Some(b) => b,
    };
    let mut shift: i32 = 0;
    let mut j: usize = i + 1;
    if j < s.len() {
        if s[j] == '#' {
            shift = 1;
            j += 1;
        } else if s[j] == '-' {
            shift = -1;
            j += 1;
        }
    }
    if j < s.len() && s[j] >= '0' && s[j] <= '4' {
        let octave: i32 = (s[j] as u32 - '0' as u32) as i32;
        Ok((base + shift + 12 * octave, j + 1))
    } else {
        Err(j)
    }
}

/// Decodes a note string without blanks.
pub fn read_notes(s: &Vec<char>) -> (r: Result<Vec<Note>, DecodeError>)
    ensures
        match decode_notes(s@) {
            Ok(notes) => r is Ok && r->Ok_0@ == notes,
            Err(p) => r is Err && r->Err_0 == (DecodeError {
                channel: Channel::Note,
                position: p as usize,
            }) && 0 <= p <= s.len(),
        },
{
    let mut out: Vec<Note> = Vec::new();
    let mut i: usize = 0;
    while i < s.len()
        invariant
            i <= s.len(),
            decode_notes(s@) == behind(out@, notes_from(s@, i as int)),
        decreases s.len() - i,
    {
        match read_note_token(s, i) {
            Err(p) => {
                return Err(DecodeError { channel: Channel::Note, position: p });
            },
            Ok((note, next)) => {
                proof {
                    let rest = notes_from(s@, next as int);
                    if rest is Ok {
                        assert(out@.push(note) + rest->Ok_0 =~= out@ + (seq![note] + rest->Ok_0));
                    }
                }
                out.push(note);
                i = next;
            },
        }
    }
    assert(out@ + Seq::<Note>::empty() =~= out@);
    Ok(out)
}

/// Decodes a tone string without blanks.
pub fn read_tones(s: &Vec<char>) -> (r: Result<Vec<Tone>, DecodeError>)
    ensures
        match decode_tones(s@) {
            Ok(tones) => r is Ok && r->Ok_0@ == tones,
            Err(p) => r is Err && r->Err_0 == (DecodeError {
                channel: Channel::Tone,
                position: p as usize,
            }) && 0 <= p < s.len(),
        },
{
    let ghost of = |c: char| tone_of(c);
    let mut out: Vec<Tone> = Vec::new();
    let mut i: usize = 0;
    while i < s.len()
        invariant
            i <= s.len(),
            out@.len() == i,
            forall|k: int| 0 <= k < i ==> (#[trigger] of(s@[k])) is Some,
            forall|k: int| 0 <= k < i ==> out@[k] == of(s@[k])->0,
            of == |c: char| tone_of(c),
        decreases s.len() - i,
    {
        match tone(s[i]) {
            None => {
                proof {
                    lemma_refused_at(s@, of, i as int);
                }
                return Err(DecodeError { channel: Channel::Tone, position: i });
            },
            Some(t) => {
                out.push(t);
                i += 1;
            },
        }
    }
    assert(out@ =~= Seq::new(s@.len(), |k: int| of(s@[k])->0));
    Ok(out)
}

/// Decodes a volume string without blanks.
pub fn read_volumes(s: &Vec<char>) -> (r: Result<Vec<Volume>, DecodeError>)
    ensures
        match decode_volumes(s@) {
            Ok(volumes) => r is Ok && r->Ok_0@ == volumes,
            Err(p) => r is Err && r->Err_0 == (DecodeError {
                channel: Channel::Volume,
                position: p as usize,
            }) && 0 <= p < s.len(),
        },
{
    let ghost of = |c: char| volume_of(c);
    let mut out: Vec<Volume> = Vec::new();
    let mut i: usize = 0;
    while i < s.len()
        invariant
            i <= s.len(),
            out@.len() == i,
            forall|k: int| 0 <= k < i ==> (#[trigger] of(s@[k])) is Some,
            forall|k: int| 0 <= k < i ==> out@[k] == of(s@[k])->0,
            of == |c: char| volume_of(c),
        decreases s.len() - i,
    {
        match volume(s[i]) {
            None => {
                proof {
                    lemma_refused_at(s@, of, i as int);
                }
                return Err(DecodeError { channel: Channel::Volume, position: i });
            },
            Some(v) => {
                out.push(v);
                i += 1;
            },
        }
    }
    assert(out@ =~= Seq::new(s@.len(), |k: int| of(s@[k])->0));
    Ok(out)
}

/// Decodes an effect string without blanks.
pub fn read_effects(s: &Vec<char>) -> (r: Result<Vec<Effect>, DecodeError>)
    ensures
        match decode_effects(s@) {
            Ok(effects) => r is Ok && r->Ok_0@ == effects,
            Err(p) => r is Err && r->Err_0 == (DecodeError {
                channel: Channel::Effect,
                position: p as usize,
            }) && 0 <= p < s.len(),
        },
{
    let ghost of = |c: char| effect_of(c);
    let mut out: Vec<Effect> = Vec::new();
    let mut i: usize = 0;
    while i < s.len()
        invariant
            i <= s.len(),
            out@.len() == i,
            forall|k: int| 0 <= k < i ==> (#[trigger] of(s@[k])) is Some,
            forall|k: int| 0 <= k < i ==> out@[k] == of(s@[k])->0,
            of == |c: char| effect_of(c),
        decreases s.len() - i,
    {
        match effect(s[i]) {
            None => {
                proof {
                    lemma_refused_at(s@, of, i as int);
                }
                return Err(DecodeError { channel: Channel::Effect, position: i });
            },
            Some(e) => {
                out.push(e);
                i += 1;
            },
        }
    }
    assert(out@ =~= Seq::new(s@.len(), |k: int| of(s@[k])->0));
    Ok(out)
}

} // verus!
