//! The lines of a stored block: how each channel and the speed are written
//! as text, and how that text is read back.

use vstd::prelude::*;
use crate::types::{Note, Speed, REST};
use crate::digits::{
    all_decimal, decimal_digit, decimal_digit_of, decimal_text, decimal_value, digit_char,
    hex_digit, hex_digit_of, hex_text, lemma_decimal_round_trip, lemma_digit_char,
    lemma_hex_text_len, lemma_signed_round_trip, push_decimal, push_hex, signed_text,
    signed_value, two_wide,
};
use crate::text::{is_blank, is_plain};

verus! {

/// The word that stands on the line of a channel without steps.
pub open spec fn none_text() -> Seq<char> {
    seq!['n', 'o', 'n', 'e']
}

/// A note as text: two hexadecimal digits, `ff` for a rest. A note above
/// 255 takes as many digits as it needs.
pub open spec fn note_text(note: Note) -> Seq<char> {
    if note < 0 {
        seq!['f', 'f']
    } else {
        two_wide(hex_text(note as nat))
    }
}

/// Notes as text, one after the other.
pub open spec fn notes_text(notes: Seq<Note>) -> Seq<char>
    decreases notes.len(),
{
    if notes.len() == 0 {
        Seq::empty()
    } else {
        notes_text(notes.drop_last()) + note_text(notes.last())
    }
}

/// The line of the note channel: its notes as text, or `none`.
pub open spec fn notes_line(notes: Seq<Note>) -> Seq<char> {
    if notes.len() == 0 {
        none_text()
    } else {
        notes_text(notes)
    }
}

/// Codes as text, each in decimal, one after the other.
pub open spec fn codes_text(codes: Seq<u32>) -> Seq<char>
    decreases codes.len(),
{
    if codes.len() == 0 {
        Seq::empty()
    } else {
        codes_text(codes.drop_last()) + decimal_text(codes.last() as nat)
    }
}

/// The line of a tone, volume or effect channel: its codes as text, or
/// `none`.
pub open spec fn codes_line(codes: Seq<u32>) -> Seq<char> {
    if codes.len() == 0 {
        none_text()
    } else {
        codes_text(codes)
    }
}

/// The line of the speed: the number in decimal.
pub open spec fn speed_line(speed: Speed) -> Seq<char> {
    signed_text(speed as int)
}

/// Every character of `s` is a hexadecimal digit.
pub open spec fn all_hex(s: Seq<char>) -> bool {
    forall|i: int| 0 <= i < s.len() ==> (#[trigger] hex_digit(s[i])) is Some
}

/// The note that a stored byte stands for: a rest for 255, else the byte.
pub open spec fn note_of_byte(byte: int) -> Note {
    if byte == 255 {
        REST
    } else {
        byte as i32
    }
}

/// The byte that the pair of hexadecimal digits at `2 * i` writes.
pub open spec fn byte_at(line: Seq<char>, i: int) -> int {
    16 * hex_digit(line[2 * i]).unwrap_or(0) + hex_digit(line[2 * i + 1]).unwrap_or(0)
}

/// The notes that a trimmed line holds: none for `none`, else one for each
/// pair of hexadecimal digits. `None` where the line has another form.
pub open spec fn parse_notes_line(line: Seq<char>) -> Option<Seq<Note>> {
    if line == none_text() {
        Some(Seq::empty())
    } else if line.len() % 2 != 0 || !all_hex(line) {
        None
    } else {
        Some(Seq::new((line.len() / 2) as nat, |i: int| note_of_byte(byte_at(line, i))))
    }
}

/// The codes that a trimmed line holds: none for `none`, else the value of
/// each decimal digit. `None` where the line has another form.
pub open spec fn parse_codes_line(line: Seq<char>) -> Option<Seq<u32>> {
    if line == none_text() {
        Some(Seq::empty())
    } else if !all_decimal(line) {
        None
    } else {
        Some(Seq::new(line.len(), |i: int| decimal_digit(line[i]).unwrap_or(0) as u32))
    }
}

/// The speed that a trimmed line holds: a decimal integer, with a minus
/// sign where it is negative. `None` where the line has another form or the
/// number does not fit a `Speed`.
pub open spec fn parse_speed_line(line: Seq<char>) -> Option<Speed> {
    match signed_value(line) {
        Some(v) => if i32::MIN <= v <= i32::MAX {
            Some(v as i32)
        } else {
            None
        },
        None => None,
    }
}

/// The notes that a line can hold and give back: a rest, or a pitch that
/// one byte writes and that is not the byte of a rest.
pub open spec fn storable_notes(notes: Seq<Note>) -> bool {
    forall|i: int| 0 <= i < notes.len() ==> REST <= #[trigger] notes[i] < 255
}

/// The codes that a line can hold and give back: those of one decimal
/// digit.
pub open spec fn storable_codes(codes: Seq<u32>) -> bool {
    forall|i: int| 0 <= i < codes.len() ==> #[trigger] codes[i] <= 9
}

/// A rest or a pitch of one byte is written as the two hexadecimal digits
/// of that byte.
pub proof fn lemma_note_text(note: Note)
    requires
        REST <= note < 256,
    ensures
        note_text(note) == seq![
            digit_char((if note < 0 { 255 } else { note as int }) / 16),
            digit_char((if note < 0 { 255 } else { note as int }) % 16),
        ],
{
    if note >= 0 {
        let n = note as nat;
        if n >= 16 {
            assert(hex_text(n / 16) == seq![digit_char((n / 16) as int)]);
            assert(hex_text(n) =~= seq![digit_char(n as int / 16), digit_char(n as int % 16)]);
        } else {
            assert(two_wide(hex_text(n)) =~= seq![digit_char(0), digit_char(n as int)]);
        }
    } else {
        assert(note_text(note) =~= seq![digit_char(15), digit_char(15)]);
    }
}

/// Storable notes are written two hexadecimal digits each, and the pair at
/// each place reads back as the note there.
pub proof fn lemma_notes_text(notes: Seq<Note>)
    requires
        storable_notes(notes),
    ensures
        notes_text(notes).len() == 2 * notes.len(),
        all_hex(notes_text(notes)),
        forall|i: int|
            0 <= i < notes.len() ==> note_of_byte(#[trigger] byte_at(notes_text(notes), i))
                == notes[i],
    decreases notes.len(),
{
    if notes.len() > 0 {
        let front = notes.drop_last();
        let note = notes.last();
        let text = notes_text(notes);
        lemma_notes_text(front);
        lemma_note_text(note);
        let byte = if note < 0 {
            255
        } else {
            note as int
        };
        lemma_digit_char(byte / 16);
        lemma_digit_char(byte % 16);
        assert(text.len() == 2 * notes.len());
        assert forall|k: int| 0 <= k < text.len() implies (#[trigger] hex_digit(
            text[k],
        )) is Some by {
            if k < 2 * front.len() {
                assert(text[k] == notes_text(front)[k]);
            }
        }
        assert forall|i: int| 0 <= i < notes.len() implies note_of_byte(
            #[trigger] byte_at(text, i),
        ) == notes[i] by {
            if i < front.len() {
                assert(text[2 * i] == notes_text(front)[2 * i]);
                assert(text[2 * i + 1] == notes_text(front)[2 * i + 1]);
                assert(byte_at(text, i) == byte_at(notes_text(front), i));
                assert(front[i] == notes[i]);
            } else {
                assert(text[2 * i] == digit_char(byte / 16));
                assert(text[2 * i + 1] == digit_char(byte % 16));
                assert(byte_at(text, i) == byte);
            }
        }
    }
}

/// The line of storable notes has no blank and reads back as those notes.
pub proof fn lemma_notes_line_round_trip(notes: Seq<Note>)
    requires
        storable_notes(notes),
    ensures
        is_plain(notes_line(notes)),
        parse_notes_line(notes_line(notes)) == Some(notes),
{
    let line = notes_line(notes);
    if notes.len() == 0 {
        assert(notes =~= Seq::<Note>::empty());
    } else {
        lemma_notes_text(notes);
        assert(hex_digit(line[0]) is Some);
        assert(line != none_text());
        assert(parse_notes_line(line)->0 =~= notes);
        assert forall|k: int| 0 <= k < line.len() implies !is_blank(
            #[trigger] line[k],
        ) by {
            assert(hex_digit(line[k]) is Some);
        }
    }
}

/// Storable codes are written one decimal digit each.
pub proof fn lemma_codes_text(codes: Seq<u32>)
    requires
        storable_codes(codes),
    ensures
        codes_text(codes) == Seq::new(codes.len(), |i: int| digit_char(codes[i] as int)),
    decreases codes.len(),
{
    if codes.len() > 0 {
        lemma_codes_text(codes.drop_last());
        assert(codes_text(codes) =~= Seq::new(codes.len(), |i: int| digit_char(codes[i] as int)));
    } else {
        assert(codes_text(codes) =~= Seq::new(codes.len(), |i: int| digit_char(codes[i] as int)));
    }
}

/// The line of storable codes has no blank and reads back as those codes.
pub proof fn lemma_codes_line_round_trip(codes: Seq<u32>)
    requires
        storable_codes(codes),
    ensures
        is_plain(codes_line(codes)),
        parse_codes_line(codes_line(codes)) == Some(codes),
{
    let line = codes_line(codes);
    if codes.len() == 0 {
        assert(codes =~= Seq::<u32>::empty());
    } else {
        lemma_codes_text(codes);
        assert forall|k: int| 0 <= k < line.len() implies (#[trigger] decimal_digit(line[k]))
            == Some(codes[k] as int) by {
            lemma_digit_char(codes[k] as int);
        }
        assert(decimal_digit(line[0]) is Some);
        assert(line != none_text());
        assert(parse_codes_line(line)->0 =~= codes);
        assert forall|k: int| 0 <= k < line.len() implies !is_blank(
            #[trigger] line[k],
        ) by {
            assert(decimal_digit(line[k]) is Some);
        }
    }
}

/// The line of a speed has no blank and reads back as that speed.
pub proof fn lemma_speed_line_round_trip(speed: Speed)
    ensures
        is_plain(speed_line(speed)),
        parse_speed_line(speed_line(speed)) == Some(speed),
{
    let line = speed_line(speed);
    lemma_signed_round_trip(speed as int);
    let digits = if speed < 0 {
        decimal_text((-speed) as nat)
    } else {
        decimal_text(speed as nat)
    };
    if speed < 0 {
        lemma_decimal_round_trip((-speed) as nat);
    } else {
        lemma_decimal_round_trip(speed as nat);
    }
    assert forall|k: int| 0 <= k < line.len() implies !is_blank(
        #[trigger] line[k],
    ) by {
        if speed < 0 {
            if k > 0 {
                assert(line[k] == digits[k - 1]);
                assert(decimal_digit(digits[k - 1]) is Some);
            }
        } else {
            assert(decimal_digit(digits[k]) is Some);
        }
    }
}

/// Whether `line` is the word `none`.
fn is_none_word(line: &[char]) -> (b: bool)
    ensures
        b == (line@ == none_text()),
{
    if line.len() == 4 && line[0] == 'n' && line[1] == 'o' && line[2] == 'n' && line[3] == 'e' {
        assert(line@ =~= none_text());
        true
    } else {
        false
    }
}

/// Appends the line of the note channel to `out`.
pub fn write_notes_line(out: &mut Vec<char>, notes: &Vec<Note>)
    ensures
        final(out)@ == old(out)@ + notes_line(notes@),
{
    if notes.len() == 0 {
        out.push('n');
        out.push('o');
        out.push('n');
        out.push('e');
        assert(out@ =~= old(out)@ + none_text());
        return ;
    }
    let mut i: usize = 0;
    assert(out@ =~= old(out)@ + notes_text(notes@.take(0)));
    while i < notes.len()
        invariant
            i <= notes.len(),
            out@ == old(out)@ + notes_text(notes@.take(i as int)),
        decreases notes.len() - i,
    {
        let ghost before = out@;
        let note = notes[i];
        if note < 0 {
            out.push('f');
            out.push('f');
        } else {
            if note < 16 {
                out.push('0');
            }
            push_hex(out, note as u32);
            proof {
                lemma_hex_text_len(note as nat);
            }
        }
        proof {
            let done = notes@.take(i as int + 1);
            assert(done.drop_last() =~= notes@.take(i as int));
            assert(done.last() == note);
            assert(out@ =~= before + note_text(note));
            assert(out@ =~= old(out)@ + notes_text(done));
        }
        i += 1;
    }
    assert(notes@.take(notes@.len() as int) =~= notes@);
}

/// Appends the line of a tone, volume or effect channel to `out`.
pub fn write_codes_line(out: &mut Vec<char>, codes: &Vec<u32>)
    ensures
        final(out)@ == old(out)@ + codes_line(codes@),
{
    if codes.len() == 0 {
        out.push('n');
        out.push('o');
        out.push('n');
        out.push('e');
        assert(out@ =~= old(out)@ + none_text());
        return ;
    }
    let mut i: usize = 0;
    assert(out@ =~= old(out)@ + codes_text(codes@.take(0)));
    while i < codes.len()
        invariant
            i <= codes.len(),
            out@ == old(out)@ + codes_text(codes@.take(i as int)),
        decreases codes.len() - i,
    {
        push_decimal(out, codes[i]);
        proof {
            let done = codes@.take(i as int + 1);
            assert(done.drop_last() =~= codes@.take(i as int));
            assert(done.last() == codes@[i as int]);
            assert(out@ =~= old(out)@ + codes_text(done));
        }
        i += 1;
    }
    assert(codes@.take(codes@.len() as int) =~= codes@);
}

/// Appends the line of the speed to `out`.
pub fn write_speed_line(out: &mut Vec<char>, speed: Speed)
    ensures
        final(out)@ == old(out)@ + speed_line(speed),
{
    if speed < 0 {
        out.push('-');
        push_decimal(out, (-(speed as i64)) as u32);
        assert(out@ =~= old(out)@ + speed_line(speed));
    } else {
        push_decimal(out, speed as u32);
    }
}

/// Reads the trimmed line of the note channel.
pub fn read_notes_line(line: &[char]) -> (r: Option<Vec<Note>>)
    ensures
        match parse_notes_line(line@) {
            Some(notes) => r is Some && r->0@ == notes,
            None => r is None,
        },
{
    if is_none_word(line) {
        return Some(Vec::new());
    }
    if line.len() % 2 != 0 {
        return None;
    }
    let mut out: Vec<Note> = Vec::new();
    let mut i: usize = 0;
    while i < line.len()
        invariant
            i <= line.len(),
            i % 2 == 0,
            line.len() % 2 == 0,
            line@ != none_text(),
            out@.len() == i / 2,
            forall|k: int| 0 <= k < i ==> (#[trigger] hex_digit(line@[k])) is Some,
            forall|k: int| 0 <= k < out@.len() ==> out@[k] == note_of_byte(byte_at(line@, k)),
        decreases line.len() - i,
    {
        let high: u32 = match hex_digit_of(line[i]) {
            Some(d) => d,
            None => {
                assert(hex_digit(line@[i as int]) is None);
                return None;
            },
        };
        let low: u32 = match hex_digit_of(line[i + 1]) {
            Some(d) => d,
            None => {
                assert(hex_digit(line@[i + 1]) is None);
                return None;
            },
        };
        let byte: u32 = 16 * high + low;
        out.push(
            if byte == 255 {
                REST
            } else {
                byte as i32
            },
        );
        i += 2;
    }
    assert(out@ =~= parse_notes_line(line@)->0);
    Some(out)
}

/// Reads the trimmed line of a tone, volume or effect channel.
pub fn read_codes_line(line: &[char]) -> (r: Option<Vec<u32>>)
    ensures
        match parse_codes_line(line@) {
            Some(codes) => r is Some && r->0@ == codes,
            None => r is None,
        },
{
    if is_none_word(line) {
        return Some(Vec::new());
    }
    let mut out: Vec<u32> = Vec::new();
    let mut i: usize = 0;
    while i < line.len()
        invariant
            i <= line.len(),
            out@.len() == i,
            line@ != none_text(),
            forall|k: int| 0 <= k < i ==> (#[trigger] decimal_digit(line@[k])) is Some,
            forall|k: int| 0 <= k < i ==> out@[k] == decimal_digit(line@[k])->0,
        decreases line.len() - i,
    {
        match decimal_digit_of(line[i]) {
            Some(d) => {
                out.push(d);
            },
            None => {
                assert(decimal_digit(line@[i as int]) is None);
                return None;
            },
        }
        i += 1;
    }
    assert(out@ =~= parse_codes_line(line@)->0);
    Some(out)
}

/// The largest magnitude of a `Speed`: that of the least one.
pub const SPEED_LIMIT: u64 = 0x8000_0000;

/// Reads the trimmed line of the speed.
pub fn read_speed_line(line: &[char]) -> (r: Option<Speed>)
    ensures
        r == parse_speed_line(line@),
{
    let negative = line.len() > 0 && line[0] == '-';
    let start: usize = if negative {
        1
    } else {
        0
    };
    let ghost body = line@.skip(start as int);
    assert(negative ==> body =~= line@.drop_first());
    assert(!negative ==> body =~= line@);
    if start == line.len() {
        return None;
    }
    let mut magnitude: u64 = 0;
    let mut i: usize = start;
    assert(body.take(0) =~= Seq::<char>::empty());
    while i < line.len()
        invariant
            start <= i <= line.len(),
            body == line@.skip(start as int),
            body.len() > 0,
            body == if negative {
                line@.drop_first()
            } else {
                line@
            },
            negative == (line@.len() > 0 && line@[0] == '-'),
            all_decimal(body.take(i - start)),
            magnitude <= SPEED_LIMIT + 1,
            decimal_value(body.take(i - start)) <= SPEED_LIMIT ==> magnitude == decimal_value(
                body.take(i - start),
            ),
            decimal_value(body.take(i - start)) > SPEED_LIMIT ==> magnitude == SPEED_LIMIT + 1,
        decreases line.len() - i,
    {
        let ghost seen = body.take(i - start);
        let ghost more = body.take(i - start + 1);
        assert(more.drop_last() =~= seen);
        assert(more.last() == line@[i as int]);
        match decimal_digit_of(line[i]) {
            Some(d) => {
                let next: u64 = magnitude * 10 + d as u64;
                magnitude = if next > SPEED_LIMIT {
                    SPEED_LIMIT + 1
                } else {
                    next
                };
                assert forall|k: int| 0 <= k < more.len() implies (#[trigger] decimal_digit(
                    more[k],
                )) is Some by {
                    if k < seen.len() {
                        assert(more[k] == seen[k]);
                    }
                }
            },
            None => {
                assert(decimal_digit(body[i - start]) is None);
                return None;
            },
        }
        i += 1;
    }
    assert(body.take(body.len() as int) =~= body);
    if magnitude > SPEED_LIMIT {
        None
    } else if negative {
        Some((-(magnitude as i64)) as i32)
    } else if magnitude == SPEED_LIMIT {
        None
    } else {
        Some(magnitude as i32)
    }
}

} // verus!
