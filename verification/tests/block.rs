use tracker_sound::block::{
    read_codes_line, read_notes_line, read_speed_line, write_codes_line, write_notes_line,
    write_speed_line,
};
use tracker_sound::{BlockError, BlockLine, Sound};

fn chars(s: &str) -> Vec<char> {
    s.chars().collect()
}

fn text(v: &[char]) -> String {
    v.iter().collect()
}

fn sound(notes: &[i32], tones: &[u32], volumes: &[u32], effects: &[u32], speed: i32) -> Sound {
    Sound {
        notes: notes.to_vec(),
        tones: tones.to_vec(),
        volumes: volumes.to_vec(),
        effects: effects.to_vec(),
        speed,
    }
}

fn malformed(line: BlockLine) -> Result<(), BlockError> {
    Err(BlockError { line })
}

fn read(input: &str) -> Result<Sound, BlockError> {
    let mut s = sound(&[9], &[9], &[9], &[9], 99);
    match s.deserialize(input) {
        Ok(()) => Ok(s),
        Err(e) => Err(e),
    }
}

#[test]
fn notes_line_of_a_rest_and_a_c() {
    let mut out = Vec::new();
    write_notes_line(&mut out, &vec![-1, 0]);
    assert_eq!(text(&out), "ff00");
}

#[test]
fn notes_line_without_notes() {
    let mut out = Vec::new();
    write_notes_line(&mut out, &vec![]);
    assert_eq!(text(&out), "none");
}

#[test]
fn notes_line_is_appended() {
    let mut out = chars("x");
    write_notes_line(&mut out, &vec![60, 15, 16, 254, 255, 256, 4660, -7]);
    assert_eq!(text(&out), "x3c0f10feff1001234ff");
}

#[test]
fn codes_line_writes_one_digit_per_code() {
    let mut out = Vec::new();
    write_codes_line(&mut out, &vec![0, 1, 2, 3, 7, 9]);
    assert_eq!(text(&out), "012379");
    let mut none = Vec::new();
    write_codes_line(&mut none, &vec![]);
    assert_eq!(text(&none), "none");
    let mut wide = Vec::new();
    write_codes_line(&mut wide, &vec![10, 4294967295]);
    assert_eq!(text(&wide), "104294967295");
}

#[test]
fn speed_line_is_plain_decimal() {
    for (speed, expected) in [
        (0, "0"),
        (7, "7"),
        (30, "30"),
        (123, "123"),
        (-1, "-1"),
        (i32::MAX, "2147483647"),
        (i32::MIN, "-2147483648"),
    ] {
        let mut out = Vec::new();
        write_speed_line(&mut out, speed);
        assert_eq!(text(&out), expected);
    }
}

#[test]
fn serialize_of_nothing_is_empty() {
    assert_eq!(Sound::default().serialize(), "");
    assert_eq!(sound(&[], &[], &[], &[], 123).serialize(), "");
}

#[test]
fn serialize_writes_five_lines() {
    let mut s = Sound::default();
    assert_eq!(s.set("c0d-0d0d#0", "tspn", "0123", "nsvf", 123), Ok(()));
    assert_eq!(s.serialize(), "00010203\n0123\n0123\n0123\n123\n");
    assert_eq!(
        sound(&[-1, 0], &[], &[], &[], 30).serialize(),
        "ff00\nnone\nnone\nnone\n30\n"
    );
    assert_eq!(
        sound(&[], &[3], &[7, 0], &[], -5).serialize(),
        "none\n3\n70\nnone\n-5\n"
    );
    assert_eq!(
        sound(&[], &[], &[], &[2], 0).serialize(),
        "none\nnone\nnone\n2\n0\n"
    );
    assert_eq!(
        sound(&[60, 59, 10], &[0], &[1], &[2], 1).serialize(),
        "3c3b0a\n0\n1\n2\n1\n"
    );
}

#[test]
fn deserialize_reads_five_lines() {
    assert_eq!(
        read("00010203\n0123\n0123\n0123\n123\n"),
        Ok(sound(&[0, 1, 2, 3], &[0, 1, 2, 3], &[0, 1, 2, 3], &[0, 1, 2, 3], 123))
    );
    assert_eq!(
        read("ff00\nnone\nnone\nnone\n30\n"),
        Ok(sound(&[-1, 0], &[], &[], &[], 30))
    );
    assert_eq!(
        read("none\n3\n70\nnone\n-5\n"),
        Ok(sound(&[], &[3], &[7, 0], &[], -5))
    );
}

#[test]
fn deserialize_of_nothing_empties_the_channels() {
    assert_eq!(read(""), Ok(sound(&[], &[], &[], &[], 99)));
}

#[test]
fn deserialize_trims_each_line() {
    assert_eq!(
        read("  ff00 \r\n\tnone\r\n 12 \r\n3\t\r\n  -42  \r\n"),
        Ok(sound(&[-1, 0], &[], &[1, 2], &[3], -42))
    );
}

#[test]
fn deserialize_needs_no_last_line_feed_and_ignores_more_lines() {
    assert_eq!(read("00\n1\n2\n3\n4"), Ok(sound(&[0], &[1], &[2], &[3], 4)));
    assert_eq!(
        read("00\n1\n2\n3\n4\nmore\nlines"),
        Ok(sound(&[0], &[1], &[2], &[3], 4))
    );
}

#[test]
fn deserialize_takes_an_empty_line_as_no_steps() {
    assert_eq!(read("\n\n\n\n5\n"), Ok(sound(&[], &[], &[], &[], 5)));
    assert_eq!(read(" \n1\n\n\n5"), Ok(sound(&[], &[1], &[], &[], 5)));
}

#[test]
fn deserialize_does_not_hold_codes_to_their_channel() {
    assert_eq!(
        read("fe30\n9\n8\n4\n1\n"),
        Ok(sound(&[254, 48], &[9], &[8], &[4], 1))
    );
    assert_eq!(read("FF0A\n0\n0\n0\n1\n"), Ok(sound(&[-1, 10], &[0], &[0], &[0], 1)));
}

#[test]
fn malformed_notes_line() {
    assert_eq!(read("0\n0\n0\n0\n1\n").err(), malformed(BlockLine::Notes).err());
    assert_eq!(read("000\n0\n0\n0\n1\n").err(), malformed(BlockLine::Notes).err());
    assert_eq!(read("0g\n0\n0\n0\n1\n").err(), malformed(BlockLine::Notes).err());
    assert_eq!(read("ff 00\n0\n0\n0\n1\n").err(), malformed(BlockLine::Notes).err());
    assert_eq!(read("None\n0\n0\n0\n1\n").err(), malformed(BlockLine::Notes).err());
    assert_eq!(read("nonee\n0\n0\n0\n1\n").err(), malformed(BlockLine::Notes).err());
}

#[test]
fn malformed_code_lines() {
    assert_eq!(read("00\nt\n0\n0\n1\n").err(), malformed(BlockLine::Tones).err());
    assert_eq!(read("00\n0\n-1\n0\n1\n").err(), malformed(BlockLine::Volumes).err());
    assert_eq!(read("00\n0\n0\n0a\n1\n").err(), malformed(BlockLine::Effects).err());
    assert_eq!(read("00\n1 2\n0\n0\n1\n").err(), malformed(BlockLine::Tones).err());
}

#[test]
fn malformed_speed_line() {
    assert_eq!(read("00\n0\n0\n0\n\n").err(), malformed(BlockLine::Speed).err());
    assert_eq!(read("00\n0\n0\n0\nfast\n").err(), malformed(BlockLine::Speed).err());
    assert_eq!(read("00\n0\n0\n0\n-\n").err(), malformed(BlockLine::Speed).err());
    assert_eq!(read("00\n0\n0\n0\n+5\n").err(), malformed(BlockLine::Speed).err());
    assert_eq!(read("00\n0\n0\n0\n1.5\n").err(), malformed(BlockLine::Speed).err());
    assert_eq!(read("00\n0\n0\n0\nnone\n").err(), malformed(BlockLine::Speed).err());
    assert_eq!(
        read("00\n0\n0\n0\n2147483648\n").err(),
        malformed(BlockLine::Speed).err()
    );
    assert_eq!(
        read("00\n0\n0\n0\n-2147483649\n").err(),
        malformed(BlockLine::Speed).err()
    );
    assert_eq!(
        read("00\n0\n0\n0\n99999999999999999999999999\n").err(),
        malformed(BlockLine::Speed).err()
    );
}

#[test]
fn a_block_that_ends_early_has_no_speed() {
    assert_eq!(read("00").err(), malformed(BlockLine::Speed).err());
    assert_eq!(read("\n").err(), malformed(BlockLine::Speed).err());
    assert_eq!(read("00\n0\n0\n0\n").err(), malformed(BlockLine::Speed).err());
    assert_eq!(read("0\n").err(), malformed(BlockLine::Notes).err());
}

#[test]
fn the_first_malformed_line_is_named() {
    assert_eq!(read("x\ny\nz\nw\nv\n").err(), malformed(BlockLine::Notes).err());
    assert_eq!(read("00\ny\nz\nw\nv\n").err(), malformed(BlockLine::Tones).err());
    assert_eq!(read("00\n0\nz\nw\nv\n").err(), malformed(BlockLine::Volumes).err());
    assert_eq!(read("00\n0\n0\nw\nv\n").err(), malformed(BlockLine::Effects).err());
}

#[test]
fn a_malformed_block_changes_nothing() {
    let mut s = sound(&[1], &[2], &[3], &[0], 77);
    let before = s.clone();
    assert_eq!(s.deserialize("00\n0\n0\n0\nx\n"), malformed(BlockLine::Speed));
    assert_eq!(s, before);
    assert_eq!(s.deserialize("0"), malformed(BlockLine::Notes));
    assert_eq!(s, before);
}

#[test]
fn speed_limits_are_read() {
    assert_eq!(
        read("00\n0\n0\n0\n2147483647\n"),
        Ok(sound(&[0], &[0], &[0], &[0], i32::MAX))
    );
    assert_eq!(
        read("00\n0\n0\n0\n-2147483648\n"),
        Ok(sound(&[0], &[0], &[0], &[0], i32::MIN))
    );
    assert_eq!(
        read("00\n0\n0\n0\n000000000000000000012\n"),
        Ok(sound(&[0], &[0], &[0], &[0], 12))
    );
    assert_eq!(read("00\n0\n0\n0\n-0\n"), Ok(sound(&[0], &[0], &[0], &[0], 0)));
}

#[test]
fn what_is_written_is_read_back() {
    let mut s = Sound::default();
    assert_eq!(
        s.set("c0d#1re2f3g4ra-0b1b#4c-0", "tspn", "01234567", "nsvf", 123),
        Ok(())
    );
    let written = s.serialize();
    assert_eq!(read(&written), Ok(s));

    for s in [
        sound(&[-1], &[], &[], &[], -9),
        sound(&[], &[0], &[], &[], 0),
        sound(&[], &[], &[7], &[], i32::MAX),
        sound(&[], &[], &[], &[3], i32::MIN),
        sound(&[0, 254, -1, 16, 15], &[9, 0], &[8], &[4, 4, 4], 30),
    ] {
        assert_eq!(read(&s.serialize()), Ok(s));
    }
}

#[test]
fn a_sound_without_steps_is_read_back_by_itself() {
    let mut s = sound(&[], &[], &[], &[], 123);
    let before = s.clone();
    let written = s.serialize();
    assert_eq!(written, "");
    assert_eq!(s.deserialize(&written), Ok(()));
    assert_eq!(s, before);
}

#[test]
fn line_readers() {
    assert_eq!(read_notes_line(&chars("ff003c")), Some(vec![-1, 0, 60]));
    assert_eq!(read_notes_line(&chars("none")), Some(vec![]));
    assert_eq!(read_notes_line(&chars("")), Some(vec![]));
    assert_eq!(read_notes_line(&chars("f")), None);
    assert_eq!(read_notes_line(&chars("fx")), None);
    assert_eq!(read_notes_line(&chars("xf")), None);
    assert_eq!(read_codes_line(&chars("0739")), Some(vec![0, 7, 3, 9]));
    assert_eq!(read_codes_line(&chars("none")), Some(vec![]));
    assert_eq!(read_codes_line(&chars("")), Some(vec![]));
    assert_eq!(read_codes_line(&chars("0a")), None);
    assert_eq!(read_speed_line(&chars("123")), Some(123));
    assert_eq!(read_speed_line(&chars("-123")), Some(-123));
    assert_eq!(read_speed_line(&chars("")), None);
    assert_eq!(read_speed_line(&chars("12-3")), None);
    assert_eq!(read_speed_line(&chars("--3")), None);
}
