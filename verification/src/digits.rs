//! Numbers as digits: how the stored block and resource names write
//! integers, and how they are read back.

use vstd::prelude::*;

verus! {

/// The character that writes the digit `d`, in lower case above nine.
pub open spec fn digit_char(d: int) -> char
    recommends
        0 <= d < 16,
{
    if d < 10 {
        ('0' as int + d) as char
    } else {
        ('a' as int + d - 10) as char
    }
}

/// The value of a decimal digit.
pub open spec fn decimal_digit(c: char) -> Option<int> {
    if '0' <= c && c <= '9' {
        Some(c as int - '0' as int)
    } else {
        None
    }
}

/// The value of a hexadecimal digit, in either case.
pub open spec fn hex_digit(c: char) -> Option<int> {
    if '0' <= c && c <= '9' {
        Some(c as int - '0' as int)
    } else if 'a' <= c && c <= 'f' {
        Some(c as int - 'a' as int + 10)
    } else if 'A' <= c && c <= 'F' {
        Some(c as int - 'A' as int + 10)
    } else {
        None
    }
}

/// `n` in decimal, without padding.
pub open spec fn decimal_text(n: nat) -> Seq<char>
    decreases n,
{
    if n < 10 {
        seq![digit_char(n as int)]
    } else {
        decimal_text(n / 10).push(digit_char((n % 10) as int))
    }
}

/// `n` in lower-case hexadecimal, without padding.
pub open spec fn hex_text(n: nat) -> Seq<char>
    decreases n,
{
    if n < 16 {
        seq![digit_char(n as int)]
    } else {
        hex_text(n / 16).push(digit_char((n % 16) as int))
    }
}

/// `s` with a leading zero where it is a single character.
pub open spec fn two_wide(s: Seq<char>) -> Seq<char> {
    if s.len() < 2 {
        seq!['0'] + s
    } else {
        s
    }
}

/// Every character of `s` is a decimal digit.
pub open spec fn all_decimal(s: Seq<char>) -> bool {
    forall|i: int| 0 <= i < s.len() ==> (#[trigger] decimal_digit(s[i])) is Some
}

/// The number that the decimal digits `s` write.
pub open spec fn decimal_value(s: Seq<char>) -> nat
    recommends
        all_decimal(s),
    decreases s.len(),
{
    if s.len() == 0 {
        0
    } else {
        (10 * decimal_value(s.drop_last()) + decimal_digit(s.last()).unwrap_or(0)) as nat
    }
}

/// The signed integer that `s` writes: an optional minus sign, then at least
/// one decimal digit. `None` where `s` has another form.
pub open spec fn signed_value(s: Seq<char>) -> Option<int> {
    let negative = s.len() > 0 && s[0] == '-';
    let body = if negative {
        s.drop_first()
    } else {
        s
    };
    if body.len() == 0 || !all_decimal(body) {
        None
    } else if negative {
        Some(-(decimal_value(body) as int))
    } else {
        Some(decimal_value(body) as int)
    }
}

/// `v` in decimal, with a minus sign where it is negative.
pub open spec fn signed_text(v: int) -> Seq<char> {
    if v < 0 {
        seq!['-'] + decimal_text((-v) as nat)
    } else {
        decimal_text(v as nat)
    }
}

/// A number in hexadecimal takes one digit below 16, and more from there.
pub proof fn lemma_hex_text_len(n: nat)
    ensures
        hex_text(n).len() >= 1,
        n >= 16 ==> hex_text(n).len() >= 2,
    decreases n,
{
    if n >= 16 {
        lemma_hex_text_len(n / 16);
    }
}

/// A number in decimal takes one digit below 10, and more from there.
pub proof fn lemma_decimal_text_len(n: nat)
    ensures
        decimal_text(n).len() >= 1,
        n >= 10 ==> decimal_text(n).len() >= 2,
    decreases n,
{
    if n >= 10 {
        lemma_decimal_text_len(n / 10);
    }
}

/// A digit's character reads back as that digit, and is no blank, sign or
/// letter beyond `f`.
pub proof fn lemma_digit_char(d: int)
    requires
        0 <= d < 16,
    ensures
        hex_digit(digit_char(d)) == Some(d),
        d < 10 ==> decimal_digit(digit_char(d)) == Some(d),
        ('0' <= digit_char(d) && digit_char(d) <= '9') || ('a' <= digit_char(d) && digit_char(d)
            <= 'f'),
{
}

/// A number written in decimal is made of decimal digits and reads back as
/// that number.
pub proof fn lemma_decimal_round_trip(n: nat)
    ensures
        decimal_text(n).len() >= 1,
        all_decimal(decimal_text(n)),
        decimal_value(decimal_text(n)) == n,
    decreases n,
{
    let text = decimal_text(n);
    lemma_digit_char((n % 10) as int);
    assert(text.last() == digit_char((n % 10) as int));
    assert(decimal_value(Seq::<char>::empty()) == 0);
    if n >= 10 {
        let front = decimal_text(n / 10);
        lemma_decimal_round_trip(n / 10);
        assert(text.drop_last() =~= front);
        assert forall|i: int| 0 <= i < text.len() implies (#[trigger] decimal_digit(
            text[i],
        )) is Some by {
            if i < front.len() {
                assert(text[i] == front[i]);
            }
        }
    } else {
        assert(text.drop_last() =~= Seq::<char>::empty());
    }
}

/// An integer written in decimal reads back as that integer.
pub proof fn lemma_signed_round_trip(v: int)
    ensures
        signed_value(signed_text(v)) == Some(v),
{
    let text = signed_text(v);
    if v < 0 {
        let body = decimal_text((-v) as nat);
        lemma_decimal_round_trip((-v) as nat);
        assert(text.drop_first() =~= body);
    } else {
        lemma_decimal_round_trip(v as nat);
        assert(decimal_digit(text[0]) is Some);
    }
}

/// The character that writes the digit `d`.
pub fn digit(d: u32) -> (c: char)
    requires
        d < 16,
    ensures
        c == digit_char(d as int),
{
    if d < 10 {
        ('0' as u8 + d as u8) as char
    } else {
        ('a' as u8 + (d as u8 - 10)) as char
    }
}

/// The value of `c` where it is a decimal digit.
pub fn decimal_digit_of(c: char) -> (v: Option<u32>)
    ensures
        v is Some == decimal_digit(c) is Some,
        v is Some ==> v->0 == decimal_digit(c)->0,
{
    if c >= '0' && c <= '9' {
        Some(c as u32 - '0' as u32)
    } else {
        None
    }
}

/// The value of `c` where it is a hexadecimal digit.
pub fn hex_digit_of(c: char) -> (v: Option<u32>)
    ensures
        v is Some == hex_digit(c) is Some,
        v is Some ==> v->0 == hex_digit(c)->0,
{
    if c >= '0' && c <= '9' {
        Some(c as u32 - '0' as u32)
    } else if c >= 'a' && c <= 'f' {
        Some(c as u32 - 'a' as u32 + 10)
    } else if c >= 'A' && c <= 'F' {
        Some(c as u32 - 'A' as u32 + 10)
    } else {
        None
    }
}

/// Appends `n` in decimal to `out`.
pub fn push_decimal(out: &mut Vec<char>, n: u32)
    ensures
        final(out)@ == old(out)@ + decimal_text(n as nat),
    decreases n,
{
    if n >= 10 {
        push_decimal(out, n / 10);
    }
    out.push(digit(n % 10));
    assert(final(out)@ =~= old(out)@ + decimal_text(n as nat));
}

/// Appends `n` in lower-case hexadecimal to `out`.
pub fn push_hex(out: &mut Vec<char>, n: u32)
    ensures
        final(out)@ == old(out)@ + hex_text(n as nat),
    decreases n,
{
    if n >= 16 {
        push_hex(out, n / 16);
    }
    out.push(digit(n % 16));
    assert(final(out)@ =~= old(out)@ + hex_text(n as nat));
}

} // verus!
