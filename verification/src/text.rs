//! Text as characters: blanks, lines, and the way between strings and
//! the character vectors that the codecs work on.

use vstd::prelude::*;
use vstd::std_specs::iter::IteratorSpec;
use vstd::slice::slice_subrange;

verus! {

/// A character that carries no meaning in a notation string or at the ends
/// of a stored line.
pub open spec fn is_blank(c: char) -> bool {
    c == ' ' || c == '\t' || c == '\n' || c == '\r'
}

/// `s` without its blanks.
pub open spec fn normalize(s: Seq<char>) -> Seq<char> {
    s.filter(|c: char| !is_blank(c))
}

/// No character of `s` is blank.
pub open spec fn is_plain(s: Seq<char>) -> bool {
    forall|i: int| 0 <= i < s.len() ==> !is_blank(#[trigger] s[i])
}

/// `s` without the blanks it starts with.
pub open spec fn trim_start(s: Seq<char>) -> Seq<char>
    decreases s.len(),
{
    if s.len() > 0 && is_blank(s[0]) {
        trim_start(s.drop_first())
    } else {
        s
    }
}

/// `s` without the blanks it ends with.
pub open spec fn trim_end(s: Seq<char>) -> Seq<char>
    decreases s.len(),
{
    if s.len() > 0 && is_blank(s.last()) {
        trim_end(s.drop_last())
    } else {
        s
    }
}

/// `s` without the blanks at either end.
pub open spec fn trim(s: Seq<char>) -> Seq<char> {
    trim_end(trim_start(s))
}

/// The number of characters before the first line feed of `t`, or its
/// length where it has none.
pub open spec fn line_len(t: Seq<char>) -> nat
    decreases t.len(),
{
    if t.len() == 0 || t[0] == '\n' {
        0
    } else {
        1 + line_len(t.drop_first())
    }
}

/// The first line of `t`, without the line feed that ends it.
pub open spec fn first_line(t: Seq<char>) -> Seq<char> {
    t.take(line_len(t) as int)
}

/// What follows the first line of `t` and its line feed; empty where the
/// text ends with that line.
pub open spec fn after_first_line(t: Seq<char>) -> Seq<char> {
    if line_len(t) < t.len() {
        t.skip(line_len(t) as int + 1)
    } else {
        Seq::empty()
    }
}

/// The line of `t` with `k` lines before it; empty past the end of `t`.
pub open spec fn nth_line(t: Seq<char>, k: nat) -> Seq<char>
    decreases k,
{
    if k == 0 {
        first_line(t)
    } else {
        nth_line(after_first_line(t), (k - 1) as nat)
    }
}

/// `line`, the line feed that ends it, and `rest`.
pub open spec fn line_then(line: Seq<char>, rest: Seq<char>) -> Seq<char> {
    line + seq!['\n'] + rest
}

/// The first line ends at the first line feed, or with the text.
pub proof fn lemma_line_len(t: Seq<char>, n: int)
    requires
        0 <= n <= t.len(),
        forall|i: int| 0 <= i < n ==> t[i] != '\n',
        n == t.len() || t[n] == '\n',
    ensures
        line_len(t) == n,
    decreases n,
{
    if n > 0 {
        lemma_line_len(t.drop_first(), n - 1);
    }
}

/// A line without line feeds, a line feed and a rest split into that line
/// and that rest.
pub proof fn lemma_first_line_of_joined(line: Seq<char>, rest: Seq<char>)
    requires
        forall|i: int| 0 <= i < line.len() ==> line[i] != '\n',
    ensures
        first_line(line_then(line, rest)) == line,
        after_first_line(line_then(line, rest)) == rest,
{
    let t = line_then(line, rest);
    lemma_line_len(t, line.len() as int);
    assert(t.take(line.len() as int) =~= line);
    assert(t.skip(line.len() as int + 1) =~= rest);
}

/// Of a line without blanks, a line feed and a rest, the first line is
/// that line, and the lines after it are those of the rest.
pub proof fn lemma_nth_line_of_joined(line: Seq<char>, rest: Seq<char>, k: nat)
    requires
        is_plain(line),
    ensures
        nth_line(line_then(line, rest), 0) == line,
        nth_line(line_then(line, rest), k + 1) == nth_line(rest, k),
{
    lemma_first_line_of_joined(line, rest);
}

/// Trimming leaves a text that neither starts nor ends with a blank as it
/// is.
pub proof fn lemma_trim_plain(s: Seq<char>)
    requires
        is_plain(s),
    ensures
        trim(s) == s,
{
}

/// Whether `c` is a blank.
pub fn blank(c: char) -> (b: bool)
    ensures
        b == is_blank(c),
{
    c == ' ' || c == '\t' || c == '\n' || c == '\r'
}

/// `String::push`, as std documents it: the string afterwards is the string
/// before with `c` appended.
pub assume_specification[ String::push ](s: &mut String, c: char)
    ensures
        final(s)@ == old(s)@.push(c),
;

/// The characters of `s`, in order.
pub fn chars_of(s: &str) -> (v: Vec<char>)
    ensures
        v@ == s@,
{
    let mut v: Vec<char> = Vec::new();
    for c in it: s.chars()
        invariant
            it.seq() == s@,
            v@ == s@.take(it.index() as int),
    {
        v.push(c);
        assert(s@.take(it.index() + 1) =~= s@.take(it.index() as int).push(c));
    }
    assert(s@.take(s@.len() as int) =~= s@);
    v
}

/// The string written with the characters of `v`.
pub fn string_of(v: &Vec<char>) -> (s: String)
    ensures
        s@ == v@,
{
    let mut s = String::new();
    let mut i: usize = 0;
    while i < v.len()
        invariant
            i <= v.len(),
            s@ == v@.take(i as int),
        decreases v.len() - i,
    {
        s.push(v[i]);
        assert(v@.take(i + 1) =~= v@.take(i as int).push(v@[i as int]));
        i += 1;
    }
    assert(v@.take(v@.len() as int) =~= v@);
    s
}

/// The characters of `s` that are not blank, in order.
pub fn simplify_string(s: &str) -> (v: Vec<char>)
    ensures
        v@ == normalize(s@),
{
    let mut v: Vec<char> = Vec::new();
    for c in it: s.chars()
        invariant
            it.seq() == s@,
            v@ == normalize(s@.take(it.index() as int)),
    {
        proof {
            let keep = |c: char| !is_blank(c);
            assert(s@.take(it.index() + 1) =~= s@.take(it.index() as int).push(c));
            s@.take(it.index() as int).lemma_filter_push(c, keep);
        }
        if !blank(c) {
            v.push(c);
        }
    }
    proof {
        assert(s@.take(s@.len() as int) =~= s@);
        reveal(Seq::filter);
    }
    v
}

/// Splits `t` into its first line, trimmed, and what follows that line.
pub fn split_line(t: &[char]) -> (r: (&[char], &[char]))
    ensures
        r.0@ == trim(first_line(t@)),
        r.1@ == after_first_line(t@),
{
    let mut end: usize = 0;
    while end < t.len() && t[end] != '\n'
        invariant
            end <= t.len(),
            forall|i: int| 0 <= i < end ==> t@[i] != '\n',
        decreases t.len() - end,
    {
        end += 1;
    }
    proof {
        lemma_line_len(t@, end as int);
    }
    let rest = if end < t.len() {
        slice_subrange(t, end + 1, t.len())
    } else {
        slice_subrange(t, end, end)
    };
    let ghost line = t@.subrange(0, end as int);
    let mut a: usize = 0;
    while a < end && blank(t[a])
        invariant
            a <= end <= t.len(),
            line == t@.subrange(0, end as int),
            trim_start(line) == trim_start(t@.subrange(a as int, end as int)),
        decreases end - a,
    {
        assert(t@.subrange(a as int, end as int).drop_first() =~= t@.subrange(
            a as int + 1,
            end as int,
        ));
        a += 1;
    }
    let mut b: usize = end;
    while b > a && blank(t[b - 1])
        invariant
            a <= b <= end <= t.len(),
            trim(line) == trim_end(t@.subrange(a as int, b as int)),
        decreases b - a,
    {
        assert(t@.subrange(a as int, b as int).drop_last() =~= t@.subrange(
            a as int,
            b as int - 1,
        ));
        b -= 1;
    }
    (slice_subrange(t, a, b), rest)
}

} // verus!
