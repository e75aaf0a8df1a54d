//! Text as a sequence of lines, each a sequence of characters: conversion
//! from and to strings, splitting at line breaks and joining again, and the
//! decimal labels used when a buffer is drawn.

use vstd::prelude::*;

verus! {

/// The character that separates two lines in a file.
pub const LINE_BREAK: char = '\n';

/// What a stored vector of lines holds: each line as a sequence of
/// characters.
pub open spec fn text_of(lines: Seq<Vec<char>>) -> Seq<Seq<char>> {
    Seq::new(lines.len(), |i: int| lines[i]@)
}

/// What a vector of strings holds: each string as a sequence of
/// characters.
pub open spec fn strings_view(strings: Seq<String>) -> Seq<Seq<char>> {
    Seq::new(strings.len(), |i: int| strings[i]@)
}

/// Whether no line of `lines` holds a line break.
pub open spec fn free_of_breaks(lines: Seq<Seq<char>>) -> bool {
    forall|i: int, j: int|
        0 <= i < lines.len() && 0 <= j < lines[i].len() ==> (#[trigger] lines[i][j]) != LINE_BREAK
}

/// The lines of `text`: the pieces between its line breaks, in order. A text
/// with `n` line breaks has `n + 1` lines; the empty text is one empty line.
pub open spec fn split_lines(text: Seq<char>) -> Seq<Seq<char>>
    decreases text.len(),
{
    if text.len() == 0 {
        seq![Seq::<char>::empty()]
    } else {
        let before = split_lines(text.drop_last());
        if text.last() == LINE_BREAK {
            before.push(Seq::<char>::empty())
        } else {
            before.drop_last().push(before.last().push(text.last()))
        }
    }
}

/// The lines of `lines` in order, with one line break between each two.
pub open spec fn join_lines(lines: Seq<Seq<char>>) -> Seq<char>
    decreases lines.len(),
{
    if lines.len() == 0 {
        Seq::<char>::empty()
    } else if lines.len() == 1 {
        lines[0]
    } else {
        join_lines(lines.drop_last()) + seq![LINE_BREAK] + lines.last()
    }
}

/// Splitting never yields an empty sequence of lines.
pub proof fn lemma_split_nonempty(text: Seq<char>)
    ensures
        split_lines(text).len() >= 1,
    decreases text.len(),
{
    if text.len() > 0 {
        lemma_split_nonempty(text.drop_last());
    }
}

/// No line that splitting yields holds a line break.
pub proof fn lemma_split_free_of_breaks(text: Seq<char>)
    ensures
        free_of_breaks(split_lines(text)),
    decreases text.len(),
{
    if text.len() > 0 {
        lemma_split_nonempty(text.drop_last());
        lemma_split_free_of_breaks(text.drop_last());
    }
}

proof fn lemma_join_extend_last(lines: Seq<Seq<char>>, c: char)
    requires
        lines.len() >= 1,
    ensures
        join_lines(lines.drop_last().push(lines.last().push(c))) == join_lines(lines).push(c),
{
    let grown = lines.drop_last().push(lines.last().push(c));
    if lines.len() == 1 {
        assert(grown[0] == lines[0].push(c));
    } else {
        assert(grown.drop_last() =~= lines.drop_last());
        assert(join_lines(grown) =~= join_lines(lines).push(c));
    }
}

/// Joining the lines of a text gives the text back, whatever it holds.
pub proof fn lemma_join_split(text: Seq<char>)
    ensures
        join_lines(split_lines(text)) == text,
    decreases text.len(),
{
    if text.len() == 0 {
        assert(join_lines(seq![Seq::<char>::empty()]) =~= text);
    } else {
        let before = split_lines(text.drop_last());
        lemma_split_nonempty(text.drop_last());
        lemma_join_split(text.drop_last());
        if text.last() == LINE_BREAK {
            let lines = before.push(Seq::<char>::empty());
            assert(lines.drop_last() =~= before);
            assert(join_lines(lines) =~= text.drop_last().push(text.last()));
        } else {
            lemma_join_extend_last(before, text.last());
        }
        assert(text.drop_last().push(text.last()) =~= text);
    }
}

proof fn lemma_split_one_line(line: Seq<char>)
    requires
        forall|j: int| 0 <= j < line.len() ==> line[j] != LINE_BREAK,
    ensures
        split_lines(line) == seq![line],
    decreases line.len(),
{
    if line.len() == 0 {
        assert(line =~= Seq::<char>::empty());
    } else {
        let shorter = line.drop_last();
        lemma_split_one_line(shorter);
        assert(line[line.len() - 1] != LINE_BREAK);
        assert(shorter.push(line.last()) =~= line);
        assert(seq![shorter].drop_last().push(seq![shorter].last().push(line.last())) =~= seq![line]);
    }
}

proof fn lemma_split_after_break(text: Seq<char>, line: Seq<char>)
    requires
        forall|j: int| 0 <= j < line.len() ==> line[j] != LINE_BREAK,
    ensures
        split_lines(text + seq![LINE_BREAK] + line) == split_lines(text).push(line),
    decreases line.len(),
{
    let whole = text + seq![LINE_BREAK] + line;
    if line.len() == 0 {
        assert(line =~= Seq::<char>::empty());
        assert(whole.drop_last() =~= text);
    } else {
        let shorter = line.drop_last();
        lemma_split_after_break(text, shorter);
        assert(whole.drop_last() =~= text + seq![LINE_BREAK] + shorter);
        assert(whole.last() == line.last());
        assert(line[line.len() - 1] != LINE_BREAK);
        assert(shorter.push(line.last()) =~= line);
        let before = split_lines(text).push(shorter);
        assert(before.drop_last().push(before.last().push(line.last())) =~= split_lines(text).push(
            line,
        ));
    }
}

/// Splitting the join of one or more lines gives the lines back, provided
/// that none of them holds a line break.
pub proof fn lemma_split_join(lines: Seq<Seq<char>>)
    requires
        lines.len() >= 1,
        free_of_breaks(lines),
    ensures
        split_lines(join_lines(lines)) == lines,
    decreases lines.len(),
{
    if lines.len() == 1 {
        lemma_split_one_line(lines[0]);
        assert(seq![lines[0]] =~= lines);
    } else {
        let before = lines.drop_last();
        lemma_split_join(before);
        lemma_split_after_break(join_lines(before), lines.last());
        assert(before.push(lines.last()) =~= lines);
    }
}

/// Appends one character to a string.
///
/// Trusted: stands for `String::push`, of which it claims that the string
/// afterwards holds the characters it held before, followed by `c`.
#[verifier::external_body]
fn push_char(s: &mut String, c: char)
    ensures
        final(s)@ == old(s)@.push(c),
{
    s.push(c)
}

/// The characters of a string, in order.
pub fn chars_of(s: &str) -> (chars: Vec<char>)
    ensures
        chars@ == s@,
{
    let mut chars: Vec<char> = Vec::new();
    for c in it: s.chars()
        invariant
            it.seq() == s@,
            chars@ == it.seq().take(it.index() as int),
    {
        chars.push(c);
    }
    chars
}

/// Appends the characters of `chars` to `out`.
pub fn append_chars(out: &mut String, chars: &Vec<char>)
    ensures
        final(out)@ == old(out)@ + chars@,
{
    let mut i: usize = 0;
    while i < chars.len()
        invariant
            i <= chars.len(),
            out@ == old(out)@ + chars@.take(i as int),
        decreases chars.len() - i,
    {
        push_char(out, chars[i]);
        i += 1;
    }
}

/// The string that holds the characters of `chars`, in order.
pub fn string_of(chars: &Vec<char>) -> (s: String)
    ensures
        s@ == chars@,
{
    let mut s = String::new();
    append_chars(&mut s, chars);
    s
}

/// A copy of `lines`.
pub fn clone_lines(lines: &Vec<Vec<char>>) -> (copy: Vec<Vec<char>>)
    ensures
        text_of(copy@) == text_of(lines@),
{
    let mut copy: Vec<Vec<char>> = Vec::new();
    let mut i: usize = 0;
    while i < lines.len()
        invariant
            i <= lines.len(),
            copy@.len() == i,
            forall|k: int| 0 <= k < i ==> (#[trigger] copy@[k])@ == lines@[k]@,
        decreases lines.len() - i,
    {
        let line = lines[i].clone();
        assert(line@ =~= lines@[i as int]@);
        copy.push(line);
        i += 1;
    }
    assert(text_of(copy@) =~= text_of(lines@));
    copy
}

/// Each string of `strings` as a line of characters.
pub fn lines_of_strings(strings: &Vec<String>) -> (lines: Vec<Vec<char>>)
    ensures
        lines@.len() == strings@.len(),
        forall|i: int| 0 <= i < strings@.len() ==> (#[trigger] lines@[i])@ == strings@[i]@,
{
    let mut lines: Vec<Vec<char>> = Vec::new();
    let mut i: usize = 0;
    while i < strings.len()
        invariant
            i <= strings.len(),
            lines@.len() == i,
            forall|k: int| 0 <= k < i ==> (#[trigger] lines@[k])@ == strings@[k]@,
        decreases strings.len() - i,
    {
        let line = chars_of(strings[i].as_str());
        lines.push(line);
        i += 1;
    }
    lines
}

/// Each line of `lines` as a string.
pub fn strings_of_lines(lines: &Vec<Vec<char>>) -> (strings: Vec<String>)
    ensures
        strings@.len() == lines@.len(),
        forall|i: int| 0 <= i < lines@.len() ==> (#[trigger] strings@[i])@ == lines@[i]@,
{
    let mut strings: Vec<String> = Vec::new();
    let mut i: usize = 0;
    while i < lines.len()
        invariant
            i <= lines.len(),
            strings@.len() == i,
            forall|k: int| 0 <= k < i ==> (#[trigger] strings@[k])@ == lines@[k]@,
        decreases lines.len() - i,
    {
        let s = string_of(&lines[i]);
        strings.push(s);
        i += 1;
    }
    strings
}

/// The lines of `text`, split at its line breaks.
pub fn split_text(text: &str) -> (lines: Vec<Vec<char>>)
    ensures
        text_of(lines@) == split_lines(text@),
{
    let mut lines: Vec<Vec<char>> = Vec::new();
    let mut current: Vec<char> = Vec::new();
    for c in it: text.chars()
        invariant
            it.seq() == text@,
            text_of(lines@).push(current@) == split_lines(it.seq().take(it.index() as int)),
    {
        let ghost seen = text@.take(it.index() as int);
        let ghost next = text@.take(it.index() + 1);
        assert(next.drop_last() == seen);
        assert(next.last() == c);
        if c == LINE_BREAK {
            lines.push(current);
            current = Vec::new();
            assert(text_of(lines@).push(current@) == split_lines(next));
        } else {
            current.push(c);
            assert(text_of(lines@).push(current@) == split_lines(next));
        }
    }
    assert(text@.take(text@.len() as int) == text@);
    lines.push(current);
    lines
}

/// The lines of `lines` as one string, with a line break between each two.
pub fn join_text(lines: &Vec<Vec<char>>) -> (text: String)
    ensures
        text@ == join_lines(text_of(lines@)),
{
    let mut text = String::new();
    let mut i: usize = 0;
    while i < lines.len()
        invariant
            i <= lines.len(),
            text@ == join_lines(text_of(lines@).take(i as int)),
        decreases lines.len() - i,
    {
        let ghost done = text_of(lines@).take(i as int);
        let ghost next = text_of(lines@).take(i + 1);
        assert(next.drop_last() == done);
        assert(next.last() == lines@[i as int]@);
        if i > 0 {
            push_char(&mut text, LINE_BREAK);
        }
        append_chars(&mut text, &lines[i]);
        assert(text@ == join_lines(next));
        i += 1;
    }
    assert(text_of(lines@).take(lines@.len() as int) == text_of(lines@));
    text
}

/// The decimal digit for `d`, which is below ten.
pub open spec fn digit_char(d: int) -> char {
    if d == 0 {
        '0'
    } else if d == 1 {
        '1'
    } else if d == 2 {
        '2'
    } else if d == 3 {
        '3'
    } else if d == 4 {
        '4'
    } else if d == 5 {
        '5'
    } else if d == 6 {
        '6'
    } else if d == 7 {
        '7'
    } else if d == 8 {
        '8'
    } else {
        '9'
    }
}

/// `n` in decimal digits, most significant first and without leading zeros.
pub open spec fn decimal(n: nat) -> Seq<char>
    decreases n,
{
    if n < 10 {
        seq![digit_char(n as int)]
    } else {
        decimal(n / 10).push(digit_char((n % 10) as int))
    }
}

/// `text` with blanks in front of it, as many as it takes to reach `width`
/// characters. A text of `width` characters or more is left as it is.
pub open spec fn right_aligned(text: Seq<char>, width: nat) -> Seq<char> {
    if text.len() >= width {
        text
    } else {
        Seq::new((width - text.len()) as nat, |i: int| ' ') + text
    }
}

/// The first `limit` characters of `text`, or all of it where it has no
/// more.
pub open spec fn truncated(text: Seq<char>, limit: int) -> Seq<char> {
    if limit <= 0 {
        Seq::<char>::empty()
    } else if text.len() <= limit {
        text
    } else {
        text.take(limit)
    }
}

fn digit(d: usize) -> (c: char)
    requires
        d < 10,
    ensures
        c == digit_char(d as int),
{
    if d == 0 {
        '0'
    } else if d == 1 {
        '1'
    } else if d == 2 {
        '2'
    } else if d == 3 {
        '3'
    } else if d == 4 {
        '4'
    } else if d == 5 {
        '5'
    } else if d == 6 {
        '6'
    } else if d == 7 {
        '7'
    } else if d == 8 {
        '8'
    } else {
        '9'
    }
}

/// Appends `n` in decimal digits to `out`.
pub fn push_decimal(out: &mut Vec<char>, n: usize)
    ensures
        final(out)@ == old(out)@ + decimal(n as nat),
    decreases n,
{
    if n >= 10 {
        push_decimal(out, n / 10);
    }
    out.push(digit(n % 10));
    assert(out@ =~= old(out)@ + decimal(n as nat));
}

/// Appends `n` in decimal digits to `out`, with blanks in front where it
/// has fewer than `width` digits.
pub fn push_right_aligned(out: &mut Vec<char>, n: usize, width: usize)
    ensures
        final(out)@ == old(out)@ + right_aligned(decimal(n as nat), width as nat),
{
    let mut digits: Vec<char> = Vec::new();
    push_decimal(&mut digits, n);
    assert(digits@ =~= decimal(n as nat));
    let mut pad: usize = 0;
    while digits.len() < width && pad < width - digits.len()
        invariant
            digits@ == decimal(n as nat),
            digits@.len() < width ==> pad <= width - digits@.len(),
            digits@.len() >= width ==> pad == 0,
            out@ == old(out)@ + Seq::new(pad as nat, |i: int| ' '),
        decreases width - pad,
    {
        out.push(' ');
        pad += 1;
        assert(out@ =~= old(out)@ + Seq::new(pad as nat, |i: int| ' '));
    }
    push_chars(out, &digits);
    assert(out@ =~= old(out)@ + right_aligned(decimal(n as nat), width as nat));
}

/// Appends the characters of `chars` to `out`.
pub fn push_chars(out: &mut Vec<char>, chars: &Vec<char>)
    ensures
        final(out)@ == old(out)@ + chars@,
{
    let mut i: usize = 0;
    while i < chars.len()
        invariant
            i <= chars.len(),
            out@ == old(out)@ + chars@.take(i as int),
        decreases chars.len() - i,
    {
        out.push(chars[i]);
        i += 1;
    }
}

/// Appends the first `limit` characters of `chars` to `out`, or all of them
/// where there are no more.
pub fn push_truncated(out: &mut Vec<char>, chars: &Vec<char>, limit: usize)
    ensures
        final(out)@ == old(out)@ + truncated(chars@, limit as int),
{
    let end = if chars.len() <= limit { chars.len() } else { limit };
    let mut i: usize = 0;
    while i < end
        invariant
            i <= end <= chars.len(),
            out@ == old(out)@ + chars@.take(i as int),
        decreases end - i,
    {
        out.push(chars[i]);
        i += 1;
    }
    assert(chars@.take(end as int) =~= truncated(chars@, limit as int));
}

/// Appends the characters of `s` to `out`.
pub fn push_str(out: &mut Vec<char>, s: &str)
    ensures
        final(out)@ == old(out)@ + s@,
{
    for c in it: s.chars()
        invariant
            it.seq() == s@,
            out@ == old(out)@ + it.seq().take(it.index() as int),
    {
        out.push(c);
    }
}

} // verus!
