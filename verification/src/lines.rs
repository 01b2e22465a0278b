//! Lines of text, white space at their ends, and prefixes.

use vstd::prelude::*;
use vstd::slice::slice_to_vec;

verus! {

/// `c` is white space: a character with the Unicode property White_Space.
pub open spec fn is_space(c: char) -> bool {
    let u = c as u32;
    ||| 0x09 <= u <= 0x0d
    ||| u == 0x20
    ||| u == 0x85
    ||| u == 0xa0
    ||| u == 0x1680
    ||| 0x2000 <= u <= 0x200a
    ||| u == 0x2028
    ||| u == 0x2029
    ||| u == 0x202f
    ||| u == 0x205f
    ||| u == 0x3000
}

/// Index of the first character at or after `from` that is no white space,
/// or the length of the text.
pub open spec fn skip_spaces(text: Seq<char>, from: int) -> int
    decreases text.len() - from,
{
    if 0 <= from < text.len() && is_space(text[from]) {
        skip_spaces(text, from + 1)
    } else {
        from
    }
}

/// Index after the last character before `to` that is no white space, or 0.
pub open spec fn drop_spaces(text: Seq<char>, to: int) -> int
    decreases to,
{
    if 0 < to <= text.len() && is_space(text[to - 1]) {
        drop_spaces(text, to - 1)
    } else {
        to
    }
}

/// The text without the white space at its start and at its end.
pub open spec fn trimmed(text: Seq<char>) -> Seq<char> {
    let from = skip_spaces(text, 0);
    if from >= text.len() {
        Seq::empty()
    } else {
        text.subrange(from, drop_spaces(text, text.len() as int))
    }
}

/// The text holds nothing but white space.
pub open spec fn is_blank(text: Seq<char>) -> bool {
    trimmed(text).len() == 0
}

/// A line without the carriage return that may end it.
pub open spec fn strip_cr(line: Seq<char>) -> Seq<char> {
    if line.len() > 0 && line.last() == '\r' {
        line.drop_last()
    } else {
        line
    }
}

/// The lines of `text` that are still to come when the current line started
/// at `start` and the text has been read up to `pos`.
pub open spec fn lines_scan(text: Seq<char>, start: int, pos: int) -> Seq<Seq<char>>
    decreases text.len() - pos,
{
    if pos >= text.len() {
        if 0 <= start < text.len() {
            seq![text.subrange(start, text.len() as int)]
        } else {
            Seq::empty()
        }
    } else if text[pos] == '\n' {
        seq![strip_cr(text.subrange(start, pos))] + lines_scan(text, pos + 1, pos + 1)
    } else {
        lines_scan(text, start, pos + 1)
    }
}

/// The lines of a text. A line ends at a line feed; a carriage return
/// directly before the line feed belongs to the line ending, any other one
/// to the line. The last line needs no line ending, and a text that ends
/// with one has no empty line after it.
pub open spec fn lines_of(text: Seq<char>) -> Seq<Seq<char>> {
    lines_scan(text, 0, 0)
}

/// The character sequences that a vector of lines holds.
pub open spec fn views(lines: Seq<Vec<char>>) -> Seq<Seq<char>> {
    lines.map_values(|line: Vec<char>| line@)
}

/// `text` starts with `prefix`.
pub open spec fn has_prefix(text: Seq<char>, prefix: Seq<char>) -> bool {
    prefix.len() <= text.len() && text.take(prefix.len() as int) == prefix
}

/// Tests `is_space`.
pub fn char_is_space(c: char) -> (r: bool)
    ensures
        r == is_space(c),
{
    let u = c as u32;
    (0x09 <= u && u <= 0x0d) || u == 0x20 || u == 0x85 || u == 0xa0 || u == 0x1680 || (0x2000
        <= u && u <= 0x200a) || u == 0x2028 || u == 0x2029 || u == 0x202f || u == 0x205f || u
        == 0x3000
}

/// The text without the white space at its start and at its end.
pub fn trim(text: &[char]) -> (inner: &[char])
    ensures
        inner@ == trimmed(text@),
{
    let mut from: usize = 0;
    while from < text.len() && char_is_space(text[from])
        invariant
            from <= text.len(),
            skip_spaces(text@, from as int) == skip_spaces(text@, 0),
        decreases text.len() - from,
    {
        from += 1;
    }
    if from >= text.len() {
        let inner = &text[0..0];
        proof {
            assert(inner@ =~= Seq::<char>::empty());
        }
        return inner;
    }
    let mut to: usize = text.len();
    while to > 0 && char_is_space(text[to - 1])
        invariant
            to <= text.len(),
            from < text.len(),
            !is_space(text[from as int]),
            to > from,
            drop_spaces(text@, to as int) == drop_spaces(text@, text.len() as int),
        decreases to,
    {
        to -= 1;
    }
    &text[from..to]
}

/// Splits a text into its lines.
pub fn split_lines(text: &[char]) -> (lines: Vec<Vec<char>>)
    ensures
        views(lines@) == lines_of(text@),
{
    let mut lines: Vec<Vec<char>> = Vec::new();
    let mut start: usize = 0;
    let mut pos: usize = 0;
    proof {
        assert(views(lines@) + lines_scan(text@, 0, 0) =~= lines_of(text@));
    }
    while pos < text.len()
        invariant
            start <= pos <= text.len(),
            views(lines@) + lines_scan(text@, start as int, pos as int) == lines_of(text@),
        decreases text.len() - pos,
    {
        if text[pos] == '\n' {
            let end = if pos > start && text[pos - 1] == '\r' {
                pos - 1
            } else {
                pos
            };
            let line = slice_to_vec(&text[start..end]);
            let ghost before = views(lines@);
            proof {
                assert(line@ =~= strip_cr(text@.subrange(start as int, pos as int)));
            }
            lines.push(line);
            proof {
                assert(views(lines@) =~= before.push(line@));
                assert(views(lines@) + lines_scan(text@, pos + 1, pos + 1) =~= before
                    + lines_scan(text@, start as int, pos as int));
            }
            start = pos + 1;
        }
        pos += 1;
    }
    if start < text.len() {
        let line = slice_to_vec(&text[start..text.len()]);
        let ghost before = views(lines@);
        lines.push(line);
        proof {
            assert(views(lines@) =~= before.push(line@));
        }
    }
    proof {
        assert(views(lines@) =~= lines_of(text@));
    }
    lines
}

/// Tests whether `text` starts with `prefix`.
pub fn starts_with(text: &[char], prefix: &str) -> (r: bool)
    ensures
        r == has_prefix(text@, prefix@),
{
    broadcast use vstd::string::group_string_axioms;

    let mut i: usize = 0;
    for c in it: prefix.chars()
        invariant
            it.seq() == prefix@,
            i == it.index(),
            i <= text.len(),
            text@.take(i as int) == prefix@.take(i as int),
    {
        if i >= text.len() || text[i] != c {
            proof {
                if prefix@.len() <= text@.len() {
                    assert(text@.take(prefix@.len() as int)[i as int] != prefix@[i as int]);
                }
            }
            return false;
        }
        proof {
            assert(text@.take(i + 1) =~= text@.take(i as int).push(c));
            assert(prefix@.take(i + 1) =~= prefix@.take(i as int).push(c));
        }
        i += 1;
    }
    proof {
        assert(prefix@.take(prefix@.len() as int) =~= prefix@);
    }
    true
}

} // verus!
