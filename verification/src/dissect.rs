//! Best-effort rendering of a payload: as text where it is mostly text, and
//! as an HTTP head where it starts like one.

use vstd::prelude::*;
use vstd::utf8::{decode_utf8, valid_utf8};
use crate::hexdump::{format_hex_dump, hex_dump};
use crate::lines::{
    has_prefix,
    is_blank,
    lines_of,
    split_lines,
    starts_with,
    trim,
    trimmed,
    views,
};
use crate::text::{
    byte_is_ascii_space,
    byte_is_graphic,
    chars_of,
    is_ascii_space,
    is_graphic,
    lossy_chars,
    push_all,
    push_str,
    string_of,
    utf8_lossy,
};

verus! {

/// Most lines of text that the text rendering shows.
pub const TEXT_LINES: usize = 10;

/// Most header lines that the HTTP rendering shows after the first line.
pub const HTTP_HEADER_LINES: usize = 20;

/// `b` is a visible ASCII character or ASCII white space.
pub open spec fn is_texty(b: u8) -> bool {
    is_graphic(b) || is_ascii_space(b)
}

/// Number of bytes that are visible ASCII characters or ASCII white space.
pub open spec fn texty_count(bytes: Seq<u8>) -> nat
    decreases bytes.len(),
{
    if bytes.len() == 0 {
        0
    } else {
        texty_count(bytes.drop_last()) + if is_texty(bytes.last()) {
            1nat
        } else {
            0nat
        }
    }
}

/// More than 80% of the bytes, and at least one, are visible ASCII
/// characters or ASCII white space.
pub open spec fn is_mostly_text(bytes: Seq<u8>) -> bool {
    bytes.len() > 0 && 5 * texty_count(bytes) > 4 * bytes.len()
}

/// The first `n` of `lines`, each after two spaces, with a line feed
/// between two lines.
pub open spec fn text_block(lines: Seq<Seq<char>>, n: nat) -> Seq<char>
    decreases n,
{
    if n == 0 {
        Seq::empty()
    } else if n == 1 {
        seq![' ', ' '] + lines[0]
    } else {
        text_block(lines, (n - 1) as nat) + seq!['\n', ' ', ' '] + lines[n - 1]
    }
}

/// The text rendering of a text: its first `TEXT_LINES` lines, indented.
pub open spec fn text_lines(text: Seq<char>) -> Seq<char> {
    let lines = lines_of(text);
    if lines.len() > TEXT_LINES {
        text_block(lines, TEXT_LINES as nat)
    } else {
        text_block(lines, lines.len())
    }
}

/// The rendering of a payload that decodes to `text`: the text, if the
/// payload is mostly text, and else the hex dump of the payload.
pub open spec fn payload_text(bytes: Seq<u8>, text: Seq<char>) -> Seq<char> {
    if is_mostly_text(bytes) {
        text_lines(text)
    } else {
        hex_dump(bytes, bytes.len())
    }
}

/// The rendering of a payload: its text, decoded lossily, if it is mostly
/// text, and else its hex dump.
pub open spec fn text_payload(bytes: Seq<u8>) -> Seq<char> {
    payload_text(bytes, utf8_lossy(bytes))
}

/// `summary` holds the text `expected`, or both are nothing.
pub open spec fn is_summary(summary: Option<String>, expected: Option<Seq<char>>) -> bool {
    match summary {
        Some(s) => expected == Some(s@),
        None => expected is None,
    }
}

/// The line starts with an HTTP request method and a space.
pub open spec fn is_request_line(line: Seq<char>) -> bool {
    ||| has_prefix(line, "GET "@)
    ||| has_prefix(line, "POST "@)
    ||| has_prefix(line, "PUT "@)
    ||| has_prefix(line, "DELETE "@)
    ||| has_prefix(line, "HEAD "@)
    ||| has_prefix(line, "OPTIONS "@)
    ||| has_prefix(line, "PATCH "@)
}

/// The line starts like an HTTP status line.
pub open spec fn is_response_line(line: Seq<char>) -> bool {
    has_prefix(line, "HTTP/"@)
}

/// Index of the first line at or after `from` that is not empty, or the
/// number of lines.
pub open spec fn first_filled(lines: Seq<Seq<char>>, from: int) -> int
    decreases lines.len() - from,
{
    if 0 <= from < lines.len() && lines[from].len() == 0 {
        first_filled(lines, from + 1)
    } else {
        from
    }
}

/// A line of an HTTP head as it is shown: trimmed, after two spaces, with a
/// line feed.
pub open spec fn shown_line(line: Seq<char>) -> Seq<char> {
    seq![' ', ' '] + trimmed(line) + seq!['\n']
}

/// The header lines from line `from` on, as they are shown: at most
/// `budget` lines, up to the first blank line.
pub open spec fn header_lines(lines: Seq<Seq<char>>, from: int, budget: nat) -> Seq<char>
    decreases budget,
{
    if budget == 0 || from < 0 || from >= lines.len() || is_blank(lines[from]) {
        Seq::empty()
    } else {
        shown_line(lines[from]) + header_lines(lines, from + 1, (budget - 1) as nat)
    }
}

/// The HTTP rendering of a text, if it starts like an HTTP message: the
/// first line that is not empty, trimmed, has to start with a request method
/// or with `HTTP/`. The rendering is a title, that line, and the header lines
/// that follow it.
pub open spec fn http_summary(text: Seq<char>) -> Option<Seq<char>> {
    let lines = lines_of(text);
    let first = first_filled(lines, 0);
    if first >= lines.len() {
        None
    } else if is_request_line(trimmed(lines[first])) {
        Some(
            "HTTP Request:\n"@ + shown_line(lines[first]) + header_lines(
                lines,
                first + 1,
                HTTP_HEADER_LINES as nat,
            ),
        )
    } else if is_response_line(trimmed(lines[first])) {
        Some(
            "HTTP Response:\n"@ + shown_line(lines[first]) + header_lines(
                lines,
                first + 1,
                HTTP_HEADER_LINES as nat,
            ),
        )
    } else {
        None
    }
}

/// Counts the bytes that are visible ASCII characters or ASCII white space.
fn count_texty(bytes: &[u8]) -> (count: usize)
    ensures
        count == texty_count(bytes@),
        count <= bytes.len(),
{
    let mut count: usize = 0;
    let mut i: usize = 0;
    while i < bytes.len()
        invariant
            i <= bytes.len(),
            count <= i,
            count == texty_count(bytes@.take(i as int)),
        decreases bytes.len() - i,
    {
        proof {
            assert(bytes@.take(i + 1).drop_last() =~= bytes@.take(i as int));
        }
        if byte_is_graphic(bytes[i]) || byte_is_ascii_space(bytes[i]) {
            count += 1;
        }
        i += 1;
    }
    proof {
        assert(bytes@.take(bytes.len() as int) =~= bytes@);
    }
    count
}

/// Tests whether more than 80% of the bytes are text.
fn mostly_text(bytes: &[u8]) -> (r: bool)
    ensures
        r == is_mostly_text(bytes@),
{
    let count = count_texty(bytes);
    bytes.len() > 0 && 5 * (count as u128) > 4 * (bytes.len() as u128)
}

/// Appends the text rendering of a text.
fn push_text_lines(out: &mut Vec<char>, text: &[char])
    ensures
        final(out)@ == old(out)@ + text_lines(text@),
{
    let lines = split_lines(text);
    let n = if lines.len() > TEXT_LINES {
        TEXT_LINES
    } else {
        lines.len()
    };
    let mut i: usize = 0;
    while i < n
        invariant
            i <= n <= lines.len(),
            views(lines@) == lines_of(text@),
            out@ == old(out)@ + text_block(lines_of(text@), i as nat),
        decreases n - i,
    {
        if i > 0 {
            out.push('\n');
        }
        out.push(' ');
        out.push(' ');
        push_all(out, lines[i].as_slice());
        proof {
            assert(views(lines@)[i as int] == lines[i as int]@);
            assert(out@ =~= old(out)@ + text_block(lines_of(text@), (i + 1) as nat));
        }
        i += 1;
    }
}

/// Renders a text as the text mode shows it: its first `TEXT_LINES` lines,
/// each after two spaces, with a line feed between two lines.
pub fn format_text(text: &str) -> (shown: String)
    ensures
        shown@ == text_lines(text@),
{
    let chars = chars_of(text);
    let mut out: Vec<char> = Vec::new();
    push_text_lines(&mut out, chars.as_slice());
    string_of(&out)
}

/// Renders a payload. If more than 80% of its bytes are visible ASCII
/// characters or ASCII white space, it is decoded as UTF-8, lossily, and
/// shown as text; else its hex dump is shown in full. For a payload that is
/// valid UTF-8 the text is the text that it encodes.
pub fn format_text_payload(payload: &[u8]) -> (shown: String)
    ensures
        shown@ == text_payload(payload@),
        valid_utf8(payload@) ==> shown@ == payload_text(payload@, decode_utf8(payload@)),
{
    if mostly_text(payload) {
        let chars = lossy_chars(payload);
        let mut out: Vec<char> = Vec::new();
        push_text_lines(&mut out, chars.as_slice());
        string_of(&out)
    } else {
        format_hex_dump(payload, payload.len())
    }
}

/// Tests whether a line starts with an HTTP request method and a space.
fn starts_request(line: &[char]) -> (r: bool)
    ensures
        r == is_request_line(line@),
{
    starts_with(line, "GET ") || starts_with(line, "POST ") || starts_with(line, "PUT ")
        || starts_with(line, "DELETE ") || starts_with(line, "HEAD ") || starts_with(
        line,
        "OPTIONS ",
    ) || starts_with(line, "PATCH ")
}

/// Appends a line of an HTTP head as it is shown.
fn push_shown_line(out: &mut Vec<char>, line: &[char])
    ensures
        final(out)@ == old(out)@ + shown_line(line@),
{
    out.push(' ');
    out.push(' ');
    push_all(out, trim(line));
    out.push('\n');
    proof {
        assert(out@ =~= old(out)@ + shown_line(line@));
    }
}

/// The HTTP rendering of the characters of a text.
fn http_of(text: &[char]) -> (summary: Option<Vec<char>>)
    ensures
        match summary {
            Some(s) => http_summary(text@) == Some(s@),
            None => http_summary(text@) is None,
        },
{
    let lines = split_lines(text);
    let ghost all = lines_of(text@);
    let mut first: usize = 0;
    while first < lines.len() && lines[first].len() == 0
        invariant
            first <= lines.len(),
            views(lines@) == all,
            first_filled(all, first as int) == first_filled(all, 0),
        decreases lines.len() - first,
    {
        proof {
            assert(views(lines@)[first as int] == lines[first as int]@);
        }
        first += 1;
    }
    if first >= lines.len() {
        return None;
    }
    proof {
        assert(views(lines@)[first as int] == lines[first as int]@);
    }
    let line = trim(lines[first].as_slice());
    let mut out: Vec<char> = Vec::new();
    if starts_request(line) {
        push_str(&mut out, "HTTP Request:\n");
    } else if starts_with(line, "HTTP/") {
        push_str(&mut out, "HTTP Response:\n");
    } else {
        return None;
    }
    push_shown_line(&mut out, lines[first].as_slice());
    let ghost head = out@;
    let ghost whole = head + header_lines(all, first + 1, HTTP_HEADER_LINES as nat);
    let mut i: usize = first + 1;
    let mut budget: usize = HTTP_HEADER_LINES;
    while budget > 0 && i < lines.len()
        invariant
            i <= lines.len(),
            views(lines@) == all,
            out@ + header_lines(all, i as int, budget as nat) == whole,
        ensures
            out@ == whole,
        decreases budget,
    {
        proof {
            assert(views(lines@)[i as int] == lines[i as int]@);
        }
        if trim(lines[i].as_slice()).len() == 0 {
            proof {
                assert(out@ + Seq::<char>::empty() =~= out@);
            }
            break ;
        }
        let ghost before = out@;
        push_shown_line(&mut out, lines[i].as_slice());
        proof {
            assert(out@ + header_lines(all, i + 1, (budget - 1) as nat) =~= before + header_lines(
                all,
                i as int,
                budget as nat,
            ));
        }
        i += 1;
        budget -= 1;
        proof {
            if !(budget > 0 && i < lines.len()) {
                assert(out@ + Seq::<char>::empty() =~= out@);
            }
        }
    }
    Some(out)
}

/// Renders the head of an HTTP message that `text` starts with, or gives
/// `None` if it starts with none. Empty lines before the message are
/// skipped. The first line, trimmed, has to start with `GET`, `POST`, `PUT`, `DELETE`,
/// `HEAD`, `OPTIONS` or `PATCH` and a space, for a request, or with `HTTP/`,
/// for a response. After a title the rendering shows that line and up to
/// `HTTP_HEADER_LINES` lines that follow it, and stops before the first
/// blank line; each line is trimmed and indented.
pub fn parse_http_text(text: &str) -> (summary: Option<String>)
    ensures
        is_summary(summary, http_summary(text@)),
{
    let chars = chars_of(text);
    match http_of(chars.as_slice()) {
        Some(out) => Some(string_of(&out)),
        None => None,
    }
}

/// Renders the head of an HTTP message that the payload starts with: the
/// payload is decoded as UTF-8, lossily, and rendered as `parse_http_text`
/// renders a text. For a payload that is valid UTF-8 the text is the text
/// that it encodes.
pub fn parse_http(payload: &[u8]) -> (summary: Option<String>)
    ensures
        is_summary(summary, http_summary(utf8_lossy(payload@))),
        valid_utf8(payload@) ==> is_summary(summary, http_summary(decode_utf8(payload@))),
{
    let chars = lossy_chars(payload);
    match http_of(chars.as_slice()) {
        Some(out) => Some(string_of(&out)),
        None => None,
    }
}

} // verus!
