//! Hex dumps of payload bytes, plain and paginated.
//!
//! A dump shows 16 bytes per row. A row is the offset of its first byte in
//! hexadecimal (four digits or more), a colon and a space, sixteen cells of
//! two hexadecimal digits and a space each (a cell past the end of the data
//! is three spaces), one more space after the eighth cell, a gutter of two
//! spaces, the bytes as characters, and a line feed.

use vstd::prelude::*;
use crate::text::{
    byte_is_graphic,
    decimal,
    hex,
    hex_byte,
    is_graphic,
    push_decimal,
    push_hex,
    push_hex_byte,
    push_str,
    string_of,
};

verus! {

/// Number of bytes shown in one row.
pub const ROW_BYTES: usize = 16;

/// Cell `j` of a row that shows `chunk`.
pub open spec fn cell(chunk: Seq<u8>, j: int) -> Seq<char> {
    let body = if j < chunk.len() {
        hex_byte(chunk[j]).push(' ')
    } else {
        seq![' ', ' ', ' ']
    };
    if j == 7 {
        body.push(' ')
    } else {
        body
    }
}

/// The first `n` cells of a row that shows `chunk`.
pub open spec fn cells(chunk: Seq<u8>, n: nat) -> Seq<char>
    decreases n,
{
    if n == 0 {
        Seq::empty()
    } else {
        cells(chunk, (n - 1) as nat) + cell(chunk, n - 1)
    }
}

/// The character that stands for a byte in the text column: the byte itself
/// if it is a visible ASCII character or a space, else a full stop.
pub open spec fn shown(b: u8) -> char {
    if is_graphic(b) || b == 0x20 {
        b as char
    } else {
        '.'
    }
}

/// The text column of a row that shows `chunk`.
pub open spec fn text_column(chunk: Seq<u8>) -> Seq<char> {
    Seq::new(chunk.len(), |i: int| shown(chunk[i]))
}

/// The row that shows `chunk`, whose first byte has the given offset.
pub open spec fn row(offset: nat, chunk: Seq<u8>) -> Seq<char> {
    hex(offset, 4) + seq![':', ' '] + cells(chunk, ROW_BYTES as nat) + seq![' ', ' ']
        + text_column(chunk) + seq!['\n']
}

/// Number of rows that `n` bytes take.
pub open spec fn row_count(n: nat) -> nat {
    (n + 15) / 16
}

/// The bytes that row `line` of a dump of `data` shows.
pub open spec fn chunk_of(data: Seq<u8>, line: int) -> Seq<u8> {
    if 16 * line + 16 <= data.len() {
        data.subrange(16 * line, 16 * line + 16)
    } else {
        data.subrange(16 * line, data.len() as int)
    }
}

/// Rows `from` up to, not including, `to` of a dump of `data`.
pub open spec fn rows(data: Seq<u8>, from: int, to: int) -> Seq<char>
    decreases to - from,
{
    if to <= from {
        Seq::empty()
    } else {
        rows(data, from, to - 1) + row((16 * (to - 1)) as nat, chunk_of(data, to - 1))
    }
}

/// The part of `payload` that a dump shows when `bytes_to_show` are asked for.
pub open spec fn shown_part(payload: Seq<u8>, bytes_to_show: nat) -> Seq<u8> {
    if bytes_to_show < payload.len() {
        payload.take(bytes_to_show as int)
    } else {
        payload
    }
}

/// The dump of the first `bytes_to_show` bytes of `payload`, of all of it if
/// it is shorter.
pub open spec fn hex_dump(payload: Seq<u8>, bytes_to_show: nat) -> Seq<char> {
    let data = shown_part(payload, bytes_to_show);
    rows(data, 0, row_count(data.len()) as int)
}

/// The line that heads page `number`, which shows bytes `first` to `last`.
pub open spec fn page_header(number: nat, first: nat, last: nat) -> Seq<char> {
    "--- page "@ + decimal(number) + " ("@ + decimal(first) + "-"@ + decimal(last)
        + " bytes) ---\n"@
}

/// Row after the last one of the page that starts at row `start`.
pub open spec fn page_end(data: Seq<u8>, page_lines: nat, start: nat) -> nat {
    if row_count(data.len()) - start > page_lines {
        start + page_lines
    } else {
        row_count(data.len())
    }
}

/// Offset of the last byte shown on the page that starts at row `start`.
pub open spec fn page_last_byte(data: Seq<u8>, page_lines: nat, start: nat) -> nat {
    if 16 * page_end(data, page_lines, start) < data.len() {
        (16 * page_end(data, page_lines, start) - 1) as nat
    } else {
        (data.len() - 1) as nat
    }
}

/// The pages of a dump of `data` from row `start` on, the first of them
/// with the given number: each page is its header and its rows, and an empty
/// line stands between two pages.
pub open spec fn pages(data: Seq<u8>, page_lines: nat, start: nat, number: nat) -> Seq<char>
    decreases row_count(data.len()) - start,
{
    if page_lines == 0 || start >= row_count(data.len()) {
        Seq::empty()
    } else {
        let end = page_end(data, page_lines, start);
        page_header(number, 16 * start, page_last_byte(data, page_lines, start)) + rows(
            data,
            start as int,
            end as int,
        ) + (if end < row_count(data.len()) {
            seq!['\n']
        } else {
            Seq::empty()
        }) + pages(data, page_lines, end, number + 1)
    }
}

/// The paginated dump of the first `bytes_to_show` bytes of `payload`, with
/// `page_lines` rows to a page; with `page_lines` 0, the plain dump.
pub open spec fn hex_dump_paged(payload: Seq<u8>, bytes_to_show: nat, page_lines: nat) -> Seq<
    char,
> {
    if page_lines == 0 {
        hex_dump(payload, bytes_to_show)
    } else {
        pages(shown_part(payload, bytes_to_show), page_lines, 0, 1)
    }
}

/// The character that stands for `b` in the text column.
fn shown_char(b: u8) -> (c: char)
    ensures
        c == shown(b),
{
    if byte_is_graphic(b) || b == 0x20 {
        b as char
    } else {
        '.'
    }
}

/// Appends the row that shows `chunk`.
fn push_row(out: &mut Vec<char>, offset: usize, chunk: &[u8])
    requires
        chunk.len() <= ROW_BYTES,
    ensures
        final(out)@ == old(out)@ + row(offset as nat, chunk@),
{
    push_hex(out, offset as u64, 4);
    out.push(':');
    out.push(' ');
    let ghost head = old(out)@ + hex(offset as nat, 4) + seq![':', ' '];
    assert(out@ =~= head);
    let mut j: usize = 0;
    while j < ROW_BYTES
        invariant
            j <= ROW_BYTES,
            out@ == head + cells(chunk@, j as nat),
        decreases ROW_BYTES - j,
    {
        if j < chunk.len() {
            push_hex_byte(out, chunk[j]);
            out.push(' ');
        } else {
            out.push(' ');
            out.push(' ');
            out.push(' ');
        }
        if j == 7 {
            out.push(' ');
        }
        proof {
            assert(out@ =~= head + cells(chunk@, j as nat) + cell(chunk@, j as int));
            assert(out@ =~= head + cells(chunk@, (j + 1) as nat));
        }
        j += 1;
    }
    out.push(' ');
    out.push(' ');
    let ghost mid = head + cells(chunk@, ROW_BYTES as nat) + seq![' ', ' '];
    assert(out@ =~= mid);
    let mut i: usize = 0;
    while i < chunk.len()
        invariant
            i <= chunk.len(),
            out@ == mid + text_column(chunk@).take(i as int),
        decreases chunk.len() - i,
    {
        out.push(shown_char(chunk[i]));
        proof {
            assert(out@ =~= mid + text_column(chunk@).take(i + 1));
        }
        i += 1;
    }
    out.push('\n');
    proof {
        assert(text_column(chunk@).take(chunk.len() as int) =~= text_column(chunk@));
        assert(out@ =~= old(out)@ + row(offset as nat, chunk@));
    }
}

/// Appends rows `from` up to `to` of a dump of `data`.
fn push_rows(out: &mut Vec<char>, data: &[u8], from: usize, to: usize)
    requires
        from <= to <= row_count(data@.len()),
    ensures
        final(out)@ == old(out)@ + rows(data@, from as int, to as int),
{
    let mut line = from;
    proof {
        assert(out@ =~= old(out)@ + rows(data@, from as int, line as int));
    }
    while line < to
        invariant
            from <= line <= to <= row_count(data@.len()),
            out@ == old(out)@ + rows(data@, from as int, line as int),
        decreases to - line,
    {
        assert(16 * line < data.len());
        let start = line * 16;
        let end = if data.len() - start > ROW_BYTES {
            start + ROW_BYTES
        } else {
            data.len()
        };
        let chunk = &data[start..end];
        proof {
            assert(chunk@ =~= chunk_of(data@, line as int));
        }
        push_row(out, start, chunk);
        proof {
            assert(out@ =~= old(out)@ + rows(data@, from as int, line + 1));
        }
        line += 1;
    }
}

/// The number of rows that `n` bytes take.
fn count_rows(n: usize) -> (count: usize)
    ensures
        count == row_count(n as nat),
{
    if n % ROW_BYTES == 0 {
        n / ROW_BYTES
    } else {
        n / ROW_BYTES + 1
    }
}

/// The part of `payload` that a dump of `bytes_to_show` bytes shows.
fn part_to_show(payload: &[u8], bytes_to_show: usize) -> (data: &[u8])
    ensures
        data@ == shown_part(payload@, bytes_to_show as nat),
{
    if bytes_to_show < payload.len() {
        let data = &payload[0..bytes_to_show];
        proof {
            assert(data@ =~= payload@.take(bytes_to_show as int));
        }
        data
    } else {
        payload
    }
}

/// Dumps the first `bytes_to_show` bytes of `payload`, or all of it if it is
/// shorter, as rows of hexadecimal and text.
pub fn format_hex_dump(payload: &[u8], bytes_to_show: usize) -> (dump: String)
    ensures
        dump@ == hex_dump(payload@, bytes_to_show as nat),
{
    let data = part_to_show(payload, bytes_to_show);
    let mut out: Vec<char> = Vec::new();
    push_rows(&mut out, data, 0, count_rows(data.len()));
    string_of(&out)
}

/// Appends the line that heads a page.
fn push_page_header(out: &mut Vec<char>, number: usize, first: usize, last: usize)
    ensures
        final(out)@ == old(out)@ + page_header(number as nat, first as nat, last as nat),
{
    push_str(out, "--- page ");
    push_decimal(out, number as u64);
    push_str(out, " (");
    push_decimal(out, first as u64);
    push_str(out, "-");
    push_decimal(out, last as u64);
    push_str(out, " bytes) ---\n");
    proof {
        assert(out@ =~= old(out)@ + page_header(number as nat, first as nat, last as nat));
    }
}

/// Dumps the first `bytes_to_show` bytes of `payload` in pages of
/// `page_lines` rows. Each page starts with a header that gives its number,
/// counted from 1, and the offsets of its first and last byte; an empty line
/// separates two pages. With `page_lines` 0 the dump is not paginated.
pub fn format_hex_dump_paged(payload: &[u8], bytes_to_show: usize, page_lines: usize) -> (dump:
    String)
    ensures
        dump@ == hex_dump_paged(payload@, bytes_to_show as nat, page_lines as nat),
{
    if page_lines == 0 {
        return format_hex_dump(payload, bytes_to_show);
    }
    let data = part_to_show(payload, bytes_to_show);
    let total = count_rows(data.len());
    let mut out: Vec<char> = Vec::new();
    let mut start: usize = 0;
    let mut number: usize = 1;
    let ghost whole = pages(data@, page_lines as nat, 0, 1);
    proof {
        assert(out@ + pages(data@, page_lines as nat, 0, 1) =~= whole);
    }
    while start < total
        invariant
            page_lines > 0,
            total == row_count(data@.len()),
            start <= total,
            number <= start + 1,
            out@ + pages(data@, page_lines as nat, start as nat, number as nat) == whole,
        decreases total - start,
    {
        let end = if total - start > page_lines {
            start + page_lines
        } else {
            total
        };
        assert(16 * start < data.len());
        let first = start * 16;
        let last = if end < total {
            end * 16 - 1
        } else {
            data.len() - 1
        };
        let ghost before = out@;
        push_page_header(&mut out, number, first, last);
        push_rows(&mut out, data, start, end);
        if end < total {
            out.push('\n');
        }
        proof {
            let rest = pages(data@, page_lines as nat, end as nat, (number + 1) as nat);
            assert(end as nat == page_end(data@, page_lines as nat, start as nat));
            assert(last as nat == page_last_byte(data@, page_lines as nat, start as nat));
            assert(out@ + rest =~= before + pages(
                data@,
                page_lines as nat,
                start as nat,
                number as nat,
            ));
        }
        start = end;
        number += 1;
    }
    proof {
        assert(out@ =~= whole);
    }
    string_of(&out)
}

} // verus!
