//! Reading a hex dump back.
//!
//! `dump_bytes` says which bytes the hexadecimal columns of a dump show. The
//! laws at the end of this module say that a dump, plain or paginated, shows
//! exactly the bytes that it was made from.

use vstd::prelude::*;
use crate::hexdump::{
    cell,
    cells,
    chunk_of,
    hex_dump,
    hex_dump_paged,
    page_end,
    page_header,
    page_last_byte,
    pages,
    row,
    row_count,
    rows,
    shown,
    shown_part,
    text_column,
};
use crate::lines::{lines_of, lines_scan, strip_cr};
use crate::text::{decimal, digit, digit_value, hex, hex_byte, is_hex_digit};

verus! {

/// The byte that two hexadecimal digits denote.
pub open spec fn byte_of(high: char, low: char) -> u8 {
    (digit_value(high) * 16 + digit_value(low)) as u8
}

/// Index of the first colon at or after `from`, or the length of the line.
pub open spec fn colon_at(line: Seq<char>, from: int) -> int
    decreases line.len() - from,
{
    if from < 0 || from >= line.len() {
        line.len() as int
    } else if line[from] == ':' {
        from
    } else {
        colon_at(line, from + 1)
    }
}

/// Distance from the start of one cell to the start of the next.
pub open spec fn cell_width(j: int) -> int {
    if j == 7 {
        4
    } else {
        3
    }
}

/// The bytes that the cells of a line show from cell `j` on, which starts at
/// `pos`: a cell shows a byte if it starts with two hexadecimal digits, and
/// the first cell that does not ends the row.
pub open spec fn cells_bytes(line: Seq<char>, pos: int, j: int) -> Seq<u8>
    decreases 16 - j,
{
    if j < 0 || j >= 16 || pos < 0 || pos + 1 >= line.len() || !is_hex_digit(line[pos])
        || !is_hex_digit(line[pos + 1]) {
        Seq::empty()
    } else {
        seq![byte_of(line[pos], line[pos + 1])] + cells_bytes(
            line,
            pos + cell_width(j),
            j + 1,
        )
    }
}

/// The bytes that one line of a dump shows: those of its cells, which start
/// two characters after its first colon. A line without a colon shows none.
pub open spec fn line_bytes(line: Seq<char>) -> Seq<u8> {
    cells_bytes(line, colon_at(line, 0) + 2, 0)
}

/// The bytes that the first `n` of `lines` show.
pub open spec fn lines_bytes(lines: Seq<Seq<char>>, n: nat) -> Seq<u8>
    decreases n,
{
    if n == 0 {
        Seq::empty()
    } else {
        lines_bytes(lines, (n - 1) as nat) + line_bytes(lines[n - 1])
    }
}

/// The bytes that the hexadecimal columns of a dump show.
pub open spec fn dump_bytes(text: Seq<char>) -> Seq<u8> {
    lines_bytes(lines_of(text), lines_of(text).len())
}

/// Offset of cell `j` in the cells of a row.
spec fn cell_offset(j: int) -> int {
    if j > 7 {
        3 * j + 1
    } else {
        3 * j
    }
}

/// `c` may stand in a line: it is no line feed, and no carriage return.
spec fn is_inline(c: char) -> bool {
    c != '\n' && c != '\r'
}

/// The text is empty or ends with a line feed.
spec fn ends_lines(text: Seq<char>) -> bool {
    text.len() == 0 || text.last() == '\n'
}

/// The part of `data` that rows `from` up to `to` show.
spec fn rows_part(data: Seq<u8>, from: int, to: int) -> Seq<u8> {
    data.subrange(clip(data, 16 * from), clip(data, 16 * to))
}

/// An offset, no greater than the length of the data.
spec fn clip(data: Seq<u8>, offset: int) -> int {
    if offset > data.len() {
        data.len() as int
    } else {
        offset
    }
}

/// A digit character is a hexadecimal digit with the value it stands for.
proof fn lemma_digit(d: int)
    requires
        0 <= d < 16,
    ensures
        is_hex_digit(digit(d)),
        digit_value(digit(d)) == d,
        digit(d) != ':',
        digit(d) != ' ',
        is_inline(digit(d)),
{
}

/// The two digits of a byte denote that byte.
proof fn lemma_byte_of(b: u8)
    ensures
        byte_of(hex_byte(b)[0], hex_byte(b)[1]) == b,
        is_hex_digit(hex_byte(b)[0]),
        is_hex_digit(hex_byte(b)[1]),
{
    lemma_digit(b as int / 16);
    lemma_digit(b as int % 16);
}

/// A hexadecimal numeral is a string of one or more hexadecimal digits.
proof fn lemma_hex_chars(n: nat, width: nat)
    ensures
        hex(n, width).len() >= 1,
        forall|i: int|
            0 <= i < hex(n, width).len() ==> is_hex_digit(#[trigger] hex(n, width)[i]),
    decreases n, width,
{
    if n < 16 && width <= 1 {
        lemma_digit(n as int);
    } else {
        let w: nat = if width > 0 {
            (width - 1) as nat
        } else {
            0
        };
        lemma_hex_chars(n / 16, w);
        lemma_digit((n % 16) as int);
    }
}

/// A decimal numeral is a string of digits.
proof fn lemma_decimal_chars(n: nat)
    ensures
        forall|i: int|
            0 <= i < decimal(n).len() ==> is_hex_digit(#[trigger] decimal(n)[i]),
    decreases n,
{
    if n < 10 {
        lemma_digit(n as int);
    } else {
        lemma_decimal_chars(n / 10);
        lemma_digit((n % 10) as int);
        let front = decimal(n / 10);
        assert forall|i: int| 0 <= i < decimal(n).len() implies is_hex_digit(
            #[trigger] decimal(n)[i],
        ) by {
            if i < front.len() {
                assert(decimal(n)[i] == front[i]);
            }
        }
    }
}

/// The first colon of a line stands after the characters that are none.
proof fn lemma_colon_at(line: Seq<char>, from: int, at: int)
    requires
        0 <= from <= at <= line.len(),
        forall|i: int| from <= i < at ==> line[i] != ':',
        at < line.len() ==> line[at] == ':',
    ensures
        colon_at(line, from) == at,
    decreases at - from,
{
    if from < at {
        lemma_colon_at(line, from + 1, at);
    }
}

/// The first `n` cells end where cell `n` would start.
proof fn lemma_cells_len(chunk: Seq<u8>, n: nat)
    requires
        n <= 16,
    ensures
        cells(chunk, n).len() == cell_offset(n as int),
    decreases n,
{
    if n > 0 {
        lemma_cells_len(chunk, (n - 1) as nat);
    }
}

/// What stands at the start of cell `j` among the first `n` cells.
proof fn lemma_cells_at(chunk: Seq<u8>, n: nat, j: int)
    requires
        0 <= j < n <= 16,
    ensures
        cells(chunk, n).len() == cell_offset(n as int),
        j < chunk.len() ==> cells(chunk, n)[cell_offset(j)] == hex_byte(chunk[j])[0] && cells(
            chunk,
            n,
        )[cell_offset(j) + 1] == hex_byte(chunk[j])[1],
        j >= chunk.len() ==> cells(chunk, n)[cell_offset(j)] == ' ',
    decreases n,
{
    lemma_cells_len(chunk, n);
    lemma_cells_len(chunk, (n - 1) as nat);
    if j < n - 1 {
        lemma_cells_at(chunk, (n - 1) as nat, j);
    } else {
        let c = cell(chunk, j);
        assert(cells(chunk, n)[cell_offset(j)] == c[0]);
        assert(cells(chunk, n)[cell_offset(j) + 1] == c[1]);
    }
}

/// Cells hold no line ending.
proof fn lemma_cells_inline(chunk: Seq<u8>, n: nat)
    requires
        n <= 16,
    ensures
        forall|i: int| 0 <= i < cells(chunk, n).len() ==> is_inline(#[trigger] cells(chunk, n)[i]),
    decreases n,
{
    if n > 0 {
        lemma_cells_inline(chunk, (n - 1) as nat);
        let j = n - 1;
        if j < chunk.len() {
            lemma_digit(chunk[j] as int / 16);
            lemma_digit(chunk[j] as int % 16);
        }
        let c = cell(chunk, j);
        let front = cells(chunk, (n - 1) as nat);
        assert forall|i: int| 0 <= i < c.len() implies is_inline(#[trigger] c[i]) by {}
        assert forall|i: int| 0 <= i < cells(chunk, n).len() implies is_inline(
            #[trigger] cells(chunk, n)[i],
        ) by {
            if i < front.len() {
                assert(cells(chunk, n)[i] == front[i]);
            } else {
                assert(cells(chunk, n)[i] == c[i - front.len()]);
            }
        }
    }
}

/// The cells of a line show the bytes of the chunk from cell `j` on.
proof fn lemma_cells_bytes(line: Seq<char>, base: int, chunk: Seq<u8>, j: int)
    requires
        0 <= j <= chunk.len() <= 16,
        0 <= base,
        base + 50 <= line.len(),
        forall|k: int|
            0 <= k < 49 ==> line[base + k] == #[trigger] cells(chunk, 16)[k],
    ensures
        cells_bytes(line, base + cell_offset(j), j) == chunk.subrange(j, chunk.len() as int),
    decreases chunk.len() - j,
{
    lemma_cells_len(chunk, 16);
    if j == chunk.len() {
        if j < 16 {
            lemma_cells_at(chunk, 16, j);
            assert(line[base + cell_offset(j)] == cells(chunk, 16)[cell_offset(j)]);
        }
        assert(cells_bytes(line, base + cell_offset(j), j) =~= chunk.subrange(
            j,
            chunk.len() as int,
        ));
    } else {
        lemma_cells_at(chunk, 16, j);
        lemma_byte_of(chunk[j]);
        assert(line[base + cell_offset(j)] == cells(chunk, 16)[cell_offset(j)]);
        assert(line[base + cell_offset(j) + 1] == cells(chunk, 16)[cell_offset(j) + 1]);
        lemma_cells_bytes(line, base, chunk, j + 1);
        assert(cell_offset(j) + cell_width(j) == cell_offset(j + 1));
        assert(seq![chunk[j]] + chunk.subrange(j + 1, chunk.len() as int) =~= chunk.subrange(
            j,
            chunk.len() as int,
        ));
    }
}

/// A row without its line feed.
spec fn row_line(offset: nat, chunk: Seq<u8>) -> Seq<char> {
    hex(offset, 4) + seq![':', ' '] + cells(chunk, 16) + seq![' ', ' '] + text_column(chunk)
}

/// A row is a line that shows its chunk.
proof fn lemma_row_line(offset: nat, chunk: Seq<u8>)
    requires
        chunk.len() <= 16,
    ensures
        row(offset, chunk) == row_line(offset, chunk) + seq!['\n'],
        line_bytes(row_line(offset, chunk)) == chunk,
        forall|i: int|
            0 <= i < row_line(offset, chunk).len() ==> #[trigger] row_line(offset, chunk)[i]
                != '\n',
        row_line(offset, chunk).len() > 0,
        row_line(offset, chunk).last() != '\r',
{
    let digits = hex(offset, 4);
    let head = digits + seq![':', ' '];
    let grid = cells(chunk, 16);
    let line = row_line(offset, chunk);
    lemma_hex_chars(offset, 4);
    lemma_cells_len(chunk, 16);
    lemma_cells_inline(chunk, 16);
    assert(row(offset, chunk) =~= line + seq!['\n']);
    assert(line =~= head + grid + seq![' ', ' '] + text_column(chunk));
    assert(line.len() == head.len() + 49 + 2 + chunk.len());
    assert forall|i: int| 0 <= i < digits.len() implies line[i] != ':' && line[i] != '\n' by {
        assert(line[i] == digits[i]);
        assert(is_hex_digit(digits[i]));
    }
    assert(line[digits.len() as int] == ':');
    lemma_colon_at(line, 0, digits.len() as int);
    let base = head.len() as int;
    assert forall|k: int| 0 <= k < 49 implies line[base + k] == #[trigger] grid[k] by {}
    lemma_cells_bytes(line, base, chunk, 0);
    assert(chunk.subrange(0, chunk.len() as int) =~= chunk);
    assert forall|i: int| 0 <= i < line.len() implies #[trigger] line[i] != '\n' by {
        if i < digits.len() {
        } else if i < base {
        } else if i < base + 49 {
            assert(line[i] == grid[i - base]);
            assert(is_inline(grid[i - base]));
        } else if i < base + 51 {
        } else {
            assert(line[i] == text_column(chunk)[i - base - 51]);
        }
    }
    if chunk.len() > 0 {
        assert(line.last() == text_column(chunk)[chunk.len() - 1]);
    } else {
        assert(line.last() == ' ');
    }
}

/// A text that is read inside its last line, which a line feed ends, has
/// that one line to come.
proof fn lemma_scan_line(whole: Seq<char>, start: int, pos: int, end: int)
    requires
        0 <= start <= pos <= end,
        end + 1 == whole.len(),
        whole[end] == '\n',
        forall|i: int| start <= i < end ==> whole[i] != '\n',
    ensures
        lines_scan(whole, start, pos) == seq![strip_cr(whole.subrange(start, end))],
    decreases end - pos,
{
    if pos < end {
        lemma_scan_line(whole, start, pos + 1, end);
    } else {
        assert(lines_scan(whole, end + 1, end + 1) =~= Seq::<Seq<char>>::empty());
        assert(lines_scan(whole, start, pos) =~= seq![strip_cr(whole.subrange(start, end))]);
    }
}

/// The lines of whole lines and more text are the lines of the whole lines
/// and then those of the rest.
proof fn lemma_scan_prefix(text: Seq<char>, more: Seq<char>, start: int, pos: int)
    requires
        0 <= start <= pos <= text.len(),
        ends_lines(text),
        pos == text.len() ==> start == text.len(),
    ensures
        lines_scan(text + more, start, pos) == lines_scan(text, start, pos) + lines_scan(
            text + more,
            text.len() as int,
            text.len() as int,
        ),
    decreases text.len() - pos,
{
    let whole = text + more;
    if pos == text.len() {
        assert(lines_scan(text, start, pos) =~= Seq::<Seq<char>>::empty());
        assert(lines_scan(whole, start, pos) =~= lines_scan(text, start, pos) + lines_scan(
            whole,
            text.len() as int,
            text.len() as int,
        ));
    } else {
        assert(whole[pos] == text[pos]);
        if text[pos] == '\n' {
            lemma_scan_prefix(text, more, pos + 1, pos + 1);
            assert(whole.subrange(start, pos) =~= text.subrange(start, pos));
            assert(lines_scan(whole, start, pos) =~= lines_scan(text, start, pos) + lines_scan(
                whole,
                text.len() as int,
                text.len() as int,
            ));
        } else {
            lemma_scan_prefix(text, more, start, pos + 1);
        }
    }
}

/// A line and its line feed, put after whole lines, add that line.
proof fn lemma_lines_append(text: Seq<char>, line: Seq<char>)
    requires
        ends_lines(text),
        forall|i: int| 0 <= i < line.len() ==> line[i] != '\n',
        line.len() == 0 || line.last() != '\r',
    ensures
        lines_of(text + line + seq!['\n']) == lines_of(text).push(line),
        ends_lines(text + line + seq!['\n']),
{
    let more = line + seq!['\n'];
    let whole = text + more;
    assert(text + line + seq!['\n'] =~= whole);
    lemma_scan_prefix(text, more, 0, 0);
    let at = text.len() as int;
    assert forall|i: int| at <= i < at + line.len() implies whole[i] != '\n' by {
        assert(whole[i] == line[i - at]);
    }
    lemma_scan_line(whole, at, at, at + line.len());
    assert(whole.subrange(at, at + line.len()) =~= line);
    assert(lines_of(whole) =~= lines_of(text).push(line));
}

/// One more line at the end leaves the bytes of the lines before it as they
/// are.
proof fn lemma_lines_bytes_prefix(lines: Seq<Seq<char>>, line: Seq<char>, n: nat)
    requires
        n <= lines.len(),
    ensures
        lines_bytes(lines.push(line), n) == lines_bytes(lines, n),
    decreases n,
{
    if n > 0 {
        lemma_lines_bytes_prefix(lines, line, (n - 1) as nat);
    }
}

/// A line and its line feed, put after whole lines, add the bytes that the
/// line shows.
proof fn lemma_dump_append(text: Seq<char>, line: Seq<char>)
    requires
        ends_lines(text),
        forall|i: int| 0 <= i < line.len() ==> line[i] != '\n',
        line.len() == 0 || line.last() != '\r',
    ensures
        dump_bytes(text + line + seq!['\n']) == dump_bytes(text) + line_bytes(line),
        ends_lines(text + line + seq!['\n']),
{
    lemma_lines_append(text, line);
    let lines = lines_of(text);
    lemma_lines_bytes_prefix(lines, line, lines.len());
}

/// A line without a colon shows no bytes.
proof fn lemma_no_colon(line: Seq<char>)
    requires
        forall|i: int| 0 <= i < line.len() ==> line[i] != ':',
    ensures
        line_bytes(line) == Seq::<u8>::empty(),
{
    lemma_colon_at(line, 0, line.len() as int);
}

/// Rows put after whole lines add the bytes that they show.
proof fn lemma_rows_bytes(before: Seq<char>, data: Seq<u8>, from: int, to: int)
    requires
        ends_lines(before),
        0 <= from <= to <= row_count(data.len()),
    ensures
        dump_bytes(before + rows(data, from, to)) == dump_bytes(before) + rows_part(
            data,
            from,
            to,
        ),
        ends_lines(before + rows(data, from, to)),
    decreases to - from,
{
    if to <= from {
        assert(before + rows(data, from, to) =~= before);
        assert(rows_part(data, from, to) =~= Seq::<u8>::empty());
        assert(dump_bytes(before) + rows_part(data, from, to) =~= dump_bytes(before));
    } else {
        let chunk = chunk_of(data, to - 1);
        let offset = (16 * (to - 1)) as nat;
        let sofar = before + rows(data, from, to - 1);
        lemma_rows_bytes(before, data, from, to - 1);
        lemma_row_line(offset, chunk);
        lemma_dump_append(sofar, row_line(offset, chunk));
        assert(before + rows(data, from, to) =~= sofar + row_line(offset, chunk) + seq!['\n']);
        assert(rows_part(data, from, to - 1) + chunk =~= rows_part(data, from, to));
        assert(dump_bytes(before) + rows_part(data, from, to - 1) + chunk =~= dump_bytes(before)
            + rows_part(data, from, to));
    }
}

/// A page header is a line without a colon.
proof fn lemma_header_line(number: nat, first: nat, last: nat) -> (line: Seq<char>)
    ensures
        page_header(number, first, last) == line + seq!['\n'],
        forall|i: int| 0 <= i < line.len() ==> line[i] != ':' && line[i] != '\n',
        line.len() > 0,
        line.last() != '\r',
{
    reveal_strlit("--- page ");
    reveal_strlit(" (");
    reveal_strlit("-");
    reveal_strlit(" bytes) ---\n");
    let a = "--- page "@;
    let b = " ("@;
    let c = "-"@;
    let d = " bytes) ---\n"@;
    let tail = d.drop_last();
    let line = a + decimal(number) + b + decimal(first) + c + decimal(last) + tail;
    lemma_decimal_chars(number);
    lemma_decimal_chars(first);
    lemma_decimal_chars(last);
    assert(d =~= tail + seq!['\n']);
    assert(page_header(number, first, last) =~= line + seq!['\n']);
    assert(tail.len() == 11);
    assert(tail[10] == '-');
    assert(line.last() == tail[10]);
    let n1 = a.len() as int;
    let n2 = n1 + decimal(number).len();
    let n3 = n2 + b.len();
    let n4 = n3 + decimal(first).len();
    let n5 = n4 + c.len();
    let n6 = n5 + decimal(last).len();
    assert forall|i: int| 0 <= i < line.len() implies line[i] != ':' && line[i] != '\n' by {
        if i < n1 {
            assert(line[i] == a[i]);
        } else if i < n2 {
            assert(line[i] == decimal(number)[i - n1]);
            assert(is_hex_digit(decimal(number)[i - n1]));
        } else if i < n3 {
            assert(line[i] == b[i - n2]);
        } else if i < n4 {
            assert(line[i] == decimal(first)[i - n3]);
            assert(is_hex_digit(decimal(first)[i - n3]));
        } else if i < n5 {
            assert(line[i] == c[i - n4]);
        } else if i < n6 {
            assert(line[i] == decimal(last)[i - n5]);
            assert(is_hex_digit(decimal(last)[i - n5]));
        } else {
            assert(line[i] == tail[i - n6]);
            assert(tail[i - n6] == d[i - n6]);
        }
    }
    line
}

/// Pages put after whole lines add the bytes that their rows show.
proof fn lemma_pages_bytes(
    before: Seq<char>,
    data: Seq<u8>,
    page_lines: nat,
    start: nat,
    number: nat,
)
    requires
        ends_lines(before),
        page_lines > 0,
        start <= row_count(data.len()),
    ensures
        dump_bytes(before + pages(data, page_lines, start, number)) == dump_bytes(before)
            + rows_part(data, start as int, row_count(data.len()) as int),
    decreases row_count(data.len()) - start,
{
    let total = row_count(data.len());
    if start >= total {
        assert(before + pages(data, page_lines, start, number) =~= before);
        assert(rows_part(data, start as int, total as int) =~= Seq::<u8>::empty());
        assert(dump_bytes(before) + rows_part(data, start as int, total as int) =~= dump_bytes(
            before,
        ));
    } else {
        let end = page_end(data, page_lines, start);
        let header = page_header(number, 16 * start, page_last_byte(data, page_lines, start));
        let line = lemma_header_line(number, 16 * start, page_last_byte(data, page_lines, start));
        lemma_no_colon(line);
        lemma_dump_append(before, line);
        let headed = before + line + seq!['\n'];
        assert(headed =~= before + header);
        assert(dump_bytes(headed) =~= dump_bytes(before));
        lemma_rows_bytes(headed, data, start as int, end as int);
        let shown = headed + rows(data, start as int, end as int);
        let parted = if end < total {
            shown + seq!['\n']
        } else {
            shown
        };
        if end < total {
            let blank = Seq::<char>::empty();
            lemma_no_colon(blank);
            lemma_dump_append(shown, blank);
            assert(shown + blank + seq!['\n'] =~= parted);
            assert(dump_bytes(parted) =~= dump_bytes(shown));
        }
        lemma_pages_bytes(parted, data, page_lines, end, number + 1);
        assert(before + pages(data, page_lines, start, number) =~= parted + pages(
            data,
            page_lines,
            end,
            number + 1,
        ));
        assert(rows_part(data, start as int, end as int) + rows_part(
            data,
            end as int,
            total as int,
        ) =~= rows_part(data, start as int, total as int));
        assert(dump_bytes(before) + rows_part(data, start as int, end as int) + rows_part(
            data,
            end as int,
            total as int,
        ) =~= dump_bytes(before) + rows_part(data, start as int, total as int));
    }
}

/// The hexadecimal columns of a dump show exactly the bytes that the dump
/// was made from: the first `bytes_to_show` bytes of the payload, or all of
/// it if it is shorter.
pub proof fn lemma_dump_shows_its_bytes(payload: Seq<u8>, bytes_to_show: nat)
    ensures
        dump_bytes(hex_dump(payload, bytes_to_show)) == shown_part(payload, bytes_to_show),
{
    let data = shown_part(payload, bytes_to_show);
    let total = row_count(data.len()) as int;
    let before = Seq::<char>::empty();
    lemma_rows_bytes(before, data, 0, total);
    assert(before + rows(data, 0, total) =~= hex_dump(payload, bytes_to_show));
    assert(dump_bytes(before) =~= Seq::<u8>::empty());
    assert(rows_part(data, 0, total) =~= data);
    assert(dump_bytes(before) + rows_part(data, 0, total) =~= data);
}

/// The hexadecimal columns of a paginated dump show exactly the bytes that
/// the dump was made from, whatever the number of rows to a page: page
/// headers and the empty lines between pages show no bytes.
pub proof fn lemma_paged_dump_shows_its_bytes(
    payload: Seq<u8>,
    bytes_to_show: nat,
    page_lines: nat,
)
    ensures
        dump_bytes(hex_dump_paged(payload, bytes_to_show, page_lines)) == shown_part(
            payload,
            bytes_to_show,
        ),
{
    if page_lines == 0 {
        lemma_dump_shows_its_bytes(payload, bytes_to_show);
    } else {
        let data = shown_part(payload, bytes_to_show);
        let total = row_count(data.len()) as int;
        let before = Seq::<char>::empty();
        lemma_pages_bytes(before, data, page_lines, 0, 1);
        assert(before + pages(data, page_lines, 0, 1) =~= hex_dump_paged(
            payload,
            bytes_to_show,
            page_lines,
        ));
        assert(dump_bytes(before) =~= Seq::<u8>::empty());
        assert(rows_part(data, 0, total) =~= data);
        assert(dump_bytes(before) + rows_part(data, 0, total) =~= data);
    }
}

} // verus!
