use network_monitor::{format_hex_dump, format_hex_dump_paged};

fn reference_row(out: &mut String, offset: usize, chunk: &[u8]) {
    out.push_str(&format!("{:04x}: ", offset));
    for j in 0..16 {
        if j < chunk.len() {
            out.push_str(&format!("{:02x} ", chunk[j]));
        } else {
            out.push_str("   ");
        }
        if j == 7 {
            out.push(' ');
        }
    }
    out.push_str("  ");
    for byte in chunk {
        if byte.is_ascii_graphic() || *byte == b' ' {
            out.push(*byte as char);
        } else {
            out.push('.');
        }
    }
    out.push('\n');
}

fn reference_dump(payload: &[u8], bytes_to_show: usize) -> String {
    let shown = core::cmp::min(bytes_to_show, payload.len());
    let mut out = String::new();
    for (i, chunk) in payload[..shown].chunks(16).enumerate() {
        reference_row(&mut out, i * 16, chunk);
    }
    out
}

fn reference_paged(payload: &[u8], bytes_to_show: usize, page_lines: usize) -> String {
    let shown = core::cmp::min(bytes_to_show, payload.len());
    if page_lines == 0 {
        return reference_dump(payload, shown);
    }
    let total_lines = (shown + 15) / 16;
    let pages = (total_lines + page_lines - 1) / page_lines;
    let mut out = String::new();
    for page in 0..pages {
        let start_line = page * page_lines;
        let end_line = core::cmp::min((page + 1) * page_lines, total_lines);
        let end_byte = core::cmp::min(end_line * 16, shown);
        out.push_str(&format!("--- page {} ({}-{} bytes) ---\n", page + 1, start_line * 16, end_byte - 1));
        for line in start_line..end_line {
            let line_end = core::cmp::min(line * 16 + 16, shown);
            reference_row(&mut out, line * 16, &payload[line * 16..line_end]);
        }
        if page < pages - 1 {
            out.push('\n');
        }
    }
    out
}

fn reparse(dump: &str) -> Vec<u8> {
    let mut bytes = Vec::new();
    for line in dump.lines() {
        let colon = match line.find(':') {
            Some(at) => at,
            None => continue,
        };
        let chars: Vec<char> = line.chars().collect();
        let mut at = colon + 2;
        let mut j = 0;
        while j < 16 && at + 1 < chars.len() {
            let high = chars[at].to_digit(16);
            let low = chars[at + 1].to_digit(16);
            match (high, low) {
                (Some(high), Some(low)) => bytes.push((high * 16 + low) as u8),
                _ => break,
            }
            at += if j == 7 { 4 } else { 3 };
            j += 1;
        }
    }
    bytes
}

fn sample(len: usize) -> Vec<u8> {
    (0..len).map(|i| (i * 37 + 11) as u8).collect()
}

#[test]
fn dump_of_nothing_is_empty() {
    assert_eq!(format_hex_dump(&[], 0), "");
    assert_eq!(format_hex_dump(&[], 128), "");
    assert_eq!(format_hex_dump(&[1, 2, 3], 0), "");
    assert_eq!(format_hex_dump_paged(&[], 10, 4), "");
    assert_eq!(format_hex_dump_paged(&[1, 2, 3], 0, 4), "");
}

#[test]
fn dump_of_a_full_row() {
    let payload: Vec<u8> = (0x41u8..0x51).collect();
    assert_eq!(
        format_hex_dump(&payload, 16),
        "0000: 41 42 43 44 45 46 47 48  49 4a 4b 4c 4d 4e 4f 50   ABCDEFGHIJKLMNOP\n"
    );
}

#[test]
fn dump_pads_a_short_row() {
    assert_eq!(
        format_hex_dump(b"GET / HTTP", 128),
        format!("0000: 47 45 54 20 2f 20 48 54  54 50 {}  GET / HTTP\n", " ".repeat(18))
    );
    assert_eq!(format_hex_dump(&[0x7f], 1), format!("0000: 7f {}  .\n", " ".repeat(46)));
    assert_eq!(
        format_hex_dump(&[0, 1, 2, 3, 4, 5, 6, 7], 8),
        format!("0000: 00 01 02 03 04 05 06 07  {}  ........\n", " ".repeat(24))
    );
}

#[test]
fn dump_shows_only_visible_characters() {
    let dump = format_hex_dump(&[0x1f, 0x20, 0x21, 0x7e, 0x7f, 0x80, 0xff, b'\n', b'\t', b'.'], 10);
    assert!(dump.ends_with("  . !~......\n"));
}

#[test]
fn dump_counts_offsets_in_hexadecimal() {
    let payload = sample(40);
    let dump = format_hex_dump(&payload, 40);
    let lines: Vec<&str> = dump.lines().collect();
    assert_eq!(lines.len(), 3);
    assert!(lines[0].starts_with("0000: 0b 30 55 "));
    assert!(lines[1].starts_with("0010: "));
    assert!(lines[2].starts_with("0020: "));
    let long = sample(70000);
    let dump = format_hex_dump(&long, 70000);
    assert!(dump.contains("\nfff0: "));
    assert!(dump.contains("\n10000: "));
    assert!(dump.contains("\n11160: "));
}

#[test]
fn dump_agrees_with_plain_formatting() {
    let payload = sample(200);
    let mut len = 0;
    while len <= 200 {
        for shown in [0, 1, 15, 16, 17, len, 300] {
            assert_eq!(format_hex_dump(&payload[..len], shown), reference_dump(&payload[..len], shown));
        }
        len += 1;
    }
}

#[test]
fn paged_dump_agrees_with_plain_formatting() {
    let payload = sample(150);
    for len in [0usize, 1, 16, 17, 32, 33, 128, 150] {
        for shown in [0usize, 5, 16, 48, 128, 1000] {
            assert_eq!(
                format_hex_dump_paged(&payload[..len], shown, usize::MAX),
                reference_paged(&payload[..len], shown, 1000)
            );
            for page_lines in [0usize, 1, 2, 3, 8, 9, 1000] {
                assert_eq!(
                    format_hex_dump_paged(&payload[..len], shown, page_lines),
                    reference_paged(&payload[..len], shown, page_lines),
                    "{} {} {}",
                    len,
                    shown,
                    page_lines
                );
            }
        }
    }
}

#[test]
fn paged_dump_heads_each_page() {
    let payload = sample(50);
    let dump = format_hex_dump_paged(&payload, 50, 2);
    let lines: Vec<&str> = dump.lines().collect();
    assert_eq!(lines.len(), 7);
    assert_eq!(lines[0], "--- page 1 (0-31 bytes) ---");
    assert!(lines[1].starts_with("0000: "));
    assert!(lines[2].starts_with("0010: "));
    assert_eq!(lines[3], "");
    assert_eq!(lines[4], "--- page 2 (32-49 bytes) ---");
    assert!(lines[5].starts_with("0020: "));
    assert!(lines[6].starts_with("0030: "));
    assert!(dump.ends_with("\n"));
    assert!(!dump.ends_with("\n\n"));
}

#[test]
fn hex_columns_give_the_bytes_back() {
    let payload: Vec<u8> = (0..=255u8).chain(0..=255u8).collect();
    for shown in [0usize, 1, 7, 8, 9, 16, 17, 100, 256, 512, 600] {
        let expected = &payload[..core::cmp::min(shown, payload.len())];
        assert_eq!(reparse(&format_hex_dump(&payload, shown)), expected);
        for page_lines in [1usize, 3, 16] {
            assert_eq!(reparse(&format_hex_dump_paged(&payload, shown, page_lines)), expected);
        }
    }
}
