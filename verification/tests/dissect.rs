use network_monitor::lines::{split_lines, trim};
use network_monitor::{
    dissect_dns, format_dns, format_protocol_parse, format_text, format_text_payload, parse_dns,
    parse_http, parse_http_text, DnsMessage, DnsQuestion, NetworkEvent,
};

fn event(protocol: u8, sport: u16, dport: u16, payload: &[u8]) -> NetworkEvent {
    let mut bytes = [0u8; 128];
    bytes[..payload.len()].copy_from_slice(payload);
    NetworkEvent {
        protocol,
        src_ip: u32::from_le_bytes([10, 0, 0, 1]),
        dst_ip: u32::from_le_bytes([10, 0, 0, 2]),
        src_port: u16::from_le_bytes(sport.to_be_bytes()),
        dst_port: u16::from_le_bytes(dport.to_be_bytes()),
        packet_size: 200,
        tcp_flags: 0,
        payload_len: payload.len() as u8,
        _pad: [0; 2],
        payload: bytes,
    }
}

fn dns_query(flags: [u8; 2], count: u16, questions: &[(&[&[u8]], u16)]) -> Vec<u8> {
    let mut message = vec![0x12, 0x34, flags[0], flags[1]];
    message.extend_from_slice(&count.to_be_bytes());
    message.extend_from_slice(&[0; 6]);
    for (labels, qtype) in questions {
        for label in labels.iter() {
            message.push(label.len() as u8);
            message.extend_from_slice(label);
        }
        message.push(0);
        message.extend_from_slice(&qtype.to_be_bytes());
        message.extend_from_slice(&[0, 1]);
    }
    message
}

fn lines_of(text: &str) -> Vec<String> {
    let chars: Vec<char> = text.chars().collect();
    split_lines(&chars).iter().map(|line| line.iter().collect()).collect()
}

fn trimmed(text: &str) -> String {
    let chars: Vec<char> = text.chars().collect();
    trim(&chars).iter().collect()
}

#[test]
fn lines_are_split_as_the_standard_library_splits_them() {
    for text in [
        "", "a", "a\n", "a\nb", "a\n\nb", "\n", "\n\n", "a\r\nb", "a\rb", "a\r", "a\r\n", "\r\n",
        "\r", "a\r\r\nb", "a\n\rb", " \n \n", "one\ntwo\nthree\n", "tab\there\n\u{fffd}x\r\n\r\n",
        "\ntrailing", "\u{2028}not a line ending\u{85}", "\r\n\r\n\r\n",
    ] {
        let expected: Vec<String> = text.lines().map(|line| line.to_string()).collect();
        assert_eq!(lines_of(text), expected, "{:?}", text);
    }
}

#[test]
fn white_space_is_trimmed_as_the_standard_library_trims_it() {
    for text in [
        "", " ", "a", " a", "a ", "  a b  ", "\t\r\n a \x0b\x0c", "\u{a0}x\u{2003}", "\u{3000}",
        "\u{85}y\u{1680}", "\u{200b}z", "\u{2028}w\u{2029}", "\u{202f}\u{205f}", "\u{feff}q",
        " \u{fffd} ", "x\u{180e}", "\u{2000}\u{200a}m\u{2001}",
    ] {
        assert_eq!(trimmed(text), text.trim(), "{:?}", text);
    }
    let all: String = (0u32..0x3100).filter_map(char::from_u32).filter(|c| c.is_whitespace()).collect();
    assert_eq!(trimmed(&all), "");
    let mut code = 0u32;
    while code < 0x3100 {
        if let Some(c) = char::from_u32(code) {
            let text = format!("{}x{}", c, c);
            assert_eq!(trimmed(&text), text.trim(), "{:x}", code);
        }
        code += 1;
    }
}

#[test]
fn text_is_shown_indented() {
    assert_eq!(format_text(""), "");
    assert_eq!(format_text("one"), "  one");
    assert_eq!(format_text("one\n"), "  one");
    assert_eq!(format_text("one\ntwo"), "  one\n  two");
    assert_eq!(format_text("one\r\n\r\nthree\n"), "  one\n  \n  three");
    assert_eq!(format_text("\n"), "  ");
}

#[test]
fn text_is_cut_after_ten_lines() {
    assert_eq!(
        format_text("1\n2\n3\n4\n5\n6\n7\n8\n9\n10\n11\n12\n"),
        "  1\n  2\n  3\n  4\n  5\n  6\n  7\n  8\n  9\n  10"
    );
    assert_eq!(
        format_text("1\n2\n3\n4\n5\n6\n7\n8\n9\n10"),
        "  1\n  2\n  3\n  4\n  5\n  6\n  7\n  8\n  9\n  10"
    );
    assert_eq!(format_text("1\n2\n3\n4\n5\n6\n7\n8\n9"), "  1\n  2\n  3\n  4\n  5\n  6\n  7\n  8\n  9");
}

#[test]
fn payload_that_is_mostly_text_is_shown_as_text() {
    assert_eq!(format_text_payload(b"hello\nworld"), "  hello\n  world");
    assert_eq!(format_text_payload(b"abcd\x00e"), "  abcd\u{0}e");
    assert_eq!(format_text_payload(b"a\tb \x0c\r\n"), "  a\tb \u{c}");
}

#[test]
fn payload_at_four_fifths_text_is_dumped() {
    assert_eq!(
        format_text_payload(b"abcd\x00"),
        format!("0000: 61 62 63 64 00 {}  abcd.\n", " ".repeat(34))
    );
    assert_eq!(
        format_text_payload(b"abcdefgh\x00\x01"),
        format!("0000: 61 62 63 64 65 66 67 68  00 01 {}  abcdefgh..\n", " ".repeat(18))
    );
    assert_eq!(format_text_payload(b"abcdefghi\x00\x01"), "  abcdefghi\u{0}\u{1}");
    assert_eq!(format_text_payload(b""), "");
    assert_eq!(format_text_payload(b"\x0b"), format!("0000: 0b {}  .\n", " ".repeat(46)));
}

#[test]
fn invalid_utf8_is_replaced() {
    assert_eq!(format_text_payload(b"caf\xc3\xa9 ok ok ok ok"), "  caf\u{e9} ok ok ok ok");
    assert_eq!(format_text_payload(b"abcdefgh\xffij"), "  abcdefgh\u{fffd}ij");
    assert_eq!(format_text_payload(b"abcdefghijkl\xe2\x82"), "  abcdefghijkl\u{fffd}");
    assert_eq!(format_text_payload(b"abcdefghijklm\xe2\x82\xac"), "  abcdefghijklm\u{20ac}");
    let payload = b"GET /\xff HTTP/1.1\r\nX: \xc0\xaf\r\n";
    let expected = String::from_utf8_lossy(payload);
    let shown = parse_http(payload).unwrap();
    assert_eq!(shown, format!("HTTP Request:\n  {}\n  {}\n", expected.lines().next().unwrap(), expected.lines().nth(1).unwrap()));
    assert!(shown.contains('\u{fffd}'));
}

#[test]
fn http_request_head_is_shown_up_to_the_blank_line() {
    let payload = b"GET /index.html HTTP/1.1\r\nHost: example.com\r\n\r\nBODY";
    assert_eq!(
        parse_http(payload).unwrap(),
        "HTTP Request:\n  GET /index.html HTTP/1.1\n  Host: example.com\n"
    );
    let shown = format_protocol_parse(&event(6, 40000, 80, payload));
    assert_eq!(
        shown,
        "TCP 10.0.0.1:40000 -> 10.0.0.2:80 (200b)\nHTTP Request:\n  GET /index.html HTTP/1.1\n  Host: example.com\n"
    );
    assert!(!shown.contains("BODY"));
}

#[test]
fn http_response_head_is_shown() {
    assert_eq!(
        parse_http_text("HTTP/1.1 200 OK\nServer: x\n  Content-Length: 2  \n\nhi"),
        Some("HTTP Response:\n  HTTP/1.1 200 OK\n  Server: x\n  Content-Length: 2\n".to_string())
    );
    assert_eq!(parse_http_text("HTTP/"), Some("HTTP Response:\n  HTTP/\n".to_string()));
    let shown = format_protocol_parse(&event(6, 80, 40000, b"HTTP/1.0 404 Not Found\r\n\r\n"));
    assert_eq!(shown, "TCP 10.0.0.1:80 -> 10.0.0.2:40000 (200b)\nHTTP Response:\n  HTTP/1.0 404 Not Found\n");
}

#[test]
fn every_request_method_is_known() {
    for method in ["GET", "POST", "PUT", "DELETE", "HEAD", "OPTIONS", "PATCH"] {
        let text = format!("{} /x HTTP/1.1\r\n", method);
        assert_eq!(parse_http_text(&text), Some(format!("HTTP Request:\n  {} /x HTTP/1.1\n", method)));
        assert_eq!(parse_http_text(method), None);
        assert_eq!(parse_http_text(&format!("{}/x", method)), None);
    }
    assert_eq!(parse_http_text("GET "), None);
    assert_eq!(parse_http_text("GET x"), Some("HTTP Request:\n  GET x\n".to_string()));
}

#[test]
fn text_that_is_no_http_is_refused() {
    for text in ["", "\n", "  \r\n\t\n", "get / HTTP/1.1", "CONNECT example.com:443", "TRACE /", "http/1.1 200", "HTTP", "hello\nGET / HTTP/1.1\n", "XGET /"] {
        assert_eq!(parse_http_text(text), None, "{:?}", text);
    }
    assert_eq!(parse_http(b""), None);
    assert_eq!(parse_http(&[0xff, 0xfe]), None);
}

#[test]
fn empty_lines_before_the_head_are_skipped() {
    assert_eq!(
        parse_http_text("\r\n\nGET / HTTP/1.1\r\nA: b\r\n\r\nC: d\r\n"),
        Some("HTTP Request:\n  GET / HTTP/1.1\n  A: b\n".to_string())
    );
    assert_eq!(parse_http_text("   POST /a b  "), Some("HTTP Request:\n  POST /a b\n".to_string()));
    assert_eq!(parse_http_text("  \r\nGET / HTTP/1.1\r\n"), None);
}

#[test]
fn at_most_twenty_header_lines_are_shown() {
    let mut text = String::from("GET / HTTP/1.1\n");
    let mut expected = String::from("HTTP Request:\n  GET / HTTP/1.1\n");
    let mut i = 1;
    while i <= 25 {
        text.push_str(&format!("H{}: v\n", i));
        if i <= 20 {
            expected.push_str(&format!("  H{}: v\n", i));
        }
        i += 1;
    }
    assert_eq!(parse_http_text(&text), Some(expected));
}

#[test]
fn dns_response_with_one_question() {
    let message = dns_query([0x81, 0x80], 1, &[(&[b"example", b"com"], 1)]);
    assert_eq!(
        parse_dns(&message).unwrap(),
        "DNS Response (1 questions)\n  Query 1: example.com (type: A)\n"
    );
    let shown = format_protocol_parse(&event(17, 53, 40000, &message));
    assert_eq!(
        shown,
        "UDP 10.0.0.1:53 -> 10.0.0.2:40000 (200b)\nDNS Response (1 questions)\n  Query 1: example.com (type: A)\n"
    );
    let dissected = dissect_dns(&message).unwrap();
    assert!(dissected.is_response);
    assert_eq!(dissected.question_count, 1);
    assert_eq!(dissected.questions.len(), 1);
    assert_eq!(dissected.questions[0].name, "example.com");
    assert_eq!(dissected.questions[0].qtype, Some(1));
}

#[test]
fn dns_query_with_several_questions() {
    let message = dns_query(
        [0x01, 0x00],
        5,
        &[(&[b"a"], 2), (&[b"www", b"b", b"org"], 5), (&[b"x"], 28), (&[], 255), (&[b"y"], 0x0100)],
    );
    assert_eq!(
        parse_dns(&message).unwrap(),
        "DNS Query (5 questions)\n  Query 1: a (type: NS)\n  Query 2: www.b.org (type: CNAME)\n  Query 3: x (type: AAAA)\n  Query 4:  (type: UNKNOWN)\n  Query 5: y (type: UNKNOWN)\n"
    );
    let shown = format_protocol_parse(&event(17, 40000, 53, &message));
    assert!(shown.starts_with("UDP 10.0.0.1:40000 -> 10.0.0.2:53 (200b)\nDNS Query (5 questions)\n"));
}

#[test]
fn dns_shorter_than_its_header_is_refused() {
    assert!(parse_dns(&[]).is_none());
    assert!(parse_dns(&[0; 11]).is_none());
    assert!(dissect_dns(&[0; 11]).is_none());
    assert_eq!(parse_dns(&[0; 12]).unwrap(), "DNS Query (0 questions)\n");
    let header_only = dns_query([0x80, 0], 3, &[]);
    assert_eq!(parse_dns(&header_only).unwrap(), "DNS Response (3 questions)\n");
}

#[test]
fn dns_dissection_stops_where_the_message_ends() {
    let whole = dns_query([0, 0], 2, &[(&[b"example", b"com"], 1), (&[b"z"], 1)]);
    assert_eq!(
        parse_dns(&whole[..whole.len() - 1]).unwrap(),
        "DNS Query (2 questions)\n  Query 1: example.com (type: A)\n  Query 2: z"
    );
    assert_eq!(
        parse_dns(&whole[..29]).unwrap(),
        "DNS Query (2 questions)\n  Query 1: example.com (type: A)\n"
    );
    assert_eq!(parse_dns(&whole[..28]).unwrap(), "DNS Query (2 questions)\n  Query 1: example.com");
    assert_eq!(parse_dns(&whole[..24]).unwrap(), "DNS Query (2 questions)\n  Query 1: example.com");
    assert_eq!(parse_dns(&whole[..23]).unwrap(), "DNS Query (2 questions)\n  Query 1: example");
    assert_eq!(parse_dns(&whole[..13]).unwrap(), "DNS Query (2 questions)\n  Query 1: ");
    let dissected = dissect_dns(&whole[..28]).unwrap();
    assert_eq!(dissected.questions.len(), 1);
    assert_eq!(dissected.questions[0].qtype, None);
}

#[test]
fn dns_label_past_the_end_ends_the_name() {
    let mut message = dns_query([0, 0], 1, &[]);
    message.extend_from_slice(&[3, b'a', b'b', b'c', 9, 0, 28, 0, 1]);
    assert_eq!(parse_dns(&message).unwrap(), "DNS Query (1 questions)\n  Query 1: abc (type: AAAA)\n");
    let mut pointer = dns_query([0, 0], 1, &[]);
    pointer.extend_from_slice(&[0xc0, 0x0c, 0, 1, 0, 1]);
    assert_eq!(parse_dns(&pointer).unwrap(), "DNS Query (1 questions)\n  Query 1:  (type: UNKNOWN)\n");
}

#[test]
fn dns_labels_are_decoded_lossily() {
    let message = dns_query([0, 0], 1, &[(&[b"caf\xc3\xa9", b"\xff\xfe", b"ok"], 1)]);
    assert_eq!(
        parse_dns(&message).unwrap(),
        "DNS Query (1 questions)\n  Query 1: caf\u{e9}.\u{fffd}\u{fffd}.ok (type: A)\n"
    );
}

#[test]
fn dissected_dns_is_shown_as_given() {
    let message = DnsMessage {
        is_response: true,
        question_count: 7,
        questions: vec![
            DnsQuestion { name: "one.example".to_string(), qtype: Some(28) },
            DnsQuestion { name: String::new(), qtype: Some(3) },
            DnsQuestion { name: "cut".to_string(), qtype: None },
        ],
    };
    assert_eq!(
        format_dns(&message),
        "DNS Response (7 questions)\n  Query 1: one.example (type: AAAA)\n  Query 2:  (type: UNKNOWN)\n  Query 3: cut"
    );
    let empty = DnsMessage { is_response: false, question_count: 65535, questions: Vec::new() };
    assert_eq!(format_dns(&empty), "DNS Query (65535 questions)\n");
}

#[test]
fn protocol_mode_falls_back_to_text() {
    let http = b"GET / HTTP/1.1\r\nHost: a\r\n\r\n";
    assert_eq!(
        format_protocol_parse(&event(6, 40000, 8080, http)),
        "TCP 10.0.0.1:40000 -> 10.0.0.2:8080 (200b)\nContent:\n  GET / HTTP/1.1\n  Host: a\n  "
    );
    assert_eq!(
        format_protocol_parse(&event(17, 40000, 80, http)),
        "UDP 10.0.0.1:40000 -> 10.0.0.2:80 (200b)\nContent:\n  GET / HTTP/1.1\n  Host: a\n  "
    );
    assert_eq!(
        format_protocol_parse(&event(6, 80, 40000, b"hello")),
        "TCP 10.0.0.1:80 -> 10.0.0.2:40000 (200b)\nContent:\n  hello"
    );
    assert_eq!(
        format_protocol_parse(&event(17, 53, 53, b"short")),
        "UDP 10.0.0.1:53 -> 10.0.0.2:53 (200b)\nContent:\n  short"
    );
    let message = dns_query([0x81, 0x80], 1, &[(&[b"example", b"com"], 1)]);
    let shown = format_protocol_parse(&event(6, 53, 40000, &message));
    assert!(shown.starts_with("TCP 10.0.0.1:53 -> 10.0.0.2:40000 (200b)\nContent:\n0000: 12 34 81 80 "));
    assert_eq!(format_protocol_parse(&event(1, 0, 0, b"")), "ICMP 10.0.0.1 -> 10.0.0.2 (200b)\nContent:\n");
}
