use network_monitor::wire::to_wire16;
use network_monitor::{
    parse, Consumer, DisplayMode, Filter, NetworkEvent, Outcome, PerWorkerStats, RenderOptions,
    Rendered, Verdict, EVENT_RECORD_SIZE,
};

fn event(protocol: u8, dport: u16, payload: &[u8]) -> NetworkEvent {
    let mut bytes = [0u8; 128];
    bytes[..payload.len()].copy_from_slice(payload);
    NetworkEvent {
        protocol,
        src_ip: u32::from_le_bytes([192, 168, 1, 5]),
        dst_ip: u32::from_le_bytes([10, 0, 0, 9]),
        src_port: u16::from_le_bytes(443u16.to_be_bytes()),
        dst_port: u16::from_le_bytes(dport.to_be_bytes()),
        packet_size: 0x01020304,
        tcp_flags: 0x18,
        payload_len: payload.len() as u8,
        _pad: [0xaa, 0xbb],
        payload: bytes,
    }
}

fn options(mode: DisplayMode) -> RenderOptions {
    RenderOptions { mode, payload_bytes: 128, payload_full: false, page_lines: 0 }
}

fn same(a: &NetworkEvent, b: &NetworkEvent) -> bool {
    a.protocol == b.protocol
        && a.src_ip == b.src_ip
        && a.dst_ip == b.dst_ip
        && a.src_port == b.src_port
        && a.dst_port == b.dst_port
        && a.packet_size == b.packet_size
        && a.tcp_flags == b.tcp_flags
        && a.payload_len == b.payload_len
        && a._pad == b._pad
        && a.payload == b.payload
}

#[test]
fn record_has_its_fields_at_their_offsets() {
    let record = event(6, 51000, b"xyz").to_record();
    assert_eq!(record.len(), EVENT_RECORD_SIZE);
    assert_eq!(record.len(), 152);
    assert_eq!(record[0], 6);
    assert_eq!(&record[1..4], &[0, 0, 0]);
    assert_eq!(&record[4..8], &[192, 168, 1, 5]);
    assert_eq!(&record[8..12], &[10, 0, 0, 9]);
    assert_eq!(&record[12..14], &443u16.to_be_bytes());
    assert_eq!(&record[14..16], &51000u16.to_be_bytes());
    assert_eq!(&record[16..20], &[4, 3, 2, 1]);
    assert_eq!(record[20], 0x18);
    assert_eq!(record[21], 3);
    assert_eq!(&record[22..24], &[0xaa, 0xbb]);
    assert_eq!(&record[24..27], b"xyz");
    assert!(record[27..].iter().all(|b| *b == 0));
}

#[test]
fn record_gives_the_event_back() {
    for payload in [&b""[..], b"a", b"hello world", &[0xff; 128]] {
        let subject = event(17, 53, payload);
        let record = subject.to_record();
        let decoded = NetworkEvent::from_record(&record).unwrap();
        assert!(same(&decoded, &subject));
        let mut longer = record.to_vec();
        longer.extend_from_slice(&[9, 9, 9]);
        assert!(same(&NetworkEvent::from_record(&longer).unwrap(), &subject));
    }
}

#[test]
fn record_that_holds_no_event_is_refused() {
    let record = event(6, 80, b"abc").to_record();
    assert!(NetworkEvent::from_record(&record[..151]).is_none());
    assert!(NetworkEvent::from_record(&[]).is_none());
    let mut long_payload = record;
    long_payload[21] = 129;
    assert!(NetworkEvent::from_record(&long_payload).is_none());
    long_payload[21] = 255;
    assert!(NetworkEvent::from_record(&long_payload).is_none());
    long_payload[21] = 128;
    assert_eq!(NetworkEvent::from_record(&long_payload).unwrap().payload_len, 128);
}

#[test]
fn captured_payload_is_its_first_bytes() {
    assert_eq!(event(6, 80, b"").captured(), b"");
    assert_eq!(event(6, 80, b"abc").captured(), b"abc");
    assert_eq!(event(6, 80, &[7; 128]).captured(), &[7u8; 128][..]);
}

#[test]
fn parsed_frame_travels_through_a_record() {
    let mut frame = vec![0u8; 12];
    frame.extend_from_slice(&[0x08, 0x00, 0x45, 0, 0, 0, 0, 0, 0, 0, 64, 17, 0, 0, 8, 8, 4, 4, 10, 0, 0, 7]);
    frame.extend_from_slice(&[0, 53, 0x30, 0x39, 0, 12, 0, 0]);
    frame.extend_from_slice(b"data");
    let parsed = match parse(&frame) {
        Verdict::Matched(event) => event,
        Verdict::Pass => panic!("the frame was passed"),
    };
    let mut consumer = Consumer::new(Filter::any(), options(DisplayMode::Basic));
    match consumer.consume(&parsed.to_record(), 0) {
        Outcome::Shown(decoded, Rendered::Text(line)) => {
            assert!(same(&decoded, &parsed));
            assert_eq!(line, "UDP 8.8.4.4:53 -> 10.0.0.7:12345 (46b)");
        }
        other => panic!("unexpected outcome {:?}", other),
    }
}

#[test]
fn new_counters_are_zero() {
    let stats = PerWorkerStats::new();
    assert_eq!(stats.total, 0);
    assert_eq!(stats.filtered, 0);
    assert!(stats.per_protocol.is_empty());
    let consumer = Consumer::new(Filter::any(), options(DisplayMode::Hex));
    assert_eq!(consumer.stats.total, 0);
    assert_eq!(consumer.stats.filtered, 0);
    assert!(consumer.stats.per_protocol.is_empty());
    assert_eq!(consumer.options.mode, DisplayMode::Hex);
    assert_eq!(consumer.filter.protocol, None);
}

#[test]
fn counters_follow_the_events() {
    let mut stats = PerWorkerStats::new();
    stats.count_event(6, true);
    stats.count_event(6, false);
    stats.count_event(17, true);
    stats.count_event(6, true);
    stats.count_event(200, false);
    assert_eq!(stats.total, 5);
    assert_eq!(stats.filtered, 3);
    assert_eq!(stats.per_protocol.get(&6), Some(&2));
    assert_eq!(stats.per_protocol.get(&17), Some(&1));
    assert_eq!(stats.per_protocol.get(&200), None);
    assert_eq!(stats.per_protocol.len(), 2);
}

#[test]
fn consumer_counts_filters_and_renders() {
    let filter = Filter {
        protocol: Some(17),
        src_ip: None,
        dst_ip: None,
        src_port: None,
        dst_port: Some(to_wire16(53)),
    };
    let mut consumer = Consumer::new(filter, options(DisplayMode::Basic));

    let tcp = event(6, 53, b"");
    match consumer.consume(&tcp.to_record(), 0) {
        Outcome::Dropped(decoded) => assert!(same(&decoded, &tcp)),
        other => panic!("unexpected outcome {:?}", other),
    }
    assert_eq!((consumer.stats.total, consumer.stats.filtered), (1, 0));
    assert!(consumer.stats.per_protocol.is_empty());

    let udp = event(17, 53, b"q");
    match consumer.consume(&udp.to_record(), 0) {
        Outcome::Shown(decoded, Rendered::Text(line)) => {
            assert!(same(&decoded, &udp));
            assert_eq!(line, "UDP 192.168.1.5:443 -> 10.0.0.9:53 (16909060b)");
        }
        other => panic!("unexpected outcome {:?}", other),
    }
    assert_eq!((consumer.stats.total, consumer.stats.filtered), (2, 1));
    assert_eq!(consumer.stats.per_protocol.get(&17), Some(&1));

    assert!(matches!(consumer.consume(&[0u8; 151], 0), Outcome::Malformed));
    let mut bad = udp.to_record();
    bad[21] = 200;
    assert!(matches!(consumer.consume(&bad, 0), Outcome::Malformed));
    assert_eq!((consumer.stats.total, consumer.stats.filtered), (2, 1));

    assert!(matches!(consumer.consume(&udp.to_record(), 0), Outcome::Shown(_, _)));
    assert!(matches!(consumer.consume(&event(17, 54, b"").to_record(), 0), Outcome::Dropped(_)));
    assert_eq!((consumer.stats.total, consumer.stats.filtered), (4, 2));
    assert_eq!(consumer.stats.per_protocol.get(&17), Some(&2));
    assert_eq!(consumer.stats.per_protocol.len(), 1);
    assert_eq!(consumer.filter.protocol, Some(17));
    assert_eq!(consumer.options.mode, DisplayMode::Basic);
}

#[test]
fn consumer_renders_as_its_options_say() {
    let subject = event(6, 80, b"GET / HTTP/1.1\r\n\r\n");
    let mut consumer = Consumer::new(
        Filter::any(),
        RenderOptions { mode: DisplayMode::Protocol, payload_bytes: 4, payload_full: false, page_lines: 0 },
    );
    match consumer.consume(&subject.to_record(), 0) {
        Outcome::Shown(_, Rendered::Text(text)) => assert_eq!(
            text,
            "TCP 192.168.1.5:443 -> 10.0.0.9:80 (16909060b)\nHTTP Request:\n  GET / HTTP/1.1\n"
        ),
        other => panic!("unexpected outcome {:?}", other),
    }
    let mut consumer = Consumer::new(
        Filter::any(),
        RenderOptions { mode: DisplayMode::Text, payload_bytes: 3, payload_full: false, page_lines: 0 },
    );
    match consumer.consume(&subject.to_record(), 0) {
        Outcome::Shown(_, Rendered::Text(text)) => {
            assert_eq!(text, "TCP 192.168.1.5:443 -> 10.0.0.9:80 (16909060b)\nContent:\n  GET")
        }
        other => panic!("unexpected outcome {:?}", other),
    }
    let mut consumer = Consumer::new(Filter::any(), options(DisplayMode::Json));
    match consumer.consume(&subject.to_record(), 42) {
        Outcome::Shown(_, Rendered::Json(record)) => {
            assert_eq!(record.timestamp, 42);
            assert_eq!(record.protocol, "TCP");
            assert_eq!(record.dst_port, 80);
            assert_eq!(record.payload_len, 18);
            assert_eq!(record.payload_hex.len(), 53);
        }
        other => panic!("unexpected outcome {:?}", other),
    }
}
