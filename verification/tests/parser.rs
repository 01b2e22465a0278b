use network_monitor::headers::{EthHdr, IcmpHdr, Ipv4Hdr, TcpHdr, UdpHdr};
use network_monitor::{parse, NetworkEvent, Verdict, MAX_PAYLOAD_SIZE};

fn ethernet(ether_type: [u8; 2]) -> Vec<u8> {
    let mut frame = vec![0x02, 0x00, 0x00, 0x00, 0x00, 0x01, 0x02, 0x00, 0x00, 0x00, 0x00, 0x02];
    frame.extend_from_slice(&ether_type);
    frame
}

fn ipv4(frame: &mut Vec<u8>, ihl: u8, protocol: u8, src: [u8; 4], dst: [u8; 4]) {
    frame.extend_from_slice(&[0x40 | ihl, 0, 0, 0, 0x12, 0x34, 0, 0, 64, protocol, 0, 0]);
    frame.extend_from_slice(&src);
    frame.extend_from_slice(&dst);
    let mut i = 5;
    while i < ihl {
        frame.extend_from_slice(&[1, 1, 1, 1]);
        i += 1;
    }
}

fn tcp(frame: &mut Vec<u8>, sport: u16, dport: u16, words: u8, flags: u8) {
    frame.extend_from_slice(&sport.to_be_bytes());
    frame.extend_from_slice(&dport.to_be_bytes());
    frame.extend_from_slice(&[0, 0, 0, 1, 0, 0, 0, 2, words << 4, flags, 0xff, 0xff, 0, 0, 0, 0]);
    let mut i = 5;
    while i < words {
        frame.extend_from_slice(&[2, 2, 2, 2]);
        i += 1;
    }
}

fn tcp_frame(payload: &[u8]) -> Vec<u8> {
    let mut frame = ethernet([0x08, 0x00]);
    ipv4(&mut frame, 5, 6, [192, 168, 1, 5], [10, 0, 0, 9]);
    tcp(&mut frame, 443, 51000, 5, 0x12);
    frame.extend_from_slice(payload);
    frame
}

fn matched(verdict: Verdict) -> NetworkEvent {
    match verdict {
        Verdict::Matched(event) => event,
        Verdict::Pass => panic!("the frame was passed"),
    }
}

fn is_pass(verdict: Verdict) -> bool {
    matches!(verdict, Verdict::Pass)
}

#[test]
fn tcp_frame_gives_its_fields() {
    let frame = tcp_frame(b"hello");
    let event = matched(parse(&frame));
    assert_eq!(event.protocol, 6);
    assert_eq!(event.src_ip.to_le_bytes(), [192, 168, 1, 5]);
    assert_eq!(event.dst_ip.to_le_bytes(), [10, 0, 0, 9]);
    assert_eq!(event.src_port.to_le_bytes(), 443u16.to_be_bytes());
    assert_eq!(event.dst_port.to_le_bytes(), 51000u16.to_be_bytes());
    assert_eq!(event.packet_size, 59);
    assert_eq!(event.tcp_flags, 0x12);
    assert_eq!(event.payload_len, 5);
    assert_eq!(&event.payload[..5], b"hello");
    assert!(event.payload[5..].iter().all(|b| *b == 0));
    assert_eq!(event._pad, [0, 0]);
}

#[test]
fn tcp_options_are_skipped() {
    let mut frame = ethernet([0x08, 0x00]);
    ipv4(&mut frame, 7, 6, [1, 2, 3, 4], [5, 6, 7, 8]);
    tcp(&mut frame, 80, 1234, 8, 0x02);
    frame.extend_from_slice(b"DATA");
    let event = matched(parse(&frame));
    assert_eq!(event.src_ip.to_le_bytes(), [1, 2, 3, 4]);
    assert_eq!(event.dst_ip.to_le_bytes(), [5, 6, 7, 8]);
    assert_eq!(event.src_port.to_le_bytes(), 80u16.to_be_bytes());
    assert_eq!(event.dst_port.to_le_bytes(), 1234u16.to_be_bytes());
    assert_eq!(event.tcp_flags, 0x02);
    assert_eq!(event.payload_len, 4);
    assert_eq!(&event.payload[..4], b"DATA");
    assert_eq!(event.packet_size as usize, frame.len());
}

#[test]
fn udp_frame_gives_its_fields() {
    let mut frame = ethernet([0x08, 0x00]);
    ipv4(&mut frame, 5, 17, [8, 8, 8, 8], [192, 168, 0, 2]);
    frame.extend_from_slice(&53u16.to_be_bytes());
    frame.extend_from_slice(&40000u16.to_be_bytes());
    frame.extend_from_slice(&[0, 11, 0, 0]);
    frame.extend_from_slice(b"abc");
    let event = matched(parse(&frame));
    assert_eq!(event.protocol, 17);
    assert_eq!(event.src_ip.to_le_bytes(), [8, 8, 8, 8]);
    assert_eq!(event.dst_ip.to_le_bytes(), [192, 168, 0, 2]);
    assert_eq!(event.src_port.to_le_bytes(), 53u16.to_be_bytes());
    assert_eq!(event.dst_port.to_le_bytes(), 40000u16.to_be_bytes());
    assert_eq!(event.tcp_flags, 0);
    assert_eq!(event.packet_size, 45);
    assert_eq!(event.payload_len, 3);
    assert_eq!(&event.payload[..3], b"abc");
}

#[test]
fn icmp_frame_has_no_ports() {
    let mut frame = ethernet([0x08, 0x00]);
    ipv4(&mut frame, 5, 1, [10, 1, 1, 1], [10, 1, 1, 2]);
    frame.extend_from_slice(&[8, 0, 0xf7, 0xff]);
    frame.extend_from_slice(&[0, 1, 0, 1, 0x61, 0x62]);
    let event = matched(parse(&frame));
    assert_eq!(event.protocol, 1);
    assert_eq!(event.src_ip.to_le_bytes(), [10, 1, 1, 1]);
    assert_eq!(event.dst_ip.to_le_bytes(), [10, 1, 1, 2]);
    assert_eq!(event.src_port, 0);
    assert_eq!(event.dst_port, 0);
    assert_eq!(event.tcp_flags, 0);
    assert_eq!(event.payload_len, 6);
    assert_eq!(&event.payload[..6], &[0, 1, 0, 1, 0x61, 0x62]);
}

#[test]
fn other_ether_type_is_passed() {
    let mut frame = ethernet([0x86, 0xdd]);
    ipv4(&mut frame, 5, 6, [1, 1, 1, 1], [2, 2, 2, 2]);
    tcp(&mut frame, 1, 2, 5, 0);
    assert!(is_pass(parse(&frame)));
}

#[test]
fn other_protocol_is_passed() {
    let mut frame = ethernet([0x08, 0x00]);
    ipv4(&mut frame, 5, 47, [1, 1, 1, 1], [2, 2, 2, 2]);
    frame.extend_from_slice(&[0; 40]);
    assert!(is_pass(parse(&frame)));
}

#[test]
fn every_truncation_of_a_frame_is_handled() {
    let frame = tcp_frame(&[0x55; 200]);
    let mut len = 0;
    while len <= frame.len() {
        let verdict = parse(&frame[..len]);
        if len < 54 {
            assert!(is_pass(verdict), "length {}", len);
        } else {
            let event = matched(verdict);
            let expected = core::cmp::min(len - 54, MAX_PAYLOAD_SIZE);
            assert_eq!(event.payload_len as usize, expected);
            assert_eq!(event.packet_size as usize, len);
            assert!(event.payload[..expected].iter().all(|b| *b == 0x55));
            assert!(event.payload[expected..].iter().all(|b| *b == 0));
        }
        len += 1;
    }
}

#[test]
fn truncated_udp_and_icmp_headers_are_passed() {
    let mut udp = ethernet([0x08, 0x00]);
    ipv4(&mut udp, 5, 17, [1, 1, 1, 1], [2, 2, 2, 2]);
    udp.extend_from_slice(&[0, 53, 0, 53, 0, 8, 0]);
    assert!(is_pass(parse(&udp)));
    udp.push(0);
    assert_eq!(matched(parse(&udp)).payload_len, 0);

    let mut icmp = ethernet([0x08, 0x00]);
    ipv4(&mut icmp, 5, 1, [1, 1, 1, 1], [2, 2, 2, 2]);
    icmp.extend_from_slice(&[8, 0, 0]);
    assert!(is_pass(parse(&icmp)));
    icmp.push(0);
    assert_eq!(matched(parse(&icmp)).payload_len, 0);
}

#[test]
fn payload_is_cut_at_capacity() {
    let mut payload = Vec::new();
    let mut i = 0usize;
    while i < 300 {
        payload.push((i % 251) as u8);
        i += 1;
    }
    let event = matched(parse(&tcp_frame(&payload)));
    assert_eq!(event.payload_len as usize, MAX_PAYLOAD_SIZE);
    assert_eq!(&event.payload[..], &payload[..128]);
    let event = matched(parse(&tcp_frame(&payload[..128])));
    assert_eq!(event.payload_len, 128);
    let event = matched(parse(&tcp_frame(&payload[..127])));
    assert_eq!(event.payload_len, 127);
    assert_eq!(event.payload[127], 0);
}

#[test]
fn data_offset_past_the_end_gives_no_payload() {
    let mut frame = ethernet([0x08, 0x00]);
    ipv4(&mut frame, 5, 6, [1, 1, 1, 1], [2, 2, 2, 2]);
    frame.extend_from_slice(&[0, 80, 0, 81, 0, 0, 0, 0, 0, 0, 0, 0, 0xf0, 0x10, 0, 0, 0, 0, 0, 0]);
    frame.extend_from_slice(b"xy");
    let event = matched(parse(&frame));
    assert_eq!(event.payload_len, 0);
    assert_eq!(event.tcp_flags, 0x10);
}

#[test]
fn short_header_lengths_count_as_the_fixed_header() {
    let mut frame = ethernet([0x08, 0x00]);
    ipv4(&mut frame, 0, 6, [1, 1, 1, 1], [2, 2, 2, 2]);
    frame.extend_from_slice(&[0, 80, 0, 81, 0, 0, 0, 0, 0, 0, 0, 0, 0x00, 0x18, 0, 0, 0, 0, 0, 0]);
    frame.extend_from_slice(b"xy");
    let event = matched(parse(&frame));
    assert_eq!(event.src_port.to_le_bytes(), [0, 80]);
    assert_eq!(event.dst_port.to_le_bytes(), [0, 81]);
    assert_eq!(event.tcp_flags, 0x18);
    assert_eq!(event.payload_len, 2);
    assert_eq!(&event.payload[..2], b"xy");
}

#[test]
fn arbitrary_bytes_never_break_the_parser() {
    let mut state: u32 = 0x1234_5678;
    let mut round = 0;
    while round < 2000 {
        let mut frame = Vec::new();
        state = state.wrapping_mul(1664525).wrapping_add(1013904223);
        let len = (state >> 16) as usize % 120;
        let mut i = 0;
        while i < len {
            state = state.wrapping_mul(1664525).wrapping_add(1013904223);
            frame.push((state >> 24) as u8);
            i += 1;
        }
        if len > 24 && round % 2 == 0 {
            frame[12] = 0x08;
            frame[13] = 0x00;
            frame[23] = [1u8, 6, 17][round % 3];
        }
        if let Verdict::Matched(event) = parse(&frame) {
            assert!(event.payload_len as usize <= MAX_PAYLOAD_SIZE);
            assert!(event.payload_len as usize <= frame.len());
            assert_eq!(event.packet_size as usize, frame.len());
        }
        round += 1;
    }
}

#[test]
fn empty_buffer_is_passed() {
    assert!(is_pass(parse(&[])));
    assert!(is_pass(parse(&[0x08])));
}

#[test]
fn headers_decode_only_inside_the_buffer() {
    let frame = tcp_frame(b"");
    assert!(EthHdr::decode(&frame, 0).is_some());
    assert!(EthHdr::decode(&frame[..13], 0).is_none());
    assert!(EthHdr::decode(&frame, frame.len() - 13).is_none());
    assert!(EthHdr::decode(&frame, usize::MAX).is_none());
    let eth = EthHdr::decode(&frame, 0).unwrap();
    assert_eq!(eth.dst_mac, [0x02, 0x00, 0x00, 0x00, 0x00, 0x01]);
    assert_eq!(eth.src_mac, [0x02, 0x00, 0x00, 0x00, 0x00, 0x02]);
    assert_eq!(eth.ether_type.to_le_bytes(), [0x08, 0x00]);

    let ip = Ipv4Hdr::decode(&frame, 14).unwrap();
    assert_eq!(ip.version_ihl, 0x45);
    assert_eq!(ip.header_len(), 20);
    assert_eq!(ip.id.to_le_bytes(), [0x12, 0x34]);
    assert_eq!(ip.ttl, 64);
    assert_eq!(ip.protocol, 6);
    assert_eq!(ip.src_ip.to_le_bytes(), [192, 168, 1, 5]);
    assert_eq!(ip.dst_ip.to_le_bytes(), [10, 0, 0, 9]);
    assert!(Ipv4Hdr::decode(&frame, frame.len() - 19).is_none());

    let tcp = TcpHdr::decode(&frame, 34).unwrap();
    assert_eq!(tcp.src_port.to_le_bytes(), 443u16.to_be_bytes());
    assert_eq!(tcp.seq.to_le_bytes(), [0, 0, 0, 1]);
    assert_eq!(tcp.ack.to_le_bytes(), [0, 0, 0, 2]);
    assert_eq!(tcp.data_off, 0x50);
    assert_eq!(tcp.data_offset(), 20);
    assert_eq!(tcp.flags, 0x12);
    assert_eq!(tcp.window, 0xffff);
    assert!(TcpHdr::decode(&frame, 35).is_none());

    let udp = UdpHdr::decode(&[0, 53, 0x9c, 0x40, 0, 9, 0xab, 0xcd], 0).unwrap();
    assert_eq!(udp.src_port.to_le_bytes(), [0, 53]);
    assert_eq!(udp.dst_port.to_le_bytes(), [0x9c, 0x40]);
    assert_eq!(udp.len.to_le_bytes(), [0, 9]);
    assert_eq!(udp.checksum.to_le_bytes(), [0xab, 0xcd]);
    assert!(UdpHdr::decode(&[0; 7], 0).is_none());

    let icmp = IcmpHdr::decode(&[9, 8, 3, 0x12, 0x34], 1).unwrap();
    assert_eq!(icmp.type_, 8);
    assert_eq!(icmp.code, 3);
    assert_eq!(icmp.checksum.to_le_bytes(), [0x12, 0x34]);
    assert!(IcmpHdr::decode(&[9, 8, 3, 0x12, 0x34], 2).is_none());
}

#[test]
fn header_lengths_follow_their_nibbles() {
    let frame = {
        let mut frame = ethernet([0x08, 0x00]);
        ipv4(&mut frame, 15, 6, [1, 1, 1, 1], [2, 2, 2, 2]);
        tcp(&mut frame, 1, 2, 15, 0);
        frame
    };
    let ip = Ipv4Hdr::decode(&frame, 14).unwrap();
    assert_eq!(ip.header_len(), 60);
    let tcp = TcpHdr::decode(&frame, 74).unwrap();
    assert_eq!(tcp.data_offset(), 60);
    assert_eq!(frame.len(), 134);
    assert_eq!(matched(parse(&frame)).payload_len, 0);
}
