//! Frames as they are built from headers, and what the parser makes of
//! them.
//!
//! A frame is an Ethernet header, an IPv4 header with its options, a
//! transport header (for TCP with its options) and the payload. The laws of
//! this module say that parsing such a frame gives back the fields that it
//! was built from.

use vstd::prelude::*;
use crate::event::{EventView, ETH_P_IP, IPPROTO_ICMP, IPPROTO_TCP, IPPROTO_UDP, MAX_PAYLOAD_SIZE};
use crate::headers::{
    tcp_data_offset,
    EthHdr,
    Ipv4Hdr,
    TcpHdr,
    UdpHdr,
    ETH_HDR_LEN,
    ICMP_HDR_LEN,
    IPV4_HDR_LEN,
    TCP_HDR_LEN,
    UDP_HDR_LEN,
};
use crate::parser::{
    frame_size,
    is_ipv4_frame,
    l4_offset,
    parse_spec,
    snapshot,
    VerdictView,
};
use crate::wire::{byte16, byte32, lemma_wire16_bytes, lemma_wire32_bytes, swap16};

verus! {

/// The two bytes of a wire-order field, in wire sequence.
pub open spec fn bytes16(w: u16) -> Seq<u8> {
    seq![byte16(w, 0), byte16(w, 1)]
}

/// The four bytes of a wire-order field, in wire sequence.
pub open spec fn bytes32(w: u32) -> Seq<u8> {
    seq![byte32(w, 0), byte32(w, 1), byte32(w, 2), byte32(w, 3)]
}

/// The 14 bytes of an Ethernet header.
pub open spec fn eth_bytes(eth: EthHdr) -> Seq<u8> {
    eth.dst_mac@ + eth.src_mac@ + bytes16(eth.ether_type)
}

/// The 20 bytes of the fixed part of an IPv4 header.
pub open spec fn ipv4_bytes(ip: Ipv4Hdr) -> Seq<u8> {
    seq![ip.version_ihl, ip.tos] + bytes16(ip.total_len) + bytes16(ip.id) + bytes16(
        ip.flags_frag,
    ) + seq![ip.ttl, ip.protocol] + bytes16(ip.checksum) + bytes32(ip.src_ip) + bytes32(
        ip.dst_ip,
    )
}

/// The 20 bytes of the fixed part of a TCP header.
pub open spec fn tcp_bytes(tcp: TcpHdr) -> Seq<u8> {
    bytes16(tcp.src_port) + bytes16(tcp.dst_port) + bytes32(tcp.seq) + bytes32(tcp.ack) + seq![
        tcp.data_off,
        tcp.flags,
    ] + bytes16(tcp.window) + bytes16(tcp.checksum) + bytes16(tcp.urgent)
}

/// The 8 bytes of a UDP header.
pub open spec fn udp_bytes(udp: UdpHdr) -> Seq<u8> {
    bytes16(udp.src_port) + bytes16(udp.dst_port) + bytes16(udp.len) + bytes16(udp.checksum)
}

/// The Ethernet and IPv4 headers of a frame, with the IPv4 options.
pub open spec fn ip_part(eth: EthHdr, ip: Ipv4Hdr, ip_options: Seq<u8>) -> Seq<u8> {
    eth_bytes(eth) + ipv4_bytes(ip) + ip_options
}

/// The headers announce IPv4 with the given protocol, and the IPv4 header
/// length is that of the fixed part and the options.
pub open spec fn ip_part_valid(eth: EthHdr, ip: Ipv4Hdr, ip_options: Seq<u8>, protocol: u8) -> bool {
    &&& swap16(eth.ether_type) == ETH_P_IP
    &&& ip.protocol == protocol
    &&& (ip.version_ihl % 16) * 4 == IPV4_HDR_LEN + ip_options.len()
}

/// The payload as an event carries it: cut to the payload capacity.
pub open spec fn carried(payload: Seq<u8>) -> Seq<u8> {
    if payload.len() > MAX_PAYLOAD_SIZE {
        payload.take(MAX_PAYLOAD_SIZE as int)
    } else {
        payload
    }
}

/// A TCP frame.
pub open spec fn tcp_frame(
    eth: EthHdr,
    ip: Ipv4Hdr,
    ip_options: Seq<u8>,
    tcp: TcpHdr,
    tcp_options: Seq<u8>,
    payload: Seq<u8>,
) -> Seq<u8> {
    ip_part(eth, ip, ip_options) + tcp_bytes(tcp) + tcp_options + payload
}

/// A UDP frame.
pub open spec fn udp_frame(
    eth: EthHdr,
    ip: Ipv4Hdr,
    ip_options: Seq<u8>,
    udp: UdpHdr,
    payload: Seq<u8>,
) -> Seq<u8> {
    ip_part(eth, ip, ip_options) + udp_bytes(udp) + payload
}

/// An ICMP frame: the payload is what follows the fixed part of the ICMP
/// header.
pub open spec fn ping_frame(
    eth: EthHdr,
    ip: Ipv4Hdr,
    ip_options: Seq<u8>,
    kind: u8,
    code: u8,
    checksum: u16,
    payload: Seq<u8>,
) -> Seq<u8> {
    ip_part(eth, ip, ip_options) + seq![kind, code] + bytes16(checksum) + payload
}

/// What the first 34 bytes of a frame say, and where its transport header
/// starts.
proof fn lemma_ip_part(eth: EthHdr, ip: Ipv4Hdr, ip_options: Seq<u8>, protocol: u8, rest: Seq<u8>)
    requires
        ip_part_valid(eth, ip, ip_options, protocol),
    ensures
        ({
            let frame = ip_part(eth, ip, ip_options) + rest;
            &&& is_ipv4_frame(frame)
            &&& frame[23] == protocol
            &&& l4_offset(frame) == ETH_HDR_LEN + IPV4_HDR_LEN + ip_options.len()
            &&& crate::parser::frame_src_ip(frame) == ip.src_ip
            &&& crate::parser::frame_dst_ip(frame) == ip.dst_ip
            &&& frame.len() == l4_offset(frame) + rest.len()
            &&& forall|i: int| 0 <= i < rest.len() ==> frame[l4_offset(frame) + i] == rest[i]
        }),
{
    let head = eth_bytes(eth) + ipv4_bytes(ip);
    let frame = ip_part(eth, ip, ip_options) + rest;
    assert(eth_bytes(eth).len() == 14);
    assert(ipv4_bytes(ip).len() == 20);
    assert(head.len() == 34);
    assert forall|i: int| 0 <= i < 34 implies frame[i] == head[i] by {}
    assert(head[12] == byte16(eth.ether_type, 0));
    assert(head[13] == byte16(eth.ether_type, 1));
    lemma_wire16_bytes(eth.ether_type);
    assert(head[14] == ip.version_ihl);
    assert(head[23] == ip.protocol);
    assert(head[26] == byte32(ip.src_ip, 0));
    assert(head[27] == byte32(ip.src_ip, 1));
    assert(head[28] == byte32(ip.src_ip, 2));
    assert(head[29] == byte32(ip.src_ip, 3));
    assert(head[30] == byte32(ip.dst_ip, 0));
    assert(head[31] == byte32(ip.dst_ip, 1));
    assert(head[32] == byte32(ip.dst_ip, 2));
    assert(head[33] == byte32(ip.dst_ip, 3));
    lemma_wire32_bytes(ip.src_ip);
    lemma_wire32_bytes(ip.dst_ip);
}

/// The snapshot of a frame whose payload is its tail.
proof fn lemma_snapshot_of_tail(head: Seq<u8>, payload: Seq<u8>)
    ensures
        snapshot(head + payload, head.len() as int) == carried(payload),
{
    assert(snapshot(head + payload, head.len() as int) =~= carried(payload));
}

/// Parsing a TCP frame gives back the fields that it was built from: the
/// addresses of the IPv4 header, the ports and flags of the TCP header, the
/// length of the frame, and the payload, cut to the payload capacity.
pub proof fn lemma_parse_tcp_frame(
    eth: EthHdr,
    ip: Ipv4Hdr,
    ip_options: Seq<u8>,
    tcp: TcpHdr,
    tcp_options: Seq<u8>,
    payload: Seq<u8>,
)
    requires
        ip_part_valid(eth, ip, ip_options, IPPROTO_TCP),
        (tcp.data_off / 16) * 4 == TCP_HDR_LEN + tcp_options.len(),
    ensures
        parse_spec(tcp_frame(eth, ip, ip_options, tcp, tcp_options, payload))
            == VerdictView::Matched(
            EventView {
                protocol: IPPROTO_TCP,
                src_ip: ip.src_ip,
                dst_ip: ip.dst_ip,
                src_port: tcp.src_port,
                dst_port: tcp.dst_port,
                packet_size: frame_size(
                    tcp_frame(eth, ip, ip_options, tcp, tcp_options, payload).len(),
                ),
                tcp_flags: tcp.flags,
                payload: carried(payload),
            },
        ),
{
    let rest = tcp_bytes(tcp) + tcp_options + payload;
    let frame = tcp_frame(eth, ip, ip_options, tcp, tcp_options, payload);
    assert(frame =~= ip_part(eth, ip, ip_options) + rest);
    lemma_ip_part(eth, ip, ip_options, IPPROTO_TCP, rest);
    let l4 = l4_offset(frame);
    assert(tcp_bytes(tcp).len() == 20);
    assert(rest[0] == byte16(tcp.src_port, 0));
    assert(rest[1] == byte16(tcp.src_port, 1));
    assert(rest[2] == byte16(tcp.dst_port, 0));
    assert(rest[3] == byte16(tcp.dst_port, 1));
    assert(rest[12] == tcp.data_off);
    assert(rest[13] == tcp.flags);
    assert(frame[l4 + 0] == rest[0]);
    assert(frame[l4 + 1] == rest[1]);
    assert(frame[l4 + 2] == rest[2]);
    assert(frame[l4 + 3] == rest[3]);
    assert(frame[l4 + 12] == rest[12]);
    assert(frame[l4 + 13] == rest[13]);
    lemma_wire16_bytes(tcp.src_port);
    lemma_wire16_bytes(tcp.dst_port);
    let head = ip_part(eth, ip, ip_options) + tcp_bytes(tcp) + tcp_options;
    assert(frame =~= head + payload);
    assert(head.len() == l4 + tcp_data_offset(tcp.data_off));
    lemma_snapshot_of_tail(head, payload);
}

/// Parsing a UDP frame gives back the fields that it was built from.
pub proof fn lemma_parse_udp_frame(
    eth: EthHdr,
    ip: Ipv4Hdr,
    ip_options: Seq<u8>,
    udp: UdpHdr,
    payload: Seq<u8>,
)
    requires
        ip_part_valid(eth, ip, ip_options, IPPROTO_UDP),
    ensures
        parse_spec(udp_frame(eth, ip, ip_options, udp, payload)) == VerdictView::Matched(
            EventView {
                protocol: IPPROTO_UDP,
                src_ip: ip.src_ip,
                dst_ip: ip.dst_ip,
                src_port: udp.src_port,
                dst_port: udp.dst_port,
                packet_size: frame_size(udp_frame(eth, ip, ip_options, udp, payload).len()),
                tcp_flags: 0,
                payload: carried(payload),
            },
        ),
{
    let rest = udp_bytes(udp) + payload;
    let frame = udp_frame(eth, ip, ip_options, udp, payload);
    assert(frame =~= ip_part(eth, ip, ip_options) + rest);
    lemma_ip_part(eth, ip, ip_options, IPPROTO_UDP, rest);
    let l4 = l4_offset(frame);
    assert(udp_bytes(udp).len() == 8);
    assert(rest[0] == byte16(udp.src_port, 0));
    assert(rest[1] == byte16(udp.src_port, 1));
    assert(rest[2] == byte16(udp.dst_port, 0));
    assert(rest[3] == byte16(udp.dst_port, 1));
    assert(frame[l4 + 0] == rest[0]);
    assert(frame[l4 + 1] == rest[1]);
    assert(frame[l4 + 2] == rest[2]);
    assert(frame[l4 + 3] == rest[3]);
    lemma_wire16_bytes(udp.src_port);
    lemma_wire16_bytes(udp.dst_port);
    let head = ip_part(eth, ip, ip_options) + udp_bytes(udp);
    assert(frame =~= head + payload);
    lemma_snapshot_of_tail(head, payload);
}

/// Parsing an ICMP frame gives back the addresses that it was built from,
/// no ports, and the payload, cut to the payload capacity.
pub proof fn lemma_parse_ping_frame(
    eth: EthHdr,
    ip: Ipv4Hdr,
    ip_options: Seq<u8>,
    kind: u8,
    code: u8,
    checksum: u16,
    payload: Seq<u8>,
)
    requires
        ip_part_valid(eth, ip, ip_options, IPPROTO_ICMP),
    ensures
        parse_spec(ping_frame(eth, ip, ip_options, kind, code, checksum, payload))
            == VerdictView::Matched(
            EventView {
                protocol: IPPROTO_ICMP,
                src_ip: ip.src_ip,
                dst_ip: ip.dst_ip,
                src_port: 0,
                dst_port: 0,
                packet_size: frame_size(
                    ping_frame(eth, ip, ip_options, kind, code, checksum, payload).len(),
                ),
                tcp_flags: 0,
                payload: carried(payload),
            },
        ),
{
    let rest = seq![kind, code] + bytes16(checksum) + payload;
    let frame = ping_frame(eth, ip, ip_options, kind, code, checksum, payload);
    assert(frame =~= ip_part(eth, ip, ip_options) + rest);
    lemma_ip_part(eth, ip, ip_options, IPPROTO_ICMP, rest);
    let head = ip_part(eth, ip, ip_options) + seq![kind, code] + bytes16(checksum);
    assert(frame =~= head + payload);
    lemma_snapshot_of_tail(head, payload);
}

/// Whatever the frame, an event that the parser reports holds bytes of the
/// frame only: its transport header lies inside the frame, and its payload
/// is a stretch of the frame of at most `MAX_PAYLOAD_SIZE` bytes.
pub proof fn lemma_event_within_frame(frame: Seq<u8>)
    ensures
        match parse_spec(frame) {
            VerdictView::Pass => true,
            VerdictView::Matched(event) => {
                &&& ETH_HDR_LEN + IPV4_HDR_LEN <= l4_offset(frame) < frame.len()
                &&& event.payload.len() <= MAX_PAYLOAD_SIZE
                &&& exists|start: int|
                    l4_offset(frame) <= start && start + event.payload.len() <= frame.len()
                        && event.payload == #[trigger] frame.subrange(
                        start,
                        start + event.payload.len(),
                    )
            },
        },
{
    match parse_spec(frame) {
        VerdictView::Pass => {},
        VerdictView::Matched(event) => {
            let l4 = l4_offset(frame);
            let start = if frame[23] == IPPROTO_TCP && l4 + TCP_HDR_LEN <= frame.len() {
                l4 + tcp_data_offset(frame[l4 + 12])
            } else if frame[23] == IPPROTO_UDP && l4 + UDP_HDR_LEN <= frame.len() {
                l4 + UDP_HDR_LEN
            } else {
                l4 + ICMP_HDR_LEN
            };
            assert(event.payload == snapshot(frame, start));
            if start < frame.len() {
                assert(event.payload == frame.subrange(start, start + event.payload.len()));
            } else {
                assert(event.payload =~= frame.subrange(l4, l4 + 0));
                assert(event.payload == frame.subrange(l4, l4 + event.payload.len()));
            }
        },
    }
}

} // verus!
