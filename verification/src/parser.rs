//! The packet parser: from the raw bytes of one frame to an event, or to
//! nothing.
//!
//! The parser takes any byte sequence. Before it reads a header it makes
//! sure that the whole header lies inside the buffer; a frame that is cut
//! short is ignored, and no frame is read past its end.

use vstd::prelude::*;
use crate::event::{
    EventView,
    NetworkEvent,
    ETH_P_IP,
    IPPROTO_ICMP,
    IPPROTO_TCP,
    IPPROTO_UDP,
    MAX_PAYLOAD_SIZE,
};
use crate::headers::{
    ipv4_header_len,
    tcp_data_offset,
    EthHdr,
    IcmpHdr,
    Ipv4Hdr,
    TcpHdr,
    UdpHdr,
    ETH_HDR_LEN,
    ICMP_HDR_LEN,
    IPV4_HDR_LEN,
    TCP_HDR_LEN,
    UDP_HDR_LEN,
};
use crate::wire::{swap16, to_host16, wire16, wire32};

verus! {

/// Outcome of parsing one frame.
#[derive(Debug, Clone, Copy)]
pub enum Verdict {
    /// The frame is not reported: it is no IPv4 TCP, UDP or ICMP packet, or
    /// it is cut short.
    Pass,
    /// The frame is reported with this event.
    Matched(NetworkEvent),
}

/// What a verdict says.
pub enum VerdictView {
    Pass,
    Matched(EventView),
}

impl View for Verdict {
    type V = VerdictView;

    open spec fn view(&self) -> VerdictView {
        match *self {
            Verdict::Pass => VerdictView::Pass,
            Verdict::Matched(event) => VerdictView::Matched(event@),
        }
    }
}

/// The frame length as the event reports it: the length modulo 2^32.
pub open spec fn frame_size(len: nat) -> u32 {
    (len % 0x1_0000_0000) as u32
}

/// The payload snapshot of a frame whose payload starts at `start`: the
/// bytes from `start` to the end of the frame, at most `MAX_PAYLOAD_SIZE` of
/// them; nothing if `start` is at or past the end.
pub open spec fn snapshot(frame: Seq<u8>, start: int) -> Seq<u8> {
    if 0 <= start < frame.len() {
        if frame.len() - start > MAX_PAYLOAD_SIZE {
            frame.subrange(start, start + MAX_PAYLOAD_SIZE)
        } else {
            frame.subrange(start, frame.len() as int)
        }
    } else {
        Seq::empty()
    }
}

/// Offset of the transport header in an IPv4 frame.
pub open spec fn l4_offset(frame: Seq<u8>) -> int {
    ETH_HDR_LEN + ipv4_header_len(frame[14])
}

/// Source address of an IPv4 frame, wire order.
pub open spec fn frame_src_ip(frame: Seq<u8>) -> u32 {
    wire32(frame[26], frame[27], frame[28], frame[29])
}

/// Destination address of an IPv4 frame, wire order.
pub open spec fn frame_dst_ip(frame: Seq<u8>) -> u32 {
    wire32(frame[30], frame[31], frame[32], frame[33])
}

/// The frame holds a whole Ethernet header with the IPv4 ether-type and the
/// whole fixed part of an IPv4 header.
pub open spec fn is_ipv4_frame(frame: Seq<u8>) -> bool {
    &&& frame.len() >= ETH_HDR_LEN + IPV4_HDR_LEN
    &&& swap16(wire16(frame[12], frame[13])) == ETH_P_IP
}

/// The event of a TCP frame whose fixed TCP header lies inside the frame.
pub open spec fn tcp_event(frame: Seq<u8>) -> EventView {
    let l4 = l4_offset(frame);
    EventView {
        protocol: IPPROTO_TCP,
        src_ip: frame_src_ip(frame),
        dst_ip: frame_dst_ip(frame),
        src_port: wire16(frame[l4], frame[l4 + 1]),
        dst_port: wire16(frame[l4 + 2], frame[l4 + 3]),
        packet_size: frame_size(frame.len()),
        tcp_flags: frame[l4 + 13],
        payload: snapshot(frame, l4 + tcp_data_offset(frame[l4 + 12])),
    }
}

/// The event of a UDP frame whose UDP header lies inside the frame.
pub open spec fn udp_event(frame: Seq<u8>) -> EventView {
    let l4 = l4_offset(frame);
    EventView {
        protocol: IPPROTO_UDP,
        src_ip: frame_src_ip(frame),
        dst_ip: frame_dst_ip(frame),
        src_port: wire16(frame[l4], frame[l4 + 1]),
        dst_port: wire16(frame[l4 + 2], frame[l4 + 3]),
        packet_size: frame_size(frame.len()),
        tcp_flags: 0,
        payload: snapshot(frame, l4 + UDP_HDR_LEN),
    }
}

/// The event of an ICMP frame whose fixed ICMP header lies inside the frame.
pub open spec fn ping_event(frame: Seq<u8>) -> EventView {
    EventView {
        protocol: IPPROTO_ICMP,
        src_ip: frame_src_ip(frame),
        dst_ip: frame_dst_ip(frame),
        src_port: 0,
        dst_port: 0,
        packet_size: frame_size(frame.len()),
        tcp_flags: 0,
        payload: snapshot(frame, l4_offset(frame) + ICMP_HDR_LEN),
    }
}

/// The verdict on a frame.
///
/// A frame is reported if it holds an Ethernet header with the IPv4
/// ether-type, the fixed part of an IPv4 header, and, at the offset that the
/// IPv4 header length gives, the whole fixed header of TCP, UDP or ICMP,
/// whichever the IPv4 protocol byte names. Every other frame passes.
pub open spec fn parse_spec(frame: Seq<u8>) -> VerdictView {
    if !is_ipv4_frame(frame) {
        VerdictView::Pass
    } else if frame[23] == IPPROTO_TCP && l4_offset(frame) + TCP_HDR_LEN <= frame.len() {
        VerdictView::Matched(tcp_event(frame))
    } else if frame[23] == IPPROTO_UDP && l4_offset(frame) + UDP_HDR_LEN <= frame.len() {
        VerdictView::Matched(udp_event(frame))
    } else if frame[23] == IPPROTO_ICMP && l4_offset(frame) + ICMP_HDR_LEN <= frame.len() {
        VerdictView::Matched(ping_event(frame))
    } else {
        VerdictView::Pass
    }
}

/// The frame length as the event reports it.
fn size_of_frame(buffer: &[u8]) -> (size: u32)
    ensures
        size == frame_size(buffer@.len()),
{
    (buffer.len() as u64 % 0x1_0000_0000) as u32
}

/// The payload snapshot and its length.
struct Snapshot {
    bytes: [u8; MAX_PAYLOAD_SIZE],
    len: u8,
}

/// Copies the payload that starts at `start` into a zeroed snapshot, one
/// byte at a time, and checks the source offset against the end of the
/// buffer before each byte.
fn capture(buffer: &[u8], start: usize) -> (shot: Snapshot)
    ensures
        shot.len <= MAX_PAYLOAD_SIZE,
        shot.bytes@.take(shot.len as int) == snapshot(buffer@, start as int),
        forall|i: int| shot.len <= i < MAX_PAYLOAD_SIZE ==> shot.bytes[i] == 0,
{
    let mut bytes = [0u8; MAX_PAYLOAD_SIZE];
    let mut copied: usize = 0;
    if start < buffer.len() {
        let available = buffer.len() - start;
        let to_copy = if available < MAX_PAYLOAD_SIZE {
            available
        } else {
            MAX_PAYLOAD_SIZE
        };
        while copied < to_copy
            invariant
                start < buffer.len(),
                to_copy <= MAX_PAYLOAD_SIZE,
                to_copy <= buffer.len() - start,
                copied <= to_copy,
                forall|i: int| 0 <= i < copied ==> bytes[i] == buffer[start + i],
                forall|i: int| copied <= i < MAX_PAYLOAD_SIZE ==> bytes[i] == 0,
            ensures
                copied == to_copy,
            decreases to_copy - copied,
        {
            let source = start + copied;
            if source >= buffer.len() {
                break ;
            }
            bytes[copied] = buffer[source];
            copied += 1;
        }
    }
    proof {
        assert(bytes@.take(copied as int) =~= snapshot(buffer@, start as int));
    }
    Snapshot { bytes, len: copied as u8 }
}

/// Parses one frame.
///
/// The function accepts every buffer, reads no byte outside it, and returns
/// the verdict that `parse_spec` gives for its bytes. A reported event holds
/// at most `MAX_PAYLOAD_SIZE` payload bytes, and its unused capacity is zero.
pub fn parse(buffer: &[u8]) -> (verdict: Verdict)
    ensures
        verdict@ == parse_spec(buffer@),
        verdict matches Verdict::Matched(event) ==> event.wf() && event.is_zero_filled(),
{
    let eth = match EthHdr::decode(buffer, 0) {
        Some(hdr) => hdr,
        None => {
            return Verdict::Pass;
        },
    };
    if to_host16(eth.ether_type) != ETH_P_IP {
        return Verdict::Pass;
    }
    let ip = match Ipv4Hdr::decode(buffer, ETH_HDR_LEN) {
        Some(hdr) => hdr,
        None => {
            return Verdict::Pass;
        },
    };
    let l4 = ETH_HDR_LEN + ip.header_len();
    let size = size_of_frame(buffer);
    if ip.protocol == IPPROTO_TCP {
        let tcp = match TcpHdr::decode(buffer, l4) {
            Some(hdr) => hdr,
            None => {
                return Verdict::Pass;
            },
        };
        let shot = capture(buffer, l4 + tcp.data_offset());
        Verdict::Matched(
            NetworkEvent {
                protocol: IPPROTO_TCP,
                src_ip: ip.src_ip,
                dst_ip: ip.dst_ip,
                src_port: tcp.src_port,
                dst_port: tcp.dst_port,
                packet_size: size,
                tcp_flags: tcp.flags,
                payload_len: shot.len,
                _pad: [0, 0],
                payload: shot.bytes,
            },
        )
    } else if ip.protocol == IPPROTO_UDP {
        let udp = match UdpHdr::decode(buffer, l4) {
            Some(hdr) => hdr,
            None => {
                return Verdict::Pass;
            },
        };
        let shot = capture(buffer, l4 + UDP_HDR_LEN);
        Verdict::Matched(
            NetworkEvent {
                protocol: IPPROTO_UDP,
                src_ip: ip.src_ip,
                dst_ip: ip.dst_ip,
                src_port: udp.src_port,
                dst_port: udp.dst_port,
                packet_size: size,
                tcp_flags: 0,
                payload_len: shot.len,
                _pad: [0, 0],
                payload: shot.bytes,
            },
        )
    } else if ip.protocol == IPPROTO_ICMP {
        match IcmpHdr::decode(buffer, l4) {
            Some(_) => {},
            None => {
                return Verdict::Pass;
            },
        };
        let shot = capture(buffer, l4 + ICMP_HDR_LEN);
        Verdict::Matched(
            NetworkEvent {
                protocol: IPPROTO_ICMP,
                src_ip: ip.src_ip,
                dst_ip: ip.dst_ip,
                src_port: 0,
                dst_port: 0,
                packet_size: size,
                tcp_flags: 0,
                payload_len: shot.len,
                _pad: [0, 0],
                payload: shot.bytes,
            },
        )
    } else {
        Verdict::Pass
    }
}

} // verus!
