//! Fixed-layout protocol headers and their byte-wise decoders.
//!
//! Each decoder checks that the whole header lies inside the buffer before
//! it reads any byte of it, and reads field by field, so no alignment is
//! assumed. Multi-byte fields are kept in wire order.

use vstd::prelude::*;
use crate::wire::{read16, read32, wire16, wire32};

verus! {

/// Length of an Ethernet header.
pub const ETH_HDR_LEN: usize = 14;

/// Length of an IPv4 header without options.
pub const IPV4_HDR_LEN: usize = 20;

/// Length of a TCP header without options.
pub const TCP_HDR_LEN: usize = 20;

/// Length of a UDP header.
pub const UDP_HDR_LEN: usize = 8;

/// Length of the fixed part of an ICMP header.
pub const ICMP_HDR_LEN: usize = 4;

/// Ethernet header.
#[derive(Debug, Clone, Copy)]
pub struct EthHdr {
    pub dst_mac: [u8; 6],
    pub src_mac: [u8; 6],
    pub ether_type: u16,
}

/// IPv4 header, fixed part.
#[derive(Debug, Clone, Copy)]
pub struct Ipv4Hdr {
    pub version_ihl: u8,
    pub tos: u8,
    pub total_len: u16,
    pub id: u16,
    pub flags_frag: u16,
    pub ttl: u8,
    pub protocol: u8,
    pub checksum: u16,
    pub src_ip: u32,
    pub dst_ip: u32,
}

/// TCP header, fixed part.
#[derive(Debug, Clone, Copy)]
pub struct TcpHdr {
    pub src_port: u16,
    pub dst_port: u16,
    pub seq: u32,
    pub ack: u32,
    pub data_off: u8,
    pub flags: u8,
    pub window: u16,
    pub checksum: u16,
    pub urgent: u16,
}

/// UDP header.
#[derive(Debug, Clone, Copy)]
pub struct UdpHdr {
    pub src_port: u16,
    pub dst_port: u16,
    pub len: u16,
    pub checksum: u16,
}

/// ICMP header, fixed part.
#[derive(Debug, Clone, Copy)]
pub struct IcmpHdr {
    pub type_: u8,
    pub code: u8,
    pub checksum: u16,
}

/// A header of `size` bytes at `offset` lies inside a buffer of `len` bytes.
pub open spec fn fits(len: nat, offset: int, size: int) -> bool {
    0 <= offset && offset + size <= len
}

/// The IPv4 header length that a version/IHL byte gives: four times its low
/// nibble, and never less than the fixed part.
pub open spec fn ipv4_header_len(version_ihl: u8) -> int {
    if (version_ihl % 16) * 4 < IPV4_HDR_LEN {
        IPV4_HDR_LEN as int
    } else {
        (version_ihl % 16) * 4
    }
}

/// The TCP header length that a data-offset byte gives: four times its high
/// nibble, and never less than the fixed part.
pub open spec fn tcp_data_offset(data_off: u8) -> int {
    if (data_off / 16) * 4 < TCP_HDR_LEN {
        TCP_HDR_LEN as int
    } else {
        (data_off / 16) * 4
    }
}

impl EthHdr {
    /// The header's fields are the bytes of `buffer` from `offset` on.
    pub open spec fn is_at(&self, buffer: Seq<u8>, offset: int) -> bool {
        &&& self.dst_mac@ == buffer.subrange(offset, offset + 6)
        &&& self.src_mac@ == buffer.subrange(offset + 6, offset + 12)
        &&& self.ether_type == wire16(buffer[offset + 12], buffer[offset + 13])
    }

    /// Decodes the header at `offset`, or gives `None` if it would reach
    /// past the end of the buffer.
    pub fn decode(buffer: &[u8], offset: usize) -> (hdr: Option<EthHdr>)
        ensures
            hdr is Some <==> fits(buffer@.len(), offset as int, ETH_HDR_LEN as int),
            hdr matches Some(h) ==> h.is_at(buffer@, offset as int),
    {
        if buffer.len() < ETH_HDR_LEN || offset > buffer.len() - ETH_HDR_LEN {
            return None;
        }
        let o = offset;
        let hdr = EthHdr {
            dst_mac: [
                buffer[o],
                buffer[o + 1],
                buffer[o + 2],
                buffer[o + 3],
                buffer[o + 4],
                buffer[o + 5],
            ],
            src_mac: [
                buffer[o + 6],
                buffer[o + 7],
                buffer[o + 8],
                buffer[o + 9],
                buffer[o + 10],
                buffer[o + 11],
            ],
            ether_type: read16(buffer, o + 12),
        };
        proof {
            assert(hdr.dst_mac@ =~= buffer@.subrange(o as int, o + 6));
            assert(hdr.src_mac@ =~= buffer@.subrange(o + 6, o + 12));
        }
        Some(hdr)
    }
}

impl Ipv4Hdr {
    /// The header's fields are the bytes of `buffer` from `offset` on.
    pub open spec fn is_at(&self, buffer: Seq<u8>, offset: int) -> bool {
        &&& self.version_ihl == buffer[offset]
        &&& self.tos == buffer[offset + 1]
        &&& self.total_len == wire16(buffer[offset + 2], buffer[offset + 3])
        &&& self.id == wire16(buffer[offset + 4], buffer[offset + 5])
        &&& self.flags_frag == wire16(buffer[offset + 6], buffer[offset + 7])
        &&& self.ttl == buffer[offset + 8]
        &&& self.protocol == buffer[offset + 9]
        &&& self.checksum == wire16(buffer[offset + 10], buffer[offset + 11])
        &&& self.src_ip == wire32(
            buffer[offset + 12],
            buffer[offset + 13],
            buffer[offset + 14],
            buffer[offset + 15],
        )
        &&& self.dst_ip == wire32(
            buffer[offset + 16],
            buffer[offset + 17],
            buffer[offset + 18],
            buffer[offset + 19],
        )
    }

    /// Decodes the fixed part of the header at `offset`, or gives `None` if
    /// it would reach past the end of the buffer.
    pub fn decode(buffer: &[u8], offset: usize) -> (hdr: Option<Ipv4Hdr>)
        ensures
            hdr is Some <==> fits(buffer@.len(), offset as int, IPV4_HDR_LEN as int),
            hdr matches Some(h) ==> h.is_at(buffer@, offset as int),
    {
        if buffer.len() < IPV4_HDR_LEN || offset > buffer.len() - IPV4_HDR_LEN {
            return None;
        }
        let o = offset;
        Some(
            Ipv4Hdr {
                version_ihl: buffer[o],
                tos: buffer[o + 1],
                total_len: read16(buffer, o + 2),
                id: read16(buffer, o + 4),
                flags_frag: read16(buffer, o + 6),
                ttl: buffer[o + 8],
                protocol: buffer[o + 9],
                checksum: read16(buffer, o + 10),
                src_ip: read32(buffer, o + 12),
                dst_ip: read32(buffer, o + 16),
            },
        )
    }

    /// Length of the header with its options, between 20 and 60.
    pub fn header_len(&self) -> (len: usize)
        ensures
            len == ipv4_header_len(self.version_ihl),
            IPV4_HDR_LEN <= len <= 60,
    {
        let words = (self.version_ihl % 16) as usize;
        if words * 4 < IPV4_HDR_LEN {
            IPV4_HDR_LEN
        } else {
            words * 4
        }
    }
}

impl TcpHdr {
    /// The header's fields are the bytes of `buffer` from `offset` on.
    pub open spec fn is_at(&self, buffer: Seq<u8>, offset: int) -> bool {
        &&& self.src_port == wire16(buffer[offset], buffer[offset + 1])
        &&& self.dst_port == wire16(buffer[offset + 2], buffer[offset + 3])
        &&& self.seq == wire32(
            buffer[offset + 4],
            buffer[offset + 5],
            buffer[offset + 6],
            buffer[offset + 7],
        )
        &&& self.ack == wire32(
            buffer[offset + 8],
            buffer[offset + 9],
            buffer[offset + 10],
            buffer[offset + 11],
        )
        &&& self.data_off == buffer[offset + 12]
        &&& self.flags == buffer[offset + 13]
        &&& self.window == wire16(buffer[offset + 14], buffer[offset + 15])
        &&& self.checksum == wire16(buffer[offset + 16], buffer[offset + 17])
        &&& self.urgent == wire16(buffer[offset + 18], buffer[offset + 19])
    }

    /// Decodes the fixed part of the header at `offset`, or gives `None` if
    /// it would reach past the end of the buffer.
    pub fn decode(buffer: &[u8], offset: usize) -> (hdr: Option<TcpHdr>)
        ensures
            hdr is Some <==> fits(buffer@.len(), offset as int, TCP_HDR_LEN as int),
            hdr matches Some(h) ==> h.is_at(buffer@, offset as int),
    {
        if buffer.len() < TCP_HDR_LEN || offset > buffer.len() - TCP_HDR_LEN {
            return None;
        }
        let o = offset;
        Some(
            TcpHdr {
                src_port: read16(buffer, o),
                dst_port: read16(buffer, o + 2),
                seq: read32(buffer, o + 4),
                ack: read32(buffer, o + 8),
                data_off: buffer[o + 12],
                flags: buffer[o + 13],
                window: read16(buffer, o + 14),
                checksum: read16(buffer, o + 16),
                urgent: read16(buffer, o + 18),
            },
        )
    }

    /// Length of the header with its options, between 20 and 60: the
    /// distance from the start of the header to the payload.
    pub fn data_offset(&self) -> (len: usize)
        ensures
            len == tcp_data_offset(self.data_off),
            TCP_HDR_LEN <= len <= 60,
    {
        let words = (self.data_off / 16) as usize;
        if words * 4 < TCP_HDR_LEN {
            TCP_HDR_LEN
        } else {
            words * 4
        }
    }
}

impl UdpHdr {
    /// The header's fields are the bytes of `buffer` from `offset` on.
    pub open spec fn is_at(&self, buffer: Seq<u8>, offset: int) -> bool {
        &&& self.src_port == wire16(buffer[offset], buffer[offset + 1])
        &&& self.dst_port == wire16(buffer[offset + 2], buffer[offset + 3])
        &&& self.len == wire16(buffer[offset + 4], buffer[offset + 5])
        &&& self.checksum == wire16(buffer[offset + 6], buffer[offset + 7])
    }

    /// Decodes the header at `offset`, or gives `None` if it would reach
    /// past the end of the buffer.
    pub fn decode(buffer: &[u8], offset: usize) -> (hdr: Option<UdpHdr>)
        ensures
            hdr is Some <==> fits(buffer@.len(), offset as int, UDP_HDR_LEN as int),
            hdr matches Some(h) ==> h.is_at(buffer@, offset as int),
    {
        if buffer.len() < UDP_HDR_LEN || offset > buffer.len() - UDP_HDR_LEN {
            return None;
        }
        let o = offset;
        Some(
            UdpHdr {
                src_port: read16(buffer, o),
                dst_port: read16(buffer, o + 2),
                len: read16(buffer, o + 4),
                checksum: read16(buffer, o + 6),
            },
        )
    }
}

impl IcmpHdr {
    /// The header's fields are the bytes of `buffer` from `offset` on.
    pub open spec fn is_at(&self, buffer: Seq<u8>, offset: int) -> bool {
        &&& self.type_ == buffer[offset]
        &&& self.code == buffer[offset + 1]
        &&& self.checksum == wire16(buffer[offset + 2], buffer[offset + 3])
    }

    /// Decodes the fixed part of the header at `offset`, or gives `None` if
    /// it would reach past the end of the buffer.
    pub fn decode(buffer: &[u8], offset: usize) -> (hdr: Option<Self>)
        ensures
            hdr is Some <==> fits(buffer@.len(), offset as int, ICMP_HDR_LEN as int),
            hdr matches Some(h) ==> h.is_at(buffer@, offset as int),
    {
        if buffer.len() < ICMP_HDR_LEN || offset > buffer.len() - ICMP_HDR_LEN {
            return None;
        }
        let o = offset;
        Some(Self { type_: buffer[o], code: buffer[o + 1], checksum: read16(buffer, o + 2) })
    }
}

} // verus!
