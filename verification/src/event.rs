//! The event record produced for each captured packet, and its fixed-size
//! serialized form.

use vstd::prelude::*;
use crate::wire::{byte16, byte32, join16, join32, split16, split32, wire16, wire32};

verus! {

/// IP protocol number of TCP.
pub const IPPROTO_TCP: u8 = 6;

/// IP protocol number of UDP.
pub const IPPROTO_UDP: u8 = 17;

/// IP protocol number of ICMP.
pub const IPPROTO_ICMP: u8 = 1;

/// Ether-type of IPv4, as a host number.
pub const ETH_P_IP: u16 = 0x0800;

/// Capacity of the payload snapshot carried by an event.
pub const MAX_PAYLOAD_SIZE: usize = 128;

/// Length in bytes of a serialized event.
pub const EVENT_RECORD_SIZE: usize = 152;

/// One captured packet: addressing, size, flags and a bounded snapshot of
/// its payload. Addresses and ports are held in wire order.
#[derive(Debug, Clone, Copy)]
pub struct NetworkEvent {
    /// IP protocol number (TCP, UDP or ICMP).
    pub protocol: u8,
    /// Source address, wire order.
    pub src_ip: u32,
    /// Destination address, wire order.
    pub dst_ip: u32,
    /// Source port, wire order; 0 for ICMP.
    pub src_port: u16,
    /// Destination port, wire order; 0 for ICMP.
    pub dst_port: u16,
    /// Length of the whole frame in bytes.
    pub packet_size: u32,
    /// TCP flag byte; 0 for other protocols.
    pub tcp_flags: u8,
    /// Number of payload bytes captured.
    pub payload_len: u8,
    pub _pad: [u8; 2],
    /// Payload snapshot; only the first `payload_len` bytes are meaningful.
    pub payload: [u8; MAX_PAYLOAD_SIZE],
}

/// What an event says: its fields, with the payload cut to the captured length.
pub struct EventView {
    pub protocol: u8,
    pub src_ip: u32,
    pub dst_ip: u32,
    pub src_port: u16,
    pub dst_port: u16,
    pub packet_size: u32,
    pub tcp_flags: u8,
    pub payload: Seq<u8>,
}

impl View for NetworkEvent {
    type V = EventView;

    open spec fn view(&self) -> EventView {
        EventView {
            protocol: self.protocol,
            src_ip: self.src_ip,
            dst_ip: self.dst_ip,
            src_port: self.src_port,
            dst_port: self.dst_port,
            packet_size: self.packet_size,
            tcp_flags: self.tcp_flags,
            payload: self.payload@.take(self.payload_len as int),
        }
    }
}

/// The start of `record` is a serialized event: the record is long enough
/// and its captured length does not exceed the payload capacity.
pub open spec fn holds_event(record: Seq<u8>) -> bool {
    record.len() >= EVENT_RECORD_SIZE && record[21] <= MAX_PAYLOAD_SIZE
}

/// What the event at the start of `record` says.
pub open spec fn record_event(record: Seq<u8>) -> EventView {
    EventView {
        protocol: record[0],
        src_ip: wire32(record[4], record[5], record[6], record[7]),
        dst_ip: wire32(record[8], record[9], record[10], record[11]),
        src_port: wire16(record[12], record[13]),
        dst_port: wire16(record[14], record[15]),
        packet_size: wire32(record[16], record[17], record[18], record[19]),
        tcp_flags: record[20],
        payload: record.subrange(24, 24 + record[21]),
    }
}

impl NetworkEvent {
    /// The captured length does not exceed the payload capacity.
    pub open spec fn wf(&self) -> bool {
        self.payload_len <= MAX_PAYLOAD_SIZE
    }

    /// Nothing is left in the bytes that carry no meaning: the padding and
    /// the payload capacity past the captured length are zero.
    pub open spec fn is_zero_filled(&self) -> bool {
        &&& self._pad[0] == 0
        &&& self._pad[1] == 0
        &&& forall|i: int| self.payload_len <= i < MAX_PAYLOAD_SIZE ==> self.payload[i] == 0
    }

    /// `record` is a serialized form of this event. The fields stand at their
    /// natural alignment: protocol at 0, addresses at 4 and 8, ports at 12 and
    /// 14, the packet size (little-endian) at 16, flags at 20, captured length
    /// at 21, two bytes of padding at 22 and the payload capacity from 24 on.
    pub open spec fn is_record(&self, record: Seq<u8>) -> bool {
        &&& record.len() >= EVENT_RECORD_SIZE
        &&& self.protocol == record[0]
        &&& self.src_ip == wire32(record[4], record[5], record[6], record[7])
        &&& self.dst_ip == wire32(record[8], record[9], record[10], record[11])
        &&& self.src_port == wire16(record[12], record[13])
        &&& self.dst_port == wire16(record[14], record[15])
        &&& self.packet_size == wire32(record[16], record[17], record[18], record[19])
        &&& self.tcp_flags == record[20]
        &&& self.payload_len == record[21]
        &&& self._pad@ == record.subrange(22, 24)
        &&& self.payload@ == record.subrange(24, EVENT_RECORD_SIZE as int)
    }

    /// The captured payload bytes.
    pub fn captured(&self) -> (bytes: &[u8])
        requires
            self.wf(),
        ensures
            bytes@ == self@.payload,
    {
        let n = self.payload_len as usize;
        let bytes = &self.payload[0..n];
        proof {
            assert(bytes@ =~= self@.payload);
        }
        bytes
    }

    /// Serializes the event into a record of `EVENT_RECORD_SIZE` bytes. The
    /// three alignment bytes after the protocol are zero.
    pub fn to_record(&self) -> (record: [u8; EVENT_RECORD_SIZE])
        ensures
            self.is_record(record@),
            record[1] == 0,
            record[2] == 0,
            record[3] == 0,
    {
        let mut record = [0u8; EVENT_RECORD_SIZE];
        let src = split32(self.src_ip);
        let dst = split32(self.dst_ip);
        let sport = split16(self.src_port);
        let dport = split16(self.dst_port);
        let size = split32(self.packet_size);
        record[0] = self.protocol;
        record[4] = src.0;
        record[5] = src.1;
        record[6] = src.2;
        record[7] = src.3;
        record[8] = dst.0;
        record[9] = dst.1;
        record[10] = dst.2;
        record[11] = dst.3;
        record[12] = sport.0;
        record[13] = sport.1;
        record[14] = dport.0;
        record[15] = dport.1;
        record[16] = size.0;
        record[17] = size.1;
        record[18] = size.2;
        record[19] = size.3;
        record[20] = self.tcp_flags;
        record[21] = self.payload_len;
        record[22] = self._pad[0];
        record[23] = self._pad[1];
        let mut i: usize = 0;
        while i < MAX_PAYLOAD_SIZE
            invariant
                i <= MAX_PAYLOAD_SIZE,
                record[0] == self.protocol,
                record[1] == 0,
                record[2] == 0,
                record[3] == 0,
                record[4] == byte32(self.src_ip, 0),
                record[5] == byte32(self.src_ip, 1),
                record[6] == byte32(self.src_ip, 2),
                record[7] == byte32(self.src_ip, 3),
                record[8] == byte32(self.dst_ip, 0),
                record[9] == byte32(self.dst_ip, 1),
                record[10] == byte32(self.dst_ip, 2),
                record[11] == byte32(self.dst_ip, 3),
                record[12] == byte16(self.src_port, 0),
                record[13] == byte16(self.src_port, 1),
                record[14] == byte16(self.dst_port, 0),
                record[15] == byte16(self.dst_port, 1),
                record[16] == byte32(self.packet_size, 0),
                record[17] == byte32(self.packet_size, 1),
                record[18] == byte32(self.packet_size, 2),
                record[19] == byte32(self.packet_size, 3),
                record[20] == self.tcp_flags,
                record[21] == self.payload_len,
                record[22] == self._pad[0],
                record[23] == self._pad[1],
                forall|k: int| 0 <= k < i ==> record[24 + k] == self.payload[k],
            decreases MAX_PAYLOAD_SIZE - i,
        {
            record[24 + i] = self.payload[i];
            i += 1;
        }
        proof {
            crate::wire::lemma_wire32_bytes(self.src_ip);
            crate::wire::lemma_wire32_bytes(self.dst_ip);
            crate::wire::lemma_wire32_bytes(self.packet_size);
            crate::wire::lemma_wire16_bytes(self.src_port);
            crate::wire::lemma_wire16_bytes(self.dst_port);
            assert(self._pad@ =~= record@.subrange(22, 24));
            assert(self.payload@ =~= record@.subrange(24, EVENT_RECORD_SIZE as int));
        }
        record
    }

    /// Decodes the event at the start of `record`, field by field. A record
    /// shorter than `EVENT_RECORD_SIZE`, or one whose captured length exceeds
    /// the payload capacity, holds no event.
    pub fn from_record(record: &[u8]) -> (event: Option<NetworkEvent>)
        ensures
            event is Some <==> holds_event(record@),
            event matches Some(e) ==> e.is_record(record@) && e.wf() && e@ == record_event(
                record@,
            ),
    {
        if record.len() < EVENT_RECORD_SIZE {
            return None;
        }
        if record[21] as usize > MAX_PAYLOAD_SIZE {
            return None;
        }
        let mut payload = [0u8; MAX_PAYLOAD_SIZE];
        let mut i: usize = 0;
        while i < MAX_PAYLOAD_SIZE
            invariant
                i <= MAX_PAYLOAD_SIZE,
                record.len() >= EVENT_RECORD_SIZE,
                forall|k: int| 0 <= k < i ==> payload[k] == record[24 + k],
            decreases MAX_PAYLOAD_SIZE - i,
        {
            payload[i] = record[24 + i];
            i += 1;
        }
        let event = NetworkEvent {
            protocol: record[0],
            src_ip: join32(record[4], record[5], record[6], record[7]),
            dst_ip: join32(record[8], record[9], record[10], record[11]),
            src_port: join16(record[12], record[13]),
            dst_port: join16(record[14], record[15]),
            packet_size: join32(record[16], record[17], record[18], record[19]),
            tcp_flags: record[20],
            payload_len: record[21],
            _pad: [record[22], record[23]],
            payload,
        };
        proof {
            assert(event._pad@ =~= record@.subrange(22, 24));
            assert(event.payload@ =~= record@.subrange(24, EVENT_RECORD_SIZE as int));
            lemma_record_view(record@, event);
        }
        Some(event)
    }
}

/// An event says what its serialized form says.
pub proof fn lemma_record_view(record: Seq<u8>, event: NetworkEvent)
    requires
        event.is_record(record),
        event.wf(),
    ensures
        event@ == record_event(record),
{
    assert(event@.payload =~= record_event(record).payload);
}

/// Two events with the same serialized form are the same event, so decoding
/// a serialized event gives that event back.
pub proof fn lemma_record_determines_event(record: Seq<u8>, a: NetworkEvent, b: NetworkEvent)
    requires
        a.is_record(record),
        b.is_record(record),
    ensures
        a == b,
{
    assert(a._pad =~= b._pad);
    assert(a.payload =~= b.payload);
}

} // verus!
