//! The structured record of an event, as the JSON mode hands it out.

use vstd::prelude::*;
use crate::event::{EventView, NetworkEvent};
use crate::render::{format_ip, format_protocol, ip_text, protocol_name};
use crate::text::{chars_of, hex_byte, push_hex_byte, string_of};
use crate::wire::{swap16, to_host16};

verus! {

/// The fields of an event as a flat record: names and addresses as text,
/// ports as host numbers, the payload as hexadecimal text.
#[derive(Debug, Clone)]
pub struct JsonEvent {
    /// Time of rendering, in seconds since the Unix epoch.
    pub timestamp: i64,
    /// Name of the protocol.
    pub protocol: String,
    /// Source address in dotted decimal.
    pub src_ip: String,
    /// Destination address in dotted decimal.
    pub dst_ip: String,
    /// Source port, host order.
    pub src_port: u16,
    /// Destination port, host order.
    pub dst_port: u16,
    /// Length of the whole frame in bytes.
    pub packet_size: u32,
    /// TCP flag byte.
    pub tcp_flags: u8,
    /// Number of payload bytes captured.
    pub payload_len: usize,
    /// The captured payload, two lower-case hexadecimal digits to a byte,
    /// with a space between two bytes.
    pub payload_hex: String,
}

/// What a record says.
pub struct JsonEventView {
    pub timestamp: i64,
    pub protocol: Seq<char>,
    pub src_ip: Seq<char>,
    pub dst_ip: Seq<char>,
    pub src_port: u16,
    pub dst_port: u16,
    pub packet_size: u32,
    pub tcp_flags: u8,
    pub payload_len: usize,
    pub payload_hex: Seq<char>,
}

impl View for JsonEvent {
    type V = JsonEventView;

    open spec fn view(&self) -> JsonEventView {
        JsonEventView {
            timestamp: self.timestamp,
            protocol: self.protocol@,
            src_ip: self.src_ip@,
            dst_ip: self.dst_ip@,
            src_port: self.src_port,
            dst_port: self.dst_port,
            packet_size: self.packet_size,
            tcp_flags: self.tcp_flags,
            payload_len: self.payload_len,
            payload_hex: self.payload_hex@,
        }
    }
}

/// The bytes in hexadecimal, two lower-case digits each, with a space
/// between two bytes.
pub open spec fn hex_string(bytes: Seq<u8>) -> Seq<char>
    decreases bytes.len(),
{
    if bytes.len() == 0 {
        Seq::empty()
    } else if bytes.len() == 1 {
        hex_byte(bytes[0])
    } else {
        hex_string(bytes.drop_last()) + seq![' '] + hex_byte(bytes.last())
    }
}

/// The record of an event rendered at `timestamp`.
pub open spec fn json_record(event: EventView, timestamp: i64) -> JsonEventView {
    JsonEventView {
        timestamp,
        protocol: protocol_name(event.protocol),
        src_ip: ip_text(event.src_ip),
        dst_ip: ip_text(event.dst_ip),
        src_port: swap16(event.src_port),
        dst_port: swap16(event.dst_port),
        packet_size: event.packet_size,
        tcp_flags: event.tcp_flags,
        payload_len: event.payload.len() as usize,
        payload_hex: hex_string(event.payload),
    }
}

/// The hexadecimal text of n bytes has two characters for each byte and one
/// for each space between two bytes: 3n - 1 characters, and none for no
/// bytes.
pub proof fn lemma_hex_string_len(bytes: Seq<u8>)
    ensures
        bytes.len() == 0 ==> hex_string(bytes).len() == 0,
        bytes.len() > 0 ==> hex_string(bytes).len() == 2 * bytes.len() + (bytes.len() - 1),
    decreases bytes.len(),
{
    if bytes.len() > 1 {
        lemma_hex_string_len(bytes.drop_last());
    }
}

/// The bytes in hexadecimal, two lower-case digits each, with a space
/// between two bytes.
pub fn payload_hex(bytes: &[u8]) -> (text: String)
    ensures
        text@ == hex_string(bytes@),
        bytes@.len() == 0 ==> text@.len() == 0,
        bytes@.len() > 0 ==> text@.len() == 2 * bytes@.len() + (bytes@.len() - 1),
{
    let mut out: Vec<char> = Vec::new();
    let mut i: usize = 0;
    while i < bytes.len()
        invariant
            i <= bytes.len(),
            out@ == hex_string(bytes@.take(i as int)),
        decreases bytes.len() - i,
    {
        if i > 0 {
            out.push(' ');
        }
        push_hex_byte(&mut out, bytes[i]);
        proof {
            assert(bytes@.take(i + 1).drop_last() =~= bytes@.take(i as int));
            assert(out@ =~= hex_string(bytes@.take(i + 1)));
        }
        i += 1;
    }
    proof {
        assert(bytes@.take(bytes.len() as int) =~= bytes@);
        lemma_hex_string_len(bytes@);
    }
    string_of(&out)
}

impl JsonEvent {
    /// The record of an event rendered at `timestamp`.
    pub fn from_event(event: &NetworkEvent, timestamp: i64) -> (record: JsonEvent)
        requires
            event.wf(),
        ensures
            record@ == json_record(event@, timestamp),
            event.payload_len == 0 ==> record.payload_hex@.len() == 0,
            event.payload_len > 0 ==> record.payload_hex@.len() == 2 * event.payload_len + (
            event.payload_len - 1),
    {
        let name = chars_of(format_protocol(event.protocol));
        JsonEvent {
            timestamp,
            protocol: string_of(&name),
            src_ip: format_ip(event.src_ip),
            dst_ip: format_ip(event.dst_ip),
            src_port: to_host16(event.src_port),
            dst_port: to_host16(event.dst_port),
            packet_size: event.packet_size,
            tcp_flags: event.tcp_flags,
            payload_len: event.payload_len as usize,
            payload_hex: payload_hex(event.captured()),
        }
    }
}

} // verus!
