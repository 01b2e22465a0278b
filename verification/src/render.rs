//! The basic one-line rendering of an event, and the display modes.

use vstd::prelude::*;
use crate::event::{EventView, NetworkEvent, IPPROTO_ICMP, IPPROTO_TCP, IPPROTO_UDP};
use crate::text::{chars_of, decimal, push_decimal, push_str, string_of};
use crate::wire::{byte32, split32, swap16, to_host16};

verus! {

/// How an event is shown.
#[derive(Debug, Clone, Copy, PartialEq, Eq, Structural)]
pub enum DisplayMode {
    /// The header line only.
    Basic,
    /// The header line and a hex dump of the payload.
    Hex,
    /// The header line and the payload as text, where it is text.
    Text,
    /// The header line and a dissection of HTTP or DNS.
    Protocol,
    /// A structured record.
    Json,
}

impl Default for DisplayMode {
    fn default() -> (mode: DisplayMode)
        ensures
            mode == DisplayMode::Basic,
    {
        DisplayMode::Basic
    }
}

/// The lower-case form of an ASCII capital letter; any other character is
/// left as it is.
pub open spec fn lower(c: char) -> char {
    if 'A' <= c <= 'Z' {
        (c as u8 + 32) as char
    } else {
        c
    }
}

/// The text with its ASCII capital letters in lower case.
pub open spec fn ascii_lower(text: Seq<char>) -> Seq<char> {
    text.map_values(|c: char| lower(c))
}

/// `text` is `word` but for the case of its ASCII letters; `word` is in
/// lower case.
pub open spec fn is_keyword(text: Seq<char>, word: Seq<char>) -> bool {
    ascii_lower(text) == word
}

/// The display mode that a mode name selects: `hex`, `text`, `protocol` and
/// `json`, in any case of letters, select their mode, and every other name
/// selects the basic mode.
pub open spec fn display_mode_of(name: Seq<char>) -> DisplayMode {
    if is_keyword(name, "hex"@) {
        DisplayMode::Hex
    } else if is_keyword(name, "text"@) {
        DisplayMode::Text
    } else if is_keyword(name, "protocol"@) {
        DisplayMode::Protocol
    } else if is_keyword(name, "json"@) {
        DisplayMode::Json
    } else {
        DisplayMode::Basic
    }
}

/// The name of an IP protocol as the renderers show it.
pub open spec fn protocol_name(protocol: u8) -> Seq<char> {
    if protocol == IPPROTO_TCP {
        "TCP"@
    } else if protocol == IPPROTO_UDP {
        "UDP"@
    } else if protocol == IPPROTO_ICMP {
        "ICMP"@
    } else {
        "UNKNOWN"@
    }
}

/// The dotted-decimal text of four address bytes.
pub open spec fn dotted(a: u8, b: u8, c: u8, d: u8) -> Seq<char> {
    decimal(a as nat) + seq!['.'] + decimal(b as nat) + seq!['.'] + decimal(c as nat) + seq!['.']
        + decimal(d as nat)
}

/// The dotted-decimal text of a wire-order address: its bytes in wire
/// sequence.
pub open spec fn ip_text(ip: u32) -> Seq<char> {
    dotted(byte32(ip, 0), byte32(ip, 1), byte32(ip, 2), byte32(ip, 3))
}

/// The protocol of the event has ports.
pub open spec fn has_ports(protocol: u8) -> bool {
    protocol == IPPROTO_TCP || protocol == IPPROTO_UDP
}

/// One end of a connection: the address, and for TCP and UDP a colon and
/// the port as a host number.
pub open spec fn endpoint_text(protocol: u8, ip: u32, port: u16) -> Seq<char> {
    if has_ports(protocol) {
        ip_text(ip) + seq![':'] + decimal(swap16(port) as nat)
    } else {
        ip_text(ip)
    }
}

/// The header line of an event: protocol, source, destination and size.
pub open spec fn basic_line(event: EventView) -> Seq<char> {
    protocol_name(event.protocol) + seq![' '] + endpoint_text(
        event.protocol,
        event.src_ip,
        event.src_port,
    ) + " -> "@ + endpoint_text(event.protocol, event.dst_ip, event.dst_port) + " ("@ + decimal(
        event.packet_size as nat,
    ) + "b)"@
}

/// Tests whether `text` is `word` but for the case of its ASCII letters.
pub fn matches_keyword(text: &[char], word: &str) -> (r: bool)
    ensures
        r == is_keyword(text@, word@),
{
    broadcast use vstd::string::group_string_axioms;

    let mut i: usize = 0;
    for c in it: word.chars()
        invariant
            it.seq() == word@,
            i == it.index(),
            i <= text.len(),
            ascii_lower(text@).take(i as int) == word@.take(i as int),
    {
        if i >= text.len() {
            return false;
        }
        let t = text[i];
        let low = if 'A' <= t && t <= 'Z' {
            (t as u8 + 32) as char
        } else {
            t
        };
        if low != c {
            proof {
                assert(ascii_lower(text@)[i as int] != word@[i as int]);
            }
            return false;
        }
        proof {
            assert(ascii_lower(text@).take(i + 1) =~= ascii_lower(text@).take(i as int).push(c));
            assert(word@.take(i + 1) =~= word@.take(i as int).push(c));
        }
        i += 1;
    }
    proof {
        assert(word@.take(word@.len() as int) =~= word@);
        if i == text.len() {
            assert(ascii_lower(text@).take(i as int) =~= ascii_lower(text@));
        }
    }
    i == text.len()
}

/// Selects the display mode that `mode` names. Letters may be in either
/// case; a name that is none of `hex`, `text`, `protocol` and `json` selects
/// the basic mode.
pub fn parse_display_mode(mode: &str) -> (selected: DisplayMode)
    ensures
        selected == display_mode_of(mode@),
{
    let name = chars_of(mode);
    if matches_keyword(name.as_slice(), "hex") {
        DisplayMode::Hex
    } else if matches_keyword(name.as_slice(), "text") {
        DisplayMode::Text
    } else if matches_keyword(name.as_slice(), "protocol") {
        DisplayMode::Protocol
    } else if matches_keyword(name.as_slice(), "json") {
        DisplayMode::Json
    } else {
        DisplayMode::Basic
    }
}

/// The name of an IP protocol: `TCP`, `UDP`, `ICMP`, or `UNKNOWN` for any
/// other number.
pub fn format_protocol(protocol: u8) -> (name: &'static str)
    ensures
        name@ == protocol_name(protocol),
{
    if protocol == IPPROTO_TCP {
        "TCP"
    } else if protocol == IPPROTO_UDP {
        "UDP"
    } else if protocol == IPPROTO_ICMP {
        "ICMP"
    } else {
        "UNKNOWN"
    }
}

/// Appends the dotted-decimal text of a wire-order address.
pub fn push_ip(out: &mut Vec<char>, ip: u32)
    ensures
        final(out)@ == old(out)@ + ip_text(ip),
{
    let b = split32(ip);
    push_decimal(out, b.0 as u64);
    out.push('.');
    push_decimal(out, b.1 as u64);
    out.push('.');
    push_decimal(out, b.2 as u64);
    out.push('.');
    push_decimal(out, b.3 as u64);
    proof {
        assert(out@ =~= old(out)@ + ip_text(ip));
    }
}

/// The dotted-decimal text of a wire-order address.
pub fn format_ip(ip: u32) -> (text: String)
    ensures
        text@ == ip_text(ip),
{
    let mut out: Vec<char> = Vec::new();
    push_ip(&mut out, ip);
    string_of(&out)
}

/// Appends one end of a connection.
fn push_endpoint(out: &mut Vec<char>, protocol: u8, ip: u32, port: u16)
    ensures
        final(out)@ == old(out)@ + endpoint_text(protocol, ip, port),
{
    push_ip(out, ip);
    if protocol == IPPROTO_TCP || protocol == IPPROTO_UDP {
        out.push(':');
        push_decimal(out, to_host16(port) as u64);
    }
    proof {
        assert(out@ =~= old(out)@ + endpoint_text(protocol, ip, port));
    }
}

/// Appends the header line of an event.
pub fn push_basic_line(out: &mut Vec<char>, event: &NetworkEvent)
    ensures
        final(out)@ == old(out)@ + basic_line(event@),
{
    push_str(out, format_protocol(event.protocol));
    out.push(' ');
    push_endpoint(out, event.protocol, event.src_ip, event.src_port);
    push_str(out, " -> ");
    push_endpoint(out, event.protocol, event.dst_ip, event.dst_port);
    push_str(out, " (");
    push_decimal(out, event.packet_size as u64);
    push_str(out, "b)");
    proof {
        assert(out@ =~= old(out)@ + basic_line(event@));
    }
}

/// The header line of an event: `PROTO src:port -> dst:port (size b)` for
/// TCP and UDP, and the same without the ports for any other protocol.
/// Addresses are shown in dotted decimal and ports as host numbers.
pub fn format_event(event: &NetworkEvent) -> (line: String)
    ensures
        line@ == basic_line(event@),
{
    let mut out: Vec<char> = Vec::new();
    push_basic_line(&mut out, event);
    string_of(&out)
}

} // verus!
