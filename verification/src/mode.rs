//! Rendering of an event in each display mode.

use vstd::prelude::*;
use crate::dissect::{format_text_payload, http_summary, parse_http, text_payload};
use crate::dns::{dns_message, dns_text, parse_dns};
use crate::event::{EventView, NetworkEvent, IPPROTO_TCP, IPPROTO_UDP};
use crate::hexdump::{format_hex_dump, format_hex_dump_paged, hex_dump, hex_dump_paged};
use crate::json::{json_record, JsonEvent, JsonEventView};
use crate::render::{basic_line, push_basic_line, DisplayMode};
use crate::text::{decimal, push_decimal, push_str, string_of, utf8_lossy};
use crate::wire::{swap16, to_host16};

verus! {

/// The TCP port that HTTP uses.
pub const HTTP_PORT: u16 = 80;

/// The UDP port that DNS uses.
pub const DNS_PORT: u16 = 53;

/// An event as rendered: a text to print, or, in the JSON mode, the record
/// to serialize.
#[derive(Debug, Clone)]
pub enum Rendered {
    Text(String),
    Json(JsonEvent),
}

/// What a rendering says.
pub enum RenderedView {
    Text(Seq<char>),
    Json(JsonEventView),
}

impl View for Rendered {
    type V = RenderedView;

    open spec fn view(&self) -> RenderedView {
        match self {
            Rendered::Text(text) => RenderedView::Text(text@),
            Rendered::Json(record) => RenderedView::Json(record@),
        }
    }
}

/// Number of payload bytes that the hex and text modes show: the captured
/// length if all is asked for, else the number asked for, but no more than
/// the captured length.
pub open spec fn effective_len(payload_len: nat, payload_bytes: nat, payload_full: bool) -> nat {
    if payload_full || payload_bytes > payload_len {
        payload_len
    } else {
        payload_bytes
    }
}

/// The event goes from or to the given port, a host number.
pub open spec fn uses_port(event: EventView, port: u16) -> bool {
    swap16(event.dst_port) == port || swap16(event.src_port) == port
}

/// The rendering in the text mode: the header line, a line that announces
/// the content, and the bytes shown as text or hex dump.
pub open spec fn content_text(event: EventView, shown: nat) -> Seq<char> {
    basic_line(event) + "\nContent:\n"@ + text_payload(event.payload.take(shown as int))
}

/// The dissection of the payload in the protocol mode: the HTTP head for
/// TCP on port 80, if the payload starts with one; the DNS questions for
/// UDP on port 53, if the payload holds a DNS header; nothing in every
/// other case.
pub open spec fn dissection(event: EventView) -> Option<Seq<char>> {
    if event.protocol == IPPROTO_TCP && uses_port(event, HTTP_PORT) && http_summary(
        utf8_lossy(event.payload),
    ) is Some {
        http_summary(utf8_lossy(event.payload))
    } else if event.protocol == IPPROTO_UDP && uses_port(event, DNS_PORT) && dns_message(
        event.payload,
    ) is Some {
        Some(dns_text(dns_message(event.payload).unwrap()))
    } else {
        None
    }
}

/// The rendering in the protocol mode: the header line and the dissection,
/// or, where there is no dissection, the rendering of the text mode with
/// all that was captured.
pub open spec fn protocol_text(event: EventView) -> Seq<char> {
    match dissection(event) {
        Some(dissected) => basic_line(event) + seq!['\n'] + dissected,
        None => content_text(event, event.payload.len()),
    }
}

/// The rendering in the hex mode: the header line, a line with the captured
/// and the shown length, and the dump, paginated if `page_lines` is not 0
/// and the bytes shown take more than one page.
pub open spec fn hex_text(event: EventView, shown: nat, page_lines: nat) -> Seq<char> {
    basic_line(event) + "\nPayload ("@ + decimal(event.payload.len()) + " bytes, showing "@
        + decimal(shown) + " bytes):\n"@ + if page_lines > 0 && shown > page_lines * 16 {
        hex_dump_paged(event.payload, shown, page_lines)
    } else {
        hex_dump(event.payload, shown)
    }
}

/// The rendering of an event in a display mode.
pub open spec fn rendering(
    event: EventView,
    mode: DisplayMode,
    payload_bytes: nat,
    payload_full: bool,
    page_lines: nat,
    timestamp: i64,
) -> RenderedView {
    let shown = effective_len(event.payload.len(), payload_bytes, payload_full);
    match mode {
        DisplayMode::Basic => RenderedView::Text(basic_line(event)),
        DisplayMode::Hex => RenderedView::Text(hex_text(event, shown, page_lines)),
        DisplayMode::Text => RenderedView::Text(content_text(event, shown)),
        DisplayMode::Protocol => RenderedView::Text(protocol_text(event)),
        DisplayMode::Json => RenderedView::Json(json_record(event, timestamp)),
    }
}

/// Tests whether the event goes from or to the given port.
fn on_port(event: &NetworkEvent, port: u16) -> (r: bool)
    ensures
        r == uses_port(event@, port),
{
    to_host16(event.dst_port) == port || to_host16(event.src_port) == port
}

/// The dissection of the payload, if a dissector applies and succeeds.
fn dissect(event: &NetworkEvent) -> (dissected: Option<String>)
    requires
        event.wf(),
    ensures
        match dissected {
            Some(text) => dissection(event@) == Some(text@),
            None => dissection(event@) is None,
        },
{
    let payload = event.captured();
    if event.protocol == IPPROTO_TCP && on_port(event, HTTP_PORT) {
        if let Some(http) = parse_http(payload) {
            return Some(http);
        }
    }
    if event.protocol == IPPROTO_UDP && on_port(event, DNS_PORT) {
        if let Some(dns) = parse_dns(payload) {
            return Some(dns);
        }
    }
    None
}

/// Renders an event in the text mode.
fn format_text_mode(event: &NetworkEvent, shown: usize) -> (text: String)
    requires
        event.wf(),
        shown <= event.payload_len,
    ensures
        text@ == content_text(event@, shown as nat),
{
    let mut out: Vec<char> = Vec::new();
    push_basic_line(&mut out, event);
    push_str(&mut out, "\nContent:\n");
    let payload = event.captured();
    let part = &payload[0..shown];
    proof {
        assert(part@ =~= event@.payload.take(shown as int));
    }
    let content = format_text_payload(part);
    push_str(&mut out, content.as_str());
    proof {
        assert(out@ =~= content_text(event@, shown as nat));
    }
    string_of(&out)
}

/// Renders an event in the protocol mode: the header line, and below it
/// the head of an HTTP message for TCP from or to port 80, or the questions
/// of a DNS message for UDP from or to port 53. Where neither applies or the
/// payload is no such message, the event is rendered as the text mode
/// renders it, with all that was captured.
pub fn format_protocol_parse(event: &NetworkEvent) -> (text: String)
    requires
        event.wf(),
    ensures
        text@ == protocol_text(event@),
{
    match dissect(event) {
        Some(dissected) => {
            let mut out: Vec<char> = Vec::new();
            push_basic_line(&mut out, event);
            out.push('\n');
            push_str(&mut out, dissected.as_str());
            proof {
                assert(out@ =~= protocol_text(event@));
            }
            string_of(&out)
        },
        None => format_text_mode(event, event.payload_len as usize),
    }
}

/// Renders an event in the hex mode.
fn format_hex_mode(event: &NetworkEvent, shown: usize, page_lines: usize) -> (text: String)
    requires
        event.wf(),
        shown <= event.payload_len,
    ensures
        text@ == hex_text(event@, shown as nat, page_lines as nat),
{
    let mut out: Vec<char> = Vec::new();
    push_basic_line(&mut out, event);
    push_str(&mut out, "\nPayload (");
    push_decimal(&mut out, event.payload_len as u64);
    push_str(&mut out, " bytes, showing ");
    push_decimal(&mut out, shown as u64);
    push_str(&mut out, " bytes):\n");
    let dump = if page_lines > 0 && page_lines < 8 && shown > page_lines * 16 {
        format_hex_dump_paged(event.captured(), shown, page_lines)
    } else {
        format_hex_dump(event.captured(), shown)
    };
    push_str(&mut out, dump.as_str());
    proof {
        assert(out@ =~= hex_text(event@, shown as nat, page_lines as nat));
    }
    string_of(&out)
}

/// Renders an event in a display mode.
///
/// The hex and text modes show `payload_bytes` bytes of the payload, or all
/// that was captured if `payload_full` is set or fewer were captured. The
/// hex mode paginates its dump with `page_lines` rows to a page if
/// `page_lines` is not 0 and the bytes shown take more than one page. The
/// JSON mode gives the record of the event, stamped with `timestamp`; the
/// other modes give text.
pub fn format_event_with_mode(
    event: &NetworkEvent,
    mode: DisplayMode,
    payload_bytes: usize,
    payload_full: bool,
    page_lines: usize,
    timestamp: i64,
) -> (rendered: Rendered)
    requires
        event.wf(),
    ensures
        rendered@ == rendering(
            event@,
            mode,
            payload_bytes as nat,
            payload_full,
            page_lines as nat,
            timestamp,
        ),
{
    let captured = event.payload_len as usize;
    let shown = if payload_full || payload_bytes > captured {
        captured
    } else {
        payload_bytes
    };
    match mode {
        DisplayMode::Basic => {
            let mut out: Vec<char> = Vec::new();
            push_basic_line(&mut out, event);
            Rendered::Text(string_of(&out))
        },
        DisplayMode::Hex => Rendered::Text(format_hex_mode(event, shown, page_lines)),
        DisplayMode::Text => Rendered::Text(format_text_mode(event, shown)),
        DisplayMode::Protocol => Rendered::Text(format_protocol_parse(event)),
        DisplayMode::Json => Rendered::Json(JsonEvent::from_event(event, timestamp)),
    }
}

} // verus!
