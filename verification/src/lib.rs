//! Bounds-checked packet parsing, event filtering and rendering for a
//! network traffic monitor.
//!
//! Raw frames go through `parser::parse`, which gives an event for each
//! IPv4 TCP, UDP or ICMP packet. Events travel as fixed-size records
//! (`event`), are taken off a channel by a `consumer::Consumer`, tested
//! against a `filter::Filter` and rendered in one of the display modes
//! (`mode`). Every function is specified over the bytes and characters it
//! works on and verified against that specification.

pub mod consumer;
pub mod dissect;
pub mod dns;
pub mod event;
pub mod filter;
pub mod frames;
pub mod headers;
pub mod hexdump;
pub mod hexread;
pub mod json;
pub mod lines;
pub mod mode;
pub mod parser;
pub mod render;
pub mod text;
pub mod wire;

pub use consumer::{Consumer, Outcome, PerWorkerStats, RenderOptions};
pub use dissect::{format_text, format_text_payload, parse_http, parse_http_text};
pub use dns::{dissect_dns, format_dns, parse_dns, DnsMessage, DnsQuestion};
pub use event::{
    NetworkEvent, ETH_P_IP, EVENT_RECORD_SIZE, IPPROTO_ICMP, IPPROTO_TCP, IPPROTO_UDP,
    MAX_PAYLOAD_SIZE,
};
pub use filter::{parse_ipv4, Filter, FilterConfig, FilterOpt};
pub use headers::{EthHdr, IcmpHdr, Ipv4Hdr, TcpHdr, UdpHdr};
pub use hexdump::{format_hex_dump, format_hex_dump_paged};
pub use json::{payload_hex, JsonEvent};
pub use mode::{format_event_with_mode, format_protocol_parse, Rendered};
pub use parser::{parse, Verdict};
pub use render::{format_event, format_ip, format_protocol, parse_display_mode, DisplayMode};
