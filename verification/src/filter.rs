//! Event filters: optional criteria that an event has to meet exactly.

use vstd::prelude::*;
use vstd::slice::slice_to_vec;
use crate::event::{EventView, NetworkEvent, IPPROTO_ICMP, IPPROTO_TCP, IPPROTO_UDP};
use crate::render::{dotted, ip_text, is_keyword, matches_keyword};
use crate::text::{chars_of, decimal, digit};
use crate::wire::{byte32, join32, lemma_wire32_bytes, swap16, to_wire16, wire32};

verus! {

/// Criteria on an event. A criterion that is absent admits every value; one
/// that is present admits the equal value only. Addresses and ports are in
/// wire order, as in the event.
#[derive(Debug, Clone, Copy)]
pub struct Filter {
    pub protocol: Option<u8>,
    pub src_ip: Option<u32>,
    pub dst_ip: Option<u32>,
    pub src_port: Option<u16>,
    pub dst_port: Option<u16>,
}

/// The filter settings as an operator gives them: a protocol name,
/// addresses as dotted-decimal literals and ports as host numbers.
#[derive(Debug, Clone)]
pub struct FilterOpt {
    pub protocol: String,
    pub src_ip: Option<String>,
    pub dst_ip: Option<String>,
    pub src_port: Option<u16>,
    pub dst_port: Option<u16>,
}

/// Filter settings in a fixed layout, where 0 stands for "any".
#[derive(Debug, Clone, Copy)]
pub struct FilterConfig {
    /// Non-zero if filtering is on.
    pub enabled: u8,
    /// Protocol number; 0 admits all.
    pub protocol: u8,
    /// Source address; 0 admits any.
    pub src_ip: u32,
    /// Destination address; 0 admits any.
    pub dst_ip: u32,
    /// Source port; 0 admits any.
    pub src_port: u16,
    /// Destination port; 0 admits any.
    pub dst_port: u16,
    /// Smallest packet size admitted.
    pub min_packet_size: u32,
    /// Largest packet size admitted.
    pub max_packet_size: u32,
}

impl Default for FilterConfig {
    fn default() -> (config: FilterConfig)
        ensures
            config == (FilterConfig {
                enabled: 0,
                protocol: 0,
                src_ip: 0,
                dst_ip: 0,
                src_port: 0,
                dst_port: 0,
                min_packet_size: 0,
                max_packet_size: 0,
            }),
    {
        FilterConfig {
            enabled: 0,
            protocol: 0,
            src_ip: 0,
            dst_ip: 0,
            src_port: 0,
            dst_port: 0,
            min_packet_size: 0,
            max_packet_size: 0,
        }
    }
}

/// 1 if the criterion is present, else 0.
pub open spec fn present<T>(criterion: Option<T>) -> nat {
    if criterion is Some {
        1
    } else {
        0
    }
}

/// 1 if the criterion is present and equal to `value`, else 0.
pub open spec fn agrees<T>(criterion: Option<T>, value: T) -> nat {
    if criterion == Some(value) {
        1
    } else {
        0
    }
}

impl Filter {
    /// The filter admits the event: each criterion that is present equals
    /// the event's field.
    pub open spec fn admits(&self, event: EventView) -> bool {
        &&& self.protocol matches Some(p) ==> event.protocol == p
        &&& self.src_ip matches Some(ip) ==> event.src_ip == ip
        &&& self.dst_ip matches Some(ip) ==> event.dst_ip == ip
        &&& self.src_port matches Some(port) ==> event.src_port == port
        &&& self.dst_port matches Some(port) ==> event.dst_port == port
    }

    /// Number of criteria that are present.
    pub open spec fn criteria(&self) -> nat {
        present(self.protocol) + present(self.src_ip) + present(self.dst_ip) + present(
            self.src_port,
        ) + present(self.dst_port)
    }

    /// Number of criteria that are present and equal to the event's field.
    pub open spec fn agreeing(&self, event: EventView) -> nat {
        agrees(self.protocol, event.protocol) + agrees(self.src_ip, event.src_ip) + agrees(
            self.dst_ip,
            event.dst_ip,
        ) + agrees(self.src_port, event.src_port) + agrees(self.dst_port, event.dst_port)
    }

    /// The filter without criteria.
    pub fn any() -> (filter: Filter)
        ensures
            filter.criteria() == 0,
    {
        Filter { protocol: None, src_ip: None, dst_ip: None, src_port: None, dst_port: None }
    }

    /// Tests whether the filter admits the event.
    pub fn matches(&self, event: &NetworkEvent) -> (r: bool)
        ensures
            r == self.admits(event@),
    {
        if let Some(protocol) = self.protocol {
            if event.protocol != protocol {
                return false;
            }
        }
        if let Some(src_ip) = self.src_ip {
            if event.src_ip != src_ip {
                return false;
            }
        }
        if let Some(dst_ip) = self.dst_ip {
            if event.dst_ip != dst_ip {
                return false;
            }
        }
        if let Some(src_port) = self.src_port {
            if event.src_port != src_port {
                return false;
            }
        }
        if let Some(dst_port) = self.dst_port {
            if event.dst_port != dst_port {
                return false;
            }
        }
        true
    }

    /// Builds the filter that the operator's settings describe. The protocol
    /// name selects its protocol and any other name none; an address that is
    /// no dotted-decimal literal gives no criterion; ports are taken to wire
    /// order.
    pub fn from_opt(opt: &FilterOpt) -> (filter: Filter)
        ensures
            filter.protocol == protocol_of(opt.protocol@),
            filter.src_ip == address_of(opt.src_ip),
            filter.dst_ip == address_of(opt.dst_ip),
            filter.src_port == port_of(opt.src_port),
            filter.dst_port == port_of(opt.dst_port),
    {
        Filter {
            protocol: parse_protocol(opt.protocol.as_str()),
            src_ip: parse_address(&opt.src_ip),
            dst_ip: parse_address(&opt.dst_ip),
            src_port: wire_port(opt.src_port),
            dst_port: wire_port(opt.dst_port),
        }
    }
}

/// A filter without criteria admits every event.
pub proof fn lemma_no_criteria_admit_all(filter: Filter, event: EventView)
    requires
        filter.criteria() == 0,
    ensures
        filter.admits(event),
{
}

/// A filter admits an event exactly when every criterion that is present
/// agrees with the event: with k criteria present, when all k fields are
/// equal.
pub proof fn lemma_admits_iff_all_agree(filter: Filter, event: EventView)
    ensures
        filter.admits(event) <==> filter.agreeing(event) == filter.criteria(),
{
}

/// The protocol criterion that a protocol name gives: `tcp`, `udp` and the
/// name of ICMP, in any case of letters, give their protocol number, and
/// every other name, `all` among them, gives none.
pub open spec fn protocol_of(name: Seq<char>) -> Option<u8> {
    if is_keyword(name, "tcp"@) {
        Some(IPPROTO_TCP)
    } else if is_keyword(name, "udp"@) {
        Some(IPPROTO_UDP)
    } else if is_keyword(name, "icmp"@) {
        Some(IPPROTO_ICMP)
    } else {
        None
    }
}

/// The port criterion that a host port number gives.
pub open spec fn port_of(port: Option<u16>) -> Option<u16> {
    match port {
        Some(p) => Some(swap16(p)),
        None => None,
    }
}

/// The address criterion that an optional literal gives.
pub open spec fn address_of(literal: Option<String>) -> Option<u32> {
    match literal {
        Some(text) => ipv4_literal(text@),
        None => None,
    }
}

/// `c` is a decimal digit.
pub open spec fn is_decimal_digit(c: char) -> bool {
    '0' <= c <= '9'
}

/// The number that a string of decimal digits denotes.
pub open spec fn number(digits: Seq<char>) -> nat
    decreases digits.len(),
{
    if digits.len() == 0 {
        0
    } else {
        (number(digits.drop_last()) * 10 + (digits.last() as u8 - 48)) as nat
    }
}

/// The byte that a field of an address literal denotes: one to three
/// decimal digits without a leading zero, but for `0` itself, that make a
/// number up to 255.
pub open spec fn octet_of(field: Seq<char>) -> Option<u8> {
    if 1 <= field.len() <= 3 && (forall|i: int|
        0 <= i < field.len() ==> is_decimal_digit(#[trigger] field[i])) && (field.len() == 1
        || field[0] != '0') && number(field) <= 255 {
        Some(number(field) as u8)
    } else {
        None
    }
}

/// The fields of `text` that are still to come when the current field
/// started at `start` and the text has been read up to `pos`.
pub open spec fn fields_scan(text: Seq<char>, start: int, pos: int) -> Seq<Seq<char>>
    decreases text.len() - pos,
{
    if pos >= text.len() {
        seq![text.subrange(start, text.len() as int)]
    } else if text[pos] == '.' {
        seq![text.subrange(start, pos)] + fields_scan(text, pos + 1, pos + 1)
    } else {
        fields_scan(text, start, pos + 1)
    }
}

/// The fields of a text, which full stops separate.
pub open spec fn fields(text: Seq<char>) -> Seq<Seq<char>> {
    fields_scan(text, 0, 0)
}

/// The wire-order address that a dotted-decimal literal denotes: four
/// fields, each a byte, the first of them first on the wire. Any other text
/// denotes no address.
pub open spec fn ipv4_literal(text: Seq<char>) -> Option<u32> {
    let f = fields(text);
    if f.len() == 4 && octet_of(f[0]) is Some && octet_of(f[1]) is Some && octet_of(f[2]) is Some
        && octet_of(f[3]) is Some {
        Some(
            wire32(
                octet_of(f[0]).unwrap(),
                octet_of(f[1]).unwrap(),
                octet_of(f[2]).unwrap(),
                octet_of(f[3]).unwrap(),
            ),
        )
    } else {
        None
    }
}

/// The protocol criterion that a protocol name gives.
pub fn parse_protocol(name: &str) -> (protocol: Option<u8>)
    ensures
        protocol == protocol_of(name@),
{
    let chars = chars_of(name);
    if matches_keyword(chars.as_slice(), "tcp") {
        Some(IPPROTO_TCP)
    } else if matches_keyword(chars.as_slice(), "udp") {
        Some(IPPROTO_UDP)
    } else if matches_keyword(chars.as_slice(), "icmp") {
        Some(IPPROTO_ICMP)
    } else {
        None
    }
}

/// The port criterion that a host port number gives.
fn wire_port(port: Option<u16>) -> (criterion: Option<u16>)
    ensures
        criterion == port_of(port),
{
    match port {
        Some(p) => Some(to_wire16(p)),
        None => None,
    }
}

/// The address criterion that an optional literal gives.
fn parse_address(literal: &Option<String>) -> (criterion: Option<u32>)
    ensures
        criterion == address_of(*literal),
{
    match literal {
        Some(text) => parse_ipv4(text.as_str()),
        None => None,
    }
}

/// The byte that a field of an address literal denotes.
fn parse_octet(field: &[char]) -> (octet: Option<u8>)
    ensures
        octet == octet_of(field@),
{
    if field.len() < 1 || field.len() > 3 {
        return None;
    }
    let mut value: u32 = 0;
    let mut i: usize = 0;
    while i < field.len()
        invariant
            i <= field.len() <= 3,
            forall|k: int| 0 <= k < i ==> is_decimal_digit(#[trigger] field[k]),
            value == number(field@.take(i as int)),
            value < 1000,
        decreases field.len() - i,
    {
        let c = field[i];
        if !('0' <= c && c <= '9') {
            return None;
        }
        proof {
            assert(field@.take(i + 1).drop_last() =~= field@.take(i as int));
            lemma_number_bound(field@.take(i as int));
        }
        value = value * 10 + (c as u8 - 48) as u32;
        proof {
            lemma_number_bound(field@.take(i + 1));
        }
        i += 1;
    }
    proof {
        assert(field@.take(field.len() as int) =~= field@);
    }
    if field.len() > 1 && field[0] == '0' {
        return None;
    }
    if value > 255 {
        return None;
    }
    Some(value as u8)
}

/// A string of n digits denotes a number below 10 to the n, for n up to 3.
proof fn lemma_number_bound(digits: Seq<char>)
    requires
        digits.len() <= 3,
        forall|i: int| 0 <= i < digits.len() ==> is_decimal_digit(#[trigger] digits[i]),
    ensures
        digits.len() == 0 ==> number(digits) == 0,
        digits.len() == 1 ==> number(digits) < 10,
        digits.len() == 2 ==> number(digits) < 100,
        digits.len() == 3 ==> number(digits) < 1000,
    decreases digits.len(),
{
    if digits.len() > 0 {
        lemma_number_bound(digits.drop_last());
        assert(is_decimal_digit(digits[digits.len() - 1]));
    }
}

/// Splits a text into its fields.
fn split_fields(text: &[char]) -> (parts: Vec<Vec<char>>)
    ensures
        crate::lines::views(parts@) == fields(text@),
{
    let mut parts: Vec<Vec<char>> = Vec::new();
    let mut start: usize = 0;
    let mut pos: usize = 0;
    proof {
        assert(crate::lines::views(parts@) + fields_scan(text@, 0, 0) =~= fields(text@));
    }
    while pos < text.len()
        invariant
            start <= pos <= text.len(),
            crate::lines::views(parts@) + fields_scan(text@, start as int, pos as int) == fields(
                text@,
            ),
        decreases text.len() - pos,
    {
        if text[pos] == '.' {
            let part = slice_to_vec(&text[start..pos]);
            let ghost before = crate::lines::views(parts@);
            parts.push(part);
            proof {
                assert(crate::lines::views(parts@) =~= before.push(part@));
                assert(crate::lines::views(parts@) + fields_scan(text@, pos + 1, pos + 1)
                    =~= before + fields_scan(text@, start as int, pos as int));
            }
            start = pos + 1;
        }
        pos += 1;
    }
    let part = slice_to_vec(&text[start..text.len()]);
    let ghost before = crate::lines::views(parts@);
    parts.push(part);
    proof {
        assert(crate::lines::views(parts@) =~= before.push(part@));
        assert(crate::lines::views(parts@) =~= fields(text@));
    }
    parts
}

/// Reads a dotted-decimal address literal. `Some` holds the address in
/// wire order; a text that is no such literal gives `None`.
pub fn parse_ipv4(text: &str) -> (address: Option<u32>)
    ensures
        address == ipv4_literal(text@),
{
    let chars = chars_of(text);
    let parts = split_fields(chars.as_slice());
    if parts.len() != 4 {
        return None;
    }
    proof {
        let f = fields(text@);
        assert(crate::lines::views(parts@)[0] == parts[0]@);
        assert(crate::lines::views(parts@)[1] == parts[1]@);
        assert(crate::lines::views(parts@)[2] == parts[2]@);
        assert(crate::lines::views(parts@)[3] == parts[3]@);
    }
    let a = match parse_octet(parts[0].as_slice()) {
        Some(octet) => octet,
        None => {
            return None;
        },
    };
    let b = match parse_octet(parts[1].as_slice()) {
        Some(octet) => octet,
        None => {
            return None;
        },
    };
    let c = match parse_octet(parts[2].as_slice()) {
        Some(octet) => octet,
        None => {
            return None;
        },
    };
    let d = match parse_octet(parts[3].as_slice()) {
        Some(octet) => octet,
        None => {
            return None;
        },
    };
    Some(join32(a, b, c, d))
}

/// The numeral of a number denotes that number. It is made of digits, and
/// it starts with a zero only if it is the numeral of zero.
proof fn lemma_decimal_number(n: nat)
    ensures
        number(decimal(n)) == n,
        decimal(n).len() >= 1,
        n < 10 ==> decimal(n).len() == 1,
        10 <= n < 100 ==> decimal(n).len() == 2,
        100 <= n < 1000 ==> decimal(n).len() == 3,
        n >= 10 ==> decimal(n)[0] != '0',
        forall|i: int| 0 <= i < decimal(n).len() ==> is_decimal_digit(#[trigger] decimal(n)[i]),
    decreases n,
{
    if n < 10 {
        assert(decimal(n).drop_last() =~= Seq::<char>::empty());
        assert(number(decimal(n).drop_last()) == 0);
    } else {
        let front = decimal(n / 10);
        lemma_decimal_number(n / 10);
        assert(decimal(n).drop_last() =~= front);
        assert(decimal(n)[0] == front[0]);
        assert(digit((n % 10) as int) as u8 - 48 == n % 10);
        assert forall|i: int| 0 <= i < decimal(n).len() implies is_decimal_digit(
            #[trigger] decimal(n)[i],
        ) by {
            if i < front.len() {
                assert(decimal(n)[i] == front[i]);
            }
        }
    }
}

/// The numeral of a byte is a field that denotes that byte and holds no
/// full stop.
proof fn lemma_octet_of_decimal(b: u8)
    ensures
        octet_of(decimal(b as nat)) == Some(b),
        forall|i: int|
            0 <= i < decimal(b as nat).len() ==> #[trigger] decimal(b as nat)[i] != '.',
{
    lemma_decimal_number(b as nat);
    assert forall|i: int| 0 <= i < decimal(b as nat).len() implies #[trigger] decimal(
        b as nat,
    )[i] != '.' by {
        assert(is_decimal_digit(decimal(b as nat)[i]));
    }
}

/// Reading fields in a text after a prefix is reading them in the text
/// alone.
proof fn lemma_fields_shift(before: Seq<char>, text: Seq<char>, start: int, pos: int)
    requires
        0 <= start <= pos <= text.len(),
    ensures
        fields_scan(before + text, before.len() + start, before.len() + pos) == fields_scan(
            text,
            start,
            pos,
        ),
    decreases text.len() - pos,
{
    let whole = before + text;
    let at = before.len() as int;
    if pos >= text.len() {
        assert(whole.subrange(at + start, whole.len() as int) =~= text.subrange(
            start,
            text.len() as int,
        ));
    } else {
        assert(whole[at + pos] == text[pos]);
        if text[pos] == '.' {
            lemma_fields_shift(before, text, pos + 1, pos + 1);
            assert(whole.subrange(at + start, at + pos) =~= text.subrange(start, pos));
        } else {
            lemma_fields_shift(before, text, start, pos + 1);
        }
    }
}

/// A text that is read inside its first field, which a full stop ends, has
/// that field and then the fields of the rest to come.
proof fn lemma_fields_first(field: Seq<char>, rest: Seq<char>, pos: int)
    requires
        0 <= pos <= field.len(),
        forall|i: int| 0 <= i < field.len() ==> field[i] != '.',
    ensures
        fields_scan(field + seq!['.'] + rest, 0, pos) == seq![field] + fields(rest),
    decreases field.len() - pos,
{
    let head = field + seq!['.'];
    let whole = head + rest;
    if pos < field.len() {
        assert(whole[pos] == field[pos]);
        lemma_fields_first(field, rest, pos + 1);
    } else {
        assert(whole[pos] == '.');
        assert(whole.subrange(0, pos) =~= field);
        lemma_fields_shift(head, rest, 0, 0);
    }
}

/// A text without a full stop is one field.
proof fn lemma_fields_last(field: Seq<char>, pos: int)
    requires
        0 <= pos <= field.len(),
        forall|i: int| 0 <= i < field.len() ==> field[i] != '.',
    ensures
        fields_scan(field, 0, pos) == seq![field],
    decreases field.len() - pos,
{
    if pos < field.len() {
        lemma_fields_last(field, pos + 1);
    } else {
        assert(field.subrange(0, field.len() as int) =~= field);
    }
}

/// The dotted-decimal text of four bytes is a literal of the address that
/// has these bytes, in wire sequence.
pub proof fn lemma_literal_of_dotted(a: u8, b: u8, c: u8, d: u8)
    ensures
        ipv4_literal(dotted(a, b, c, d)) == Some(wire32(a, b, c, d)),
{
    let fa = decimal(a as nat);
    let fb = decimal(b as nat);
    let fc = decimal(c as nat);
    let fd = decimal(d as nat);
    lemma_octet_of_decimal(a);
    lemma_octet_of_decimal(b);
    lemma_octet_of_decimal(c);
    lemma_octet_of_decimal(d);
    let rest3 = fd;
    let rest2 = fc + seq!['.'] + rest3;
    let rest1 = fb + seq!['.'] + rest2;
    let whole = fa + seq!['.'] + rest1;
    assert(dotted(a, b, c, d) =~= whole);
    lemma_fields_last(fd, 0);
    lemma_fields_first(fc, rest3, 0);
    lemma_fields_first(fb, rest2, 0);
    lemma_fields_first(fa, rest1, 0);
    assert(fields(whole) =~= seq![fa, fb, fc, fd]);
}

/// An address that is shown and read again is the same address: what
/// `format_ip` writes, `parse_ipv4` reads as the address it was written from.
pub proof fn lemma_literal_of_shown_address(ip: u32)
    ensures
        ipv4_literal(ip_text(ip)) == Some(ip),
{
    lemma_literal_of_dotted(byte32(ip, 0), byte32(ip, 1), byte32(ip, 2), byte32(ip, 3));
    lemma_wire32_bytes(ip);
}

} // verus!
