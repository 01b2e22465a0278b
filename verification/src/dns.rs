//! Best-effort dissection of the question section of a DNS message.
//!
//! A message is read as far as it goes: a name or a question that is cut
//! short ends the dissection, and what was read until then is kept. Names
//! are sequences of labels, each after its length byte; compression pointers
//! are not followed.

use vstd::prelude::*;
use crate::text::{
    decimal,
    lossy_chars,
    push_all,
    push_decimal,
    push_str,
    string_of,
    utf8_lossy,
};

verus! {

/// Length of the fixed header of a DNS message.
pub const DNS_HEADER_LEN: usize = 12;

/// One question of a DNS message.
#[derive(Debug, Clone)]
pub struct DnsQuestion {
    /// The name asked for: its labels, decoded lossily, with full stops
    /// between them.
    pub name: String,
    /// The type asked for, as a host number; `None` where the message
    /// ends before the type and class of the question.
    pub qtype: Option<u16>,
}

/// What was read of a DNS message.
#[derive(Debug, Clone)]
pub struct DnsMessage {
    /// The message is a response: bit 15 of its flags is set.
    pub is_response: bool,
    /// Number of questions that the header announces.
    pub question_count: u16,
    /// The questions that were read, in order.
    pub questions: Vec<DnsQuestion>,
}

/// What a question says.
pub struct DnsQuestionView {
    pub name: Seq<char>,
    pub qtype: Option<u16>,
}

/// What a dissected message says.
pub struct DnsMessageView {
    pub is_response: bool,
    pub question_count: u16,
    pub questions: Seq<DnsQuestionView>,
}

impl View for DnsQuestion {
    type V = DnsQuestionView;

    open spec fn view(&self) -> DnsQuestionView {
        DnsQuestionView { name: self.name@, qtype: self.qtype }
    }
}

impl View for DnsMessage {
    type V = DnsMessageView;

    open spec fn view(&self) -> DnsMessageView {
        DnsMessageView {
            is_response: self.is_response,
            question_count: self.question_count,
            questions: self.questions@.map_values(|q: DnsQuestion| q@),
        }
    }
}

/// The 16-bit host number of two bytes, the high byte first.
pub open spec fn be16(high: u8, low: u8) -> u16 {
    (high * 256 + low) as u16
}

/// A name with one more label.
pub open spec fn with_label(name: Seq<char>, label: Seq<char>) -> Seq<char> {
    if name.len() > 0 {
        name + seq!['.'] + label
    } else {
        label
    }
}

/// A name and the offset after it.
pub struct NameScan {
    pub name: Seq<char>,
    pub end: int,
}

/// Reads on in a name of which `name` has been read, from offset `pos`. A
/// length byte of 0 ends the name, and so does a label that would reach
/// past the end of the message; either way the length byte is consumed.
pub open spec fn name_scan(message: Seq<u8>, pos: int, name: Seq<char>) -> NameScan
    decreases message.len() - pos,
{
    if pos < 0 || pos >= message.len() {
        NameScan { name, end: pos }
    } else if message[pos] == 0 || pos + 1 + message[pos] > message.len() {
        NameScan { name, end: pos + 1 }
    } else {
        name_scan(
            message,
            pos + 1 + message[pos],
            with_label(name, utf8_lossy(message.subrange(pos + 1, pos + 1 + message[pos]))),
        )
    }
}

/// The questions read from offset `pos` on, at most `count` of them. A
/// question takes its name, two bytes of type and two bytes of class. The
/// dissection ends at the end of the message; a question whose type and
/// class do not fit is kept without a type, as the last one.
pub open spec fn questions_scan(message: Seq<u8>, pos: int, count: nat) -> Seq<DnsQuestionView>
    decreases count,
{
    if count == 0 || pos >= message.len() {
        Seq::empty()
    } else {
        let scan = name_scan(message, pos, Seq::empty());
        if scan.end + 4 > message.len() {
            seq![DnsQuestionView { name: scan.name, qtype: None }]
        } else {
            seq![
                DnsQuestionView {
                    name: scan.name,
                    qtype: Some(be16(message[scan.end], message[scan.end + 1])),
                },
            ] + questions_scan(message, scan.end + 4, (count - 1) as nat)
        }
    }
}

/// What is read of a DNS message: nothing if it is shorter than its
/// header, else the response bit, the question count at offset 4 and the
/// questions from offset 12 on.
pub open spec fn dns_message(message: Seq<u8>) -> Option<DnsMessageView> {
    if message.len() < DNS_HEADER_LEN {
        None
    } else {
        Some(
            DnsMessageView {
                is_response: message[2] >= 128,
                question_count: be16(message[4], message[5]),
                questions: questions_scan(
                    message,
                    DNS_HEADER_LEN as int,
                    be16(message[4], message[5]) as nat,
                ),
            },
        )
    }
}

/// The name of a question type: `A`, `NS`, `CNAME`, `AAAA`, or `UNKNOWN`.
pub open spec fn qtype_name(qtype: u16) -> Seq<char> {
    if qtype == 1 {
        "A"@
    } else if qtype == 2 {
        "NS"@
    } else if qtype == 5 {
        "CNAME"@
    } else if qtype == 28 {
        "AAAA"@
    } else {
        "UNKNOWN"@
    }
}

/// The text of question `index`, counted from 0.
pub open spec fn question_text(index: nat, question: DnsQuestionView) -> Seq<char> {
    "  Query "@ + decimal(index + 1) + ": "@ + question.name + match question.qtype {
        Some(qtype) => " (type: "@ + qtype_name(qtype) + ")\n"@,
        None => Seq::empty(),
    }
}

/// The text of the first `n` questions.
pub open spec fn questions_text(questions: Seq<DnsQuestionView>, n: nat) -> Seq<char>
    decreases n,
{
    if n == 0 {
        Seq::empty()
    } else {
        questions_text(questions, (n - 1) as nat) + question_text(
            (n - 1) as nat,
            questions[n - 1],
        )
    }
}

/// The title line of a dissected message.
pub open spec fn title_text(is_response: bool, question_count: u16) -> Seq<char> {
    (if is_response {
        "DNS Response"@
    } else {
        "DNS Query"@
    }) + " ("@ + decimal(question_count as nat) + " questions)\n"@
}

/// The text of a dissected message: a title with the announced number of
/// questions, then one line for each question that was read.
pub open spec fn dns_text(message: DnsMessageView) -> Seq<char> {
    title_text(message.is_response, message.question_count) + questions_text(
        message.questions,
        message.questions.len(),
    )
}

/// The 16-bit host number of two bytes, the high byte first.
fn host16_of(high: u8, low: u8) -> (n: u16)
    ensures
        n == be16(high, low),
{
    (high as u16) * 256 + (low as u16)
}

/// A name that was read and the offset after it.
struct ReadName {
    name: Vec<char>,
    end: usize,
}

/// Reads the name at offset `start`.
fn read_name(message: &[u8], start: usize) -> (read: ReadName)
    requires
        start <= message.len(),
    ensures
        read.end <= message.len(),
        read.name@ == name_scan(message@, start as int, Seq::empty()).name,
        read.end == name_scan(message@, start as int, Seq::empty()).end,
{
    let mut name: Vec<char> = Vec::new();
    let mut pos: usize = start;
    loop
        invariant_except_break
            name_scan(message@, pos as int, name@) == name_scan(
                message@,
                start as int,
                Seq::empty(),
            ),
        invariant
            pos <= message.len(),
        ensures
            pos <= message.len(),
            name@ == name_scan(message@, start as int, Seq::empty()).name,
            pos == name_scan(message@, start as int, Seq::empty()).end,
        decreases message.len() - pos,
    {
        if pos >= message.len() {
            break ;
        }
        let len = message[pos] as usize;
        if len == 0 || len > message.len() - pos - 1 {
            pos += 1;
            break ;
        }
        let label = lossy_chars(&message[pos + 1..pos + 1 + len]);
        let ghost before = name@;
        if name.len() > 0 {
            name.push('.');
        }
        push_all(&mut name, label.as_slice());
        proof {
            assert(name@ =~= with_label(before, label@));
        }
        pos = pos + 1 + len;
    }
    ReadName { name, end: pos }
}

/// Reads what a DNS message says, as far as it goes. `None` is returned for
/// a message shorter than the 12 bytes of its header, and for no other. The
/// response bit is bit 15 of the flags at offset 2 and the question count
/// the number at offset 4; the questions are read from offset 12.
pub fn dissect_dns(payload: &[u8]) -> (message: Option<DnsMessage>)
    ensures
        match message {
            Some(m) => dns_message(payload@) == Some(m@),
            None => dns_message(payload@) is None,
        },
{
    if payload.len() < DNS_HEADER_LEN {
        return None;
    }
    let is_response = payload[2] >= 128;
    let question_count = host16_of(payload[4], payload[5]);
    let mut questions: Vec<DnsQuestion> = Vec::new();
    let mut pos: usize = DNS_HEADER_LEN;
    let mut left: u16 = question_count;
    let ghost whole = questions_scan(payload@, DNS_HEADER_LEN as int, question_count as nat);
    proof {
        assert(questions@.map_values(|q: DnsQuestion| q@) + whole =~= whole);
    }
    while left > 0 && pos < payload.len()
        invariant_except_break
            questions@.map_values(|q: DnsQuestion| q@) + questions_scan(
                payload@,
                pos as int,
                left as nat,
            ) == whole,
        invariant
            pos <= payload.len(),
        ensures
            questions@.map_values(|q: DnsQuestion| q@) == whole,
        decreases left,
    {
        let read = read_name(payload, pos);
        let ghost before = questions@.map_values(|q: DnsQuestion| q@);
        if payload.len() - read.end < 4 {
            let question = DnsQuestion { name: string_of(&read.name), qtype: None };
            questions.push(question);
            proof {
                assert(questions@.map_values(|q: DnsQuestion| q@) =~= before.push(question@));
                assert(questions@.map_values(|q: DnsQuestion| q@) =~= whole);
            }
            break ;
        }
        let question = DnsQuestion {
            name: string_of(&read.name),
            qtype: Some(host16_of(payload[read.end], payload[read.end + 1])),
        };
        questions.push(question);
        proof {
            assert(questions@.map_values(|q: DnsQuestion| q@) =~= before.push(question@));
            assert(questions@.map_values(|q: DnsQuestion| q@) + questions_scan(
                payload@,
                read.end + 4,
                (left - 1) as nat,
            ) =~= whole);
        }
        pos = read.end + 4;
        left -= 1;
        proof {
            if !(left > 0 && pos < payload.len()) {
                assert(questions@.map_values(|q: DnsQuestion| q@) + Seq::<
                    DnsQuestionView,
                >::empty() =~= questions@.map_values(|q: DnsQuestion| q@));
            }
        }
    }
    Some(DnsMessage { is_response, question_count, questions })
}

/// The name of a question type.
fn name_of_type(qtype: u16) -> (name: &'static str)
    ensures
        name@ == qtype_name(qtype),
{
    if qtype == 1 {
        "A"
    } else if qtype == 2 {
        "NS"
    } else if qtype == 5 {
        "CNAME"
    } else if qtype == 28 {
        "AAAA"
    } else {
        "UNKNOWN"
    }
}

/// Appends the text of question `index`.
fn push_question(out: &mut Vec<char>, index: usize, question: &DnsQuestion)
    requires
        index < usize::MAX,
    ensures
        final(out)@ == old(out)@ + question_text(index as nat, question@),
{
    push_str(out, "  Query ");
    push_decimal(out, (index + 1) as u64);
    push_str(out, ": ");
    push_str(out, question.name.as_str());
    match question.qtype {
        Some(qtype) => {
            push_str(out, " (type: ");
            push_str(out, name_of_type(qtype));
            push_str(out, ")\n");
        },
        None => {},
    }
    proof {
        assert(out@ =~= old(out)@ + question_text(index as nat, question@));
    }
}

/// Appends the title line of a dissected message.
fn push_title(out: &mut Vec<char>, is_response: bool, question_count: u16)
    ensures
        final(out)@ == old(out)@ + title_text(is_response, question_count),
{
    if is_response {
        push_str(out, "DNS Response");
    } else {
        push_str(out, "DNS Query");
    }
    push_str(out, " (");
    push_decimal(out, question_count as u64);
    push_str(out, " questions)\n");
    proof {
        assert(out@ =~= old(out)@ + title_text(is_response, question_count));
    }
}

/// Appends the text of a dissected message.
pub fn push_dns(out: &mut Vec<char>, message: &DnsMessage)
    ensures
        final(out)@ == old(out)@ + dns_text(message@),
{
    push_title(out, message.is_response, message.question_count);
    let ghost head = out@;
    let mut i: usize = 0;
    proof {
        assert(out@ =~= head + questions_text(message@.questions, 0));
    }
    while i < message.questions.len()
        invariant
            i <= message.questions.len(),
            out@ == head + questions_text(message@.questions, i as nat),
        decreases message.questions.len() - i,
    {
        push_question(out, i, &message.questions[i]);
        proof {
            assert(message@.questions[i as int] == message.questions[i as int]@);
            assert(out@ =~= head + questions_text(message@.questions, (i + 1) as nat));
        }
        i += 1;
    }
    proof {
        assert(out@ =~= old(out)@ + dns_text(message@));
    }
}

/// Renders a dissected message: a title, `DNS Response` or `DNS Query`
/// with the announced number of questions, and a line for each question
/// that was read, with its number, its name and the name of its type.
pub fn format_dns(message: &DnsMessage) -> (text: String)
    ensures
        text@ == dns_text(message@),
{
    let mut out: Vec<char> = Vec::new();
    push_dns(&mut out, message);
    string_of(&out)
}

/// Dissects and renders a DNS message. `None` is returned for a payload
/// shorter than the DNS header, and for no other.
pub fn parse_dns(payload: &[u8]) -> (text: Option<String>)
    ensures
        match text {
            Some(t) => dns_message(payload@) matches Some(m) && t@ == dns_text(m),
            None => dns_message(payload@) is None,
        },
{
    match dissect_dns(payload) {
        Some(message) => Some(format_dns(&message)),
        None => None,
    }
}

} // verus!
