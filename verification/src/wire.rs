//! The wire codec: a query read from a datagram, and the two replies written
//! for it.

use crate::dotted::{find_dot, lemma_first_dot, split_on_dot};
use crate::octets::{be16, be16_value, be32, push_be16, push_be32, push_bytes, read_be16};
use crate::record::{rdata, record_views, type_code, DnsRecord, RecordView};
use crate::text::{text_from_bytes, text_of};
use vstd::prelude::*;
use vstd::slice::slice_subrange;
use vstd::string::*;
use vstd::utf8::*;

verus! {

/// The largest datagram read, and the room a reply is given at first.
pub const MAX_PACKET_SIZE: usize = 512;

/// Length of the fixed header that opens every message.
pub const HEADER_LEN: usize = 12;

/// Length of what follows the name in a question: its type and its class.
pub const QUESTION_TAIL_LEN: usize = 4;

/// The most answers one reply carries: the count is written in one byte.
pub const MAX_ANSWERS: usize = 255;

/// Why a datagram is not a query.
#[derive(Clone, Copy, Debug, PartialEq, Eq, Structural)]
pub enum DecodeError {
    /// The datagram ends before a header, a name with its end mark, a type
    /// and a class have been read.
    Truncated,
    /// A label claims more bytes than the name's part of the datagram holds.
    MalformedName,
}

/// A parsed question.
#[derive(Debug, PartialEq, Eq)]
pub struct DnsQuery {
    /// Transaction id, echoed in the reply.
    pub id: u16,
    /// The name asked for: its labels joined by full stops.
    pub domain: String,
    /// The record type asked for.
    pub query_type: u16,
}

/// The mathematical value of a `DnsQuery`.
pub struct QueryView {
    pub id: u16,
    pub domain: Seq<char>,
    pub query_type: u16,
}

impl View for DnsQuery {
    type V = QueryView;

    open spec fn view(&self) -> QueryView {
        QueryView { id: self.id, domain: self.domain@, query_type: self.query_type }
    }
}

impl Clone for DnsQuery {
    fn clone(&self) -> (copy: Self)
        ensures
            copy@ == self@,
    {
        DnsQuery { id: self.id, domain: self.domain.clone(), query_type: self.query_type }
    }
}

/// One label on the wire: its length in one byte, then its bytes.
pub open spec fn wire_label(label: Seq<u8>) -> Seq<u8> {
    seq![(label.len() % 256) as u8] + label
}

/// Labels on the wire, one after the other.
pub open spec fn wire_labels(labels: Seq<Seq<u8>>) -> Seq<u8>
    decreases labels.len(),
{
    if labels.len() == 0 {
        Seq::empty()
    } else {
        wire_labels(labels.drop_last()) + wire_label(labels.last())
    }
}

/// A name on the wire: the labels between its full stops, then the empty
/// label that ends it.
pub open spec fn wire_name(name: Seq<char>) -> Seq<u8> {
    wire_labels(split_on_dot(encode_utf8(name))) + seq![0u8]
}

/// The question section: the name, the type asked for, and class IN.
pub open spec fn question_section(query: QueryView) -> Seq<u8> {
    wire_name(query.domain) + be16(query.query_type) + seq![0u8, 1u8]
}

/// The header of a reply to one question: the id, the two flag bytes, one
/// question, `answers` answers, nothing else.
pub open spec fn reply_header(id: u16, flags: u8, answers: u8) -> Seq<u8> {
    be16(id) + seq![0x81u8, flags, 0u8, 1u8, 0u8, answers, 0u8, 0u8, 0u8, 0u8]
}

/// One answer: a pointer back to the question's name, the record's type code,
/// class IN, its time-to-live, the length of its data in sixteen bits, and
/// the data.
pub open spec fn answer(record: RecordView) -> Seq<u8> {
    seq![0xc0u8, 0x0cu8] + be16(type_code(record.data)) + seq![0u8, 1u8] + be32(record.ttl)
        + be16((rdata(record.data).len() % 0x1_0000) as u16) + rdata(record.data)
}

/// The answer section: one answer per record, in order.
pub open spec fn answer_section(records: Seq<RecordView>) -> Seq<u8>
    decreases records.len(),
{
    if records.len() == 0 {
        Seq::empty()
    } else {
        answer_section(records.drop_last()) + answer(records.last())
    }
}

/// The records that a reply carries: all of them, or the first 255.
pub open spec fn answered(records: Seq<RecordView>) -> Seq<RecordView> {
    if records.len() > MAX_ANSWERS {
        records.take(MAX_ANSWERS as int)
    } else {
        records
    }
}

/// The reply that answers `query` with `records`.
pub open spec fn success_reply(query: QueryView, records: Seq<RecordView>) -> Seq<u8> {
    reply_header(query.id, 0x80, answered(records).len() as u8) + question_section(query)
        + answer_section(answered(records))
}

/// The reply that says no record answers `query`.
pub open spec fn error_reply(query: QueryView) -> Seq<u8> {
    reply_header(query.id, 0x83, 0) + question_section(query)
}

/// The labels of a name read from the bytes between the header and the
/// question's last four bytes. Reading stops at the first empty label. A
/// label that claims more bytes than are left is malformed; bytes that run out
/// before an empty label are a truncated name.
pub open spec fn parse_labels(region: Seq<u8>) -> Result<Seq<Seq<u8>>, DecodeError>
    decreases region.len(),
{
    if region.len() == 0 {
        Err(DecodeError::Truncated)
    } else if region[0] == 0 {
        Ok(Seq::empty())
    } else if 1 + region[0] > region.len() {
        Err(DecodeError::MalformedName)
    } else {
        match parse_labels(region.subrange(1 + region[0], region.len() as int)) {
            Ok(rest) => Ok(seq![region.subrange(1, 1 + region[0])] + rest),
            Err(e) => Err(e),
        }
    }
}

/// The display form of a name: the text of each label, joined by full stops.
pub open spec fn name_text(labels: Seq<Seq<u8>>) -> Seq<char>
    decreases labels.len(),
{
    if labels.len() == 0 {
        Seq::empty()
    } else if labels.len() == 1 {
        text_of(labels[0])
    } else {
        name_text(labels.drop_last()) + seq!['.'] + text_of(labels.last())
    }
}

/// The name that the name's part of a datagram spells, or why it spells none.
pub open spec fn parse_name(region: Seq<u8>) -> Result<Seq<char>, DecodeError> {
    match parse_labels(region) {
        Ok(labels) => Ok(name_text(labels)),
        Err(e) => Err(e),
    }
}

/// The query that a datagram holds, or why it holds none. The id is read from
/// the first two bytes, the type from the fourth and third byte before the
/// end, the name from what lies between the header and the last four bytes.
pub open spec fn parse_query(message: Seq<u8>) -> Result<QueryView, DecodeError> {
    if message.len() < HEADER_LEN + QUESTION_TAIL_LEN {
        Err(DecodeError::Truncated)
    } else {
        match parse_name(
            message.subrange(HEADER_LEN as int, message.len() - QUESTION_TAIL_LEN),
        ) {
            Ok(domain) => Ok(
                QueryView {
                    id: be16_value(message[0], message[1]),
                    domain,
                    query_type: be16_value(
                        message[message.len() - 4],
                        message[message.len() - 3],
                    ),
                },
            ),
            Err(e) => Err(e),
        }
    }
}

/// What reading gives once the labels `done` have been read and `rest` is what
/// reading the remainder gives.
pub open spec fn after_labels(
    done: Seq<Seq<u8>>,
    rest: Result<Seq<Seq<u8>>, DecodeError>,
) -> Result<Seq<Seq<u8>>, DecodeError> {
    match rest {
        Ok(labels) => Ok(done + labels),
        Err(e) => Err(e),
    }
}

/// Reads a name from the bytes that hold it: length-prefixed labels up to the
/// first empty one.
pub fn parse_domain_name(buf: &[u8]) -> (name: Result<String, DecodeError>)
    ensures
        match name {
            Ok(domain) => parse_name(buf@) == Ok::<Seq<char>, DecodeError>(domain@),
            Err(e) => parse_name(buf@) == Err::<Seq<char>, DecodeError>(e),
        },
{
    let mut domain = String::new();
    let mut i: usize = 0;
    let mut first = true;
    let ghost mut done: Seq<Seq<u8>> = Seq::empty();
    proof {
        assert(buf@.subrange(0, buf@.len() as int) =~= buf@);
        match parse_labels(buf@) {
            Ok(labels) => {
                assert(done + labels =~= labels);
            },
            Err(_) => {},
        }
    }
    loop
        invariant
            i <= buf@.len(),
            parse_labels(buf@) == after_labels(
                done,
                parse_labels(buf@.subrange(i as int, buf@.len() as int)),
            ),
            domain@ == name_text(done),
            first == (done.len() == 0),
        decreases buf@.len() - i,
    {
        let ghost tail = buf@.subrange(i as int, buf@.len() as int);
        if i >= buf.len() {
            return Err(DecodeError::Truncated);
        }
        let len = buf[i] as usize;
        assert(tail[0] == buf@[i as int]);
        if len == 0 {
            assert(done + Seq::<Seq<u8>>::empty() =~= done);
            return Ok(domain);
        }
        if len > buf.len() - i - 1 {
            return Err(DecodeError::MalformedName);
        }
        let label = slice_subrange(buf, i + 1, i + 1 + len);
        let text = text_from_bytes(label);
        if !first {
            proof {
                reveal_strlit(".");
                assert("."@ =~= seq!['.']);
            }
            domain.append(".");
        }
        domain.append(text.as_str());
        proof {
            let rest = tail.subrange(1 + len, tail.len() as int);
            assert(rest =~= buf@.subrange(i + 1 + len, buf@.len() as int));
            assert(label@ =~= tail.subrange(1, 1 + len));
            assert(text@ == text_of(label@));
            match parse_labels(rest) {
                Ok(more) => {
                    assert(done + (seq![label@] + more) =~= done.push(label@) + more);
                },
                Err(_) => {},
            }
            assert(done.push(label@).drop_last() =~= done);
            assert(domain@ =~= name_text(done.push(label@)));
            done = done.push(label@);
        }
        first = false;
        i = i + 1 + len;
    }
}

/// Reads the query that a datagram holds: the id, the name of the first
/// question, and the type that precedes the datagram's last two bytes.
pub fn parse_dns_query(buf: &[u8]) -> (query: Result<DnsQuery, DecodeError>)
    ensures
        match query {
            Ok(q) => parse_query(buf@) == Ok::<QueryView, DecodeError>(q@),
            Err(e) => parse_query(buf@) == Err::<QueryView, DecodeError>(e),
        },
        buf@.len() < HEADER_LEN ==> query == Err::<DnsQuery, DecodeError>(DecodeError::Truncated),
{
    if buf.len() < HEADER_LEN + QUESTION_TAIL_LEN {
        return Err(DecodeError::Truncated);
    }
    let id = read_be16(buf[0], buf[1]);
    let query_type = read_be16(buf[buf.len() - 4], buf[buf.len() - 3]);
    match parse_domain_name(slice_subrange(buf, HEADER_LEN, buf.len() - QUESTION_TAIL_LEN)) {
        Ok(domain) => Ok(DnsQuery { id, domain, query_type }),
        Err(e) => Err(e),
    }
}

/// Appends one answer per record, in order.
pub fn append_answer_section(response: &mut Vec<u8>, records: &[DnsRecord])
    ensures
        final(response)@ == old(response)@ + answer_section(record_views(records@)),
{
    let ghost views = record_views(records@);
    let mut i: usize = 0;
    assert(response@ =~= old(response)@ + answer_section(views.take(0)));
    while i < records.len()
        invariant
            i <= records@.len(),
            views == record_views(records@),
            response@ == old(response)@ + answer_section(views.take(i as int)),
        decreases records@.len() - i,
    {
        let record = &records[i];
        let ghost before = response@;
        let data = record.record_type.rdata();
        response.push(0xc0);
        response.push(0x0c);
        push_be16(response, record.record_type.type_code());
        response.push(0x00);
        response.push(0x01);
        push_be32(response, record.ttl);
        push_be16(response, (data.len() % 0x1_0000) as u16);
        push_bytes(response, data.as_slice());
        proof {
            assert(views[i as int] == record@);
            assert(response@ =~= before + answer(record@));
            assert(views.take(i + 1).drop_last() =~= views.take(i as int));
            assert(views.take(i + 1).last() == record@);
            assert(response@ =~= old(response)@ + answer_section(views.take(i + 1)));
        }
        i += 1;
    }
    assert(views.take(i as int) =~= views);
}

/// Appends the question section for `query`.
pub fn append_question_section(response: &mut Vec<u8>, query: &DnsQuery)
    ensures
        final(response)@ == old(response)@ + question_section(query@),
{
    let name = query.domain.as_str().as_bytes();
    let ghost mut done: Seq<Seq<u8>> = Seq::empty();
    let mut start: usize = 0;
    proof {
        assert(name@.subrange(0, name@.len() as int) =~= name@);
        assert(done + split_on_dot(name@) =~= split_on_dot(name@));
        assert(response@ =~= old(response)@ + wire_labels(done));
    }
    loop
        invariant_except_break
            start <= name@.len(),
            split_on_dot(name@) == done + split_on_dot(
                name@.subrange(start as int, name@.len() as int),
            ),
            response@ == old(response)@ + wire_labels(done),
        ensures
            response@ == old(response)@ + wire_labels(split_on_dot(name@)),
        decreases name@.len() - start,
    {
        let ghost tail = name@.subrange(start as int, name@.len() as int);
        let ghost before = response@;
        let end = find_dot(name, start);
        let label = slice_subrange(name, start, end);
        response.push(((end - start) % 256) as u8);
        push_bytes(response, label);
        proof {
            lemma_first_dot(tail);
            assert(label@ == tail.subrange(0, end - start));
            assert(done.push(label@).drop_last() =~= done);
            assert(response@ =~= before + wire_label(label@));
            assert(response@ =~= old(response)@ + wire_labels(done.push(label@)));
        }
        if end == name.len() {
            proof {
                assert(split_on_dot(tail) == seq![tail]);
                assert(label@ == tail);
                assert(done + seq![tail] =~= done.push(label@));
            }
            break;
        }
        proof {
            let rest = tail.subrange(end - start + 1, tail.len() as int);
            assert(rest == name@.subrange(end + 1, name@.len() as int));
            assert(split_on_dot(tail) == seq![label@] + split_on_dot(rest));
            assert(done + (seq![label@] + split_on_dot(rest)) =~= done.push(label@)
                + split_on_dot(rest));
            done = done.push(label@);
        }
        start = end + 1;
    }
    response.push(0);
    push_be16(response, query.query_type);
    response.push(0x00);
    response.push(0x01);
    assert(response@ =~= old(response)@ + question_section(query@));
}

/// Appends the header of a reply: the id, the flag bytes, one question and
/// `answers` answers.
fn append_reply_header(response: &mut Vec<u8>, id: u16, flags: u8, answers: u8)
    ensures
        final(response)@ == old(response)@ + reply_header(id, flags, answers),
{
    push_be16(response, id);
    response.push(0x81);
    response.push(flags);
    response.push(0x00);
    response.push(0x01);
    response.push(0x00);
    response.push(answers);
    response.push(0x00);
    response.push(0x00);
    response.push(0x00);
    response.push(0x00);
    assert(response@ =~= old(response)@ + reply_header(id, flags, answers));
}

/// Builds the reply that answers `query` with `records`, in the order given.
/// Of more than 255 records only the first 255 are sent, and counted.
pub fn create_dns_response(query: &DnsQuery, records: &[DnsRecord]) -> (response: Vec<u8>)
    ensures
        response@ == success_reply(query@, record_views(records@)),
{
    let count: usize = if records.len() > MAX_ANSWERS {
        MAX_ANSWERS
    } else {
        records.len()
    };
    let sent = slice_subrange(records, 0, count);
    proof {
        let views = record_views(records@);
        if records@.len() > MAX_ANSWERS {
            assert(record_views(sent@) =~= views.take(MAX_ANSWERS as int));
        } else {
            assert(sent@ =~= records@);
        }
        assert(record_views(sent@) == answered(views));
    }
    let mut response: Vec<u8> = Vec::with_capacity(MAX_PACKET_SIZE);
    append_reply_header(&mut response, query.id, 0x80, count as u8);
    append_question_section(&mut response, query);
    append_answer_section(&mut response, sent);
    assert(response@ =~= success_reply(query@, record_views(records@)));
    response
}

/// Builds the reply that says no record answers `query`.
pub fn create_dns_error_response(query: &DnsQuery) -> (response: Vec<u8>)
    ensures
        response@ == error_reply(query@),
{
    let mut response: Vec<u8> = Vec::with_capacity(MAX_PACKET_SIZE);
    append_reply_header(&mut response, query.id, 0x83, 0);
    append_question_section(&mut response, query);
    assert(response@ =~= error_reply(query@));
    response
}

} // verus!
