//! Resource records: what a name resolves to, how long a client may keep it,
//! and how each kind is written into a reply.

use crate::decimal::{decimal, parse_decimal};
use crate::dotted::{find_dot, lemma_first_dot, split_on_dot};
use crate::octets::{be16, push_be16, push_bytes};
use crate::text::{canonical_address, canonical_address_text};
use vstd::prelude::*;
use vstd::slice::slice_subrange;
use vstd::string::*;
use vstd::utf8::*;

verus! {

/// Wire code of an IPv4 address record.
pub const TYPE_A: u16 = 1;

/// Wire code of a canonical-name record.
pub const TYPE_CNAME: u16 = 5;

/// Wire code of a mail-exchange record.
pub const TYPE_MX: u16 = 15;

/// Wire code of a text record.
pub const TYPE_TXT: u16 = 16;

/// Wire code of an IPv6 address record.
pub const TYPE_AAAA: u16 = 28;

/// Seconds after which a stored record is no longer served, whatever
/// time-to-live it advertises.
pub const FRESHNESS_WINDOW: u64 = 300;

/// What a record holds, by kind.
#[derive(Debug, PartialEq, Eq)]
pub enum DnsRecordType {
    /// An IPv4 address in dotted-decimal text.
    A(String),
    /// An IPv6 address as text. Replies carry it in its canonical form.
    AAAA(String),
    /// The name that this name is an alias of.
    CNAME(String),
    /// A mail exchange: its preference, then its name.
    MX(u16, String),
    /// Free text.
    TXT(String),
}

/// A stored record.
#[derive(Debug, PartialEq, Eq)]
pub struct DnsRecord {
    /// The data, by kind.
    pub record_type: DnsRecordType,
    /// Seconds a client may cache the record; sent in replies as it is.
    pub ttl: u32,
    /// When the record was stored, in seconds on the caller's clock. Never sent.
    pub inserted_at: u64,
}

/// The mathematical value of a `DnsRecordType`.
pub enum RecordData {
    A(Seq<char>),
    AAAA(Seq<char>),
    CNAME(Seq<char>),
    MX(u16, Seq<char>),
    TXT(Seq<char>),
}

/// The mathematical value of a `DnsRecord`.
pub struct RecordView {
    pub data: RecordData,
    pub ttl: u32,
    pub inserted_at: u64,
}

impl View for DnsRecordType {
    type V = RecordData;

    open spec fn view(&self) -> RecordData {
        match self {
            DnsRecordType::A(ip) => RecordData::A(ip@),
            DnsRecordType::AAAA(ip) => RecordData::AAAA(ip@),
            DnsRecordType::CNAME(name) => RecordData::CNAME(name@),
            DnsRecordType::MX(preference, exchange) => RecordData::MX(*preference, exchange@),
            DnsRecordType::TXT(text) => RecordData::TXT(text@),
        }
    }
}

impl View for DnsRecord {
    type V = RecordView;

    open spec fn view(&self) -> RecordView {
        RecordView { data: self.record_type@, ttl: self.ttl, inserted_at: self.inserted_at }
    }
}

/// The views of a run of records, in order.
pub open spec fn record_views(records: Seq<DnsRecord>) -> Seq<RecordView> {
    records.map_values(|r: DnsRecord| r@)
}

/// The one table from kind to wire code.
pub open spec fn type_code(data: RecordData) -> u16 {
    match data {
        RecordData::A(_) => TYPE_A,
        RecordData::AAAA(_) => TYPE_AAAA,
        RecordData::CNAME(_) => TYPE_CNAME,
        RecordData::MX(_, _) => TYPE_MX,
        RecordData::TXT(_) => TYPE_TXT,
    }
}

/// The name of a kind of record, as an operator writes it.
pub open spec fn kind_name(data: RecordData) -> Seq<char> {
    match data {
        RecordData::A(_) => "A"@,
        RecordData::AAAA(_) => "AAAA"@,
        RecordData::CNAME(_) => "CNAME"@,
        RecordData::MX(_, _) => "MX"@,
        RecordData::TXT(_) => "TXT"@,
    }
}

/// Whether a record of this kind answers a query of type `query_type`. Each
/// kind answers its own code and nothing else; no code asks for every kind.
pub open spec fn answers_type(data: RecordData, query_type: u16) -> bool {
    type_code(data) == query_type
}

/// Seconds from `since` to `now`; none if the clock reads earlier than
/// `since`.
pub open spec fn elapsed(since: u64, now: u64) -> int {
    if now >= since {
        now - since
    } else {
        0
    }
}

/// Seconds for which a record with this time-to-live is served: its own
/// time-to-live, capped by the freshness window.
pub open spec fn lifetime(ttl: u32) -> int {
    if ttl < FRESHNESS_WINDOW {
        ttl as int
    } else {
        FRESHNESS_WINDOW as int
    }
}

/// Whether `record` is still served at `now`.
pub open spec fn is_fresh(record: RecordView, now: u64) -> bool {
    elapsed(record.inserted_at, now) < lifetime(record.ttl)
}

/// The byte that one piece of a dotted address stands for: the number it
/// spells if that is at most 255, and 0 for anything else.
pub open spec fn octet_value(piece: Seq<u8>) -> u8 {
    match decimal(piece, 255) {
        Some(v) => v as u8,
        None => 0,
    }
}

/// The bytes of a dotted address: one per piece between full stops.
pub open spec fn address_octets(text: Seq<u8>) -> Seq<u8> {
    split_on_dot(text).map_values(|piece: Seq<u8>| octet_value(piece))
}

/// The text that a reply carries for an IPv6 record: the canonical form of
/// the address, or the stored text as it stands where that is no address.
pub open spec fn sent_address(text: Seq<char>) -> Seq<char> {
    match canonical_address_text(text) {
        Some(canonical) => canonical,
        None => text,
    }
}

/// The resource data of a record, as the reply carries it.
pub open spec fn rdata(data: RecordData) -> Seq<u8> {
    match data {
        RecordData::A(ip) => address_octets(encode_utf8(ip)),
        RecordData::AAAA(ip) => encode_utf8(sent_address(ip)),
        RecordData::CNAME(name) => encode_utf8(name),
        RecordData::MX(preference, exchange) => be16(preference) + encode_utf8(exchange),
        RecordData::TXT(text) => encode_utf8(text),
    }
}

/// Reads one piece of a dotted address.
pub fn parse_octet(piece: &[u8]) -> (octet: u8)
    ensures
        octet == octet_value(piece@),
{
    match parse_decimal(piece, 255) {
        Some(v) => v as u8,
        None => 0,
    }
}

/// Reads a dotted address into its bytes, one per piece.
pub fn parse_address(text: &[u8]) -> (octets: Vec<u8>)
    ensures
        octets@ == address_octets(text@),
{
    let mut octets: Vec<u8> = Vec::new();
    let mut start: usize = 0;
    let ghost mut done: Seq<Seq<u8>> = Seq::empty();
    proof {
        assert(text@.subrange(0, text@.len() as int) =~= text@);
        assert(done + split_on_dot(text@) =~= split_on_dot(text@));
    }
    loop
        invariant_except_break
            start <= text@.len(),
            split_on_dot(text@) == done + split_on_dot(
                text@.subrange(start as int, text@.len() as int),
            ),
            octets@ == done.map_values(|piece: Seq<u8>| octet_value(piece)),
        ensures
            octets@ == address_octets(text@),
        decreases text@.len() - start,
    {
        let ghost tail = text@.subrange(start as int, text@.len() as int);
        let end = find_dot(text, start);
        let piece = slice_subrange(text, start, end);
        assert(piece@ == tail.subrange(0, end - start));
        octets.push(parse_octet(piece));
        proof {
            lemma_first_dot(tail);
            let f = |piece: Seq<u8>| octet_value(piece);
            assert(done.push(piece@).map_values(f) =~= done.map_values(f).push(f(piece@)));
        }
        if end == text.len() {
            proof {
                assert(split_on_dot(tail) == seq![tail]);
                assert(piece@ == tail);
                assert(done + seq![tail] =~= done.push(piece@));
            }
            break;
        }
        proof {
            let rest = tail.subrange(end - start + 1, tail.len() as int);
            assert(rest == text@.subrange(end + 1, text@.len() as int));
            assert(split_on_dot(tail) == seq![piece@] + split_on_dot(rest));
            assert(done + (seq![piece@] + split_on_dot(rest)) =~= done.push(piece@)
                + split_on_dot(rest));
            done = done.push(piece@);
        }
        start = end + 1;
    }
    octets
}

/// The data of an IPv6 record whose stored text is `text`, given the
/// canonical form of the address: the bytes of that form, or of the stored
/// text where there is none.
pub fn address_rdata(text: &str, canonical: &Option<String>) -> (data: Vec<u8>)
    ensures
        data@ == encode_utf8(
            match *canonical {
                Some(printed) => printed@,
                None => text@,
            },
        ),
{
    let mut data: Vec<u8> = Vec::new();
    match canonical {
        Some(printed) => push_bytes(&mut data, printed.as_str().as_bytes()),
        None => push_bytes(&mut data, text.as_bytes()),
    }
    data
}

impl DnsRecordType {
    /// The wire code of this kind of record.
    pub fn type_code(&self) -> (code: u16)
        ensures
            code == type_code(self@),
    {
        match self {
            DnsRecordType::A(_) => TYPE_A,
            DnsRecordType::AAAA(_) => TYPE_AAAA,
            DnsRecordType::CNAME(_) => TYPE_CNAME,
            DnsRecordType::MX(_, _) => TYPE_MX,
            DnsRecordType::TXT(_) => TYPE_TXT,
        }
    }

    /// The name of this kind of record, as an operator writes it.
    pub fn name(&self) -> (name: String)
        ensures
            name@ == kind_name(self@),
    {
        match self {
            DnsRecordType::A(_) => "A".to_owned(),
            DnsRecordType::AAAA(_) => "AAAA".to_owned(),
            DnsRecordType::CNAME(_) => "CNAME".to_owned(),
            DnsRecordType::MX(_, _) => "MX".to_owned(),
            DnsRecordType::TXT(_) => "TXT".to_owned(),
        }
    }

    /// The resource data of this record, as a reply carries it.
    pub fn rdata(&self) -> (data: Vec<u8>)
        ensures
            data@ == rdata(self@),
    {
        match self {
            DnsRecordType::A(ip) => parse_address(ip.as_str().as_bytes()),
            DnsRecordType::AAAA(ip) => {
                let canonical = canonical_address(ip.as_str());
                address_rdata(ip.as_str(), &canonical)
            },
            DnsRecordType::CNAME(name) => {
                let mut data: Vec<u8> = Vec::new();
                push_bytes(&mut data, name.as_str().as_bytes());
                data
            },
            DnsRecordType::MX(preference, exchange) => {
                let mut data: Vec<u8> = Vec::new();
                push_be16(&mut data, *preference);
                push_bytes(&mut data, exchange.as_str().as_bytes());
                data
            },
            DnsRecordType::TXT(text) => {
                let mut data: Vec<u8> = Vec::new();
                push_bytes(&mut data, text.as_str().as_bytes());
                data
            },
        }
    }
}

impl Clone for DnsRecordType {
    fn clone(&self) -> (copy: Self)
        ensures
            copy@ == self@,
    {
        match self {
            DnsRecordType::A(ip) => DnsRecordType::A(ip.clone()),
            DnsRecordType::AAAA(ip) => DnsRecordType::AAAA(ip.clone()),
            DnsRecordType::CNAME(name) => DnsRecordType::CNAME(name.clone()),
            DnsRecordType::MX(preference, exchange) => DnsRecordType::MX(
                *preference,
                exchange.clone(),
            ),
            DnsRecordType::TXT(text) => DnsRecordType::TXT(text.clone()),
        }
    }
}

impl Clone for DnsRecord {
    fn clone(&self) -> (copy: Self)
        ensures
            copy@ == self@,
    {
        DnsRecord {
            record_type: self.record_type.clone(),
            ttl: self.ttl,
            inserted_at: self.inserted_at,
        }
    }
}

impl DnsRecord {
    /// Whether this record is still served at `now`.
    pub fn is_fresh(&self, now: u64) -> (fresh: bool)
        ensures
            fresh == is_fresh(self@, now),
    {
        let age: u64 = if now >= self.inserted_at {
            now - self.inserted_at
        } else {
            0
        };
        let limit: u64 = if (self.ttl as u64) < FRESHNESS_WINDOW {
            self.ttl as u64
        } else {
            FRESHNESS_WINDOW
        };
        age < limit
    }
}

} // verus!
