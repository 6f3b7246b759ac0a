//! The administrative side: a record built from what an operator typed, and
//! the records a server starts with when it is given none.

use crate::decimal::{decimal, parse_decimal};
use crate::record::{DnsRecordType, RecordData};
use crate::text::{
    same_text, split_words, texts, uppercase, uppercase_text, whitespace_words,
};
use vstd::prelude::*;
use vstd::string::*;
use vstd::utf8::*;

verus! {

/// Time-to-live given to a record when none, or none that can be read, was
/// typed.
pub const DEFAULT_TTL: u32 = 3600;

/// Why what an operator typed makes no record.
#[derive(Clone, Copy, Debug, PartialEq, Eq, Structural)]
pub enum InvalidAdminInput {
    /// A mail exchange needs exactly two words: a preference and a name.
    MxShape,
    /// The preference of a mail exchange is no number of sixteen bits.
    MxPreference,
    /// The type is none of A, AAAA, MX and TXT.
    UnsupportedType,
}

/// The mail exchange that the words of a value spell: exactly two words, the
/// first a decimal number of at most 65535, the second the exchange's name.
pub open spec fn mx_of_words(words: Seq<Seq<char>>) -> Result<RecordData, InvalidAdminInput> {
    if words.len() != 2 {
        Err(InvalidAdminInput::MxShape)
    } else {
        match decimal(encode_utf8(words[0]), 0xffff) {
            Some(preference) => Ok(RecordData::MX(preference as u16, words[1])),
            None => Err(InvalidAdminInput::MxPreference),
        }
    }
}

/// The record that a type, already in upper case, and a value spell. `words`
/// are the words of the value; only a mail exchange is read from them.
pub open spec fn record_of_input(
    kind: Seq<char>,
    value: Seq<char>,
    words: Seq<Seq<char>>,
) -> Result<RecordData, InvalidAdminInput> {
    if kind == "A"@ {
        Ok(RecordData::A(value))
    } else if kind == "AAAA"@ {
        Ok(RecordData::AAAA(value))
    } else if kind == "MX"@ {
        mx_of_words(words)
    } else if kind == "TXT"@ {
        Ok(RecordData::TXT(value))
    } else {
        Err(InvalidAdminInput::UnsupportedType)
    }
}

/// The time-to-live that a text spells: the decimal number it holds, or the
/// default where it holds none that fits thirty-two bits.
pub open spec fn ttl_of_input(text: Seq<char>) -> u32 {
    match decimal(encode_utf8(text), 0xffff_ffff) {
        Some(ttl) => ttl,
        None => DEFAULT_TTL,
    }
}

/// The records that a server answers from when it was given none, each with
/// the name it is stored under, in the order they are stored: addresses and a
/// text for `example.com`, an address for `rust-lang.org`, and a mail exchange
/// for `mail.example.com`.
pub open spec fn seed_list() -> Seq<(Seq<char>, RecordData)> {
    seq![
        ("example.com"@, RecordData::A("93.184.216.34"@)),
        ("rust-lang.org"@, RecordData::A("13.35.11.83"@)),
        ("example.com"@, RecordData::AAAA("2606:2800:220:1:248:1893:25c8:1946"@)),
        ("mail.example.com"@, RecordData::MX(10, "mailserver.example.com"@)),
        ("example.com"@, RecordData::TXT("v=spf1 include:_spf.example.com ~all"@)),
    ]
}

/// The names and data of a run of seeds, in order.
pub open spec fn seed_views(seeds: Seq<(String, DnsRecordType)>) -> Seq<(Seq<char>, RecordData)> {
    seeds.map_values(|seed: (String, DnsRecordType)| (seed.0@, seed.1@))
}

impl InvalidAdminInput {
    /// What to tell the operator.
    pub fn message(&self) -> (text: String)
        ensures
            text@ == match *self {
                InvalidAdminInput::MxShape => "MX record should have preference and exchange"@,
                InvalidAdminInput::MxPreference => "Invalid MX preference"@,
                InvalidAdminInput::UnsupportedType => "Unsupported record type"@,
            },
    {
        match self {
            InvalidAdminInput::MxShape => "MX record should have preference and exchange".to_owned(),
            InvalidAdminInput::MxPreference => "Invalid MX preference".to_owned(),
            InvalidAdminInput::UnsupportedType => "Unsupported record type".to_owned(),
        }
    }
}

/// Builds a mail exchange from the words of a value.
pub fn mx_from_words(words: &Vec<String>) -> (record: Result<DnsRecordType, InvalidAdminInput>)
    ensures
        match record {
            Ok(r) => mx_of_words(texts(words@)) == Ok::<RecordData, InvalidAdminInput>(r@),
            Err(e) => mx_of_words(texts(words@)) == Err::<RecordData, InvalidAdminInput>(e),
        },
{
    if words.len() != 2 {
        return Err(InvalidAdminInput::MxShape);
    }
    assert(texts(words@)[0] == words@[0]@);
    assert(texts(words@)[1] == words@[1]@);
    match parse_decimal(words[0].as_str().as_bytes(), 0xffff) {
        Some(preference) => Ok(DnsRecordType::MX(preference as u16, words[1].clone())),
        None => Err(InvalidAdminInput::MxPreference),
    }
}

/// Builds a record from a type already in upper case, a value, and the
/// value's words.
pub fn record_from_parts(kind: &str, value: &str, words: &Vec<String>) -> (record: Result<
    DnsRecordType,
    InvalidAdminInput,
>)
    ensures
        match record {
            Ok(r) => record_of_input(kind@, value@, texts(words@)) == Ok::<
                RecordData,
                InvalidAdminInput,
            >(r@),
            Err(e) => record_of_input(kind@, value@, texts(words@)) == Err::<
                RecordData,
                InvalidAdminInput,
            >(e),
        },
{
    if same_text(kind, "A") {
        Ok(DnsRecordType::A(value.to_owned()))
    } else if same_text(kind, "AAAA") {
        Ok(DnsRecordType::AAAA(value.to_owned()))
    } else if same_text(kind, "MX") {
        mx_from_words(words)
    } else if same_text(kind, "TXT") {
        Ok(DnsRecordType::TXT(value.to_owned()))
    } else {
        Err(InvalidAdminInput::UnsupportedType)
    }
}

/// Builds the record that an operator asked for by type and value. The type
/// is one of A, AAAA, MX and TXT in any case; the value of a mail exchange is
/// its preference and its name, parted by white space.
pub fn record_from_input(kind: &str, value: &str) -> (record: Result<
    DnsRecordType,
    InvalidAdminInput,
>)
    ensures
        match record {
            Ok(r) => record_of_input(
                uppercase_text(kind@),
                value@,
                whitespace_words(value@),
            ) == Ok::<RecordData, InvalidAdminInput>(r@),
            Err(e) => record_of_input(
                uppercase_text(kind@),
                value@,
                whitespace_words(value@),
            ) == Err::<RecordData, InvalidAdminInput>(e),
        },
{
    let folded = uppercase(kind);
    let words = split_words(value);
    record_from_parts(folded.as_str(), value, &words)
}

/// Reads a time-to-live as typed; what cannot be read counts as the default.
pub fn ttl_from_input(text: &str) -> (ttl: u32)
    ensures
        ttl == ttl_of_input(text@),
{
    match parse_decimal(text.as_bytes(), 0xffff_ffff) {
        Some(ttl) => ttl,
        None => DEFAULT_TTL,
    }
}

/// The records that a server answers from when it was given none, each with
/// the name it is stored under.
pub fn seed_records() -> (seeds: Vec<(String, DnsRecordType)>)
    ensures
        seed_views(seeds@) == seed_list(),
{
    let mut seeds: Vec<(String, DnsRecordType)> = Vec::new();
    seeds.push(("example.com".to_owned(), DnsRecordType::A("93.184.216.34".to_owned())));
    seeds.push(("rust-lang.org".to_owned(), DnsRecordType::A("13.35.11.83".to_owned())));
    seeds.push(
        (
            "example.com".to_owned(),
            DnsRecordType::AAAA("2606:2800:220:1:248:1893:25c8:1946".to_owned()),
        ),
    );
    seeds.push(
        (
            "mail.example.com".to_owned(),
            DnsRecordType::MX(10, "mailserver.example.com".to_owned()),
        ),
    );
    seeds.push(
        (
            "example.com".to_owned(),
            DnsRecordType::TXT("v=spf1 include:_spf.example.com ~all".to_owned()),
        ),
    );
    assert(seed_views(seeds@) =~= seed_list());
    seeds
}

} // verus!
