//! The record table and the work done for one datagram.
//!
//! The table belongs to one owner: lookups borrow it shared, an insertion
//! borrows it exclusively. Whoever shares a table between threads puts it
//! behind a readers-writer lock and gets exactly that discipline.

use crate::record::{
    answers_type, is_fresh, record_views, DnsRecord, RecordView,
};
use crate::text::{lowercase, lowercase_of};
use crate::wire::{
    create_dns_error_response, create_dns_response, error_reply, parse_dns_query, parse_query,
    success_reply, DecodeError,
};
use vstd::hash_map::StringHashMap;
use vstd::prelude::*;
use vstd::string::*;

verus! {

/// The key under which the records of `domain` are kept: the name in lower
/// case.
pub open spec fn store_key(domain: Seq<char>) -> Seq<char> {
    lowercase_of(domain)
}

/// Whether a lookup for `query_type` at `now` returns `record`.
pub open spec fn visible(record: RecordView, query_type: u16, now: u64) -> bool {
    is_fresh(record, now) && answers_type(record.data, query_type)
}

/// `visible`, as a predicate on records.
pub open spec fn visible_to(query_type: u16, now: u64) -> spec_fn(RecordView) -> bool {
    |record: RecordView| visible(record, query_type, now)
}

/// The records kept under `key`, oldest first; none if the key is absent.
pub open spec fn stored(table: Map<Seq<char>, Seq<RecordView>>, key: Seq<char>) -> Seq<
    RecordView,
> {
    if table.contains_key(key) {
        table[key]
    } else {
        Seq::empty()
    }
}

/// The table after `record` has been added under `key`: the key's list gains
/// the record at its end, and nothing else changes.
pub open spec fn table_insert(
    table: Map<Seq<char>, Seq<RecordView>>,
    key: Seq<char>,
    record: RecordView,
) -> Map<Seq<char>, Seq<RecordView>> {
    table.insert(key, stored(table, key).push(record))
}

/// What a lookup under `key` returns: the key's records that are fresh at
/// `now` and answer `query_type`, in the order they were added; nothing if
/// there is no such record.
pub open spec fn table_lookup(
    table: Map<Seq<char>, Seq<RecordView>>,
    key: Seq<char>,
    query_type: u16,
    now: u64,
) -> Option<Seq<RecordView>> {
    let found = stored(table, key).filter(visible_to(query_type, now));
    if found.len() == 0 {
        None
    } else {
        Some(found)
    }
}

/// The reply owed to a datagram: none if it is no query, else the answer
/// with the records found for its name and type, or the negative answer.
pub open spec fn reply_to(
    table: Map<Seq<char>, Seq<RecordView>>,
    message: Seq<u8>,
    now: u64,
) -> Result<Seq<u8>, DecodeError> {
    match parse_query(message) {
        Ok(query) => Ok(
            match table_lookup(table, store_key(query.domain), query.query_type, now) {
                Some(records) => success_reply(query, records),
                None => error_reply(query),
            },
        ),
        Err(e) => Err(e),
    }
}

/// The records this server answers from, by name.
pub struct DnsServer {
    records: StringHashMap<Vec<DnsRecord>>,
}

impl View for DnsServer {
    type V = Map<Seq<char>, Seq<RecordView>>;

    closed spec fn view(&self) -> Map<Seq<char>, Seq<RecordView>> {
        Map::new(
            |key: Seq<char>| self.records@.contains_key(key),
            |key: Seq<char>| record_views(self.records@[key]@),
        )
    }
}

/// A copy of `records`, record by record.
fn clone_records(records: &Vec<DnsRecord>) -> (copy: Vec<DnsRecord>)
    ensures
        record_views(copy@) == record_views(records@),
{
    let mut copy: Vec<DnsRecord> = Vec::with_capacity(records.len());
    let mut i: usize = 0;
    while i < records.len()
        invariant
            i <= records@.len(),
            copy@.len() == i,
            forall|j: int| 0 <= j < i ==> copy@[j]@ == records@[j]@,
        decreases records@.len() - i,
    {
        copy.push(records[i].clone());
        i += 1;
    }
    assert(record_views(copy@) =~= record_views(records@));
    copy
}

impl DnsServer {
    /// A server that holds no record.
    pub fn new() -> (server: Self)
        ensures
            server@ == Map::<Seq<char>, Seq<RecordView>>::empty(),
    {
        let server = DnsServer { records: StringHashMap::new() };
        assert(server@ =~= Map::<Seq<char>, Seq<RecordView>>::empty());
        server
    }

    /// Adds `record` to the records kept under `key`, after those already
    /// there. Nothing is removed or merged.
    pub fn insert(&mut self, key: String, record: DnsRecord)
        ensures
            final(self)@ == table_insert(old(self)@, key@, record@),
    {
        let mut list: Vec<DnsRecord> = match self.records.get(key.as_str()) {
            Some(kept) => clone_records(kept),
            None => Vec::new(),
        };
        let ghost before = record_views(list@);
        assert(before == stored(old(self)@, key@));
        list.push(record);
        assert(record_views(list@) =~= before.push(record@));
        self.records.insert(key, list);
        assert(self@ =~= table_insert(old(self)@, key@, record@));
    }

    /// Adds `record` to the records of `domain`, whatever the case of its
    /// letters, after those already there.
    pub fn add_record(&mut self, domain: &str, record: DnsRecord)
        ensures
            final(self)@ == table_insert(old(self)@, store_key(domain@), record@),
    {
        self.insert(lowercase(domain), record);
    }

    /// Whether `record` answers a query of type `query_type`.
    pub fn match_query_type(record: &DnsRecord, query_type: u16) -> (matches: bool)
        ensures
            matches == answers_type(record@.data, query_type),
    {
        record.record_type.type_code() == query_type
    }

    /// The records kept under `key` that are fresh at `now` and answer
    /// `query_type`, oldest first; `None` if there is none.
    pub fn lookup(&self, key: &str, query_type: u16, now: u64) -> (found: Option<Vec<DnsRecord>>)
        ensures
            match found {
                Some(records) => table_lookup(self@, key@, query_type, now) == Some(
                    record_views(records@),
                ),
                None => table_lookup(self@, key@, query_type, now) is None,
            },
    {
        let ghost wanted = visible_to(query_type, now);
        match self.records.get(key) {
            None => {
                assert(stored(self@, key@) =~= Seq::<RecordView>::empty());
                assert(Seq::<RecordView>::empty().filter(wanted).len() == 0) by {
                    Seq::<RecordView>::empty().lemma_filter_len(wanted);
                }
                None
            },
            Some(kept) => {
                let ghost all = record_views(kept@);
                assert(all == stored(self@, key@));
                let mut valid: Vec<DnsRecord> = Vec::new();
                let mut i: usize = 0;
                proof {
                    assert(all.take(0) =~= Seq::<RecordView>::empty());
                    all.take(0).lemma_filter_len(wanted);
                    assert(record_views(valid@) =~= all.take(0).filter(wanted));
                }
                while i < kept.len()
                    invariant
                        i <= kept@.len(),
                        all == record_views(kept@),
                        wanted == visible_to(query_type, now),
                        record_views(valid@) == all.take(i as int).filter(wanted),
                    decreases kept@.len() - i,
                {
                    let record = &kept[i];
                    let ghost earlier = record_views(valid@);
                    proof {
                        assert(all.take(i + 1) =~= all.take(i as int).push(record@));
                        all.take(i as int).lemma_filter_push(record@, wanted);
                    }
                    if record.is_fresh(now) && Self::match_query_type(record, query_type) {
                        valid.push(record.clone());
                        assert(record_views(valid@) =~= earlier.push(record@));
                    }
                    i += 1;
                }
                assert(all.take(i as int) =~= all);
                if valid.len() == 0 {
                    None
                } else {
                    Some(valid)
                }
            },
        }
    }

    /// The records of `domain`, whatever the case of its letters, that are
    /// fresh at `now` and answer `query_type`, oldest first; `None` if there
    /// is none.
    pub fn get_records(&self, domain: &str, query_type: u16, now: u64) -> (found: Option<
        Vec<DnsRecord>,
    >)
        ensures
            match found {
                Some(records) => table_lookup(self@, store_key(domain@), query_type, now) == Some(
                    record_views(records@),
                ),
                None => table_lookup(self@, store_key(domain@), query_type, now) is None,
            },
    {
        let key = lowercase(domain);
        self.lookup(key.as_str(), query_type, now)
    }

    /// Builds the reply to one datagram received at `now`: the answer with
    /// the records found, or the negative answer. A datagram that is no query
    /// gets no reply.
    pub fn handle_query(&self, buf: &[u8], now: u64) -> (reply: Result<Vec<u8>, DecodeError>)
        ensures
            match reply {
                Ok(bytes) => reply_to(self@, buf@, now) == Ok::<Seq<u8>, DecodeError>(bytes@),
                Err(e) => reply_to(self@, buf@, now) == Err::<Seq<u8>, DecodeError>(e),
            },
    {
        match parse_dns_query(buf) {
            Err(e) => Err(e),
            Ok(query) => {
                match self.get_records(query.domain.as_str(), query.query_type, now) {
                    Some(records) => Ok(create_dns_response(&query, records.as_slice())),
                    None => Ok(create_dns_error_response(&query)),
                }
            },
        }
    }
}

} // verus!
