//! What holds of the codec and of the record table on every input.

use crate::dotted::{first_dot, lemma_first_dot, split_on_dot, DOT};
use crate::octets::{be16, be16_value, lemma_be16_round_trip};
use crate::record::{answers_type, is_fresh, rdata, RecordData, RecordView, FRESHNESS_WINDOW};
use crate::server::{reply_to, store_key, stored, table_insert, table_lookup, visible_to};
use crate::text::{ascii_lower, ascii_lowercase, canonical_address_text, text_of};
use crate::wire::{
    after_labels, error_reply, name_text, parse_labels, parse_query, question_section,
    reply_header, success_reply, wire_label, wire_labels, DecodeError, QueryView,
};
use vstd::prelude::*;
use vstd::utf8::*;

verus! {

/// Whether every label of `name` has at least one byte and at most `longest`.
pub open spec fn labels_within(name: Seq<char>, longest: int) -> bool {
    let labels = split_on_dot(encode_utf8(name));
    forall|i: int| 0 <= i < labels.len() ==> 1 <= (#[trigger] labels[i]).len() <= longest
}

/// Labels written one after the other are read back as they were, and
/// reading goes on with what follows them.
proof fn lemma_labels_read_back(labels: Seq<Seq<u8>>, tail: Seq<u8>)
    requires
        forall|i: int| 0 <= i < labels.len() ==> 1 <= (#[trigger] labels[i]).len() <= 255,
    ensures
        parse_labels(wire_labels(labels) + tail) == after_labels(labels, parse_labels(tail)),
    decreases labels.len(),
{
    if labels.len() == 0 {
        assert(wire_labels(labels) + tail =~= tail);
        match parse_labels(tail) {
            Ok(rest) => {
                assert(labels + rest =~= rest);
            },
            Err(_) => {},
        }
    } else {
        let init = labels.drop_last();
        let last = labels.last();
        let framed = wire_label(last) + tail;
        assert forall|i: int| 0 <= i < init.len() implies 1 <= (#[trigger] init[i]).len()
            <= 255 by {
            assert(init[i] == labels[i]);
        }
        lemma_labels_read_back(init, framed);
        assert(wire_labels(labels) + tail =~= wire_labels(init) + framed);
        assert(framed[0] == last.len());
        assert(framed.subrange(1, 1 + last.len() as int) =~= last);
        assert(framed.subrange(1 + last.len() as int, framed.len() as int) =~= tail);
        match parse_labels(tail) {
            Ok(rest) => {
                assert(parse_labels(framed) == Ok::<Seq<Seq<u8>>, DecodeError>(seq![last] + rest));
                assert(init + (seq![last] + rest) =~= labels + rest);
            },
            Err(_) => {},
        }
    }
}

/// The display form of a first label followed by more labels.
proof fn lemma_name_text_front(first: Seq<u8>, rest: Seq<Seq<u8>>)
    ensures
        name_text(seq![first] + rest) == if rest.len() == 0 {
            text_of(first)
        } else {
            text_of(first) + seq!['.'] + name_text(rest)
        },
    decreases rest.len(),
{
    let all = seq![first] + rest;
    if rest.len() == 0 {
        assert(all[0] == first);
    } else if rest.len() == 1 {
        assert(all.drop_last() =~= seq![first]);
        assert(all.last() == rest[0]);
        assert(name_text(seq![first]) == text_of(first));
        assert(name_text(rest) == text_of(rest[0]));
    } else {
        lemma_name_text_front(first, rest.drop_last());
        assert(all.drop_last() =~= seq![first] + rest.drop_last());
        assert(all.last() == rest.last());
        assert(name_text(all) =~= text_of(first) + seq!['.'] + name_text(rest));
    }
}

/// Valid UTF-8 cut at a full stop: both sides are valid UTF-8, and the text
/// is the text before, a full stop, and the text after.
proof fn lemma_cut_at_dot(bytes: Seq<u8>, n: int)
    requires
        valid_utf8(bytes),
        0 <= n < bytes.len(),
        bytes[n] == DOT,
    ensures
        valid_utf8(bytes.subrange(0, n)),
        valid_utf8(bytes.subrange(n + 1, bytes.len() as int)),
        decode_utf8(bytes) == decode_utf8(bytes.subrange(0, n)) + seq!['.'] + decode_utf8(
            bytes.subrange(n + 1, bytes.len() as int),
        ),
{
    let before = bytes.subrange(0, n);
    let from_dot = bytes.subrange(n, bytes.len() as int);
    let after = bytes.subrange(n + 1, bytes.len() as int);
    is_char_boundary_iff_not_is_continuation_byte(bytes, n);
    valid_utf8_split(bytes, n);
    decode_utf8_split(bytes, n);
    assert(from_dot[0] == DOT);
    assert(pop_first_scalar(from_dot) =~= after);
    assert(codepoint_width_1(0x2eu8) == 0x2eu32) by (bit_vector);
    assert(decode_first_scalar(from_dot) == 0x2eu32);
    assert(0x2eu32 as char == '.');
    assert(decode_utf8(from_dot) =~= seq!['.'] + decode_utf8(after));
}

/// The labels of an encoded text, read as text and joined by full stops, are
/// the text.
proof fn lemma_labels_spell_text(bytes: Seq<u8>)
    requires
        valid_utf8(bytes),
    ensures
        name_text(split_on_dot(bytes)) == decode_utf8(bytes),
    decreases bytes.len(),
{
    lemma_first_dot(bytes);
    let n = first_dot(bytes);
    if n < bytes.len() {
        let before = bytes.subrange(0, n);
        let after = bytes.subrange(n + 1, bytes.len() as int);
        lemma_cut_at_dot(bytes, n);
        lemma_labels_spell_text(after);
        lemma_name_text_front(before, split_on_dot(after));
        lemma_first_dot(after);
    } else {
        assert(split_on_dot(bytes) == seq![bytes]);
    }
}

/// Round trip. A question written after any twelve-byte header is read back:
/// the id is the header's first two bytes, and the name and the type are
/// those written, provided every label of the name has 1 to 255 bytes.
pub proof fn lemma_question_read_back(header: Seq<u8>, query: QueryView)
    requires
        header.len() == 12,
        labels_within(query.domain, 255),
    ensures
        parse_query(header + question_section(query)) == Ok::<QueryView, DecodeError>(
            QueryView {
                id: be16_value(header[0], header[1]),
                domain: query.domain,
                query_type: query.query_type,
            },
        ),
{
    let bytes = encode_utf8(query.domain);
    let labels = split_on_dot(bytes);
    let message = header + question_section(query);
    let region = message.subrange(12, message.len() - 4);
    let end = seq![0u8];
    assert(region =~= wire_labels(labels) + end);
    lemma_labels_read_back(labels, end);
    assert(parse_labels(end) == Ok::<Seq<Seq<u8>>, DecodeError>(Seq::empty()));
    assert(labels + Seq::<Seq<u8>>::empty() =~= labels);
    encode_utf8_valid_utf8(query.domain);
    encode_utf8_decode_utf8(query.domain);
    lemma_labels_spell_text(bytes);
    lemma_be16_round_trip(query.query_type);
    assert(message[message.len() - 4] == be16(query.query_type)[0]);
    assert(message[message.len() - 3] == be16(query.query_type)[1]);
    assert(message[0] == header[0]);
    assert(message[1] == header[1]);
}

/// Round trip. Reading the bytes written for a query gives the query back,
/// with the same id, name and type, whenever the name is made of labels of 1
/// to 127 bytes. This holds of the negative reply and of the reply that
/// carries no answer; both are a header followed by the question.
pub proof fn law_query_round_trip(query: QueryView)
    requires
        labels_within(query.domain, 127),
    ensures
        parse_query(error_reply(query)) == Ok::<QueryView, DecodeError>(query),
        parse_query(success_reply(query, Seq::empty())) == Ok::<QueryView, DecodeError>(query),
{
    lemma_be16_round_trip(query.id);
    let refusal = reply_header(query.id, 0x83, 0);
    let answer = reply_header(query.id, 0x80, 0);
    lemma_question_read_back(refusal, query);
    lemma_question_read_back(answer, query);
    assert(success_reply(query, Seq::empty()) =~= answer + question_section(query));
}

/// A datagram shorter than the header is no query: reading it fails as
/// truncated.
pub proof fn law_short_datagram_is_truncated(message: Seq<u8>)
    requires
        message.len() < 12,
    ensures
        parse_query(message) == Err::<QueryView, DecodeError>(DecodeError::Truncated),
{
}

/// A record with a time-to-live above zero is fresh at the moment it was
/// stored.
pub proof fn law_fresh_when_stored(record: RecordView)
    requires
        record.ttl > 0,
    ensures
        is_fresh(record, record.inserted_at),
{
}

/// Lookup after insertion. A record stored under one name and looked up
/// while it is fresh, under a name with the same lower-case form and for the
/// type it answers, is found: it is the last of the records returned.
pub proof fn law_lookup_finds_inserted(
    table: Map<Seq<char>, Seq<RecordView>>,
    domain: Seq<char>,
    record: RecordView,
    asked: Seq<char>,
    query_type: u16,
    now: u64,
)
    requires
        store_key(asked) == store_key(domain),
        answers_type(record.data, query_type),
        is_fresh(record, now),
    ensures
        table_lookup(
            table_insert(table, store_key(domain), record),
            store_key(asked),
            query_type,
            now,
        ) matches Some(found) && found.len() > 0 && found.last() == record && found.contains(
            record,
        ),
{
    let wanted = visible_to(query_type, now);
    let kept = stored(table, store_key(domain));
    kept.lemma_filter_push(record, wanted);
    let found = kept.push(record).filter(wanted);
    assert(found == kept.filter(wanted).push(record));
    assert(found[found.len() - 1] == record);
}

/// Lookup of an unknown name. After a record has been stored under one name,
/// a lookup under a different name, under which nothing was ever stored,
/// finds nothing. Names differ when their lower-case forms do.
pub proof fn law_unknown_name_not_found(
    table: Map<Seq<char>, Seq<RecordView>>,
    domain: Seq<char>,
    record: RecordView,
    other: Seq<char>,
    query_type: u16,
    now: u64,
)
    requires
        !table.contains_key(store_key(other)),
        store_key(other) != store_key(domain),
    ensures
        table_lookup(
            table_insert(table, store_key(domain), record),
            store_key(other),
            query_type,
            now,
        ) is None,
{
    Seq::<RecordView>::empty().lemma_filter_len(visible_to(query_type, now));
}

/// Insertion removes and merges nothing: every list keeps the records it
/// had, in their places, and only the list stored under the key gains one.
pub proof fn law_insert_keeps_records(
    table: Map<Seq<char>, Seq<RecordView>>,
    key: Seq<char>,
    record: RecordView,
    other: Seq<char>,
)
    ensures
        stored(table_insert(table, key, record), key) == stored(table, key).push(record),
        other != key ==> stored(table_insert(table, key, record), other) == stored(table, other),
        table.contains_key(other) ==> table_insert(table, key, record).contains_key(other),
        forall|i: int|
            0 <= i < stored(table, other).len() ==> stored(
                table_insert(table, key, record),
                other,
            )[i] == stored(table, other)[i],
{
}

/// Both replies open with the id of the query they answer.
pub proof fn law_reply_echoes_id(query: QueryView, records: Seq<RecordView>)
    ensures
        be16_value(success_reply(query, records)[0], success_reply(query, records)[1])
            == query.id,
        be16_value(error_reply(query)[0], error_reply(query)[1]) == query.id,
        success_reply(query, records)[2] == 0x81 && success_reply(query, records)[3] == 0x80,
        error_reply(query)[2] == 0x81 && error_reply(query)[3] == 0x83,
        error_reply(query)[6] == 0 && error_reply(query)[7] == 0,
{
    lemma_be16_round_trip(query.id);
}

/// Freshness. Every record that a lookup returns is fresh and answers the
/// type asked for, so none of them was stored 300 seconds ago or earlier,
/// whatever time-to-live it advertises.
pub proof fn law_lookup_returns_fresh(
    table: Map<Seq<char>, Seq<RecordView>>,
    key: Seq<char>,
    query_type: u16,
    now: u64,
)
    ensures
        table_lookup(table, key, query_type, now) matches Some(found) ==> forall|i: int|
            0 <= i < found.len() ==> is_fresh(#[trigger] found[i], now) && answers_type(
                found[i].data,
                query_type,
            ) && now - found[i].inserted_at < FRESHNESS_WINDOW,
{
    let wanted = visible_to(query_type, now);
    let found = stored(table, key).filter(wanted);
    assert forall|i: int| 0 <= i < found.len() implies is_fresh(#[trigger] found[i], now)
        && answers_type(found[i].data, query_type) && now - found[i].inserted_at
        < FRESHNESS_WINDOW by {
        stored(table, key).lemma_filter_pred(wanted, i);
    }
}

/// Freshness. A record stored 300 seconds ago or earlier adds nothing to any
/// lookup, whatever time-to-live it advertises.
pub proof fn law_stale_record_excluded(
    table: Map<Seq<char>, Seq<RecordView>>,
    key: Seq<char>,
    record: RecordView,
    asked: Seq<char>,
    query_type: u16,
    now: u64,
)
    requires
        now - record.inserted_at >= FRESHNESS_WINDOW,
    ensures
        table_lookup(table_insert(table, key, record), asked, query_type, now) == table_lookup(
            table,
            asked,
            query_type,
            now,
        ),
{
    stored(table, key).lemma_filter_push(record, visible_to(query_type, now));
}

/// Type isolation. A record adds nothing to a lookup for a type that is not
/// its own. So where a name had no record of the type asked for, it still
/// has none after a record of another type is stored under it, though the
/// name is now known: an address record never answers a query of type 15.
pub proof fn law_type_isolation(
    table: Map<Seq<char>, Seq<RecordView>>,
    key: Seq<char>,
    record: RecordView,
    asked: Seq<char>,
    query_type: u16,
    now: u64,
)
    requires
        !answers_type(record.data, query_type),
    ensures
        table_insert(table, key, record).contains_key(key),
        table_lookup(table_insert(table, key, record), asked, query_type, now) == table_lookup(
            table,
            asked,
            query_type,
            now,
        ),
        table_lookup(table, asked, query_type, now) is None ==> table_lookup(
            table_insert(table, key, record),
            asked,
            query_type,
            now,
        ) is None,
{
    stored(table, key).lemma_filter_push(record, visible_to(query_type, now));
}

/// Keys of ASCII names. The key of an ASCII name is the name with `A` to `Z`
/// turned into `a` to `z`: it has the name's length, it is ASCII, and it is
/// its own key.
pub proof fn law_ascii_key(name: Seq<char>)
    requires
        is_ascii_chars(name),
    ensures
        store_key(name) == ascii_lowercase(name),
        store_key(name).len() == name.len(),
        is_ascii_chars(store_key(name)),
        store_key(store_key(name)) == store_key(name),
{
    let key = ascii_lowercase(name);
    assert forall|i: int| 0 <= i < key.len() implies '\0' <= #[trigger] key[i] <= '\u{7f}'
        && ascii_lower(key[i]) == key[i] by {
        let c = name[i];
        assert('\0' <= c <= '\u{7f}');
        assert(key[i] == ascii_lower(c));
    }
    assert(ascii_lowercase(key) =~= key);
}

/// Two ASCII names are stored under one key exactly when they have the same
/// length and differ at most in the case of their letters.
pub proof fn law_ascii_names_share_key(a: Seq<char>, b: Seq<char>)
    requires
        is_ascii_chars(a),
        is_ascii_chars(b),
    ensures
        store_key(a) == store_key(b) <==> a.len() == b.len() && forall|i: int|
            0 <= i < a.len() ==> ascii_lower(#[trigger] a[i]) == ascii_lower(b[i]),
{
    let x = ascii_lowercase(a);
    let y = ascii_lowercase(b);
    if x == y {
        assert(a.len() == x.len() && b.len() == y.len());
        assert forall|i: int| 0 <= i < a.len() implies ascii_lower(#[trigger] a[i])
            == ascii_lower(b[i]) by {
            assert(x[i] == y[i]);
        }
    }
    if a.len() == b.len() && forall|i: int|
        0 <= i < a.len() ==> ascii_lower(#[trigger] a[i]) == ascii_lower(b[i]) {
        assert(x =~= y);
    }
}

/// The negative reply. A query for which the lookup finds nothing, as for a
/// name that is not known, is answered by the error form: the id of the
/// query, the flags `0x81 0x83`, one question, no answer, and the question
/// as it was asked.
pub proof fn law_nothing_found_gets_error_reply(
    table: Map<Seq<char>, Seq<RecordView>>,
    message: Seq<u8>,
    query: QueryView,
    now: u64,
)
    requires
        parse_query(message) == Ok::<QueryView, DecodeError>(query),
        table_lookup(table, store_key(query.domain), query.query_type, now) is None,
    ensures
        reply_to(table, message, now) == Ok::<Seq<u8>, DecodeError>(error_reply(query)),
        error_reply(query) == reply_header(query.id, 0x83, 0) + question_section(query),
        error_reply(query).len() == 12 + question_section(query).len(),
        be16_value(error_reply(query)[0], error_reply(query)[1]) == query.id,
        error_reply(query).subrange(2, 12) == seq![
            0x81u8,
            0x83u8,
            0u8,
            1u8,
            0u8,
            0u8,
            0u8,
            0u8,
            0u8,
            0u8,
        ],
{
    lemma_be16_round_trip(query.id);
    assert(error_reply(query).subrange(2, 12) =~= seq![
        0x81u8,
        0x83u8,
        0u8,
        1u8,
        0u8,
        0u8,
        0u8,
        0u8,
        0u8,
        0u8,
    ]);
}

/// The data of an IPv6 record. Whatever text the record holds, the reply
/// carries the canonical form of the address it spells, as UTF-8; a text that
/// spells no address is carried as it stands.
pub proof fn law_address_is_sent_canonical(text: Seq<char>)
    ensures
        canonical_address_text(text) matches Some(canonical) ==> rdata(RecordData::AAAA(text))
            == encode_utf8(canonical),
        canonical_address_text(text) is None ==> rdata(RecordData::AAAA(text)) == encode_utf8(
            text,
        ),
{
}

} // verus!
