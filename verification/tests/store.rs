use rustdns::admin::{seed_records, DEFAULT_TTL};
use rustdns::record::{DnsRecord, DnsRecordType, FRESHNESS_WINDOW};
use rustdns::server::DnsServer;
use rustdns::wire::DecodeError;

fn a(ip: &str, ttl: u32, inserted_at: u64) -> DnsRecord {
    DnsRecord { record_type: DnsRecordType::A(ip.to_string()), ttl, inserted_at }
}

fn txt(text: &str, ttl: u32, inserted_at: u64) -> DnsRecord {
    DnsRecord { record_type: DnsRecordType::TXT(text.to_string()), ttl, inserted_at }
}

fn add_seed_records(server: &mut DnsServer, now: u64) {
    for (domain, record_type) in seed_records() {
        server.add_record(&domain, DnsRecord { record_type, ttl: DEFAULT_TTL, inserted_at: now });
    }
}

fn query_bytes(id: u16, labels: &[&str], query_type: u16) -> Vec<u8> {
    let mut bytes = vec![(id >> 8) as u8, id as u8, 0x01, 0x00, 0, 1, 0, 0, 0, 0, 0, 0];
    for label in labels {
        bytes.push(label.len() as u8);
        bytes.extend_from_slice(label.as_bytes());
    }
    bytes.push(0);
    bytes.extend_from_slice(&[(query_type >> 8) as u8, query_type as u8, 0, 1]);
    bytes
}

#[test]
fn empty_server_finds_nothing() {
    let server = DnsServer::new();
    assert_eq!(server.get_records("example.com", 1, 0), None);
    assert_eq!(server.lookup("example.com", 1, 0), None);
}

#[test]
fn insert_then_lookup_finds_the_record() {
    let mut server = DnsServer::new();
    server.add_record("example.com", a("1.2.3.4", 60, 1000));
    assert_eq!(server.get_records("example.com", 1, 1000), Some(vec![a("1.2.3.4", 60, 1000)]));
}

#[test]
fn lookup_of_a_name_never_inserted_finds_nothing() {
    let mut server = DnsServer::new();
    server.add_record("example.com", a("1.2.3.4", 60, 1000));
    assert_eq!(server.get_records("other.example", 1, 1000), None);
    assert_eq!(server.get_records("com", 1, 1000), None);
}

#[test]
fn names_are_matched_whatever_their_case() {
    let mut server = DnsServer::new();
    server.add_record("Example.COM", a("1.2.3.4", 60, 0));
    assert_eq!(server.get_records("eXAMPLE.com", 1, 0), Some(vec![a("1.2.3.4", 60, 0)]));
    // the table is keyed by the lower-case form
    assert_eq!(server.lookup("example.com", 1, 0), Some(vec![a("1.2.3.4", 60, 0)]));
    assert_eq!(server.lookup("Example.COM", 1, 0), None);
}

#[test]
fn insert_keeps_what_is_there_in_order() {
    let mut server = DnsServer::new();
    server.add_record("example.com", a("1.1.1.1", 60, 0));
    server.add_record("example.com", txt("hello", 60, 0));
    server.add_record("example.com", a("2.2.2.2", 60, 0));
    server.add_record("example.com", a("1.1.1.1", 60, 0));
    assert_eq!(
        server.get_records("example.com", 1, 0),
        Some(vec![a("1.1.1.1", 60, 0), a("2.2.2.2", 60, 0), a("1.1.1.1", 60, 0)])
    );
    assert_eq!(server.get_records("example.com", 16, 0), Some(vec![txt("hello", 60, 0)]));
}

#[test]
fn keyed_insert_does_not_fold_case() {
    let mut server = DnsServer::new();
    server.insert("Mixed".to_string(), a("1.1.1.1", 60, 0));
    assert_eq!(server.lookup("Mixed", 1, 0), Some(vec![a("1.1.1.1", 60, 0)]));
    assert_eq!(server.get_records("Mixed", 1, 0), None);
}

#[test]
fn stale_after_the_window_even_with_a_longer_ttl() {
    let mut server = DnsServer::new();
    server.add_record("example.com", a("1.2.3.4", 3600, 1000));
    assert_eq!(server.get_records("example.com", 1, 1000 + 299), Some(vec![a("1.2.3.4", 3600, 1000)]));
    assert_eq!(server.get_records("example.com", 1, 1000 + 300), None);
    assert_eq!(server.get_records("example.com", 1, 1000 + 301), None);
}

#[test]
fn stale_after_its_own_ttl_when_shorter_than_the_window() {
    let mut server = DnsServer::new();
    server.add_record("example.com", a("1.2.3.4", 10, 1000));
    assert!(server.get_records("example.com", 1, 1009).is_some());
    assert_eq!(server.get_records("example.com", 1, 1010), None);
}

#[test]
fn a_ttl_of_zero_is_never_fresh() {
    let mut server = DnsServer::new();
    server.add_record("example.com", a("1.2.3.4", 0, 1000));
    assert_eq!(server.get_records("example.com", 1, 1000), None);
}

#[test]
fn a_clock_that_reads_earlier_counts_as_no_time_passed() {
    let mut server = DnsServer::new();
    server.add_record("example.com", a("1.2.3.4", 1, 1000));
    assert!(server.get_records("example.com", 1, 5).is_some());
}

#[test]
fn freshness_of_a_record() {
    assert_eq!(FRESHNESS_WINDOW, 300);
    let r = a("1.2.3.4", 3600, 10);
    assert!(r.is_fresh(10));
    assert!(r.is_fresh(309));
    assert!(!r.is_fresh(310));
    assert!(!r.is_fresh(u64::MAX));
    let late = a("1.2.3.4", u32::MAX, u64::MAX);
    assert!(late.is_fresh(u64::MAX));
    assert!(late.is_fresh(0));
}

#[test]
fn stale_records_are_left_out_and_fresh_ones_kept() {
    let mut server = DnsServer::new();
    server.add_record("example.com", a("1.1.1.1", 3600, 0));
    server.add_record("example.com", a("2.2.2.2", 3600, 200));
    assert_eq!(server.get_records("example.com", 1, 400), Some(vec![a("2.2.2.2", 3600, 200)]));
}

#[test]
fn an_address_does_not_answer_a_mail_exchange_query() {
    let mut server = DnsServer::new();
    server.add_record("example.com", a("1.2.3.4", 60, 0));
    assert_eq!(server.get_records("example.com", 15, 0), None);
    assert!(server.get_records("example.com", 1, 0).is_some());
}

#[test]
fn each_kind_answers_only_its_own_code() {
    let kinds = vec![
        (DnsRecordType::A("1.2.3.4".to_string()), 1u16),
        (DnsRecordType::CNAME("a.b".to_string()), 5),
        (DnsRecordType::MX(1, "m.b".to_string()), 15),
        (DnsRecordType::TXT("t".to_string()), 16),
        (DnsRecordType::AAAA("::1".to_string()), 28),
    ];
    for (kind, code) in kinds.iter() {
        assert_eq!(kind.type_code(), *code);
        let record = DnsRecord { record_type: kind.clone(), ttl: 1, inserted_at: 0 };
        for asked in [0u16, 1, 2, 5, 15, 16, 28, 255, 65535] {
            assert_eq!(DnsServer::match_query_type(&record, asked), asked == *code);
        }
    }
}

#[test]
fn no_query_type_asks_for_every_kind() {
    let mut server = DnsServer::new();
    add_seed_records(&mut server, 0);
    assert_eq!(server.get_records("example.com", 255, 0), None);
}

#[test]
fn seed_list_in_order() {
    let seeds = seed_records();
    let names: Vec<&str> = seeds.iter().map(|s| s.0.as_str()).collect();
    assert_eq!(
        names,
        vec!["example.com", "rust-lang.org", "example.com", "mail.example.com", "example.com"]
    );
    assert_eq!(seeds[0].1, DnsRecordType::A("93.184.216.34".to_string()));
    assert_eq!(seeds[3].1, DnsRecordType::MX(10, "mailserver.example.com".to_string()));
}

#[test]
fn seed_records_are_those_documented() {
    let mut server = DnsServer::new();
    add_seed_records(&mut server, 7);
    assert_eq!(server.get_records("example.com", 1, 7), Some(vec![a("93.184.216.34", 3600, 7)]));
    assert_eq!(server.get_records("rust-lang.org", 1, 7), Some(vec![a("13.35.11.83", 3600, 7)]));
    assert_eq!(
        server.get_records("example.com", 28, 7),
        Some(vec![DnsRecord {
            record_type: DnsRecordType::AAAA("2606:2800:220:1:248:1893:25c8:1946".to_string()),
            ttl: 3600,
            inserted_at: 7
        }])
    );
    assert_eq!(
        server.get_records("mail.example.com", 15, 7),
        Some(vec![DnsRecord {
            record_type: DnsRecordType::MX(10, "mailserver.example.com".to_string()),
            ttl: 3600,
            inserted_at: 7
        }])
    );
    assert_eq!(
        server.get_records("example.com", 16, 7),
        Some(vec![txt("v=spf1 include:_spf.example.com ~all", 3600, 7)])
    );
    assert_eq!(server.get_records("mail.example.com", 1, 7), None);
}

#[test]
fn end_to_end_address_query() {
    let mut server = DnsServer::new();
    server.add_record("example.com", a("93.184.216.34", 3600, 0));
    let query = query_bytes(0x0001, &["example", "com"], 1);
    let reply = server.handle_query(&query, 10).unwrap();
    assert_eq!(&reply[0..2], &[0x00, 0x01]);
    assert_eq!(&reply[2..4], &[0x81, 0x80]);
    assert_eq!(&reply[4..8], &[0, 1, 0, 1]);
    // the question is echoed
    assert_eq!(&reply[12..query.len()], &query[12..]);
    let answer = &reply[query.len()..];
    assert_eq!(&answer[0..2], &[0xC0, 0x0C]);
    assert_eq!(&answer[2..4], &[0, 1]);
    assert_eq!(&answer[4..6], &[0, 1]);
    assert_eq!(&answer[6..10], &[0, 0, 0x0E, 0x10]);
    assert_eq!(&answer[10..12], &[0, 4]);
    assert_eq!(&answer[12..], &[93, 184, 216, 34]);
}

#[test]
fn end_to_end_unknown_name() {
    let mut server = DnsServer::new();
    server.add_record("example.com", a("93.184.216.34", 3600, 0));
    let query = query_bytes(0xBEEF, &["nowhere", "example"], 1);
    let reply = server.handle_query(&query, 10).unwrap();
    assert_eq!(&reply[0..2], &[0xBE, 0xEF]);
    assert_eq!(&reply[2..4], &[0x81, 0x83]);
    assert_eq!(&reply[4..6], &[0, 1]);
    assert_eq!(&reply[6..8], &[0, 0]);
    assert_eq!(&reply[8..12], &[0, 0, 0, 0]);
    assert_eq!(&reply[12..], &query[12..]);
}

#[test]
fn end_to_end_query_in_upper_case() {
    let mut server = DnsServer::new();
    server.add_record("example.com", a("93.184.216.34", 3600, 0));
    let reply = server.handle_query(&query_bytes(2, &["EXAMPLE", "Com"], 1), 10).unwrap();
    assert_eq!(&reply[2..4], &[0x81, 0x80]);
    assert_eq!(reply[7], 1);
    // the name is echoed as it was asked
    assert_eq!(&reply[13..20], b"EXAMPLE");
}

#[test]
fn end_to_end_stale_record_gets_the_error_reply() {
    let mut server = DnsServer::new();
    server.add_record("example.com", a("93.184.216.34", 3600, 0));
    let reply = server.handle_query(&query_bytes(2, &["example", "com"], 1), 301).unwrap();
    assert_eq!(&reply[2..4], &[0x81, 0x83]);
    assert_eq!(reply[7], 0);
}

#[test]
fn a_datagram_that_is_no_query_gets_no_reply() {
    let server = DnsServer::new();
    assert_eq!(server.handle_query(&[0u8; 5], 0), Err(DecodeError::Truncated));
    let mut bad = vec![0u8; 12];
    bad.extend_from_slice(&[9, b'a', 0, 1, 0, 1]);
    assert_eq!(server.handle_query(&bad, 0), Err(DecodeError::MalformedName));
}

#[test]
fn names_beyond_ascii_are_folded_too() {
    let mut server = DnsServer::new();
    server.add_record("BÜCHER.example", a("1.2.3.4", 60, 0));
    assert_eq!(server.get_records("bücher.EXAMPLE", 1, 0), Some(vec![a("1.2.3.4", 60, 0)]));
    assert_eq!(server.lookup("bücher.example", 1, 0), Some(vec![a("1.2.3.4", 60, 0)]));
}

#[test]
fn ascii_names_are_folded_letter_by_letter() {
    let mut server = DnsServer::new();
    server.add_record("AZ-az_09.[@`{", a("1.2.3.4", 60, 0));
    assert_eq!(server.lookup("az-az_09.[@`{", 1, 0), Some(vec![a("1.2.3.4", 60, 0)]));
}

#[test]
fn end_to_end_ipv6_query_gets_the_canonical_address() {
    let mut server = DnsServer::new();
    server.add_record(
        "example.com",
        DnsRecord {
            record_type: DnsRecordType::AAAA("2606:2800:0220:0001:0248:1893:25C8:1946".to_string()),
            ttl: 3600,
            inserted_at: 0,
        },
    );
    let query = query_bytes(3, &["example", "com"], 28);
    let reply = server.handle_query(&query, 1).unwrap();
    let answer = &reply[query.len()..];
    assert_eq!(&answer[0..12], &[0xC0, 0x0C, 0, 28, 0, 1, 0, 0, 0x0E, 0x10, 0, 34]);
    assert_eq!(&answer[12..], b"2606:2800:220:1:248:1893:25c8:1946");
}

#[test]
fn negative_reply_is_thirty_three_bytes() {
    let mut server = DnsServer::new();
    server.add_record("example.com", a("93.184.216.34", 3600, 0));
    let reply = server.handle_query(&query_bytes(0x0102, &["nowhere", "example"], 1), 0).unwrap();
    assert_eq!(reply.len(), 33);
    assert_eq!(&reply[0..12], &[1, 2, 0x81, 0x83, 0, 1, 0, 0, 0, 0, 0, 0]);
}
