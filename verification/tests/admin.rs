use rustdns::admin::{
    mx_from_words, record_from_input, record_from_parts, ttl_from_input, InvalidAdminInput,
    DEFAULT_TTL,
};
use rustdns::decimal::parse_decimal;
use rustdns::record::{parse_address, parse_octet, DnsRecordType};
use rustdns::text::same_text;

fn words(list: &[&str]) -> Vec<String> {
    list.iter().map(|w| w.to_string()).collect()
}

#[test]
fn record_of_each_supported_type() {
    assert_eq!(record_from_input("A", "1.2.3.4"), Ok(DnsRecordType::A("1.2.3.4".to_string())));
    assert_eq!(record_from_input("AAAA", "::1"), Ok(DnsRecordType::AAAA("::1".to_string())));
    assert_eq!(
        record_from_input("MX", "10 mail.example.com"),
        Ok(DnsRecordType::MX(10, "mail.example.com".to_string()))
    );
    assert_eq!(
        record_from_input("TXT", "some  text"),
        Ok(DnsRecordType::TXT("some  text".to_string()))
    );
}

#[test]
fn record_type_is_read_in_any_case() {
    assert_eq!(record_from_input("a", "1.2.3.4"), Ok(DnsRecordType::A("1.2.3.4".to_string())));
    assert_eq!(record_from_input("aAaA", "::1"), Ok(DnsRecordType::AAAA("::1".to_string())));
    assert_eq!(record_from_input("mx", "1 m"), Ok(DnsRecordType::MX(1, "m".to_string())));
    assert_eq!(record_from_input("Txt", "t"), Ok(DnsRecordType::TXT("t".to_string())));
}

#[test]
fn unsupported_types_are_refused() {
    assert_eq!(record_from_input("CNAME", "a.b"), Err(InvalidAdminInput::UnsupportedType));
    assert_eq!(record_from_input("", "a.b"), Err(InvalidAdminInput::UnsupportedType));
    assert_eq!(record_from_input(" A", "1.2.3.4"), Err(InvalidAdminInput::UnsupportedType));
    assert_eq!(record_from_input("NS", "a.b"), Err(InvalidAdminInput::UnsupportedType));
}

#[test]
fn mail_exchange_needs_two_words() {
    assert_eq!(record_from_input("MX", ""), Err(InvalidAdminInput::MxShape));
    assert_eq!(record_from_input("MX", "10"), Err(InvalidAdminInput::MxShape));
    assert_eq!(record_from_input("MX", "10 a b"), Err(InvalidAdminInput::MxShape));
    assert_eq!(
        record_from_input("MX", "  10 \t mail.example.com \n"),
        Ok(DnsRecordType::MX(10, "mail.example.com".to_string()))
    );
}

#[test]
fn mail_exchange_needs_a_sixteen_bit_preference() {
    assert_eq!(record_from_input("MX", "ten mail"), Err(InvalidAdminInput::MxPreference));
    assert_eq!(record_from_input("MX", "65536 mail"), Err(InvalidAdminInput::MxPreference));
    assert_eq!(record_from_input("MX", "-1 mail"), Err(InvalidAdminInput::MxPreference));
    assert_eq!(record_from_input("MX", "65535 mail"), Ok(DnsRecordType::MX(65535, "mail".to_string())));
    assert_eq!(record_from_input("MX", "+7 mail"), Ok(DnsRecordType::MX(7, "mail".to_string())));
}

#[test]
fn record_from_parts_reads_the_folded_type_and_the_words() {
    assert_eq!(
        record_from_parts("MX", "ignored here", &words(&["5", "mx.example"])),
        Ok(DnsRecordType::MX(5, "mx.example".to_string()))
    );
    assert_eq!(
        record_from_parts("mx", "5 mx.example", &words(&["5", "mx.example"])),
        Err(InvalidAdminInput::UnsupportedType)
    );
    assert_eq!(
        record_from_parts("A", "1.2.3.4", &words(&[])),
        Ok(DnsRecordType::A("1.2.3.4".to_string()))
    );
    assert_eq!(mx_from_words(&words(&["5"])), Err(InvalidAdminInput::MxShape));
    assert_eq!(mx_from_words(&words(&["x", "y"])), Err(InvalidAdminInput::MxPreference));
}

#[test]
fn messages_for_the_operator() {
    assert_eq!(
        InvalidAdminInput::MxShape.message(),
        "MX record should have preference and exchange"
    );
    assert_eq!(InvalidAdminInput::MxPreference.message(), "Invalid MX preference");
    assert_eq!(InvalidAdminInput::UnsupportedType.message(), "Unsupported record type");
}

#[test]
fn names_of_the_kinds() {
    assert_eq!(DnsRecordType::A(String::new()).name(), "A");
    assert_eq!(DnsRecordType::AAAA(String::new()).name(), "AAAA");
    assert_eq!(DnsRecordType::CNAME(String::new()).name(), "CNAME");
    assert_eq!(DnsRecordType::MX(0, String::new()).name(), "MX");
    assert_eq!(DnsRecordType::TXT(String::new()).name(), "TXT");
}

#[test]
fn ttl_as_typed_or_the_default() {
    assert_eq!(DEFAULT_TTL, 3600);
    assert_eq!(ttl_from_input("3600"), 3600);
    assert_eq!(ttl_from_input("0"), 0);
    assert_eq!(ttl_from_input("4294967295"), u32::MAX);
    assert_eq!(ttl_from_input("4294967296"), 3600);
    assert_eq!(ttl_from_input(""), 3600);
    assert_eq!(ttl_from_input("soon"), 3600);
    assert_eq!(ttl_from_input("-4"), 3600);
    assert_eq!(ttl_from_input(" 4"), 3600);
    assert_eq!(ttl_from_input("+4"), 4);
}

#[test]
fn decimal_agrees_with_the_standard_parser() {
    let samples = [
        "", "+", "-", "0", "00", "007", "255", "256", "+255", "+0", "++1", "1+", " 1", "1 ", "1_0",
        "0x10", "99999999999999999999", "65535", "65536", "4294967295", "4294967296", "１",
        "12a", "a12", "-0", "+-1", "000000000000000000000000000001",
    ];
    for s in samples {
        assert_eq!(parse_decimal(s.as_bytes(), 255), s.parse::<u8>().ok().map(u32::from), "{:?}", s);
        assert_eq!(
            parse_decimal(s.as_bytes(), 65535),
            s.parse::<u16>().ok().map(u32::from),
            "{:?}",
            s
        );
        assert_eq!(parse_decimal(s.as_bytes(), u32::MAX), s.parse::<u32>().ok(), "{:?}", s);
    }
}

#[test]
fn decimal_with_a_small_limit() {
    assert_eq!(parse_decimal(b"7", 7), Some(7));
    assert_eq!(parse_decimal(b"8", 7), None);
    assert_eq!(parse_decimal(b"0", 0), Some(0));
    assert_eq!(parse_decimal(b"1", 0), None);
}

#[test]
fn octets_of_a_dotted_address() {
    assert_eq!(parse_address(b"93.184.216.34"), vec![93, 184, 216, 34]);
    assert_eq!(parse_address(b"0.0.0.0"), vec![0, 0, 0, 0]);
    assert_eq!(parse_address(b"255.255.255.255"), vec![255, 255, 255, 255]);
}

#[test]
fn octets_that_do_not_parse_become_zero() {
    assert_eq!(parse_address(b"1.256.x.4"), vec![1, 0, 0, 4]);
    assert_eq!(parse_address(b"1..3.-4"), vec![1, 0, 3, 0]);
    assert_eq!(parse_octet(b"300"), 0);
    assert_eq!(parse_octet(b""), 0);
    assert_eq!(parse_octet(b"+9"), 9);
    assert_eq!(parse_octet(b"09"), 9);
}

#[test]
fn one_octet_for_each_piece() {
    assert_eq!(parse_address(b""), vec![0]);
    assert_eq!(parse_address(b"7"), vec![7]);
    assert_eq!(parse_address(b"1.2.3"), vec![1, 2, 3]);
    assert_eq!(parse_address(b"1.2.3.4.5"), vec![1, 2, 3, 4, 5]);
    assert_eq!(parse_address(b"1.2.3.4."), vec![1, 2, 3, 4, 0]);
    assert_eq!(parse_address(b"."), vec![0, 0]);
}

#[test]
fn octets_agree_with_the_split_and_parse_of_the_standard_library() {
    for s in ["93.184.216.34", "", ".", "a.b", "1.2.3.4.5", "+1.02.256.0x1", "....", "12"] {
        let expected: Vec<u8> = s.split('.').map(|o| o.parse::<u8>().unwrap_or(0)).collect();
        assert_eq!(parse_address(s.as_bytes()), expected, "{:?}", s);
    }
}

#[test]
fn texts_are_compared_character_by_character() {
    assert!(same_text("MX", "MX"));
    assert!(same_text("", ""));
    assert!(!same_text("MX", "mx"));
    assert!(!same_text("MX", "MXX"));
    assert!(!same_text("é", "e"));
}
