use ezwhois_rs::datetime::{parse_datetime, DateTime};
use ezwhois_rs::errors::WhoisError;
use ezwhois_rs::parser::{Parser, WhoisInformation};

fn parse(text: &str) -> WhoisInformation {
    Parser::new().parse(text.to_string()).expect("parsing never fails on text")
}

fn at(year: u16, month: u8, day: u8, hour: u8, minute: u8, second: u8, nanosecond: u32) -> DateTime {
    DateTime { year, month, day, hour, minute, second, nanosecond }
}

const SAMPLE: &str = "   Domain Name: SIMPAIX.NET\r\n   Registry Domain ID: 2791830160_DOMAIN_NET-VRSN\r\n   Registrar WHOIS Server: whois.namecheap.com\r\n   Registrar URL: http://www.namecheap.com\r\n   Updated Date: 2024-05-21T08:07:15Z\r\n   Creation Date: 2023-06-20T12:13:22Z\r\n   Registry Expiry Date: 2025-06-20T12:13:22Z\r\n   Registrar: NameCheap, Inc.\r\n   Registrar IANA ID: 1068\r\n   Registrar Abuse Contact Email: abuse@namecheap.com\r\n   Registrar Abuse Contact Phone: +1.6613102107\r\n   Domain Status: clientTransferProhibited https://icann.org/epp#clientTransferProhibited\r\n   Name Server: IRENA.NS.CLOUDFLARE.COM\r\n   Name Server: LEE.NS.CLOUDFLARE.COM\r\n   DNSSEC: unsigned\r\n>>> Last update of whois database: 2024-06-01T10:00:00Z <<<\r\n";

#[test]
fn parses_full_registry_record() {
    let info = parse(SAMPLE);
    assert_eq!(info.domain_name.as_deref(), Some("SIMPAIX.NET"));
    assert_eq!(info.registry_domain_id.as_deref(), Some("2791830160_DOMAIN_NET-VRSN"));
    assert_eq!(info.registrar_whois_server.as_deref(), Some("whois.namecheap.com"));
    assert_eq!(info.registrar_url.as_deref(), Some("http://www.namecheap.com"));
    assert_eq!(info.updated_date, Some(at(2024, 5, 21, 8, 7, 15, 0)));
    assert_eq!(info.creation_date, Some(at(2023, 6, 20, 12, 13, 22, 0)));
    assert_eq!(info.registry_expirity_date, Some(at(2025, 6, 20, 12, 13, 22, 0)));
    assert_eq!(info.registrar.as_deref(), Some("NameCheap, Inc."));
    assert_eq!(info.registrar_iana_id.as_deref(), Some("1068"));
    assert_eq!(info.registrar_abuse_email_contact.as_deref(), Some("abuse@namecheap.com"));
    assert_eq!(info.registrar_abuse_phone_contact.as_deref(), Some("+1.6613102107"));
    assert_eq!(
        info.domain_status,
        Some(vec!["clientTransferProhibited https://icann.org/epp#clientTransferProhibited".to_string()])
    );
    assert_eq!(
        info.name_servers,
        Some(vec!["IRENA.NS.CLOUDFLARE.COM".to_string(), "LEE.NS.CLOUDFLARE.COM".to_string()])
    );
    assert_eq!(info.dnssec.as_deref(), Some("unsigned"));
}

#[test]
fn parsing_twice_gives_equal_records() {
    assert_eq!(parse(SAMPLE), parse(SAMPLE));
}

#[test]
fn name_servers_keep_order() {
    let info = parse("Name Server: A.NS\nName Server: B.NS\n");
    assert_eq!(info.name_servers, Some(vec!["A.NS".to_string(), "B.NS".to_string()]));
}

#[test]
fn name_server_duplicates_are_kept() {
    let info = parse("nserver: a.ns\nName Server: a.ns\n");
    assert_eq!(info.name_servers, Some(vec!["a.ns".to_string(), "a.ns".to_string()]));
}

#[test]
fn creation_date_is_parsed() {
    let info = parse("Creation Date: 2023-06-20T12:13:22Z");
    assert_eq!(info.creation_date, Some(at(2023, 6, 20, 12, 13, 22, 0)));
}

#[test]
fn bad_creation_date_is_absent() {
    let info = parse("Domain Name: X.NET\nCreation Date: not-a-date\n");
    assert_eq!(info.creation_date, None);
    assert_eq!(info.domain_name.as_deref(), Some("X.NET"));
}

#[test]
fn unknown_keys_give_empty_record() {
    let info = parse("% banner line\nfoo: bar\nrefer: whois.verisign-grs.com\n\nno colon here\n");
    assert_eq!(info, WhoisInformation::empty());
    assert_eq!(info.domain_name, None);
    assert_eq!(info.name_servers, None);
    assert_eq!(info.creation_date, None);
}

#[test]
fn empty_text_gives_empty_record() {
    assert_eq!(parse(""), WhoisInformation::empty());
    assert_eq!(parse("\n"), WhoisInformation::empty());
}

#[test]
fn first_scalar_value_wins() {
    let info = parse("Domain Name: FIRST.NET\nDomain Name: SECOND.NET\n");
    assert_eq!(info.domain_name.as_deref(), Some("FIRST.NET"));
}

#[test]
fn keys_are_case_insensitive_and_aliased() {
    let info = parse("DOMAIN ID: 42\n  registrar   : Example Registrar \npaid-till: 2030-01-31\n");
    assert_eq!(info.registry_domain_id.as_deref(), Some("42"));
    assert_eq!(info.registrar.as_deref(), Some("Example Registrar"));
    assert_eq!(info.registry_expirity_date, Some(at(2030, 1, 31, 0, 0, 0, 0)));
}

#[test]
fn value_keeps_later_colons() {
    let info = parse("Registrar URL: http://www.example.com:8080/x\n");
    assert_eq!(info.registrar_url.as_deref(), Some("http://www.example.com:8080/x"));
}

#[test]
fn empty_value_is_present_and_empty() {
    let info = parse("DNSSEC:\n");
    assert_eq!(info.dnssec.as_deref(), Some(""));
}

#[test]
fn status_values_accumulate() {
    let info = parse("Domain Status: ok\nstatus: clientHold\n");
    assert_eq!(info.domain_status, Some(vec!["ok".to_string(), "clientHold".to_string()]));
}

#[test]
fn unparsable_first_date_leaves_room_for_later() {
    let info = parse("Updated Date: soon\nLast Updated: 2024-02-29T00:00:00Z\n");
    assert_eq!(info.updated_date, Some(at(2024, 2, 29, 0, 0, 0, 0)));
}

#[test]
fn parse_bytes_rejects_invalid_utf8() {
    let r = Parser::new().parse_bytes(vec![b'a', 0xc3, b':']);
    assert_eq!(r, Err(WhoisError::InvalidEncoding));
}

#[test]
fn parse_bytes_reads_valid_text() {
    let info = Parser::new().parse_bytes(b"Domain Name: B\xc3\xbcro.de\n".to_vec()).unwrap();
    assert_eq!(info.domain_name.as_deref(), Some("Büro.de"));
}

fn date(s: &str) -> Option<DateTime> {
    let chars: Vec<char> = s.chars().collect();
    parse_datetime(&chars)
}

#[test]
fn date_formats() {
    assert_eq!(date("2023-06-20T12:13:22Z"), Some(at(2023, 6, 20, 12, 13, 22, 0)));
    assert_eq!(date("2023-06-20t12:13:22z"), Some(at(2023, 6, 20, 12, 13, 22, 0)));
    assert_eq!(date("2023-06-20T12:13:22.5Z"), Some(at(2023, 6, 20, 12, 13, 22, 500_000_000)));
    assert_eq!(date("2023-06-20T12:13:22.123456789Z"), Some(at(2023, 6, 20, 12, 13, 22, 123_456_789)));
    assert_eq!(date("2023-06-20"), Some(at(2023, 6, 20, 0, 0, 0, 0)));
}

#[test]
fn long_fractions_are_truncated() {
    assert_eq!(date("2023-06-20T12:13:22.1234567890Z"), Some(at(2023, 6, 20, 12, 13, 22, 123_456_789)));
    assert_eq!(date("2023-06-20T12:13:22.000000000999+00:00"), Some(at(2023, 6, 20, 12, 13, 22, 0)));
}

#[test]
fn numeric_offsets_are_read_in_utc() {
    assert_eq!(date("2020-03-30T17:53:05+02:00"), Some(at(2020, 3, 30, 15, 53, 5, 0)));
    assert_eq!(date("2020-03-30T17:53:05-05:30"), Some(at(2020, 3, 30, 23, 23, 5, 0)));
    assert_eq!(date("2020-03-30T17:53:05.25-00:00"), Some(at(2020, 3, 30, 17, 53, 5, 250_000_000)));
    assert_eq!(date("2024-03-01T01:00:00+02:00"), Some(at(2024, 2, 29, 23, 0, 0, 0)));
    assert_eq!(date("2023-12-31T22:30:00-03:00"), Some(at(2024, 1, 1, 1, 30, 0, 0)));
    assert_eq!(date("0000-01-01T00:30:00+01:00"), None);
    assert_eq!(date("9999-12-31T23:30:00-01:00"), None);
    assert_eq!(date("2020-03-30T17:53:05+24:00"), None);
    assert_eq!(date("2020-03-30T17:53:05+0200"), None);
}

#[test]
fn unicode_whitespace_is_trimmed() {
    let info = parse("\u{3000}Domain Name:\u{a0}X.NET\u{2003}\n");
    assert_eq!(info.domain_name.as_deref(), Some("X.NET"));
}

#[test]
fn date_rejections() {
    assert_eq!(date("not-a-date"), None);
    assert_eq!(date("2023-02-29"), None);
    assert_eq!(date("2000-02-29"), Some(at(2000, 2, 29, 0, 0, 0, 0)));
    assert_eq!(date("1900-02-29"), None);
    assert_eq!(date("2023-13-01"), None);
    assert_eq!(date("2023-06-20T24:00:00Z"), None);
    assert_eq!(date("2023-06-20T12:13:22"), None);
    assert_eq!(date("2023-06-20T12:13:22.Z"), None);
    assert_eq!(date(""), None);
}
