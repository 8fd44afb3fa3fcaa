use ezwhois_rs::errors::WhoisError;
use ezwhois_rs::{Action, Hop, Whois, WhoisOpt};

fn client(server: &'static str) -> Whois {
    Whois::new(WhoisOpt { whois_server: server, domain2lookup: "simpaix.net" })
}

fn finished(a: Action) -> Result<String, WhoisError> {
    match a {
        Action::Finish(r) => r,
        Action::Query { authority, .. } => panic!("unexpected query to {authority}"),
    }
}

#[test]
fn start_queries_configured_server() {
    match client("whois.iana.org:43").start() {
        Action::Query { authority, domain, hop } => {
            assert_eq!(authority, "whois.iana.org:43");
            assert_eq!(domain, "simpaix.net");
            assert_eq!(hop, Hop::Registry);
        }
        Action::Finish(_) => panic!("expected a query"),
    }
}

#[test]
fn response_without_referral_is_returned_unchanged() {
    let text = "domain: NET\nstatus: ACTIVE\n";
    let a = client("whois.iana.org:43").step(Hop::Registry, Some(text.as_bytes().to_vec()));
    assert_eq!(finished(a), Ok(text.to_string()));
}

#[test]
fn response_without_referral_needs_no_port() {
    let text = "Domain Name: SIMPAIX.NET\n";
    let a = client("whois.example").step(Hop::Registry, Some(text.as_bytes().to_vec()));
    assert_eq!(finished(a), Ok(text.to_string()));
}

#[test]
fn referral_without_port_is_missing_port() {
    let a = client("whois.example")
        .step(Hop::Registry, Some(b"whois: referral.example\n\nmore text".to_vec()));
    assert_eq!(finished(a), Err(WhoisError::MissingPort));
}

#[test]
fn referral_keeps_original_port() {
    let w = Whois::new(WhoisOpt { whois_server: "a.example:43", domain2lookup: "simpaix.net" });
    match w.step(Hop::Registry, Some(b"whois: referral.example\n\nmore text".to_vec())) {
        Action::Query { authority, domain, hop } => {
            assert_eq!(authority, "referral.example:43");
            assert_eq!(domain, "simpaix.net");
            assert_eq!(hop, Hop::Referred);
        }
        Action::Finish(r) => panic!("expected a second query, got {r:?}"),
    }
}

#[test]
fn referral_host_is_trimmed() {
    let w = client("whois.iana.org:4343");
    match w.step(Hop::Registry, Some(b"refer: x\nwhois:   whois.verisign-grs.com \r\nstatus: ACTIVE\n".to_vec())) {
        Action::Query { authority, .. } => assert_eq!(authority, "whois.verisign-grs.com:4343"),
        Action::Finish(r) => panic!("expected a second query, got {r:?}"),
    }
}

#[test]
fn referral_without_newline_is_malformed() {
    let a = client("whois.iana.org:43").step(Hop::Registry, Some(b"whois: referral.example".to_vec()));
    assert_eq!(finished(a), Err(WhoisError::MalformedReferral));
}

#[test]
fn second_response_is_final_even_with_marker() {
    let text = "whois: another.example\nDomain Name: X\n";
    let a = client("a.example:43").step(Hop::Referred, Some(text.as_bytes().to_vec()));
    assert_eq!(finished(a), Ok(text.to_string()));
}

#[test]
fn empty_reply_is_empty_response() {
    let w = client("a.example:43");
    assert_eq!(finished(w.step(Hop::Registry, Some(Vec::new()))), Err(WhoisError::EmptyResponse));
    assert_eq!(finished(w.step(Hop::Referred, Some(Vec::new()))), Err(WhoisError::EmptyResponse));
}

#[test]
fn lone_newline_reply_is_valid() {
    let w = client("a.example:43");
    assert_eq!(finished(w.step(Hop::Registry, Some(b"\n".to_vec()))), Ok("\n".to_string()));
}

#[test]
fn failed_round_trip_is_no_transport() {
    let w = client("a.example:43");
    assert_eq!(finished(w.step(Hop::Registry, None)), Err(WhoisError::NoTransport));
    assert_eq!(finished(w.step(Hop::Referred, None)), Err(WhoisError::NoTransport));
}

#[test]
fn invalid_utf8_reply_is_invalid_encoding() {
    let w = client("a.example:43");
    assert_eq!(finished(w.step(Hop::Registry, Some(vec![0x66, 0xff, 0x0a]))), Err(WhoisError::InvalidEncoding));
}

#[test]
fn non_ascii_reply_is_decoded() {
    let text = "Registrant: Jürgen Müller\n";
    let a = client("a.example:43").step(Hop::Registry, Some(text.as_bytes().to_vec()));
    assert_eq!(finished(a), Ok(text.to_string()));
}

#[test]
fn target_is_kept() {
    let w = client("whois.iana.org:43");
    assert_eq!(w.target().whois_server, "whois.iana.org:43");
    assert_eq!(w.target().domain2lookup, "simpaix.net");
}

#[test]
fn error_messages_are_distinct() {
    assert_ne!(WhoisError::EmptyResponse.message(), WhoisError::NoTransport.message());
    assert_eq!(WhoisError::MissingPort.message(), "whois server should be in host:port format");
}

#[test]
fn referral_host_unicode_whitespace_is_trimmed() {
    let w = Whois::new(WhoisOpt { whois_server: "a:1", domain2lookup: "simpaix.net" });
    match w.step(Hop::Registry, Some("whois:\u{a0}h\u{2009}\n".as_bytes().to_vec())) {
        Action::Query { authority, .. } => assert_eq!(authority, "h:1"),
        Action::Finish(r) => panic!("expected a second query, got {r:?}"),
    }
}
