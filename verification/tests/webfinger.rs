use actpub::webfinger::{jrd_accept_header, percent_encode, Account, Error, MEDIA_TYPE, WELL_KNOWN_PATH};

#[test]
fn parses_acct_prefix() {
    let a = Account::parse("acct:alice@example.com").unwrap();
    assert_eq!(a.user(), "alice");
    assert_eq!(a.host(), "example.com");
}

#[test]
fn parses_at_prefix() {
    let a = Account::parse("@alice@example.com").unwrap();
    assert_eq!(a.host(), "example.com");
}

#[test]
fn parses_bare_form() {
    let a = Account::parse("alice@example.com").unwrap();
    assert_eq!(a.to_resource(), "acct:alice@example.com");
}

#[test]
fn normalises_host_to_lowercase() {
    let a = Account::parse("acct:Alice@EXAMPLE.COM").unwrap();
    assert_eq!(a.host(), "example.com");
    assert_eq!(a.user(), "Alice");
}

#[test]
fn rejects_missing_at() {
    assert!(Account::parse("acct:alice").is_err());
}

#[test]
fn rejects_empty_components() {
    assert!(Account::parse("acct:@example.com").is_err());
    assert!(Account::parse("acct:alice@").is_err());
}

#[test]
fn rejects_extra_at() {
    assert!(Account::parse("acct:alice@evil@example.com").is_err());
}

#[test]
fn builds_webfinger_url() {
    let a = Account::parse("acct:alice@example.com").unwrap();
    let url = a.webfinger_url().unwrap();
    assert_eq!(
        url.as_str(),
        "https://example.com/.well-known/webfinger?resource=acct:alice@example.com"
    );
}

#[test]
fn doc_example_text_and_equality() {
    let a = Account::parse("acct:alice@example.com").unwrap();
    assert_eq!(a.to_string(), "acct:alice@example.com");
    assert_eq!(Account::parse("@alice@example.com").unwrap(), a);
    assert_eq!(Account::parse("alice@example.com").unwrap(), a);
}

#[test]
fn text_roundtrips_through_parse() {
    let a = Account::new("Bob", "Social.Example").unwrap();
    assert_eq!(a.host(), "social.example");
    let back = Account::parse(&a.to_string()).unwrap();
    assert_eq!(back, a);
    let via_from_str: Account = a.to_string().parse().unwrap();
    assert_eq!(via_from_str, a);
}

#[test]
fn new_rejects_empty_parts() {
    assert!(matches!(Account::new("", "example.com"), Err(Error::InvalidAcct(_))));
    assert!(matches!(Account::new("alice", ""), Err(Error::InvalidAcct(_))));
}

#[test]
fn scheme_can_be_overridden() {
    let a = Account::parse("alice@example.com").unwrap();
    let url = a.webfinger_url_with_scheme("http").unwrap();
    assert_eq!(
        url.as_str(),
        "http://example.com/.well-known/webfinger?resource=acct:alice@example.com"
    );
}

#[test]
fn invalid_host_gives_invalid_url() {
    let a = Account::new("alice", "exa mple.com").unwrap();
    assert!(matches!(a.webfinger_url(), Err(Error::InvalidUrl(_))));
}

#[test]
fn percent_encoding_keeps_acct_punctuation() {
    assert_eq!(percent_encode("acct:alice@example.com"), "acct:alice@example.com");
    assert_eq!(percent_encode("a b&c"), "a%20b%26c");
    assert_eq!(percent_encode("é"), "%C3%A9");
}

#[test]
fn accept_header_lists_jrd_then_json() {
    assert_eq!(jrd_accept_header(), "application/jrd+json, application/json");
    assert_eq!(MEDIA_TYPE, "application/jrd+json");
    assert_eq!(WELL_KNOWN_PATH, "/.well-known/webfinger");
}

#[test]
fn hosts_are_lowercase_whatever_the_input() {
    for host in ["EXAMPLE.com", "exa\u{212A}mple.COM", "Straße.DE"] {
        let a = Account::new("u", host).unwrap();
        assert_eq!(a.host(), a.host().to_ascii_lowercase());
        assert_eq!(a.host(), host.to_lowercase());
    }
}
