use actpub::httpsig::{CavageHeaderParams, Error, SIGNATURE_HEADER};

const MASTODON_SAMPLE: &str = r#"keyId="https://mastodon.social/users/alice#main-key",algorithm="rsa-sha256",headers="(request-target) host date digest",signature="Zm9v""#;

#[test]
fn parses_mastodon_style_header() {
    let params = CavageHeaderParams::parse(MASTODON_SAMPLE).expect("parse");
    assert_eq!(
        params.key_id,
        "https://mastodon.social/users/alice#main-key"
    );
    assert_eq!(params.algorithm.as_deref(), Some("rsa-sha256"));
    assert_eq!(params.headers.len(), 4);
    assert_eq!(params.signature, "Zm9v");
    assert_eq!(params.created, None);
    assert_eq!(params.expires, None);
}

#[test]
fn header_roundtrips_through_serialisation() {
    let params = CavageHeaderParams::parse(MASTODON_SAMPLE).expect("parse");
    let emitted = params.to_header_value();
    let reparsed = CavageHeaderParams::parse(&emitted).expect("reparse");
    assert_eq!(reparsed, params);
}

#[test]
fn missing_key_id_produces_specific_error() {
    let err =
        CavageHeaderParams::parse(r#"algorithm="rsa-sha256",headers="host",signature="Zm9v""#)
            .expect_err("missing keyId");
    assert!(matches!(err, Error::MissingSignatureParameter("keyId")));
}

#[test]
fn missing_signature_produces_specific_error() {
    let err = CavageHeaderParams::parse(r#"keyId="foo",algorithm="rsa-sha256",headers="host""#)
        .expect_err("missing signature");
    assert!(matches!(err, Error::MissingSignatureParameter("signature")));
}

#[test]
fn unquoted_parameters_are_tolerated() {
    let raw =
        r#"keyId="foo",headers="host",created=1700000000,expires=1700001000,signature="Zm9v""#;
    let params = CavageHeaderParams::parse(raw).expect("parse");
    assert_eq!(params.created, Some(1_700_000_000));
    assert_eq!(params.expires, Some(1_700_001_000));
}

#[test]
fn unknown_parameters_are_silently_skipped() {
    let raw = r#"keyId="foo",headers="host",signature="Zm9v",future_thing="ignored""#;
    let params = CavageHeaderParams::parse(raw).expect("parse");
    assert_eq!(params.key_id, "foo");
}

#[test]
fn commas_inside_quoted_signature_do_not_split_parameters() {
    let raw = r#"keyId="has,comma",headers="host",signature="ZmF,vo""#;
    let params = CavageHeaderParams::parse(raw).expect("parse");
    assert_eq!(params.key_id, "has,comma");
    assert_eq!(params.signature, "ZmF,vo");
}

// --- further cases ---------------------------------------------------------

#[test]
fn signature_header_name_is_lowercase() {
    assert_eq!(SIGNATURE_HEADER, "signature");
}

#[test]
fn pair_without_equals_is_malformed() {
    let err = CavageHeaderParams::parse(r#"keyId="foo",bogus,signature="x""#)
        .expect_err("missing =");
    assert_eq!(
        err,
        Error::MalformedSignatureHeader("missing `=` in `bogus`".to_owned())
    );
}

#[test]
fn non_integer_created_is_malformed() {
    let err = CavageHeaderParams::parse(r#"keyId="foo",created=soon,signature="x""#)
        .expect_err("bad created");
    assert_eq!(
        err,
        Error::MalformedSignatureHeader("`created` is not an integer: `soon`".to_owned())
    );
}

#[test]
fn expires_overflowing_i64_is_malformed() {
    let err = CavageHeaderParams::parse(r#"keyId="k",expires=9223372036854775808,signature="x""#)
        .expect_err("overflow");
    assert!(matches!(err, Error::MalformedSignatureHeader(_)));
    let ok = CavageHeaderParams::parse(r#"keyId="k",expires=-9223372036854775808,signature="x""#)
        .expect("i64::MIN fits");
    assert_eq!(ok.expires, Some(i64::MIN));
}

#[test]
fn absent_headers_parameter_defaults_to_created() {
    let p = CavageHeaderParams::parse(r#"keyId="k",signature="s""#).unwrap();
    assert_eq!(p.headers.names(), &vec!["(created)".to_owned()]);
}

#[test]
fn lowercase_keyid_and_escapes_and_whitespace_are_accepted() {
    let p = CavageHeaderParams::parse(" keyid = \"a\\\\b\" ,  , headers=\" host   date \", signature=\"s\" ")
        .unwrap();
    assert_eq!(p.key_id, "a\\b");
    assert_eq!(p.headers.names(), &vec!["host".to_owned(), "date".to_owned()]);
    assert_eq!(p.signature, "s");
}

#[test]
fn escaped_quote_toggles_the_quoted_region() {
    // The splitter counts every `"`, escaped or not, so the rest of the
    // value after `\"` stays inside one piece and `signature` is never seen.
    let err = CavageHeaderParams::parse(r#"keyId="a\"b",signature="s""#).unwrap_err();
    assert_eq!(err, Error::MissingSignatureParameter("signature"));
}

#[test]
fn later_parameters_override_earlier_ones() {
    let p = CavageHeaderParams::parse(r#"keyId="a",keyId="b",signature="s""#).unwrap();
    assert_eq!(p.key_id, "b");
}

#[test]
fn emitted_value_has_documented_shape() {
    let p = CavageHeaderParams::parse(
        r#"signature="sig",created=-5,keyId="k",headers="host date",expires=7,algorithm="hs2019""#,
    )
    .unwrap();
    assert_eq!(
        p.to_header_value(),
        r#"keyId="k",algorithm="hs2019",headers="host date",created=-5,expires=7,signature="sig""#
    );
    assert_eq!(CavageHeaderParams::parse(&p.to_header_value()).unwrap(), p);
}

#[test]
fn appended_unknown_parameter_changes_nothing() {
    let raw = r#"keyId="k",headers="host",signature="Zm9v""#;
    let more = format!("{raw},x-extra=\"a,b\"");
    assert_eq!(CavageHeaderParams::parse(&more), CavageHeaderParams::parse(raw));
    let bad = r#"keyId="k",created=soon,signature="s""#;
    let bad_more = format!("{bad},x-extra=\"v\"");
    assert_eq!(CavageHeaderParams::parse(&bad_more), CavageHeaderParams::parse(bad));
}

#[test]
fn parameter_order_is_not_significant() {
    let a = r#"keyId="k",headers="host date",created=5,signature="s""#;
    let b = r#"signature="s",created=5,headers="host date",keyId="k""#;
    assert_eq!(CavageHeaderParams::parse(a), CavageHeaderParams::parse(b));
}
