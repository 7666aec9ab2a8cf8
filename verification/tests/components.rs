use actpub::components::{build_signature_base, canonical_value, Component, RequestParts};
use actpub::httpsig::Error;

fn parts(
    method: &str,
    scheme: Option<&str>,
    authority: Option<&str>,
    path: &str,
    query: Option<&str>,
    headers: &[(&str, &str)],
) -> RequestParts {
    let path_and_query = match query {
        Some(q) => format!("{path}?{q}"),
        None => path.to_owned(),
    };
    RequestParts {
        method: method.to_owned(),
        scheme: scheme.map(str::to_owned),
        authority: authority.map(str::to_owned),
        path: path.to_owned(),
        query: query.map(str::to_owned),
        path_and_query: Some(path_and_query),
        headers: headers
            .iter()
            .map(|(n, v)| ((*n).to_owned(), Some((*v).to_owned())))
            .collect(),
    }
}

/// The request `POST https://example.com/inbox?a=1` with `host` and `date` headers.
fn sample() -> RequestParts {
    parts(
        "POST",
        Some("https"),
        Some("example.com"),
        "/inbox",
        Some("a=1"),
        &[("host", "example.com"), ("date", "Sun, 05 Jan 2014 21:31:40 GMT")],
    )
}

#[test]
fn method_is_uppercase() {
    assert_eq!(
        canonical_value(&Component::Method, &sample()).unwrap(),
        "POST"
    );
}

#[test]
fn target_uri_includes_scheme_authority_path_and_query() {
    assert_eq!(
        canonical_value(&Component::TargetUri, &sample()).unwrap(),
        "https://example.com/inbox?a=1",
    );
}

#[test]
fn authority_is_lowercase() {
    let req = parts("POST", Some("https"), Some("EXAMPLE.COM"), "/inbox", None, &[]);
    assert_eq!(
        canonical_value(&Component::Authority, &req).unwrap(),
        "example.com"
    );
}

#[test]
fn path_and_query_are_separate() {
    let req = sample();
    assert_eq!(canonical_value(&Component::Path, &req).unwrap(), "/inbox");
    assert_eq!(canonical_value(&Component::Query, &req).unwrap(), "?a=1");
}

#[test]
fn missing_header_reports_required_header_absent() {
    let req = sample();
    let err = canonical_value(&Component::Header("authorization".into()), &req)
        .expect_err("missing header must error");
    assert!(matches!(err, Error::RequiredHeaderAbsent(name) if name == "authorization"));
}

#[test]
fn parse_roundtrips_known_identifiers() {
    for ident in [
        "@method",
        "@target-uri",
        "@authority",
        "@scheme",
        "@path",
        "@query",
        "@request-target",
        "date",
    ] {
        let c = Component::parse(ident).expect("known identifier");
        assert_eq!(c.identifier(), ident);
    }
}

#[test]
fn parse_rejects_unknown_derived_component() {
    let err = Component::parse("@future").expect_err("unknown derived");
    assert!(matches!(err, Error::UnsupportedAlgorithm(_)));
}

#[test]
fn full_signature_base_matches_expected_shape() {
    let req = sample();
    let components = [
        Component::Method,
        Component::TargetUri,
        Component::Header("host".into()),
        Component::Header("date".into()),
    ];
    let base = build_signature_base(
        &req,
        &components,
        r#"("@method" "@target-uri" "host" "date");created=1704464900;keyid="kid""#,
    )
    .unwrap();
    assert_eq!(
        base,
        "\"@method\": POST\n\
         \"@target-uri\": https://example.com/inbox?a=1\n\
         \"host\": example.com\n\
         \"date\": Sun, 05 Jan 2014 21:31:40 GMT\n\
         \"@signature-params\": (\"@method\" \"@target-uri\" \"host\" \"date\");created=1704464900;keyid=\"kid\"",
    );
}

// --- further cases ---------------------------------------------------------

#[test]
fn header_names_are_lowercased_and_lexical_is_quoted() {
    let c = Component::parse("Content-Type").unwrap();
    assert_eq!(c, Component::Header("content-type".to_owned()));
    assert_eq!(c.lexical(), "\"content-type\"");
}

#[test]
fn unknown_derived_component_message() {
    assert_eq!(
        Component::parse("@status").unwrap_err(),
        Error::UnsupportedAlgorithm("derived component `@status` is not supported".to_owned())
    );
}

#[test]
fn authority_falls_back_to_trimmed_host_header() {
    let req = parts("get", None, None, "/x", None, &[("host", "  Example.ORG ")]);
    assert_eq!(canonical_value(&Component::Authority, &req).unwrap(), "example.org");
    assert_eq!(canonical_value(&Component::Scheme, &req).unwrap(), "https");
    assert_eq!(canonical_value(&Component::Method, &req).unwrap(), "GET");
    assert_eq!(canonical_value(&Component::RequestTarget, &req).unwrap(), "get /x");
    assert_eq!(canonical_value(&Component::Query, &req).unwrap(), "");
}

#[test]
fn repeated_headers_are_joined_in_order() {
    let mut req = parts("POST", None, None, "/", None, &[("x-a", " one "), ("y", "z"), ("x-a", "two")]);
    req.headers.push(("x-a".to_owned(), None));
    assert_eq!(
        canonical_value(&Component::Header("x-a".into()), &req).unwrap(),
        "one, two, "
    );
}

#[test]
fn first_failing_component_decides_the_error() {
    let req = sample();
    let err = build_signature_base(
        &req,
        &[Component::Method, Component::Header("a".into()), Component::Header("b".into())],
        "()",
    )
    .unwrap_err();
    assert_eq!(err, Error::RequiredHeaderAbsent("a".to_owned()));
}
