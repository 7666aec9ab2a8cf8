use actpub::nodeinfo::{
    metadata_from, skip_empty_services, InboundService, Metadata, NodeInfo, Protocol, Services,
    Software, Usage, UserCount, Version,
};
use serde_json::Value;

#[test]
fn version_roundtrips() {
    let v = Version::V2_1;
    assert_eq!(v.as_str(), "2.1");
    assert_eq!(v.schema_uri(), "http://nodeinfo.diaspora.software/ns/schema/2.1");
    assert_eq!(Version::V2_0.as_str(), "2.0");
    assert_eq!(
        Version::V2_0.schema_uri(),
        "http://nodeinfo.diaspora.software/ns/schema/2.0"
    );
}

#[test]
fn builder_produces_minimal_valid_document() {
    let info = NodeInfo::builder(Version::V2_0, Software::new("test-server", "0.1.0"))
        .protocol(Protocol::ActivityPub)
        .open_registrations(false)
        .build();
    assert_eq!(info.version, Version::V2_0);
    assert!(!info.open_registrations);
    assert!(skip_empty_services(&info.services));
    assert_eq!(info.protocols, vec![Protocol::ActivityPub]);
    assert_eq!(info.metadata, Metadata::Null);
}

#[test]
fn metadata_entry_builds_object() {
    let feps = Value::Array(vec![Value::String("521a".to_owned()), Value::String("8b32".to_owned())]);
    let info = NodeInfo::builder(Version::V2_1, Software::new("my-server", "1.0.0"))
        .metadata_entry("supports_feps".to_owned(), feps.clone())
        .build();
    match &info.metadata {
        Metadata::Object(m) => {
            assert_eq!(m.get("supports_feps"), Some(&feps));
            assert_eq!(m.len(), 1);
        }
        other => panic!("expected an object, got {other:?}"),
    }
}

#[test]
fn metadata_entry_extends_an_existing_object() {
    let info = NodeInfo::builder(Version::V2_1, Software::new("s", "1"))
        .metadata_entry("a".to_owned(), Value::Bool(true))
        .metadata_entry("b".to_owned(), Value::Bool(false))
        .metadata_entry("a".to_owned(), Value::Null)
        .build();
    match &info.metadata {
        Metadata::Object(m) => {
            assert_eq!(m.len(), 2);
            assert_eq!(m.get("a"), Some(&Value::Null));
            assert_eq!(m.get("b"), Some(&Value::Bool(false)));
        }
        other => panic!("expected an object, got {other:?}"),
    }
}

#[test]
fn metadata_entry_replaces_a_non_object() {
    let info = NodeInfo::builder(Version::V2_1, Software::new("s", "1"))
        .metadata(Metadata::Other(Value::Bool(true)))
        .metadata_entry("k".to_owned(), Value::Null)
        .build();
    match &info.metadata {
        Metadata::Object(m) => assert_eq!(m.len(), 1),
        other => panic!("expected an object, got {other:?}"),
    }
}

#[test]
fn metadata_from_keeps_the_last_of_a_key() {
    let m = metadata_from(vec![
        ("x".to_owned(), Value::Bool(true)),
        ("y".to_owned(), Value::Null),
        ("x".to_owned(), Value::Bool(false)),
    ]);
    match m {
        Metadata::Object(map) => {
            assert_eq!(map.len(), 2);
            assert_eq!(map.get("x"), Some(&Value::Bool(false)));
        }
        other => panic!("expected an object, got {other:?}"),
    }
}

#[test]
fn builder_setters_replace_blocks() {
    let usage = Usage {
        users: Some(UserCount { total: Some(1234), active_halfyear: Some(400), active_month: Some(50) }),
        local_posts: Some(9999),
        local_comments: Some(8888),
    };
    let services = Services { inbound: vec![InboundService::Imap], outbound: vec![] };
    let info = NodeInfo::builder(Version::V2_1, Software::new("mastodon", "4.5.0"))
        .protocols(vec![Protocol::ActivityPub, Protocol::Other("bluesky".to_owned())])
        .services(services.clone())
        .usage(usage.clone())
        .open_registrations(true)
        .build();
    assert_eq!(info.software.name, "mastodon");
    assert_eq!(info.usage.users.unwrap().total, Some(1234));
    assert_eq!(info.usage, usage);
    assert_eq!(info.services, services);
    assert!(!skip_empty_services(&info.services));
    assert!(info.open_registrations);
    assert_eq!(info.protocols.len(), 2);
}

#[test]
fn defaults_are_empty() {
    let s = Services::default();
    assert!(s.inbound.is_empty() && s.outbound.is_empty());
    let u = Usage::default();
    assert_eq!(u.users, None);
    assert_eq!(UserCount::default().total, None);
    let sw = Software::new("n", "v");
    assert!(sw.repository.is_none() && sw.homepage.is_none());
}
