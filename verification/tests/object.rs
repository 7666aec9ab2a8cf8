use actpub::kind;
use actpub::object::{Object, ObjectRef};
use actpub::value::{OneOrMany, Public};

#[test]
fn kind_helpers_work() {
    let note = Object::with_kind("Note");
    assert!(note.is_kind("Note"));
    assert_eq!(note.primary_kind(), Some("Note"));
    assert!(!note.is_actor());
    assert!(!note.is_collection());
}

#[test]
fn actor_detection_covers_all_standard_types() {
    for t in [
        kind::actor::PERSON,
        kind::actor::GROUP,
        kind::actor::ORGANIZATION,
        kind::actor::APPLICATION,
        kind::actor::SERVICE,
    ] {
        let a = Object::with_kind(t);
        assert!(a.is_actor(), "{t} should be an actor");
    }
}

#[test]
fn is_public_detects_all_spellings() {
    let mut obj = Object::with_kind("Note");
    obj.to = vec![ObjectRef::Url(Public::URI.to_owned())];
    assert!(obj.is_public());

    let mut obj2 = Object::with_kind("Note");
    let public_obj = Object::with_id(Object::new(), Public::URI.to_owned());
    obj2.cc = vec![ObjectRef::Object(Box::new(public_obj))];
    assert!(obj2.is_public());
}

#[test]
fn compact_public_spellings_count() {
    for spelling in ["as:Public", "Public"] {
        let mut obj = Object::with_kind("Note");
        obj.bcc = vec![ObjectRef::Url(spelling.to_owned())];
        assert!(obj.is_public(), "{spelling} is public");
    }
    assert!(Public::is_public("as:Public"));
    assert!(!Public::is_public("https://example.com/followers"));
}

#[test]
fn private_addressing_is_not_public() {
    let mut obj = Object::with_kind("Note");
    obj.to = vec![ObjectRef::Url("https://mastodon.social/users/alice/followers".to_owned())];
    obj.audience = vec![ObjectRef::Object(Box::new(Object::new()))];
    assert!(!obj.is_public());
    assert!(!Object::new().is_public());
}

#[test]
fn collections_are_detected() {
    for t in [
        kind::collection::COLLECTION,
        kind::collection::ORDERED_COLLECTION,
        kind::collection::COLLECTION_PAGE,
        kind::collection::ORDERED_COLLECTION_PAGE,
    ] {
        assert!(Object::with_kind(t).is_collection(), "{t} is a collection");
    }
    assert!(!Object::with_kind(kind::actor::PERSON).is_collection());
}

#[test]
fn several_kinds_are_all_checked() {
    let mut obj = Object::new();
    assert_eq!(obj.primary_kind(), None);
    obj.kind = OneOrMany(vec!["Note".to_owned(), "Person".to_owned()]);
    assert!(obj.is_kind("Person"));
    assert!(obj.is_actor());
    assert_eq!(obj.primary_kind(), Some("Note"));
    assert!(!obj.is_kind("Group"));
}

#[test]
fn new_and_default_are_blank() {
    let a = Object::new();
    let b = Object::default();
    assert_eq!(a, b);
    assert!(a.id.is_none());
    assert!(a.kind.is_empty());
    assert_eq!(a.extra.len(), 0);
    let with_id = Object::with_id(Object::with_kind("Note"), "https://example.com/1".to_owned());
    assert_eq!(with_id.id.as_deref(), Some("https://example.com/1"));
    assert!(with_id.is_kind("Note"));
}

#[test]
fn one_or_many_helpers() {
    let mut m: OneOrMany<u8> = OneOrMany::empty();
    assert!(m.is_empty());
    assert_eq!(m.first(), None);
    m.push(3);
    m.push(4);
    assert_eq!(m.len(), 2);
    assert_eq!(m.first(), Some(&3));
    assert_eq!(OneOrMany::one(7u8).0, vec![7]);
}

#[test]
fn clone_copies_nested_objects() {
    let mut inner = Object::with_kind("Note");
    inner.to = vec![ObjectRef::Url(Public::URI.to_owned())];
    let mut outer = Object::with_kind("Create");
    outer.object = vec![ObjectRef::Object(Box::new(inner))];
    outer.extra.insert("sensitive".to_owned(), serde_json::Value::Bool(false));
    let copy = outer.clone();
    assert_eq!(copy, outer);
    assert_eq!(copy.extra.get("sensitive"), Some(&serde_json::Value::Bool(false)));
}
