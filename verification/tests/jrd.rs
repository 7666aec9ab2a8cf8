use actpub::jrd::{check_status, check_subject, Jrd, JrdLink};
use actpub::rels;
use actpub::webfinger::Error;

fn mastodon_jrd() -> Jrd {
    Jrd::builder("acct:Gargron@mastodon.social")
        .alias("https://mastodon.social/@Gargron")
        .alias("https://mastodon.social/users/Gargron")
        .link(
            JrdLink::builder(rels::PROFILE_PAGE)
                .media_type("text/html")
                .href("https://mastodon.social/@Gargron".parse().unwrap())
                .build(),
        )
        .link(
            JrdLink::builder(rels::SELF)
                .media_type("application/activity+json")
                .href("https://mastodon.social/users/Gargron".parse().unwrap())
                .build(),
        )
        .link(
            JrdLink::builder(rels::OSTATUS_SUBSCRIBE)
                .template("https://mastodon.social/authorize_interaction?uri={uri}")
                .build(),
        )
        .build()
}

#[test]
fn mastodon_style_jrd_lookups() {
    let jrd = mastodon_jrd();
    assert_eq!(jrd.subject, "acct:Gargron@mastodon.social");
    assert_eq!(jrd.aliases.len(), 2);
    assert_eq!(jrd.links.len(), 3);
    let actor = jrd.activitypub_actor().expect("has actor link");
    assert_eq!(
        actor.href.as_ref().map(|u| u.as_str()),
        Some("https://mastodon.social/users/Gargron")
    );
    let subscribe = jrd.find_link(rels::OSTATUS_SUBSCRIBE).unwrap();
    assert!(subscribe.template.is_some());
    assert!(subscribe.href.is_none());
}

#[test]
fn builder_sets_actor_link() {
    let jrd = Jrd::builder("acct:alice@example.com")
        .alias("https://example.com/@alice")
        .link(
            JrdLink::builder(rels::ACTIVITYPUB_ACTOR)
                .href("https://example.com/users/alice".parse().unwrap())
                .media_type("application/activity+json")
                .build(),
        )
        .build();
    let actor = jrd.activitypub_actor().unwrap();
    assert_eq!(actor.rel, "self");
    assert_eq!(jrd.aliases, vec!["https://example.com/@alice".to_owned()]);
}

#[test]
fn property_with_null_value_is_kept() {
    let jrd = Jrd::builder("acct:alice@example.com")
        .property("http://example/schema/foo", None)
        .build();
    assert_eq!(jrd.properties.get("http://example/schema/foo"), Some(&None));
    assert_eq!(jrd.properties.len(), 1);
}

#[test]
fn json_ld_link_is_the_fallback_actor() {
    let jrd = Jrd::builder("acct:a@b.example")
        .link(
            JrdLink::builder(rels::SELF)
                .media_type("application/ld+json; profile=\"https://www.w3.org/ns/activitystreams\"")
                .build(),
        )
        .build();
    let actor = jrd.activitypub_actor().unwrap();
    assert!(actor.media_type.as_deref().unwrap().starts_with("application/ld+json"));

    let preferred = Jrd::builder("acct:a@b.example")
        .link(JrdLink::builder(rels::SELF).media_type("application/ld+json").build())
        .link(JrdLink::builder(rels::SELF).media_type("application/activity+json").build())
        .build();
    assert_eq!(
        preferred.activitypub_actor().unwrap().media_type.as_deref(),
        Some("application/activity+json")
    );
}

#[test]
fn no_actor_link_without_self() {
    let jrd = Jrd::builder("acct:a@b.example")
        .link(JrdLink::builder(rels::PROFILE_PAGE).media_type("text/html").build())
        .build();
    assert!(jrd.activitypub_actor().is_none());
    assert!(jrd.find_link("missing").is_none());
}

#[test]
fn link_titles_and_properties() {
    let link = JrdLink::builder(rels::PROFILE_PAGE)
        .title("en", "Profile")
        .title("de", "Profil")
        .property("k", Some("v".to_owned()))
        .build();
    assert_eq!(link.titles.get("en").map(|s| s.as_str()), Some("Profile"));
    assert_eq!(link.titles.len(), 2);
    assert_eq!(link.properties.get("k"), Some(&Some("v".to_owned())));
}

#[test]
fn status_check_accepts_only_2xx() {
    assert_eq!(check_status(200), Ok(()));
    assert_eq!(check_status(299), Ok(()));
    assert_eq!(check_status(404), Err(Error::BadStatus(404)));
    assert_eq!(check_status(199), Err(Error::BadStatus(199)));
}

#[test]
fn fetch_at_returns_parsed_jrd_when_subject_matches() {
    let jrd = Jrd::builder("acct:alice@example.com")
        .link(
            JrdLink::builder(rels::SELF)
                .media_type("application/activity+json")
                .href("https://example.com/users/alice".parse().unwrap())
                .build(),
        )
        .build();
    let got = check_subject(jrd, Some("acct:alice@example.com")).expect("fetch should succeed");
    assert!(got.activitypub_actor().is_some(), "actor link must be present");
}

#[test]
fn fetch_at_accepts_expected_subject_in_aliases() {
    let jrd = Jrd::builder("acct:Alice@example.com").alias("acct:alice@EXAMPLE.COM").build();
    assert!(check_subject(jrd, Some("acct:alice@EXAMPLE.COM")).is_ok());
}

#[test]
fn fetch_at_rejects_mismatched_subject() {
    let jrd = Jrd::builder("acct:attacker@evil.example").build();
    let err = check_subject(jrd, Some("acct:alice@example.com")).unwrap_err();
    assert_eq!(
        err,
        Error::SubjectMismatch {
            requested: "acct:alice@example.com".to_owned(),
            returned: "acct:attacker@evil.example".to_owned(),
        }
    );
}

#[test]
fn fetch_at_rejects_empty_subject() {
    let jrd = Jrd::builder("").build();
    assert_eq!(check_subject(jrd, Some("acct:alice@example.com")), Err(Error::MissingSubject));
}

#[test]
fn fetch_at_reports_bad_status_on_404() {
    assert_eq!(check_status(404), Err(Error::BadStatus(404)));
}

#[test]
fn fetch_at_skips_subject_check_when_expected_is_none() {
    let jrd = Jrd::builder("acct:anyone@any.example").build();
    assert!(check_subject(jrd, None).is_ok());
}
