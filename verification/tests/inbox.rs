use actpub::content_digest::content_digest_header;
use actpub::digest::sha256_digest_header;
use actpub::httpsig::Error as HttpSigError;
use actpub::inbox::{
    accepts, activity_id, check_inbox_method, extract_key_id, select_key, start, step,
    strip_fragment, verify_body_integrity, ActorKeys, AssertionMethod, Error, InboxAction,
    InboxEvent, InboxOutcome, InboxRequest, InboxState, KeyMaterial,
};

const KEY_ID: &str = "https://send.example.com/users/alice#key";

fn signed_request(activity: &str) -> InboxRequest {
    let body = activity.as_bytes().to_vec();
    InboxRequest {
        method: "POST".to_owned(),
        uri: "https://recv.example.com/users/bob/inbox".to_owned(),
        digest: Some(sha256_digest_header(&body)),
        content_digest: Some(content_digest_header(&body)),
        signature_input: None,
        signature: Some(format!(
            "keyId=\"{KEY_ID}\",algorithm=\"hs2019\",headers=\"(request-target) host date digest\",signature=\"Zm9v\""
        )),
        body,
    }
}

fn multikey_actor() -> ActorKeys {
    ActorKeys {
        assertion_method: Some(vec![AssertionMethod::Object {
            id: Some(KEY_ID.to_owned()),
            public_key_multibase: Some("z6MkExample".to_owned()),
        }]),
        public_key_pem: None,
    }
}

/// Drives one POST to its end: every outside answer is a success, and the
/// seen set is `seen`.
fn run(req: &InboxRequest, actor: ActorKeys, seen: &mut Vec<String>, handled: &mut usize) -> Result<InboxOutcome, Error> {
    run_with(req, actor, seen, handled, Ok(()))
}

fn run_with(
    req: &InboxRequest,
    actor: ActorKeys,
    seen: &mut Vec<String>,
    handled: &mut usize,
    handler_result: Result<(), String>,
) -> Result<InboxOutcome, Error> {
    let (mut state, mut action) = start(req);
    let mut actor = Some(actor);
    loop {
        let event = match action {
            InboxAction::Finish(r) => return r,
            InboxAction::FetchActor(url) => {
                assert_eq!(url.as_str(), "https://send.example.com/users/alice");
                InboxEvent::ActorFetched(Ok(actor.take().unwrap()))
            }
            InboxAction::DecodeKey(_) => InboxEvent::KeyDecoded(Ok(())),
            InboxAction::VerifySignature => InboxEvent::SignatureChecked(Ok(())),
            InboxAction::CheckSeen(id) => InboxEvent::SeenChecked(seen.contains(&id)),
            InboxAction::InvokeHandler => {
                *handled += 1;
                InboxEvent::Handled(handler_result.clone())
            }
            InboxAction::RecordSeen(id) => {
                seen.push(id);
                InboxEvent::Recorded
            }
        };
        assert!(accepts(&state, &event));
        let (s, a) = step(state, event, req);
        state = s;
        action = a;
    }
}

#[test]
fn process_accepts_a_well_signed_activity_via_multikey() {
    let req = signed_request(r#"{"id":"https://send.example.com/activities/01","type":"Create","actor":"https://send.example.com/users/alice"}"#);
    let mut seen = Vec::new();
    let mut handled = 0;
    let outcome = run(&req, multikey_actor(), &mut seen, &mut handled).unwrap();
    assert!(matches!(outcome, InboxOutcome::Accepted { .. }));
    assert_eq!(
        outcome,
        InboxOutcome::Accepted { activity_id: Some("https://send.example.com/activities/01".to_owned()) }
    );
    assert_eq!(handled, 1);
}

#[test]
fn process_dedups_a_repeated_activity() {
    let req = signed_request(r#"{"id":"https://send.example.com/activities/dup","type":"Create","actor":"https://send.example.com/users/alice"}"#);
    let mut seen = Vec::new();
    let mut handled = 0;
    let first = run(&req, multikey_actor(), &mut seen, &mut handled).unwrap();
    assert!(matches!(first, InboxOutcome::Accepted { .. }));
    let second = run(&req, multikey_actor(), &mut seen, &mut handled).unwrap();
    assert!(matches!(second, InboxOutcome::Duplicate { .. }));
    assert_eq!(handled, 1);
}

#[test]
fn process_rejects_a_tampered_body() {
    let mut req = signed_request(r#"{"id":"https://send.example.com/activities/02","type":"Create"}"#);
    req.body = br#"{"id":"x","type":"Tampered"}"#.to_vec();
    let (state, action) = start(&req);
    assert_eq!(state, InboxState::Finished);
    match action {
        InboxAction::Finish(Err(err)) => assert!(matches!(err, Error::HttpSig(_)), "unexpected: {err:?}"),
        other => panic!("digest mismatch must be detected, got {other:?}"),
    }
}

#[test]
fn process_rejects_an_actor_without_a_usable_key() {
    let req = signed_request(r#"{"id":"https://send.example.com/activities/03","type":"Create"}"#);
    let mut seen = Vec::new();
    let mut handled = 0;
    let no_keys = ActorKeys { assertion_method: None, public_key_pem: None };
    let err = run(&req, no_keys, &mut seen, &mut handled).expect_err("missing key must surface");
    assert!(matches!(err, Error::ActorWithoutKey(_)), "unexpected: {err:?}");
    assert_eq!(handled, 0);
}

#[test]
fn activity_without_id_is_accepted_and_not_recorded() {
    let req = signed_request(r#"{"type":"Create"}"#);
    let mut seen = Vec::new();
    let mut handled = 0;
    let outcome = run(&req, multikey_actor(), &mut seen, &mut handled).unwrap();
    assert_eq!(outcome, InboxOutcome::Accepted { activity_id: None });
    assert!(seen.is_empty());
}

#[test]
fn handler_failure_and_signature_failure_refuse() {
    let req = signed_request(r#"{"id":"https://send.example.com/activities/04"}"#);
    let (state, _) = start(&req);
    let (state, _) = step(state, InboxEvent::ActorFetched(Ok(multikey_actor())), &req);
    let (state, _) = step(state, InboxEvent::KeyDecoded(Ok(())), &req);
    let (sig_state, action) = step(state, InboxEvent::SignatureChecked(Ok(())), &req);
    assert_eq!(action, InboxAction::CheckSeen("https://send.example.com/activities/04".to_owned()));
    let (state, action) = step(sig_state, InboxEvent::SeenChecked(false), &req);
    assert_eq!(action, InboxAction::InvokeHandler);
    let (_, action) = step(state, InboxEvent::Handled(Err("boom".to_owned())), &req);
    assert_eq!(action, InboxAction::Finish(Err(Error::HandlerFailed("boom".to_owned()))));

    let (state, _) = start(&req);
    let (state, _) = step(state, InboxEvent::ActorFetched(Ok(multikey_actor())), &req);
    let (state, _) = step(state, InboxEvent::KeyDecoded(Ok(())), &req);
    assert!(!accepts(&state, &InboxEvent::Recorded));
    let (_, action) = step(
        state,
        InboxEvent::SignatureChecked(Err(Error::HttpSig(HttpSigError::UnsupportedAlgorithm("x".to_owned())))),
        &req,
    );
    assert_eq!(
        action,
        InboxAction::Finish(Err(Error::HttpSig(HttpSigError::UnsupportedAlgorithm("x".to_owned()))))
    );
}

#[test]
fn pem_decode_failure_means_no_usable_key() {
    let req = signed_request(r#"{"id":"a"}"#);
    let (state, _) = start(&req);
    let keys = ActorKeys { assertion_method: None, public_key_pem: Some("-----BEGIN".to_owned()) };
    let (state, action) = step(state, InboxEvent::ActorFetched(Ok(keys)), &req);
    assert_eq!(action, InboxAction::DecodeKey(KeyMaterial::Pem("-----BEGIN".to_owned())));
    let (_, action) = step(state, InboxEvent::KeyDecoded(Err(Error::Fetch("bad pem".to_owned()))), &req);
    assert_eq!(
        action,
        InboxAction::Finish(Err(Error::ActorWithoutKey(format!(
            "actor exposes no key matching keyId `{KEY_ID}`"
        ))))
    );
}

#[test]
fn non_post_is_a_policy_violation() {
    let mut req = signed_request(r#"{"id":"a"}"#);
    req.method = "GET".to_owned();
    let (state, _) = start(&req);
    let (state, _) = step(state, InboxEvent::ActorFetched(Ok(multikey_actor())), &req);
    let (_, action) = step(state, InboxEvent::KeyDecoded(Ok(())), &req);
    match action {
        InboxAction::Finish(Err(Error::PolicyViolation { url, reason })) => {
            assert_eq!(url.as_str(), "https://recv.example.com/users/bob/inbox");
            assert_eq!(reason, "inbox accepts POST only, got GET");
        }
        other => panic!("expected a policy violation, got {other:?}"),
    }
}

#[test]
fn method_check_falls_back_to_unknown_url() {
    assert_eq!(check_inbox_method("POST", "/inbox"), Ok(()));
    match check_inbox_method("PUT", "/inbox") {
        Err(Error::PolicyViolation { url, reason }) => {
            assert_eq!(url.as_str(), "https://unknown/");
            assert_eq!(reason, "inbox accepts POST only, got PUT");
        }
        other => panic!("expected a policy violation, got {other:?}"),
    }
}

#[test]
fn body_integrity_prefers_content_digest() {
    let body = b"payload";
    let good = content_digest_header(body);
    assert_eq!(verify_body_integrity(Some("SHA-256=wrong"), Some(&good), body), Ok(()));
    assert_eq!(
        verify_body_integrity(None, Some(&content_digest_header(b"other")), body),
        Err(Error::HttpSig(HttpSigError::DigestMismatch))
    );
}

#[test]
fn legacy_digest_is_compared_ignoring_ascii_case() {
    let body = b"payload";
    let legacy = sha256_digest_header(body);
    assert_eq!(verify_body_integrity(Some(&legacy), None, body), Ok(()));
    let shouted = legacy.replacen("SHA-256", "sha-256", 1);
    assert_eq!(verify_body_integrity(Some(&shouted), None, body), Ok(()));
    assert_eq!(
        verify_body_integrity(Some(&sha256_digest_header(b"x")), None, body),
        Err(Error::HttpSig(HttpSigError::DigestMismatch))
    );
    assert_eq!(
        verify_body_integrity(None, None, body),
        Err(Error::HttpSig(HttpSigError::RequiredHeaderAbsent("digest".to_owned())))
    );
}

#[test]
fn key_id_from_signature_input_or_cavage() {
    let input = r#"sig1=("@method" "@target-uri");created=1704464900;keyid="https://a.example/k""#;
    assert_eq!(extract_key_id(Some(input), None), Ok("https://a.example/k".to_owned()));
    let cavage = r#"keyId="https://b.example/k",headers="host",signature="Zm9v""#;
    assert_eq!(extract_key_id(None, Some(cavage)), Ok("https://b.example/k".to_owned()));
    let no_keyid = r#"sig1=("@method");created=1"#;
    assert_eq!(extract_key_id(Some(no_keyid), Some(cavage)), Ok("https://b.example/k".to_owned()));
    assert_eq!(
        extract_key_id(None, None),
        Err(Error::HttpSig(HttpSigError::RequiredHeaderAbsent("signature".to_owned())))
    );
    assert!(matches!(
        extract_key_id(Some("sig1=(unclosed"), Some(cavage)),
        Err(Error::HttpSig(HttpSigError::InvalidHeader { name: "signature-input", .. }))
    ));
    assert!(matches!(
        extract_key_id(Some("sig1=1"), Some(cavage)),
        Err(Error::HttpSig(HttpSigError::InvalidHeader { name: "signature-input", .. }))
    ));
    assert!(matches!(
        extract_key_id(Some("sig1=();keyid=5"), Some(cavage)),
        Err(Error::HttpSig(HttpSigError::InvalidHeader { name: "signature-input", .. }))
    ));
}

#[test]
fn strip_fragment_drops_anchor_and_preserves_path() {
    let stripped = strip_fragment("https://example.com/users/alice#key").unwrap();
    assert_eq!(stripped.as_str(), "https://example.com/users/alice");
}

#[test]
fn strip_fragment_idempotent_when_no_fragment_present() {
    let stripped = strip_fragment("https://example.com/users/alice").unwrap();
    assert_eq!(stripped.as_str(), "https://example.com/users/alice");
}

#[test]
fn strip_fragment_rejects_non_urls() {
    assert!(matches!(strip_fragment("not a url"), Err(Error::InvalidUrl(_))));
}

#[test]
fn key_selection_order() {
    let keys = ActorKeys {
        assertion_method: Some(vec![
            AssertionMethod::NotObject,
            AssertionMethod::Object { id: Some("other".to_owned()), public_key_multibase: Some("zA".to_owned()) },
            AssertionMethod::Object { id: Some(KEY_ID.to_owned()), public_key_multibase: Some("zB".to_owned()) },
        ]),
        public_key_pem: Some("PEM".to_owned()),
    };
    assert_eq!(select_key(&keys, KEY_ID), Ok(KeyMaterial::Multibase("zB".to_owned())));
    assert_eq!(select_key(&keys, "elsewhere"), Ok(KeyMaterial::Pem("PEM".to_owned())));

    let missing = ActorKeys {
        assertion_method: Some(vec![AssertionMethod::Object { id: Some(KEY_ID.to_owned()), public_key_multibase: None }]),
        public_key_pem: Some("PEM".to_owned()),
    };
    assert_eq!(
        select_key(&missing, KEY_ID),
        Err(Error::ActorWithoutKey(format!("assertionMethod entry `{KEY_ID}` is missing publicKeyMultibase")))
    );
    let anonymous = ActorKeys {
        assertion_method: Some(vec![AssertionMethod::Object { id: None, public_key_multibase: Some("zC".to_owned()) }]),
        public_key_pem: None,
    };
    assert_eq!(select_key(&anonymous, ""), Ok(KeyMaterial::Multibase("zC".to_owned())));
    assert_eq!(
        select_key(&anonymous, KEY_ID),
        Err(Error::ActorWithoutKey(format!("actor exposes no key matching keyId `{KEY_ID}`")))
    );
}

#[test]
fn activity_id_reads_the_string_id() {
    assert_eq!(activity_id(br#"{"id":"https://a/1"}"#), Ok(Some("https://a/1".to_owned())));
    assert_eq!(activity_id(br#"{"id":5}"#), Ok(None));
    assert_eq!(activity_id(br#"[1,2]"#), Ok(None));
    assert!(matches!(activity_id(b"not json"), Err(Error::Json(_))));
}

#[test]
fn handler_failure_is_not_recorded_so_a_retry_is_processed() {
    let req = signed_request(r#"{"id":"https://send.example.com/activities/retry"}"#);
    let mut seen = Vec::new();
    let mut handled = 0;
    let err = run_with(&req, multikey_actor(), &mut seen, &mut handled, Err("busy".to_owned()))
        .unwrap_err();
    assert_eq!(err, Error::HandlerFailed("busy".to_owned()));
    assert!(seen.is_empty());
    let again = run(&req, multikey_actor(), &mut seen, &mut handled).unwrap();
    assert!(matches!(again, InboxOutcome::Accepted { .. }));
    assert_eq!(handled, 2);
}
