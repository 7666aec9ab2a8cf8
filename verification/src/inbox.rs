//! Inbound activity processing.
//!
//! An inbox POST is accepted only after every layer of authenticity has
//! been checked, in this order:
//!
//! 1. body integrity (`Content-Digest:` or the legacy `Digest:`);
//! 2. the signing `keyId`, from an RFC 9421 `Signature-Input:` or a Cavage
//!    `Signature:` header;
//! 3. the signing actor, fetched from the `keyId` without its fragment;
//! 4. the actor's key: a FEP-521a Multikey whose `id` is the `keyId`, or
//!    else its `publicKey.publicKeyPem`;
//! 5. the request method (POST only) and the signature itself;
//! 6. replay protection on the activity `id`.
//!
//! The decisions are verified here; fetching, key decoding, signature
//! checking, the seen-cache and the user's handler are the caller's work,
//! driven by the state machine of [`start`] and [`step`].
use vstd::prelude::*;

use crate::content_digest::{
    alg_key, byte_seq_member, sfv_dictionary_member, spec_sha256, spec_sha512, spec_verify_any,
    SfvMemberView, spec_verify_content_digest, verify_any_content_digest_header,
    DigestAlgorithm,
};
use crate::digest::{sha256_digest_header, spec_sha256_digest_header};
use crate::httpsig::{spec_parse_signature_header, CavageHeaderParams, SIGNATURE_HEADER};
use crate::text::{ascii_lower, chars_of, eq_ignore_ascii_case, push_str, str_eq};
use crate::urls::{
    parse_url_text, parse_url_without_fragment, url_parses, url_serialization, url_without_fragment,
};

verus! {

/// The text of an optional string.
pub open spec fn opt_view(o: Option<String>) -> Option<Seq<char>> {
    match o {
        Some(s) => Some(s@),
        None => None,
    }
}

/// Outcome of processing one inbox POST.
#[derive(Debug, Clone, PartialEq, Eq)]
#[non_exhaustive]
pub enum InboxOutcome {
    /// The activity was verified, handed to the handler and recorded as
    /// seen. `activity_id` is `None` for an activity without an `id`.
    Accepted { activity_id: Option<String> },
    /// The activity `id` was seen before; the handler was not invoked.
    Duplicate { activity_id: String },
}

pub enum InboxOutcomeView {
    Accepted(Option<Seq<char>>),
    Duplicate(Seq<char>),
}

impl View for InboxOutcome {
    type V = InboxOutcomeView;

    open spec fn view(&self) -> InboxOutcomeView {
        match self {
            InboxOutcome::Accepted { activity_id } => InboxOutcomeView::Accepted(
                opt_view(*activity_id),
            ),
            InboxOutcome::Duplicate { activity_id } => InboxOutcomeView::Duplicate(activity_id@),
        }
    }
}

/// Why an inbox POST was refused.
#[derive(Debug, PartialEq, Eq)]
pub enum Error {
    /// Body integrity, signature parsing or signature verification failed.
    HttpSig(crate::httpsig::Error),
    /// The `keyId` is not a URL.
    InvalidUrl(url::ParseError),
    /// The signing actor exposes no usable key.
    ActorWithoutKey(String),
    /// The request breaks the inbox policy; `url` is the serialisation of
    /// the URL it is reported against.
    PolicyViolation { url: String, reason: String },
    /// The body is not JSON.
    Json(String),
    /// The signing actor could not be fetched.
    Fetch(String),
    /// The user's handler refused the activity.
    HandlerFailed(String),
}

pub enum ErrorView {
    HttpSig(crate::httpsig::ErrorView),
    InvalidUrl,
    ActorWithoutKey(Seq<char>),
    PolicyViolation(Seq<char>, Seq<char>),
    Json(Seq<char>),
    Fetch(Seq<char>),
    HandlerFailed(Seq<char>),
}

impl View for Error {
    type V = ErrorView;

    open spec fn view(&self) -> ErrorView {
        match self {
            Error::HttpSig(e) => ErrorView::HttpSig(e@),
            Error::InvalidUrl(_) => ErrorView::InvalidUrl,
            Error::ActorWithoutKey(m) => ErrorView::ActorWithoutKey(m@),
            Error::PolicyViolation { url, reason } => ErrorView::PolicyViolation(url@, reason@),
            Error::Json(m) => ErrorView::Json(m@),
            Error::Fetch(m) => ErrorView::Fetch(m@),
            Error::HandlerFailed(m) => ErrorView::HandlerFailed(m@),
        }
    }
}

pub open spec fn unit_view(r: Result<(), Error>) -> Result<(), ErrorView> {
    match r {
        Ok(()) => Ok(()),
        Err(e) => Err(e@),
    }
}

pub open spec fn string_view(r: Result<String, Error>) -> Result<Seq<char>, ErrorView> {
    match r {
        Ok(s) => Ok(s@),
        Err(e) => Err(e@),
    }
}

// ---------------------------------------------------------------------------
// Body integrity
// ---------------------------------------------------------------------------

/// The digest algorithms a `Content-Digest:` entry may use, in the order
/// they are tried.
pub open spec fn inbox_digest_algorithms() -> Seq<DigestAlgorithm> {
    seq![DigestAlgorithm::Sha256, DigestAlgorithm::Sha512]
}

/// What [`verify_body_integrity`] returns: `Content-Digest:` decides when
/// present (sha-256 or sha-512); otherwise the legacy `Digest:` must equal,
/// ASCII case aside, the `SHA-256=<base64>` of the body; a request with
/// neither is refused.
pub open spec fn spec_body_integrity(
    digest: Option<Seq<char>>,
    content_digest: Option<Seq<char>>,
    body: Seq<u8>,
) -> Result<(), ErrorView> {
    match content_digest {
        Some(cd) => match spec_verify_any(cd, body, inbox_digest_algorithms()) {
            Ok(()) => Ok(()),
            Err(e) => Err(ErrorView::HttpSig(e)),
        },
        None => match digest {
            Some(d) => if ascii_lower(d) == ascii_lower(spec_sha256_digest_header(body)) {
                Ok(())
            } else {
                Err(ErrorView::HttpSig(crate::httpsig::ErrorView::DigestMismatch))
            },
            None => Err(ErrorView::HttpSig(crate::httpsig::ErrorView::RequiredHeaderAbsent("digest"@))),
        },
    }
}

/// Checks the body against its `Content-Digest:` (preferred) or legacy
/// `Digest:` header value.
pub fn verify_body_integrity(digest: Option<&str>, content_digest: Option<&str>, body: &[u8]) -> (r:
    Result<(), Error>)
    ensures
        unit_view(r) == spec_body_integrity(
            match digest {
                Some(d) => Some(d@),
                None => None,
            },
            match content_digest {
                Some(c) => Some(c@),
                None => None,
            },
            body@,
        ),
{
    match content_digest {
        Some(cd) => {
            let algs = vec![DigestAlgorithm::Sha256, DigestAlgorithm::Sha512];
            proof {
                assert(algs@ =~= inbox_digest_algorithms());
            }
            match verify_any_content_digest_header(cd, body, algs.as_slice()) {
                Ok(()) => Ok(()),
                Err(e) => Err(Error::HttpSig(e)),
            }
        },
        None => match digest {
            Some(d) => {
                let expected = sha256_digest_header(body);
                if eq_ignore_ascii_case(d, expected.as_str()) {
                    Ok(())
                } else {
                    Err(Error::HttpSig(crate::httpsig::Error::DigestMismatch))
                }
            },
            None => Err(
                Error::HttpSig(crate::httpsig::Error::RequiredHeaderAbsent("digest".to_owned())),
            ),
        },
    }
}

/// A body passes the integrity check with a `Content-Digest:` that verifies
/// against it (such as the one [`crate::content_digest::content_digest_header`]
/// emits), whatever `Digest:` says; and, without `Content-Digest:`, with the
/// legacy `Digest:` that [`sha256_digest_header`] emits.
pub proof fn lemma_emitted_digests_pass(digest: Option<Seq<char>>, header: Seq<char>, body: Seq<u8>)
    ensures
        spec_verify_content_digest(header, body) is Ok ==> spec_body_integrity(
            digest,
            Some(header),
            body,
        ) is Ok,
        spec_body_integrity(Some(spec_sha256_digest_header(body)), None, body) is Ok,
{
    reveal_strlit("sha-256");
    assert(alg_key(inbox_digest_algorithms()[0]) == "sha-256"@);
}

/// A `Content-Digest:` passes body integrity when its sha-256 member is the
/// SHA-256 digest of the body, and also when it has no sha-256 member but
/// its sha-512 member is the SHA-512 digest of the body; a sha-256 member
/// that is another byte sequence is a mismatch. The legacy `Digest:` plays
/// no part once `Content-Digest:` is present.
pub proof fn lemma_content_digest_algorithms(d: Option<Seq<char>>, cd: Seq<char>, body: Seq<u8>)
    ensures
        sfv_dictionary_member(cd, "sha-256"@) == byte_seq_member(spec_sha256(body)) ==> spec_body_integrity(
            d,
            Some(cd),
            body,
        ) is Ok,
        (sfv_dictionary_member(cd, "sha-256"@) matches Ok(None) && sfv_dictionary_member(
            cd,
            "sha-512"@,
        ) == byte_seq_member(spec_sha512(body))) ==> spec_body_integrity(d, Some(cd), body) is Ok,
        (sfv_dictionary_member(cd, "sha-256"@) matches Ok(Some(SfvMemberView::ByteSeq(b))) && b
            != spec_sha256(body)) ==> spec_body_integrity(d, Some(cd), body) == integrity_refused(
            crate::httpsig::ErrorView::DigestMismatch,
        ),
        (sfv_dictionary_member(cd, "sha-256"@) matches Ok(None) && sfv_dictionary_member(
            cd,
            "sha-512"@,
        ) matches Ok(None)) ==> spec_body_integrity(d, Some(cd), body) is Err,
{
    reveal_strlit("sha-256");
    reveal_strlit("sha-512");
    let algs = inbox_digest_algorithms();
    assert(alg_key(algs[0]) == "sha-256"@);
    assert(algs.drop_first() =~= seq![DigestAlgorithm::Sha512]);
    assert(alg_key(algs.drop_first()[0]) == "sha-512"@);
    assert(algs.drop_first().drop_first() =~= Seq::<DigestAlgorithm>::empty());
    reveal_with_fuel(spec_verify_any, 3);
}

/// A body-integrity refusal with `e`.
pub open spec fn integrity_refused(e: crate::httpsig::ErrorView) -> Result<(), ErrorView> {
    Err(ErrorView::HttpSig(e))
}

// ---------------------------------------------------------------------------
// The signing key id
// ---------------------------------------------------------------------------

/// A parameter of a `Signature-Input:` member, as far as it is read.
#[derive(Debug, Clone, PartialEq, Eq)]
pub enum KeyIdParam {
    /// A structured-field string.
    Str(String),
    /// A value of another type.
    Other,
}

/// A member of a `Signature-Input:` dictionary.
#[derive(Debug, Clone, PartialEq, Eq)]
pub enum SignatureInputMember {
    /// An inner list, with the parameter that was asked for, if it has it.
    InnerList(Option<KeyIdParam>),
    /// A bare item, which is not a valid signature input.
    Item,
}

pub enum KeyIdParamView {
    Str(Seq<char>),
    Other,
}

pub enum SignatureInputMemberView {
    InnerList(Option<KeyIdParamView>),
    Item,
}

impl View for SignatureInputMember {
    type V = SignatureInputMemberView;

    open spec fn view(&self) -> SignatureInputMemberView {
        match self {
            SignatureInputMember::InnerList(None) => SignatureInputMemberView::InnerList(None),
            SignatureInputMember::InnerList(Some(KeyIdParam::Str(s))) => {
                SignatureInputMemberView::InnerList(Some(KeyIdParamView::Str(s@)))
            },
            SignatureInputMember::InnerList(Some(KeyIdParam::Other)) => {
                SignatureInputMemberView::InnerList(Some(KeyIdParamView::Other))
            },
            SignatureInputMember::Item => SignatureInputMemberView::Item,
        }
    }
}

pub open spec fn first_member_view(r: Result<Option<SignatureInputMember>, String>) -> Result<
    Option<SignatureInputMemberView>,
    Seq<char>,
> {
    match r {
        Ok(Some(m)) => Ok(Some(m@)),
        Ok(None) => Ok(None),
        Err(e) => Err(e@),
    }
}

pub open spec fn members_view(r: Result<Vec<SignatureInputMember>, String>) -> Result<
    Seq<SignatureInputMemberView>,
    Seq<char>,
> {
    match r {
        Ok(ms) => Ok(ms@.map_values(|m: SignatureInputMember| m@)),
        Err(e) => Err(e@),
    }
}

/// What `sfv` makes of the structured-field dictionary `input`: the parse
/// error's text, or its members in order, each with its parameter `param`.
pub uninterp spec fn sfv_dictionary_members(input: Seq<char>, param: Seq<char>) -> Result<
    Seq<SignatureInputMemberView>,
    Seq<char>,
>;

/// `sfv::Parser::parse_dictionary` on the bytes of `input`; its members in
/// the order `sfv` keeps them, each with the parameter named `param` of an
/// inner list. The outcome is only named: it is a function of the two texts.
#[verifier::external_body]
fn sfv_members_with_param(input: &str, param: &str) -> (r: Result<Vec<SignatureInputMember>, String>)
    ensures
        members_view(r) == sfv_dictionary_members(input@, param@),
{
    let dict = sfv::Parser::parse_dictionary(input.as_bytes()).map_err(|e| e.to_owned())?;
    Ok(
        dict.values().map(|entry| match entry {
            sfv::ListEntry::Item(_) => SignatureInputMember::Item,
            sfv::ListEntry::InnerList(list) => SignatureInputMember::InnerList(
                match list.params.get(param) {
                    None => None,
                    Some(sfv::BareItem::String(s)) => Some(KeyIdParam::Str(s.clone())),
                    Some(_) => Some(KeyIdParam::Other),
                },
            ),
        }).collect(),
    )
}

/// What the `Signature-Input:` value `input` holds for the key id: the
/// parse error's text, no member, or its first member with its `keyid`.
pub open spec fn sfv_signature_input_first(input: Seq<char>) -> Result<
    Option<SignatureInputMemberView>,
    Seq<char>,
> {
    match sfv_dictionary_members(input, "keyid"@) {
        Err(e) => Err(e),
        Ok(ms) => Ok(
            if ms.len() > 0 {
                Some(ms[0])
            } else {
                None
            },
        ),
    }
}

/// The first member of the `Signature-Input:` value `input`, with its
/// `keyid` parameter.
fn signature_input_first(input: &str) -> (r: Result<Option<SignatureInputMember>, String>)
    ensures
        first_member_view(r) == sfv_signature_input_first(input@),
{
    match sfv_members_with_param(input, "keyid") {
        Err(e) => Err(e),
        Ok(ms) => {
            let mut ms = ms;
            if ms.len() > 0 {
                let ghost before = ms@;
                let m = ms.remove(0);
                assert(m@ == before.map_values(|x: SignatureInputMember| x@)[0]);
                Ok(Some(m))
            } else {
                Ok(None)
            }
        },
    }
}

/// What the Cavage `Signature:` header yields: its `keyId`, or why not.
pub open spec fn spec_cavage_key_id(signature: Option<Seq<char>>) -> Result<Seq<char>, ErrorView> {
    match signature {
        None => Err(ErrorView::HttpSig(crate::httpsig::ErrorView::RequiredHeaderAbsent("signature"@))),
        Some(raw) => match spec_parse_signature_header(raw) {
            Ok(p) => Ok(p.key_id),
            Err(e) => Err(ErrorView::HttpSig(e)),
        },
    }
}

/// What [`extract_key_id`] returns. A `Signature-Input:` header is read
/// first: a parse failure, a first member that is not an inner list, or a
/// `keyid` that is not a string refuses the request; a string `keyid` is
/// the answer. Without one, the Cavage `Signature:` header decides.
pub open spec fn spec_extract_key_id(
    signature_input: Option<Seq<char>>,
    signature: Option<Seq<char>>,
) -> Result<Seq<char>, ErrorView> {
    match signature_input {
        None => spec_cavage_key_id(signature),
        Some(input) => match sfv_signature_input_first(input) {
            Err(reason) => Err(
                ErrorView::HttpSig(
                    crate::httpsig::ErrorView::InvalidHeader("signature-input"@, reason),
                ),
            ),
            Ok(Some(SignatureInputMemberView::Item)) => Err(
                ErrorView::HttpSig(
                    crate::httpsig::ErrorView::InvalidHeader(
                        "signature-input"@,
                        "signature-input member must be an inner list"@,
                    ),
                ),
            ),
            Ok(Some(SignatureInputMemberView::InnerList(Some(KeyIdParamView::Other)))) => Err(
                ErrorView::HttpSig(
                    crate::httpsig::ErrorView::InvalidHeader(
                        "signature-input"@,
                        "keyid parameter must be a string"@,
                    ),
                ),
            ),
            Ok(Some(SignatureInputMemberView::InnerList(Some(KeyIdParamView::Str(k))))) => Ok(k),
            _ => spec_cavage_key_id(signature),
        },
    }
}

fn cavage_key_id(signature: Option<&str>) -> (r: Result<String, Error>)
    ensures
        string_view(r) == spec_cavage_key_id(
            match signature {
                Some(s) => Some(s@),
                None => None,
            },
        ),
{
    match signature {
        None => Err(
            Error::HttpSig(
                crate::httpsig::Error::RequiredHeaderAbsent(SIGNATURE_HEADER.to_owned()),
            ),
        ),
        Some(raw) => match CavageHeaderParams::parse(raw) {
            Ok(p) => Ok(p.key_id),
            Err(e) => Err(Error::HttpSig(e)),
        },
    }
}

/// The signing key id of a request, from its `Signature-Input:` and
/// `Signature:` header values.
pub fn extract_key_id(signature_input: Option<&str>, signature: Option<&str>) -> (r: Result<
    String,
    Error,
>)
    ensures
        string_view(r) == spec_extract_key_id(
            match signature_input {
                Some(s) => Some(s@),
                None => None,
            },
            match signature {
                Some(s) => Some(s@),
                None => None,
            },
        ),
{
    match signature_input {
        None => cavage_key_id(signature),
        Some(input) => match signature_input_first(input) {
            Err(reason) => Err(
                Error::HttpSig(
                    crate::httpsig::Error::InvalidHeader { name: "signature-input", reason },
                ),
            ),
            Ok(Some(SignatureInputMember::Item)) => Err(
                Error::HttpSig(
                    crate::httpsig::Error::InvalidHeader {
                        name: "signature-input",
                        reason: "signature-input member must be an inner list".to_owned(),
                    },
                ),
            ),
            Ok(Some(SignatureInputMember::InnerList(Some(KeyIdParam::Other)))) => Err(
                Error::HttpSig(
                    crate::httpsig::Error::InvalidHeader {
                        name: "signature-input",
                        reason: "keyid parameter must be a string".to_owned(),
                    },
                ),
            ),
            Ok(Some(SignatureInputMember::InnerList(Some(KeyIdParam::Str(k))))) => Ok(k),
            _ => cavage_key_id(signature),
        },
    }
}

/// Parses the key id as a URL and drops its fragment: the URL of the
/// signing actor, as its serialisation.
pub fn strip_fragment(key_id: &str) -> (r: Result<String, Error>)
    ensures
        r is Ok <==> url_parses(key_id@),
        r matches Ok(t) ==> t@ == url_without_fragment(key_id@),
        r matches Err(e) ==> e is InvalidUrl,
{
    match parse_url_without_fragment(key_id) {
        Ok(u) => Ok(u),
        Err(e) => Err(Error::InvalidUrl(e)),
    }
}

// ---------------------------------------------------------------------------
// The signing key
// ---------------------------------------------------------------------------

/// An `assertionMethod` entry of an actor document.
#[derive(Debug, Clone, PartialEq, Eq)]
pub enum AssertionMethod {
    /// An entry that is not a JSON object.
    NotObject,
    /// A JSON object: its `id` and its `publicKeyMultibase`, each where it
    /// is a string.
    Object { id: Option<String>, public_key_multibase: Option<String> },
}

/// What key selection reads of the signing actor's document.
#[derive(Debug, Clone, PartialEq, Eq)]
pub struct ActorKeys {
    /// `assertionMethod`, where it is an array.
    pub assertion_method: Option<Vec<AssertionMethod>>,
    /// `publicKey.publicKeyPem`, where it is a string.
    pub public_key_pem: Option<String>,
}

/// The key text chosen for the signature check.
#[derive(Debug, Clone, PartialEq, Eq)]
pub enum KeyMaterial {
    /// A FEP-521a `publicKeyMultibase` (Ed25519).
    Multibase(String),
    /// A `publicKeyPem` (RSA, sometimes Ed25519).
    Pem(String),
}

pub enum AssertionMethodView {
    NotObject,
    Object(Option<Seq<char>>, Option<Seq<char>>),
}

pub struct ActorKeysView {
    pub assertion_method: Option<Seq<AssertionMethodView>>,
    pub public_key_pem: Option<Seq<char>>,
}

pub enum KeyMaterialView {
    Multibase(Seq<char>),
    Pem(Seq<char>),
}

impl View for AssertionMethod {
    type V = AssertionMethodView;

    open spec fn view(&self) -> AssertionMethodView {
        match self {
            AssertionMethod::NotObject => AssertionMethodView::NotObject,
            AssertionMethod::Object { id, public_key_multibase } => AssertionMethodView::Object(
                opt_view(*id),
                opt_view(*public_key_multibase),
            ),
        }
    }
}

impl View for ActorKeys {
    type V = ActorKeysView;

    open spec fn view(&self) -> ActorKeysView {
        ActorKeysView {
            assertion_method: match &self.assertion_method {
                Some(v) => Some(v@.map_values(|m: AssertionMethod| m@)),
                None => None,
            },
            public_key_pem: opt_view(self.public_key_pem),
        }
    }
}

impl View for KeyMaterial {
    type V = KeyMaterialView;

    open spec fn view(&self) -> KeyMaterialView {
        match self {
            KeyMaterial::Multibase(m) => KeyMaterialView::Multibase(m@),
            KeyMaterial::Pem(p) => KeyMaterialView::Pem(p@),
        }
    }
}

pub open spec fn material_view(r: Result<KeyMaterial, Error>) -> Result<KeyMaterialView, ErrorView> {
    match r {
        Ok(m) => Ok(m@),
        Err(e) => Err(e@),
    }
}

fn copy_material(m: &KeyMaterial) -> (r: KeyMaterial)
    ensures
        r@ == m@,
{
    match m {
        KeyMaterial::Multibase(s) => KeyMaterial::Multibase(s.clone()),
        KeyMaterial::Pem(s) => KeyMaterial::Pem(s.clone()),
    }
}

/// Whether an `assertionMethod` entry is an object whose `id` (the empty
/// text where it has none) is `key_id`.
pub open spec fn entry_matches(e: AssertionMethodView, key_id: Seq<char>) -> bool {
    match e {
        AssertionMethodView::NotObject => false,
        AssertionMethodView::Object(id, _) => match id {
            Some(i) => i == key_id,
            None => key_id.len() == 0,
        },
    }
}

/// The index of the first entry from `i` on that matches `key_id`, or the
/// length where none does.
pub open spec fn first_match_from(es: Seq<AssertionMethodView>, key_id: Seq<char>, i: int) -> int
    decreases es.len() - i,
{
    if i < 0 || i >= es.len() {
        es.len() as int
    } else if entry_matches(es[i], key_id) {
        i
    } else {
        first_match_from(es, key_id, i + 1)
    }
}

/// The refusal when the actor has no usable key.
pub open spec fn no_key_message(key_id: Seq<char>) -> Seq<char> {
    "actor exposes no key matching keyId `"@ + key_id + "`"@
}

/// What [`select_key`] returns: the first `assertionMethod` object whose
/// `id` is the key id decides (its `publicKeyMultibase`, or a refusal
/// where it has none); without one, `publicKey.publicKeyPem`; without that,
/// a refusal.
pub open spec fn spec_select_key(keys: ActorKeysView, key_id: Seq<char>) -> Result<
    KeyMaterialView,
    ErrorView,
> {
    let pem = match keys.public_key_pem {
        Some(p) => Ok(KeyMaterialView::Pem(p)),
        None => Err(ErrorView::ActorWithoutKey(no_key_message(key_id))),
    };
    match keys.assertion_method {
        None => pem,
        Some(es) => {
            let i = first_match_from(es, key_id, 0);
            if i < es.len() {
                match es[i] {
                    AssertionMethodView::Object(_, Some(m)) => Ok(KeyMaterialView::Multibase(m)),
                    _ => Err(
                        ErrorView::ActorWithoutKey(
                            "assertionMethod entry `"@ + key_id
                                + "` is missing publicKeyMultibase"@,
                        ),
                    ),
                }
            } else {
                pem
            }
        },
    }
}

fn concat3(a: &str, b: &str, c: &str) -> (r: String)
    ensures
        r@ == a@ + b@ + c@,
{
    let mut r = String::new();
    push_str(&mut r, a);
    push_str(&mut r, b);
    push_str(&mut r, c);
    proof {
        assert(r@ =~= a@ + b@ + c@);
    }
    r
}

fn entry_matches_exec(e: &AssertionMethod, key_id: &str) -> (b: bool)
    ensures
        b == entry_matches(e@, key_id@),
{
    match e {
        AssertionMethod::NotObject => false,
        AssertionMethod::Object { id, .. } => match id {
            Some(i) => str_eq(i.as_str(), key_id),
            None => chars_of(key_id).len() == 0,
        },
    }
}

proof fn lemma_first_match_skip(es: Seq<AssertionMethodView>, key_id: Seq<char>, i: int)
    requires
        0 <= i < es.len(),
        !entry_matches(es[i], key_id),
    ensures
        first_match_from(es, key_id, i) == first_match_from(es, key_id, i + 1),
{
}

/// Chooses the key text of the signing actor for `key_id`.
pub fn select_key(keys: &ActorKeys, key_id: &str) -> (r: Result<KeyMaterial, Error>)
    ensures
        material_view(r) == spec_select_key(keys@, key_id@),
{
    if let Some(es) = &keys.assertion_method {
        let ghost ev = es@.map_values(|m: AssertionMethod| m@);
        let mut i: usize = 0;
        while i < es.len()
            invariant
                0 <= i <= es@.len(),
                ev == es@.map_values(|m: AssertionMethod| m@),
                keys@.assertion_method == Some(ev),
                first_match_from(ev, key_id@, 0) == first_match_from(ev, key_id@, i as int),
            decreases es@.len() - i,
        {
            if entry_matches_exec(&es[i], key_id) {
                proof {
                    assert(first_match_from(ev, key_id@, i as int) == i);
                    assert(ev[i as int] == es@[i as int]@);
                    assert(first_match_from(ev, key_id@, 0) == i);
                }
                return match &es[i] {
                    AssertionMethod::Object { public_key_multibase: Some(m), .. } => Ok(
                        KeyMaterial::Multibase(m.clone()),
                    ),
                    _ => Err(
                        Error::ActorWithoutKey(
                            concat3(
                                "assertionMethod entry `",
                                key_id,
                                "` is missing publicKeyMultibase",
                            ),
                        ),
                    ),
                };
            }
            proof {
                lemma_first_match_skip(ev, key_id@, i as int);
            }
            i = i + 1;
        }
    }
    match &keys.public_key_pem {
        Some(p) => Ok(KeyMaterial::Pem(p.clone())),
        None => Err(
            Error::ActorWithoutKey(concat3("actor exposes no key matching keyId `", key_id, "`")),
        ),
    }
}

/// The refusal of a request with another method than POST.
pub open spec fn method_message(method: Seq<char>) -> Seq<char> {
    "inbox accepts POST only, got "@ + method
}

/// What [`check_inbox_method`] returns: POST passes; any other method is a
/// policy violation reported against the request URI (or, where that is
/// not a URL, against `https://unknown/`).
pub open spec fn spec_check_method(method: Seq<char>, uri: Seq<char>) -> Result<(), ErrorView> {
    if method == "POST"@ {
        Ok(())
    } else if url_parses(uri) {
        Err(ErrorView::PolicyViolation(url_serialization(uri), method_message(method)))
    } else if url_parses("https://unknown/"@) {
        Err(
            ErrorView::PolicyViolation(
                url_serialization("https://unknown/"@),
                method_message(method),
            ),
        )
    } else {
        Err(ErrorView::InvalidUrl)
    }
}

/// The inbox accepts POST only.
pub fn check_inbox_method(method: &str, uri: &str) -> (r: Result<(), Error>)
    ensures
        unit_view(r) == spec_check_method(method@, uri@),
{
    proof {
        reveal_strlit("POST");
    }
    if str_eq(method, "POST") {
        return Ok(());
    }
    let reason = concat3("inbox accepts POST only, got ", method, "");
    proof {
        reveal_strlit("");
        assert(reason@ =~= method_message(method@));
    }
    match parse_url_text(uri) {
        Ok(url) => Err(Error::PolicyViolation { url, reason }),
        Err(_) => match parse_url_text("https://unknown/") {
            Ok(url) => Err(Error::PolicyViolation { url, reason }),
            Err(e) => Err(Error::InvalidUrl(e)),
        },
    }
}

// ---------------------------------------------------------------------------
// The activity id
// ---------------------------------------------------------------------------

pub open spec fn opt_string_view(r: Result<Option<String>, String>) -> Result<
    Option<Seq<char>>,
    Seq<char>,
> {
    match r {
        Ok(Some(s)) => Ok(Some(s@)),
        Ok(None) => Ok(None),
        Err(e) => Err(e@),
    }
}

/// What `serde_json` makes of `body`: the parse error's text, or the string
/// member `key` of the document where there is one.
pub uninterp spec fn json_string_member(body: Seq<u8>, key: Seq<char>) -> Result<
    Option<Seq<char>>,
    Seq<char>,
>;

/// `serde_json::from_slice::<Value>` on `body`, then `Value::get(key)` and
/// `Value::as_str`. The outcome is only named: it is a function of the
/// bytes and the key.
#[verifier::external_body]
fn json_body_string_member(body: &[u8], key: &str) -> (r: Result<Option<String>, String>)
    ensures
        opt_string_view(r) == json_string_member(body@, key@),
{
    match serde_json::from_slice::<serde_json::Value>(body) {
        Err(e) => Err(e.to_string()),
        Ok(v) => Ok(v.get(key).and_then(serde_json::Value::as_str).map(str::to_owned)),
    }
}

/// What [`activity_id`] returns.
pub open spec fn spec_activity_id(body: Seq<u8>) -> Result<Option<Seq<char>>, ErrorView> {
    match json_string_member(body, "id"@) {
        Err(m) => Err(ErrorView::Json(m)),
        Ok(id) => Ok(id),
    }
}

pub open spec fn id_view(r: Result<Option<String>, Error>) -> Result<Option<Seq<char>>, ErrorView> {
    match r {
        Ok(Some(s)) => Ok(Some(s@)),
        Ok(None) => Ok(None),
        Err(e) => Err(e@),
    }
}

/// The `id` of the activity in `body`, where it is a string.
///
/// # Errors
///
/// [`Error::Json`] where the body is not JSON.
pub fn activity_id(body: &[u8]) -> (r: Result<Option<String>, Error>)
    ensures
        id_view(r) == spec_activity_id(body@),
{
    match json_body_string_member(body, "id") {
        Err(m) => Err(Error::Json(m)),
        Ok(id) => Ok(id),
    }
}

// ---------------------------------------------------------------------------
// The processing state machine
// ---------------------------------------------------------------------------

/// What the inbox reads of a POST: its method and URI, the digest and
/// signature header values (where present and valid text), and the body.
#[derive(Debug, Clone, PartialEq, Eq)]
pub struct InboxRequest {
    pub method: String,
    pub uri: String,
    pub digest: Option<String>,
    pub content_digest: Option<String>,
    pub signature_input: Option<String>,
    pub signature: Option<String>,
    pub body: Vec<u8>,
}

pub struct InboxRequestView {
    pub method: Seq<char>,
    pub uri: Seq<char>,
    pub digest: Option<Seq<char>>,
    pub content_digest: Option<Seq<char>>,
    pub signature_input: Option<Seq<char>>,
    pub signature: Option<Seq<char>>,
    pub body: Seq<u8>,
}

impl View for InboxRequest {
    type V = InboxRequestView;

    open spec fn view(&self) -> InboxRequestView {
        InboxRequestView {
            method: self.method@,
            uri: self.uri@,
            digest: opt_view(self.digest),
            content_digest: opt_view(self.content_digest),
            signature_input: opt_view(self.signature_input),
            signature: opt_view(self.signature),
            body: self.body@,
        }
    }
}

/// Where the processing of one POST stands.
#[derive(Debug, PartialEq, Eq)]
pub enum InboxState {
    /// The signing actor is being fetched.
    AwaitingActor { key_id: String },
    /// The chosen key text is being decoded.
    AwaitingKey { key_id: String, material: KeyMaterial },
    /// The signature is being checked with the decoded key.
    AwaitingSignature,
    /// The seen-cache is being asked about the activity id.
    AwaitingSeen { activity_id: String },
    /// The user's handler is running.
    AwaitingHandler { activity_id: Option<String> },
    /// The activity id is being recorded as seen.
    AwaitingRecord { activity_id: String },
    /// Processing is over.
    Finished,
}

/// What the caller is to do next.
#[derive(Debug, PartialEq, Eq)]
pub enum InboxAction {
    /// Fetch the actor document at this URL (its serialisation) and report
    /// what its keys are.
    FetchActor(String),
    /// Decode this key text into a verifying key.
    DecodeKey(KeyMaterial),
    /// Check the request's signature with the decoded key.
    VerifySignature,
    /// Report whether this activity id was seen before.
    CheckSeen(String),
    /// Hand the activity and the signing actor to the user's handler.
    InvokeHandler,
    /// Record this activity id as seen.
    RecordSeen(String),
    /// Processing is over, with this result.
    Finish(Result<InboxOutcome, Error>),
}

/// What the caller reports back.
#[derive(Debug, PartialEq, Eq)]
pub enum InboxEvent {
    ActorFetched(Result<ActorKeys, Error>),
    KeyDecoded(Result<(), Error>),
    SignatureChecked(Result<(), Error>),
    SeenChecked(bool),
    Handled(Result<(), String>),
    Recorded,
}

pub enum InboxStateView {
    AwaitingActor(Seq<char>),
    AwaitingKey(Seq<char>, KeyMaterialView),
    AwaitingSignature,
    AwaitingSeen(Seq<char>),
    AwaitingHandler(Option<Seq<char>>),
    AwaitingRecord(Seq<char>),
    Finished,
}

pub enum InboxActionView {
    FetchActor(Seq<char>),
    DecodeKey(KeyMaterialView),
    VerifySignature,
    CheckSeen(Seq<char>),
    InvokeHandler,
    RecordSeen(Seq<char>),
    Finish(Result<InboxOutcomeView, ErrorView>),
}

pub enum InboxEventView {
    ActorFetched(Result<ActorKeysView, ErrorView>),
    KeyDecoded(Result<(), ErrorView>),
    SignatureChecked(Result<(), ErrorView>),
    SeenChecked(bool),
    Handled(Result<(), Seq<char>>),
    Recorded,
}

impl View for InboxState {
    type V = InboxStateView;

    open spec fn view(&self) -> InboxStateView {
        match self {
            InboxState::AwaitingActor { key_id } => InboxStateView::AwaitingActor(key_id@),
            InboxState::AwaitingKey { key_id, material } => InboxStateView::AwaitingKey(
                key_id@,
                material@,
            ),
            InboxState::AwaitingSignature => InboxStateView::AwaitingSignature,
            InboxState::AwaitingSeen { activity_id } => InboxStateView::AwaitingSeen(
                activity_id@,
            ),
            InboxState::AwaitingHandler { activity_id } => InboxStateView::AwaitingHandler(
                opt_view(*activity_id),
            ),
            InboxState::AwaitingRecord { activity_id } => InboxStateView::AwaitingRecord(
                activity_id@,
            ),
            InboxState::Finished => InboxStateView::Finished,
        }
    }
}

pub open spec fn outcome_view(r: Result<InboxOutcome, Error>) -> Result<InboxOutcomeView, ErrorView> {
    match r {
        Ok(o) => Ok(o@),
        Err(e) => Err(e@),
    }
}

impl View for InboxAction {
    type V = InboxActionView;

    open spec fn view(&self) -> InboxActionView {
        match self {
            InboxAction::FetchActor(u) => InboxActionView::FetchActor(u@),
            InboxAction::DecodeKey(m) => InboxActionView::DecodeKey(m@),
            InboxAction::VerifySignature => InboxActionView::VerifySignature,
            InboxAction::CheckSeen(id) => InboxActionView::CheckSeen(id@),
            InboxAction::InvokeHandler => InboxActionView::InvokeHandler,
            InboxAction::RecordSeen(id) => InboxActionView::RecordSeen(id@),
            InboxAction::Finish(r) => InboxActionView::Finish(outcome_view(*r)),
        }
    }
}

impl View for InboxEvent {
    type V = InboxEventView;

    open spec fn view(&self) -> InboxEventView {
        match self {
            InboxEvent::ActorFetched(r) => InboxEventView::ActorFetched(
                match r {
                    Ok(k) => Ok(k@),
                    Err(e) => Err(e@),
                },
            ),
            InboxEvent::KeyDecoded(r) => InboxEventView::KeyDecoded(unit_view(*r)),
            InboxEvent::SignatureChecked(r) => InboxEventView::SignatureChecked(unit_view(*r)),
            InboxEvent::SeenChecked(b) => InboxEventView::SeenChecked(*b),
            InboxEvent::Handled(r) => InboxEventView::Handled(
                match r {
                    Ok(()) => Ok(()),
                    Err(m) => Err(m@),
                },
            ),
            InboxEvent::Recorded => InboxEventView::Recorded,
        }
    }
}

/// The state and action after a refusal.
pub open spec fn refused(e: ErrorView) -> (InboxStateView, InboxActionView) {
    (InboxStateView::Finished, InboxActionView::Finish(Err(e)))
}

/// How processing starts: body integrity, then the key id, then the URL of
/// the signing actor to fetch: the key id's URL without its fragment.
pub open spec fn spec_start(req: InboxRequestView) -> (InboxStateView, InboxActionView) {
    match spec_body_integrity(req.digest, req.content_digest, req.body) {
        Err(e) => refused(e),
        Ok(()) => match spec_extract_key_id(req.signature_input, req.signature) {
            Err(e) => refused(e),
            Ok(k) => if url_parses(k) {
                (InboxStateView::AwaitingActor(k), InboxActionView::FetchActor(url_without_fragment(k)))
            } else {
                refused(ErrorView::InvalidUrl)
            },
        },
    }
}

/// One step of processing: the next state and action after `e` in state
/// `s`, or `None` where `e` does not answer the action that `s` awaits.
pub open spec fn spec_step(s: InboxStateView, e: InboxEventView, req: InboxRequestView) -> Option<
    (InboxStateView, InboxActionView),
> {
    match s {
        InboxStateView::AwaitingActor(k) => match e {
            InboxEventView::ActorFetched(Err(err)) => Some(refused(err)),
            InboxEventView::ActorFetched(Ok(keys)) => Some(
                match spec_select_key(keys, k) {
                    Err(err) => refused(err),
                    Ok(m) => (InboxStateView::AwaitingKey(k, m), InboxActionView::DecodeKey(m)),
                },
            ),
            _ => None,
        },
        InboxStateView::AwaitingKey(k, m) => match e {
            InboxEventView::KeyDecoded(Err(err)) => Some(
                match m {
                    KeyMaterialView::Multibase(_) => refused(err),
                    KeyMaterialView::Pem(_) => refused(ErrorView::ActorWithoutKey(no_key_message(k))),
                },
            ),
            InboxEventView::KeyDecoded(Ok(())) => Some(
                match spec_check_method(req.method, req.uri) {
                    Err(err) => refused(err),
                    Ok(()) => (InboxStateView::AwaitingSignature, InboxActionView::VerifySignature),
                },
            ),
            _ => None,
        },
        InboxStateView::AwaitingSignature => match e {
            InboxEventView::SignatureChecked(Err(err)) => Some(refused(err)),
            InboxEventView::SignatureChecked(Ok(())) => Some(
                match spec_activity_id(req.body) {
                    Err(err) => refused(err),
                    Ok(Some(id)) => (InboxStateView::AwaitingSeen(id), InboxActionView::CheckSeen(id)),
                    Ok(None) => (InboxStateView::AwaitingHandler(None), InboxActionView::InvokeHandler),
                },
            ),
            _ => None,
        },
        InboxStateView::AwaitingSeen(id) => match e {
            InboxEventView::SeenChecked(true) => Some(
                (
                    InboxStateView::Finished,
                    InboxActionView::Finish(Ok(InboxOutcomeView::Duplicate(id))),
                ),
            ),
            InboxEventView::SeenChecked(false) => Some(
                (InboxStateView::AwaitingHandler(Some(id)), InboxActionView::InvokeHandler),
            ),
            _ => None,
        },
        InboxStateView::AwaitingHandler(id) => match e {
            InboxEventView::Handled(Err(m)) => Some(refused(ErrorView::HandlerFailed(m))),
            InboxEventView::Handled(Ok(())) => Some(
                match id {
                    Some(i) => (InboxStateView::AwaitingRecord(i), InboxActionView::RecordSeen(i)),
                    None => (
                        InboxStateView::Finished,
                        InboxActionView::Finish(Ok(InboxOutcomeView::Accepted(None))),
                    ),
                },
            ),
            _ => None,
        },
        InboxStateView::AwaitingRecord(id) => match e {
            InboxEventView::Recorded => Some(
                (
                    InboxStateView::Finished,
                    InboxActionView::Finish(Ok(InboxOutcomeView::Accepted(Some(id)))),
                ),
            ),
            _ => None,
        },
        InboxStateView::Finished => None,
    }
}

/// Begins processing `req`.
pub fn start(req: &InboxRequest) -> (r: (InboxState, InboxAction))
    ensures
        (r.0@, r.1@) == spec_start(req@),
{
    let digest = match &req.digest {
        Some(d) => Some(d.as_str()),
        None => None,
    };
    let content_digest = match &req.content_digest {
        Some(d) => Some(d.as_str()),
        None => None,
    };
    if let Err(e) = verify_body_integrity(digest, content_digest, req.body.as_slice()) {
        return (InboxState::Finished, InboxAction::Finish(Err(e)));
    }
    let signature_input = match &req.signature_input {
        Some(d) => Some(d.as_str()),
        None => None,
    };
    let signature = match &req.signature {
        Some(d) => Some(d.as_str()),
        None => None,
    };
    let key_id = match extract_key_id(signature_input, signature) {
        Ok(k) => k,
        Err(e) => {
            return (InboxState::Finished, InboxAction::Finish(Err(e)));
        },
    };
    match strip_fragment(key_id.as_str()) {
        Ok(url) => (InboxState::AwaitingActor { key_id }, InboxAction::FetchActor(url)),
        Err(e) => (InboxState::Finished, InboxAction::Finish(Err(e))),
    }
}

/// Whether `event` answers the action that `state` awaits.
pub fn accepts(state: &InboxState, event: &InboxEvent) -> (b: bool)
    ensures
        b == spec_step(state@, event@, arbitrary()) is Some,
{
    match (state, event) {
        (InboxState::AwaitingActor { .. }, InboxEvent::ActorFetched(_)) => true,
        (InboxState::AwaitingKey { .. }, InboxEvent::KeyDecoded(_)) => true,
        (InboxState::AwaitingSignature, InboxEvent::SignatureChecked(_)) => true,
        (InboxState::AwaitingSeen { .. }, InboxEvent::SeenChecked(_)) => true,
        (InboxState::AwaitingHandler { .. }, InboxEvent::Handled(_)) => true,
        (InboxState::AwaitingRecord { .. }, InboxEvent::Recorded) => true,
        _ => false,
    }
}

/// Advances processing of `req` from `state` on `event`.
pub fn step(state: InboxState, event: InboxEvent, req: &InboxRequest) -> (r: (
    InboxState,
    InboxAction,
))
    requires
        spec_step(state@, event@, req@) is Some,
    ensures
        spec_step(state@, event@, req@) == Some((r.0@, r.1@)),
{
    match state {
        InboxState::AwaitingActor { key_id } => match event {
            InboxEvent::ActorFetched(Err(err)) => (InboxState::Finished, InboxAction::Finish(Err(err))),
            InboxEvent::ActorFetched(Ok(keys)) => match select_key(&keys, key_id.as_str()) {
                Err(err) => (InboxState::Finished, InboxAction::Finish(Err(err))),
                Ok(m) => {
                    let m2 = copy_material(&m);
                    (InboxState::AwaitingKey { key_id, material: m }, InboxAction::DecodeKey(m2))
                },
            },
            // Ruled out by the precondition.
            _ => (InboxState::Finished, InboxAction::VerifySignature),
        },
        InboxState::AwaitingKey { key_id, material } => match event {
            InboxEvent::KeyDecoded(Err(err)) => match material {
                KeyMaterial::Multibase(_) => (InboxState::Finished, InboxAction::Finish(Err(err))),
                KeyMaterial::Pem(_) => (
                    InboxState::Finished,
                    InboxAction::Finish(
                        Err(
                            Error::ActorWithoutKey(
                                concat3(
                                    "actor exposes no key matching keyId `",
                                    key_id.as_str(),
                                    "`",
                                ),
                            ),
                        ),
                    ),
                ),
            },
            InboxEvent::KeyDecoded(Ok(())) => match check_inbox_method(
                req.method.as_str(),
                req.uri.as_str(),
            ) {
                Err(err) => (InboxState::Finished, InboxAction::Finish(Err(err))),
                Ok(()) => (InboxState::AwaitingSignature, InboxAction::VerifySignature),
            },
            // Ruled out by the precondition.
            _ => (InboxState::Finished, InboxAction::VerifySignature),
        },
        InboxState::AwaitingSignature => match event {
            InboxEvent::SignatureChecked(Err(err)) => (
                InboxState::Finished,
                InboxAction::Finish(Err(err)),
            ),
            InboxEvent::SignatureChecked(Ok(())) => match activity_id(req.body.as_slice()) {
                Err(err) => (InboxState::Finished, InboxAction::Finish(Err(err))),
                Ok(Some(id)) => {
                    let id2 = id.clone();
                    (InboxState::AwaitingSeen { activity_id: id }, InboxAction::CheckSeen(id2))
                },
                Ok(None) => (
                    InboxState::AwaitingHandler { activity_id: None },
                    InboxAction::InvokeHandler,
                ),
            },
            // Ruled out by the precondition.
            _ => (InboxState::Finished, InboxAction::VerifySignature),
        },
        InboxState::AwaitingSeen { activity_id } => match event {
            InboxEvent::SeenChecked(true) => (
                InboxState::Finished,
                InboxAction::Finish(Ok(InboxOutcome::Duplicate { activity_id })),
            ),
            InboxEvent::SeenChecked(false) => (
                InboxState::AwaitingHandler { activity_id: Some(activity_id) },
                InboxAction::InvokeHandler,
            ),
            // Ruled out by the precondition.
            _ => (InboxState::Finished, InboxAction::VerifySignature),
        },
        InboxState::AwaitingHandler { activity_id } => match event {
            InboxEvent::Handled(Err(m)) => (
                InboxState::Finished,
                InboxAction::Finish(Err(Error::HandlerFailed(m))),
            ),
            InboxEvent::Handled(Ok(())) => match activity_id {
                Some(id) => {
                    let id2 = id.clone();
                    (InboxState::AwaitingRecord { activity_id: id }, InboxAction::RecordSeen(id2))
                },
                None => (
                    InboxState::Finished,
                    InboxAction::Finish(Ok(InboxOutcome::Accepted { activity_id: None })),
                ),
            },
            // Ruled out by the precondition.
            _ => (InboxState::Finished, InboxAction::VerifySignature),
        },
        InboxState::AwaitingRecord { activity_id } => (
            InboxState::Finished,
            InboxAction::Finish(Ok(InboxOutcome::Accepted { activity_id: Some(activity_id) })),
        ),
        // Ruled out by the precondition.
        InboxState::Finished => (InboxState::Finished, InboxAction::VerifySignature),
    }
}

// ---------------------------------------------------------------------------
// Whole runs
// ---------------------------------------------------------------------------

/// The answers the outside gives while one POST is processed: the fetched
/// actor's keys, the key decoding, the signature check and the handler.
pub struct Answers {
    pub actor: Result<ActorKeysView, ErrorView>,
    pub decoded: Result<(), ErrorView>,
    pub signature: Result<(), ErrorView>,
    pub handled: Result<(), Seq<char>>,
}

/// A run's result when it ended with `o`.
pub open spec fn ended_with(o: InboxOutcomeView) -> Option<Result<InboxOutcomeView, ErrorView>> {
    Some(Ok(o))
}

/// A run's result when it ended refusing with `e`.
pub open spec fn ended_refusing(e: ErrorView) -> Option<Result<InboxOutcomeView, ErrorView>> {
    Some(Err(e))
}

/// How a run ended: its result (`None` if it got stuck or ran out of
/// steps), the seen set after it, and whether the handler was invoked.
pub struct Run {
    pub result: Option<Result<InboxOutcomeView, ErrorView>>,
    pub seen: Set<Seq<char>>,
    pub handler_invoked: bool,
}

/// Carries on a run from state `s` and action `a`: each action is answered
/// from `ans`, the seen set answers `CheckSeen` and grows on `RecordSeen`.
pub open spec fn drive(
    req: InboxRequestView,
    ans: Answers,
    seen: Set<Seq<char>>,
    s: InboxStateView,
    a: InboxActionView,
    fuel: nat,
) -> Run
    decreases fuel,
{
    let stuck = Run { result: None, seen, handler_invoked: false };
    if fuel == 0 {
        stuck
    } else {
        let f = (fuel - 1) as nat;
        match a {
            InboxActionView::Finish(r) => Run { result: Some(r), seen, handler_invoked: false },
            InboxActionView::FetchActor(_) => match spec_step(
                s,
                InboxEventView::ActorFetched(ans.actor),
                req,
            ) {
                Some((s2, a2)) => drive(req, ans, seen, s2, a2, f),
                None => stuck,
            },
            InboxActionView::DecodeKey(_) => match spec_step(
                s,
                InboxEventView::KeyDecoded(ans.decoded),
                req,
            ) {
                Some((s2, a2)) => drive(req, ans, seen, s2, a2, f),
                None => stuck,
            },
            InboxActionView::VerifySignature => match spec_step(
                s,
                InboxEventView::SignatureChecked(ans.signature),
                req,
            ) {
                Some((s2, a2)) => drive(req, ans, seen, s2, a2, f),
                None => stuck,
            },
            InboxActionView::CheckSeen(id) => match spec_step(
                s,
                InboxEventView::SeenChecked(seen.contains(id)),
                req,
            ) {
                Some((s2, a2)) => drive(req, ans, seen, s2, a2, f),
                None => stuck,
            },
            InboxActionView::InvokeHandler => match spec_step(
                s,
                InboxEventView::Handled(ans.handled),
                req,
            ) {
                Some((s2, a2)) => {
                    let r = drive(req, ans, seen, s2, a2, f);
                    Run { handler_invoked: true, ..r }
                },
                None => stuck,
            },
            InboxActionView::RecordSeen(id) => match spec_step(s, InboxEventView::Recorded, req) {
                Some((s2, a2)) => drive(req, ans, seen.insert(id), s2, a2, f),
                None => stuck,
            },
        }
    }
}

/// A whole run of processing `req` with the seen set `seen`.
pub open spec fn spec_process(req: InboxRequestView, ans: Answers, seen: Set<Seq<char>>) -> Run {
    let (s, a) = spec_start(req);
    drive(req, ans, seen, s, a, 8)
}

/// Every run ends, with a result.
pub proof fn lemma_run_ends(req: InboxRequestView, ans: Answers, seen: Set<Seq<char>>)
    ensures
        spec_process(req, ans, seen).result is Some,
{
    reveal_with_fuel(drive, 9);
}

/// The handler sees an activity only when the body matched its digest, the
/// key id was read, the actor was fetched and its key decoded, the method
/// was POST, the signature verified, the body was JSON, and its id (where it
/// has one) was not seen before.
pub proof fn lemma_handler_only_after_checks(
    req: InboxRequestView,
    ans: Answers,
    seen: Set<Seq<char>>,
)
    requires
        spec_process(req, ans, seen).handler_invoked,
    ensures
        spec_body_integrity(req.digest, req.content_digest, req.body) is Ok,
        spec_extract_key_id(req.signature_input, req.signature) is Ok,
        ans.actor is Ok,
        ans.decoded is Ok,
        spec_check_method(req.method, req.uri) is Ok,
        ans.signature is Ok,
        spec_activity_id(req.body) is Ok,
        spec_activity_id(req.body) matches Ok(Some(id)) ==> !seen.contains(id),
{
    reveal_with_fuel(drive, 9);
}

/// Processing the same POST again, after a run that accepted it, with the
/// same answers from the outside, reports it as a duplicate and does not
/// invoke the handler.
pub proof fn lemma_repeat_is_duplicate(
    req: InboxRequestView,
    ans: Answers,
    seen: Set<Seq<char>>,
    id: Seq<char>,
)
    requires
        spec_process(req, ans, seen).result == ended_with(InboxOutcomeView::Accepted(Some(id))),
    ensures
        spec_process(req, ans, spec_process(req, ans, seen).seen).result == ended_with(
            InboxOutcomeView::Duplicate(id),
        ),
        !spec_process(req, ans, spec_process(req, ans, seen).seen).handler_invoked,
        spec_process(req, ans, spec_process(req, ans, seen).seen).seen == spec_process(
            req,
            ans,
            seen,
        ).seen,
{
    reveal_with_fuel(drive, 9);
}

/// An accepted activity with an id was handed to the handler and its id is
/// now recorded; nothing else is.
pub proof fn lemma_accept_records(req: InboxRequestView, ans: Answers, seen: Set<Seq<char>>)
    ensures
        spec_process(req, ans, seen).result matches Some(Ok(InboxOutcomeView::Accepted(Some(id))))
            ==> spec_process(req, ans, seen).handler_invoked && spec_process(req, ans, seen).seen
            == seen.insert(id),
        !(spec_process(req, ans, seen).result matches Some(Ok(InboxOutcomeView::Accepted(Some(_)))))
            ==> spec_process(req, ans, seen).seen == seen,
{
    reveal_with_fuel(drive, 9);
}

/// A handler failure refuses the POST and leaves the seen set as it was,
/// so that the sender's retry is processed again.
pub proof fn lemma_handler_failure_not_recorded(
    req: InboxRequestView,
    ans: Answers,
    seen: Set<Seq<char>>,
)
    requires
        spec_process(req, ans, seen).handler_invoked,
        ans.handled is Err,
    ensures
        spec_process(req, ans, seen).result == ended_refusing(
            ErrorView::HandlerFailed(ans.handled->Err_0),
        ),
        spec_process(req, ans, seen).seen == seen,
{
    reveal_with_fuel(drive, 9);
}

} // verus!
