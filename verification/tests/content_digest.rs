use actpub::content_digest::{
    constant_time_eq, content_digest_header, digest_outcome, verify_any_content_digest_header,
    verify_content_digest_header, DigestAlgorithm, SfvMember, CONTENT_DIGEST_HEADER,
};
use actpub::httpsig::Error;

#[test]
fn emits_rfc9530_value_for_empty_body() {
    let header = content_digest_header(b"");
    assert_eq!(
        header,
        "sha-256=:47DEQpj8HBSa+/TImW+5JCeuQeRkm5NMpJWZG3hSuFU=:"
    );
}

#[test]
fn roundtrips_sign_then_verify() {
    let body = b"Hello, Fediverse";
    let header = content_digest_header(body);
    verify_content_digest_header(&header, body).expect("matching body must verify");
}

#[test]
fn tampered_body_fails_verify() {
    let header = content_digest_header(b"original");
    let err = verify_content_digest_header(&header, b"tampered")
        .expect_err("tampered body must not verify");
    assert!(matches!(err, Error::DigestMismatch));
}

#[test]
fn missing_sha256_entry_returns_unsupported_algorithm() {
    let header = "sha-512=:AAAA:";
    let err =
        verify_content_digest_header(header, b"").expect_err("sha-512 only must be rejected");
    assert!(matches!(err, Error::UnsupportedDigestAlgorithm(_)));
}

#[test]
fn malformed_structured_field_is_rejected() {
    // An unclosed inner list is a genuine sf-dictionary parse failure.
    let err = verify_content_digest_header("sha-256=(unclosed", b"").expect_err("malformed");
    assert!(
        matches!(err, Error::InvalidHeader { .. }),
        "expected InvalidHeader, got {err:?}",
    );
}

#[test]
fn mixed_algorithm_dictionary_accepts_on_sha256_match() {
    let body = b"payload";
    let sha256 = content_digest_header(body)
        .strip_prefix("sha-256=")
        .expect("has prefix")
        .to_owned();
    let mixed = format!("sha-512=:AAAA:, sha-256={sha256}");
    verify_content_digest_header(&mixed, body)
        .expect("dictionaries with extra algorithms are fine");
}

// --- further cases ---------------------------------------------------------

#[test]
fn header_name_constant() {
    assert_eq!(CONTENT_DIGEST_HEADER, "content-digest");
}

#[test]
fn inner_list_member_is_invalid() {
    let err = verify_content_digest_header("sha-256=(1 2)", b"").unwrap_err();
    assert_eq!(
        err,
        Error::InvalidHeader {
            name: "content-digest",
            reason: "sha-256 entry must be an item, not an inner list".to_owned()
        }
    );
}

#[test]
fn non_byte_sequence_member_is_invalid() {
    let err = verify_content_digest_header("sha-256=42", b"").unwrap_err();
    assert_eq!(
        err,
        Error::InvalidHeader {
            name: "content-digest",
            reason: "sha-256 value must be a byte sequence".to_owned()
        }
    );
}

#[test]
fn digest_outcome_decides_each_case() {
    assert_eq!(digest_outcome("sha-256", Ok(Some(SfvMember::ByteSeq(vec![1, 2]))), &[1, 2]), Ok(()));
    assert_eq!(
        digest_outcome("sha-256", Ok(Some(SfvMember::ByteSeq(vec![1, 2]))), &[1, 3]),
        Err(Error::DigestMismatch)
    );
    assert!(matches!(
        digest_outcome("sha-256", Ok(None), &[]),
        Err(Error::UnsupportedDigestAlgorithm(_))
    ));
    assert_eq!(
        digest_outcome("sha-256", Err("boom".to_owned()), &[]),
        Err(Error::InvalidHeader { name: "content-digest", reason: "boom".to_owned() })
    );
}

#[test]
fn constant_time_eq_compares_contents() {
    assert!(constant_time_eq(b"abc", b"abc"));
    assert!(!constant_time_eq(b"abc", b"abd"));
    assert!(!constant_time_eq(b"abc", b"ab"));
    assert!(constant_time_eq(b"", b""));
}

#[test]
fn digest_outcome_names_the_key_in_its_messages() {
    assert_eq!(
        digest_outcome("sha-512", Ok(None), &[]),
        Err(Error::UnsupportedDigestAlgorithm(
            "Content-Digest does not contain an sha-512 entry".to_owned()
        ))
    );
    assert_eq!(
        digest_outcome("sha-512", Ok(Some(SfvMember::InnerList)), &[]),
        Err(Error::InvalidHeader {
            name: "content-digest",
            reason: "sha-512 entry must be an item, not an inner list".to_owned()
        })
    );
}

const EMPTY_SHA512: &str = "sha-512=:z4PhNX7vuL3xVChQ1m2AB9Yg5AULVxXcg/SpIdNs6c5H0NE8XYXysP+DGNKHfuwvY7kxvUdBeoGlODJ6+SfaPg==:";

#[test]
fn any_algorithm_accepts_sha512_when_listed() {
    let algs = [DigestAlgorithm::Sha256, DigestAlgorithm::Sha512];
    assert_eq!(verify_any_content_digest_header(EMPTY_SHA512, b"", &algs), Ok(()));
    assert_eq!(
        verify_any_content_digest_header(EMPTY_SHA512, b"x", &algs),
        Err(Error::DigestMismatch)
    );
}

#[test]
fn any_algorithm_refuses_unlisted_algorithms() {
    let only_256 = [DigestAlgorithm::Sha256];
    assert_eq!(
        verify_any_content_digest_header(EMPTY_SHA512, b"", &only_256),
        Err(Error::UnsupportedDigestAlgorithm(
            "Content-Digest does not contain an entry for a supported algorithm".to_owned()
        ))
    );
    assert!(matches!(
        verify_any_content_digest_header("sha-256=(unclosed", b"", &only_256),
        Err(Error::InvalidHeader { .. })
    ));
}

#[test]
fn any_algorithm_first_listed_entry_decides() {
    let body = b"payload";
    let good256 = content_digest_header(body);
    let mixed = format!("sha-512=:AAAA:, {good256}");
    let algs = [DigestAlgorithm::Sha256, DigestAlgorithm::Sha512];
    assert_eq!(verify_any_content_digest_header(&mixed, body, &algs), Ok(()));
    let reversed = [DigestAlgorithm::Sha512, DigestAlgorithm::Sha256];
    assert_eq!(
        verify_any_content_digest_header(&mixed, body, &reversed),
        Err(Error::DigestMismatch)
    );
}
