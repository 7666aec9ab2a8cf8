use actpub::content_digest::content_digest_header;
use actpub::digest::{base64_encode, sha256_digest_header, DIGEST_HEADER};

#[test]
fn base64_encodes_with_padding() {
    assert_eq!(base64_encode(b""), "");
    assert_eq!(base64_encode(b"f"), "Zg==");
    assert_eq!(base64_encode(b"fo"), "Zm8=");
    assert_eq!(base64_encode(b"foo"), "Zm9v");
    assert_eq!(base64_encode(b"foob"), "Zm9vYg==");
    assert_eq!(base64_encode(b"fooba"), "Zm9vYmE=");
    assert_eq!(base64_encode(b"foobar"), "Zm9vYmFy");
}

#[test]
fn base64_uses_the_standard_alphabet_ends() {
    assert_eq!(base64_encode(&[0xfb, 0xff, 0xbf]), "+/+/");
    assert_eq!(base64_encode(&[0, 0, 0]), "AAAA");
}

#[test]
fn legacy_digest_of_empty_body() {
    assert_eq!(
        sha256_digest_header(b""),
        "SHA-256=47DEQpj8HBSa+/TImW+5JCeuQeRkm5NMpJWZG3hSuFU="
    );
    assert_eq!(DIGEST_HEADER, "digest");
}

#[test]
fn legacy_and_structured_digests_carry_the_same_hash() {
    let body = b"Hello, Fediverse";
    let legacy = sha256_digest_header(body);
    let structured = content_digest_header(body);
    let b64 = legacy.strip_prefix("SHA-256=").unwrap();
    assert_eq!(structured, format!("sha-256=:{b64}:"));
}
