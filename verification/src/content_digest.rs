//! RFC 9530 `Content-Digest:` header.
//!
//! Its value is a Structured Field dictionary (RFC 8941) whose keys are
//! hash-algorithm names and whose values are byte sequences (`:<base64>:`),
//! for example `sha-256=:X48E9qOok=:`.
//!
//! The hashing is done by `aws-lc-rs` and the structured-field syntax by
//! `sfv`; both are reached through the trusted items at the top of this file.
use vstd::prelude::*;

use crate::httpsig::{Error, ErrorView};
use crate::digest::base64;
use crate::text::push_str;

verus! {

/// Name of the `Content-Digest:` HTTP header.
pub const CONTENT_DIGEST_HEADER: &'static str = "content-digest";

// ---------------------------------------------------------------------------
// Trusted items
// ---------------------------------------------------------------------------

/// The SHA-256 digest of `data`.
pub uninterp spec fn spec_sha256(data: Seq<u8>) -> Seq<u8>;

/// `aws_lc_rs::digest::digest(&SHA256, data)`: the SHA-256 digest of
/// `data`, 32 bytes long. What the digest is, is only named here.
#[verifier::external_body]
pub(crate) fn sha256(data: &[u8]) -> (d: Vec<u8>)
    ensures
        d@ == spec_sha256(data@),
        d@.len() == 32,
{
    aws_lc_rs::digest::digest(&aws_lc_rs::digest::SHA256, data).as_ref().to_vec()
}

/// The SHA-512 digest of `data`.
pub uninterp spec fn spec_sha512(data: Seq<u8>) -> Seq<u8>;

/// `aws_lc_rs::digest::digest(&SHA512, data)`: the SHA-512 digest of
/// `data`, 64 bytes long. What the digest is, is only named here.
#[verifier::external_body]
pub(crate) fn sha512(data: &[u8]) -> (d: Vec<u8>)
    ensures
        d@ == spec_sha512(data@),
        d@.len() == 64,
{
    aws_lc_rs::digest::digest(&aws_lc_rs::digest::SHA512, data).as_ref().to_vec()
}

/// What the `sfv` crate holds under one key of a parsed dictionary, as far
/// as a digest check reads it.
#[derive(Debug, Clone, PartialEq, Eq)]
pub enum SfvMember {
    /// An item whose bare value is a byte sequence.
    ByteSeq(Vec<u8>),
    /// An item of any other kind (integer, string, token, ...).
    OtherItem,
    /// An inner list.
    InnerList,
}

pub enum SfvMemberView {
    ByteSeq(Seq<u8>),
    OtherItem,
    InnerList,
}

impl View for SfvMember {
    type V = SfvMemberView;

    open spec fn view(&self) -> SfvMemberView {
        match self {
            SfvMember::ByteSeq(b) => SfvMemberView::ByteSeq(b@),
            SfvMember::OtherItem => SfvMemberView::OtherItem,
            SfvMember::InnerList => SfvMemberView::InnerList,
        }
    }
}

pub open spec fn member_result_view(r: Result<Option<SfvMember>, String>) -> Result<
    Option<SfvMemberView>,
    Seq<char>,
> {
    match r {
        Ok(Some(m)) => Ok(Some(m@)),
        Ok(None) => Ok(None),
        Err(e) => Err(e@),
    }
}

/// What `sfv` makes of the dictionary `header` under `key`: the parse
/// error's text, no member, or the member.
pub uninterp spec fn sfv_dictionary_member(header: Seq<char>, key: Seq<char>) -> Result<
    Option<SfvMemberView>,
    Seq<char>,
>;

/// `sfv::Parser::parse_dictionary` on the bytes of `header`, then the
/// member under `key`. The outcome is only named: it is a function of the
/// two strings.
#[verifier::external_body]
pub(crate) fn sfv_member(header: &str, key: &str) -> (r: Result<Option<SfvMember>, String>)
    ensures
        member_result_view(r) == sfv_dictionary_member(header@, key@),
{
    let dict = sfv::Parser::parse_dictionary(header.as_bytes()).map_err(|e| e.to_owned())?;
    match dict.get(key) {
        None => Ok(None),
        Some(sfv::ListEntry::InnerList(_)) => Ok(Some(SfvMember::InnerList)),
        Some(sfv::ListEntry::Item(item)) => match &item.bare_item {
            sfv::BareItem::ByteSeq(b) => Ok(Some(SfvMember::ByteSeq(b.clone()))),
            _ => Ok(Some(SfvMember::OtherItem)),
        },
    }
}

/// An RFC 8941 key: a lowercase letter or `*`, then lowercase letters,
/// digits, `_`, `-`, `.` or `*`.
pub open spec fn sfv_key(k: Seq<char>) -> bool {
    &&& k.len() > 0
    &&& (('a' <= k[0] && k[0] <= 'z') || k[0] == '*')
    &&& forall|i: int|
        0 <= i < k.len() ==> {
            let c = #[trigger] k[i];
            ('a' <= c && c <= 'z') || ('0' <= c && c <= '9') || c == '_' || c == '-' || c == '.'
                || c == '*'
        }
}

/// A dictionary member that is a byte sequence.
pub open spec fn byte_seq_member(b: Seq<u8>) -> Result<Option<SfvMemberView>, Seq<char>> {
    Ok(Some(SfvMemberView::ByteSeq(b)))
}

/// The serialisation of the one-member dictionary `key` => byte sequence:
/// the key, `=`, and the byte sequence as `:` + standard padded base64 + `:`
/// (RFC 8941, sections 4.1.2 and 4.1.8).
pub open spec fn sfv_byte_seq_dictionary(key: Seq<char>, bytes: Seq<u8>) -> Seq<char> {
    key + "=:"@ + base64(bytes) + ":"@
}

/// `sfv::SerializeValue::serialize_value` on the dictionary whose only member
/// is `key` => `ByteSeq(bytes)`. For a valid key it cannot fail (the
/// serialiser fails only on keys outside the RFC 8941 grammar and on empty
/// dictionaries; the `Err` arm is never taken); it writes the key, `=`, and
/// the bytes in `data_encoding::BASE64` (the standard alphabet, padded)
/// between colons; and parsing the text back gives the same member under
/// the same key.
#[verifier::external_body]
pub(crate) fn sfv_serialize_byte_seq_dictionary(key: &str, bytes: &[u8]) -> (s: String)
    requires
        sfv_key(key@),
    ensures
        s@ == sfv_byte_seq_dictionary(key@, bytes@),
        sfv_dictionary_member(s@, key@) == byte_seq_member(bytes@),
{
    let mut dict = sfv::Dictionary::new();
    dict.insert(
        key.to_owned(),
        sfv::ListEntry::Item(sfv::Item::new(sfv::BareItem::ByteSeq(bytes.to_vec()))),
    );
    match sfv::SerializeValue::serialize_value(&dict) {
        Ok(s) => s,
        Err(_) => String::new(),
    }
}

// ---------------------------------------------------------------------------
// Emitting and checking the header
// ---------------------------------------------------------------------------

/// The `Content-Digest:` value for `body`: a `sha-256` byte-sequence member.
pub open spec fn spec_content_digest_header(body: Seq<u8>) -> Seq<char> {
    sfv_byte_seq_dictionary("sha-256"@, spec_sha256(body))
}

/// Constant-time byte comparison.
pub fn constant_time_eq(a: &[u8], b: &[u8]) -> (eq: bool)
    ensures
        eq == (a@ == b@),
{
    if a.len() != b.len() {
        return false;
    }
    let mut diff: u8 = 0;
    let mut i: usize = 0;
    while i < a.len()
        invariant
            a@.len() == b@.len(),
            i <= a@.len(),
            (diff == 0) <==> (forall|j: int| 0 <= j < i ==> a@[j] == b@[j]),
        decreases a@.len() - i,
    {
        let x = a[i];
        let y = b[i];
        proof {
            lemma_or_xor_zero(diff, x, y);
        }
        diff = diff | (x ^ y);
        i = i + 1;
    }
    if diff == 0 {
        assert(a@ =~= b@);
        true
    } else {
        false
    }
}

proof fn lemma_or_xor_zero(d: u8, x: u8, y: u8)
    ensures
        ((d | (x ^ y)) == 0) <==> (d == 0 && x == y),
{
    assert(((d | (x ^ y)) == 0) <==> (d == 0 && x == y)) by (bit_vector);
}

/// What a digest check concludes from what `sfv` found under the key `key`
/// and the digest of the body.
pub open spec fn spec_member_outcome(
    key: Seq<char>,
    member: Result<Option<SfvMemberView>, Seq<char>>,
    expected: Seq<u8>,
) -> Result<(), ErrorView> {
    match member {
        Err(reason) => Err(ErrorView::InvalidHeader("content-digest"@, reason)),
        Ok(None) => Err(
            ErrorView::UnsupportedDigestAlgorithm(
                "Content-Digest does not contain an "@ + key + " entry"@,
            ),
        ),
        Ok(Some(SfvMemberView::InnerList)) => Err(
            ErrorView::InvalidHeader(
                "content-digest"@,
                key + " entry must be an item, not an inner list"@,
            ),
        ),
        Ok(Some(SfvMemberView::OtherItem)) => Err(
            ErrorView::InvalidHeader("content-digest"@, key + " value must be a byte sequence"@),
        ),
        Ok(Some(SfvMemberView::ByteSeq(bytes))) => if bytes == expected {
            Ok(())
        } else {
            Err(ErrorView::DigestMismatch)
        },
    }
}

/// The same under `sha-256`.
pub open spec fn spec_digest_outcome(
    member: Result<Option<SfvMemberView>, Seq<char>>,
    expected: Seq<u8>,
) -> Result<(), ErrorView> {
    spec_member_outcome("sha-256"@, member, expected)
}

/// What [`verify_content_digest_header`] returns for `header` and `body`.
pub open spec fn spec_verify_content_digest(header: Seq<char>, body: Seq<u8>) -> Result<
    (),
    ErrorView,
> {
    spec_digest_outcome(sfv_dictionary_member(header, "sha-256"@), spec_sha256(body))
}

pub open spec fn unit_result_view(r: Result<(), Error>) -> Result<(), ErrorView> {
    match r {
        Ok(()) => Ok(()),
        Err(e) => Err(e@),
    }
}

fn concat3(a: &str, b: &str, c: &str) -> (r: String)
    ensures
        r@ == a@ + b@ + c@,
{
    let mut r = String::new();
    push_str(&mut r, a);
    push_str(&mut r, b);
    push_str(&mut r, c);
    proof {
        assert(r@ =~= a@ + b@ + c@);
    }
    r
}

fn concat2(a: &str, b: &str) -> (r: String)
    ensures
        r@ == a@ + b@,
{
    let mut r = String::new();
    push_str(&mut r, a);
    push_str(&mut r, b);
    proof {
        assert(r@ =~= a@ + b@);
    }
    r
}

/// Decides a digest check from what `sfv` found under the key `key` and
/// the digest the body hashes to.
pub fn digest_outcome(key: &str, member: Result<Option<SfvMember>, String>, expected: &[u8]) -> (r:
    Result<(), Error>)
    ensures
        unit_result_view(r) == spec_member_outcome(key@, member_result_view(member), expected@),
{
    match member {
        Err(reason) => Err(Error::InvalidHeader { name: "content-digest", reason }),
        Ok(None) => Err(
            Error::UnsupportedDigestAlgorithm(
                concat3("Content-Digest does not contain an ", key, " entry"),
            ),
        ),
        Ok(Some(SfvMember::InnerList)) => Err(
            Error::InvalidHeader {
                name: "content-digest",
                reason: concat2(key, " entry must be an item, not an inner list"),
            },
        ),
        Ok(Some(SfvMember::OtherItem)) => Err(
            Error::InvalidHeader {
                name: "content-digest",
                reason: concat2(key, " value must be a byte sequence"),
            },
        ),
        Ok(Some(SfvMember::ByteSeq(bytes))) => {
            if constant_time_eq(bytes.as_slice(), expected) {
                Ok(())
            } else {
                Err(Error::DigestMismatch)
            }
        },
    }
}

/// Computes the RFC 9530 `Content-Digest:` header value carrying only a
/// `sha-256` entry. The value it returns verifies against `body`.
pub fn content_digest_header(body: &[u8]) -> (h: String)
    ensures
        h@ == spec_content_digest_header(body@),
        spec_verify_content_digest(h@, body@) is Ok,
{
    let hash = sha256(body);
    proof {
        reveal_strlit("sha-256");
    }
    sfv_serialize_byte_seq_dictionary("sha-256", hash.as_slice())
}

/// Verifies that the `Content-Digest:` header value matches the digest of
/// `body`. Dictionaries with other algorithms besides `sha-256` are fine;
/// the `sha-256` member decides.
///
/// # Errors
///
/// [`Error::UnsupportedDigestAlgorithm`] if no `sha-256` entry is present,
/// [`Error::InvalidHeader`] on a structured-field parse failure or a
/// `sha-256` member that is not a byte sequence, and
/// [`Error::DigestMismatch`] if the hash does not match.
pub fn verify_content_digest_header(header: &str, body: &[u8]) -> (r: Result<(), Error>)
    ensures
        unit_result_view(r) == spec_verify_content_digest(header@, body@),
{
    let member = sfv_member(header, "sha-256");
    let expected = sha256(body);
    digest_outcome("sha-256", member, expected.as_slice())
}

/// A hash algorithm that a `Content-Digest:` entry may use.
#[derive(Debug, Clone, Copy, PartialEq, Eq, Structural)]
pub enum DigestAlgorithm {
    Sha256,
    Sha512,
}

/// The dictionary key of an algorithm.
pub open spec fn alg_key(a: DigestAlgorithm) -> Seq<char> {
    match a {
        DigestAlgorithm::Sha256 => "sha-256"@,
        DigestAlgorithm::Sha512 => "sha-512"@,
    }
}

/// The digest of `body` under an algorithm.
pub open spec fn alg_digest(a: DigestAlgorithm, body: Seq<u8>) -> Seq<u8> {
    match a {
        DigestAlgorithm::Sha256 => spec_sha256(body),
        DigestAlgorithm::Sha512 => spec_sha512(body),
    }
}

fn alg_key_exec(a: DigestAlgorithm) -> (k: &'static str)
    ensures
        k@ == alg_key(a),
{
    match a {
        DigestAlgorithm::Sha256 => "sha-256",
        DigestAlgorithm::Sha512 => "sha-512",
    }
}

fn alg_digest_exec(a: DigestAlgorithm, body: &[u8]) -> (d: Vec<u8>)
    ensures
        d@ == alg_digest(a, body@),
{
    match a {
        DigestAlgorithm::Sha256 => sha256(body),
        DigestAlgorithm::Sha512 => sha512(body),
    }
}

/// What [`verify_any_content_digest_header`] returns: the first algorithm
/// of `algs` that has an entry in the dictionary decides; a dictionary
/// with no entry for any of them is refused.
pub open spec fn spec_verify_any(header: Seq<char>, body: Seq<u8>, algs: Seq<DigestAlgorithm>) -> Result<
    (),
    ErrorView,
>
    decreases algs.len(),
{
    if algs.len() == 0 {
        Err(
            ErrorView::UnsupportedDigestAlgorithm(
                "Content-Digest does not contain an entry for a supported algorithm"@,
            ),
        )
    } else {
        let m = sfv_dictionary_member(header, alg_key(algs[0]));
        if m matches Ok(None) {
            spec_verify_any(header, body, algs.drop_first())
        } else {
            spec_member_outcome(alg_key(algs[0]), m, alg_digest(algs[0], body))
        }
    }
}

/// Verifies a `Content-Digest:` value against `body`, accepting any of the
/// algorithms `algs`, tried in order: the first one with an entry in the
/// dictionary decides.
///
/// # Errors
///
/// [`Error::UnsupportedDigestAlgorithm`] if no entry of a listed algorithm is
/// present, [`Error::InvalidHeader`] on a structured-field parse failure or
/// an entry that is not a byte sequence, [`Error::DigestMismatch`] if the
/// deciding entry does not match.
pub fn verify_any_content_digest_header(
    header: &str,
    body: &[u8],
    algs: &[DigestAlgorithm],
) -> (r: Result<(), Error>)
    ensures
        unit_result_view(r) == spec_verify_any(header@, body@, algs@),
{
    let mut i: usize = 0;
    proof {
        assert(algs@.subrange(0, algs@.len() as int) =~= algs@);
    }
    while i < algs.len()
        invariant
            0 <= i <= algs@.len(),
            spec_verify_any(header@, body@, algs@.subrange(i as int, algs@.len() as int))
                == spec_verify_any(header@, body@, algs@),
        decreases algs@.len() - i,
    {
        let a = algs[i];
        let key = alg_key_exec(a);
        let member = sfv_member(header, key);
        let ghost rest = algs@.subrange(i as int, algs@.len() as int);
        proof {
            assert(rest[0] == a);
            assert(rest.drop_first() =~= algs@.subrange(i + 1, algs@.len() as int));
        }
        match member {
            Ok(None) => {},
            _ => {
                let expected = alg_digest_exec(a, body);
                return digest_outcome(key, member, expected.as_slice());
            },
        }
        i = i + 1;
    }
    Err(
        Error::UnsupportedDigestAlgorithm(
            "Content-Digest does not contain an entry for a supported algorithm".to_owned(),
        ),
    )
}

} // verus!
