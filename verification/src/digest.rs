//! The legacy `Digest:` header (`SHA-256=<base64>`), as Mastodon emits it.
use vstd::prelude::*;

use crate::content_digest::{sha256, spec_content_digest_header, spec_sha256};
use crate::text::{char_from_ascii, push_str, string_push};

verus! {

/// Name of the legacy `Digest:` HTTP header.
pub const DIGEST_HEADER: &'static str = "digest";

/// The character of the standard base64 alphabet (RFC 4648, section 4)
/// for a six-bit value.
pub open spec fn b64_char(v: int) -> char {
    if v < 26 {
        (65 + v) as char
    } else if v < 52 {
        (97 + (v - 26)) as char
    } else if v < 62 {
        (48 + (v - 52)) as char
    } else if v == 62 {
        '+'
    } else {
        '/'
    }
}

/// Standard base64 with `=` padding: each group of three bytes becomes four
/// characters; a final group of one or two bytes is padded.
pub open spec fn base64(s: Seq<u8>) -> Seq<char>
    decreases s.len(),
{
    if s.len() == 0 {
        seq![]
    } else if s.len() == 1 {
        seq![b64_char((s[0] as int) / 4), b64_char(((s[0] as int) % 4) * 16), '=', '=']
    } else if s.len() == 2 {
        seq![
            b64_char((s[0] as int) / 4),
            b64_char(((s[0] as int) % 4) * 16 + (s[1] as int) / 16),
            b64_char(((s[1] as int) % 16) * 4),
            '=',
        ]
    } else {
        seq![
            b64_char((s[0] as int) / 4),
            b64_char(((s[0] as int) % 4) * 16 + (s[1] as int) / 16),
            b64_char(((s[1] as int) % 16) * 4 + (s[2] as int) / 64),
            b64_char((s[2] as int) % 64),
        ] + base64(s.subrange(3, s.len() as int))
    }
}

fn b64_char_exec(v: u8) -> (c: char)
    requires
        v < 64,
    ensures
        c == b64_char(v as int),
{
    if v < 26 {
        char_from_ascii((65 + v) as u32)
    } else if v < 52 {
        char_from_ascii((97 + (v - 26)) as u32)
    } else if v < 62 {
        char_from_ascii((48 + (v - 52)) as u32)
    } else if v == 62 {
        '+'
    } else {
        '/'
    }
}

proof fn lemma_base64_step(s: Seq<u8>, i: int)
    requires
        0 <= i,
        i + 3 <= s.len(),
    ensures
        base64(s.subrange(i, s.len() as int)) == seq![
            b64_char((s[i] as int) / 4),
            b64_char(((s[i] as int) % 4) * 16 + (s[i + 1] as int) / 16),
            b64_char(((s[i + 1] as int) % 16) * 4 + (s[i + 2] as int) / 64),
            b64_char((s[i + 2] as int) % 64),
        ] + base64(s.subrange(i + 3, s.len() as int)),
{
    let t = s.subrange(i, s.len() as int);
    assert(t.subrange(3, t.len() as int) =~= s.subrange(i + 3, s.len() as int));
}

/// Base64-encodes `bytes` with the standard alphabet and padding.
pub fn base64_encode(bytes: &[u8]) -> (out: String)
    ensures
        out@ == base64(bytes@),
{
    let mut out = String::new();
    let n = bytes.len();
    let mut i: usize = 0;
    proof {
        assert(bytes@.subrange(0, n as int) =~= bytes@);
        assert(out@ + base64(bytes@) =~= base64(bytes@));
    }
    while n - i >= 3
        invariant
            n == bytes@.len(),
            0 <= i <= n,
            out@ + base64(bytes@.subrange(i as int, n as int)) == base64(bytes@),
        decreases n - i,
    {
        let a = bytes[i];
        let b = bytes[i + 1];
        let c = bytes[i + 2];
        proof {
            lemma_base64_step(bytes@, i as int);
        }
        string_push(&mut out, b64_char_exec(a / 4));
        string_push(&mut out, b64_char_exec((a % 4) * 16 + b / 16));
        string_push(&mut out, b64_char_exec((b % 16) * 4 + c / 64));
        string_push(&mut out, b64_char_exec(c % 64));
        proof {
            assert(out@ + base64(bytes@.subrange(i + 3, n as int)) =~= base64(bytes@));
        }
        i = i + 3;
    }
    let ghost rest = bytes@.subrange(i as int, n as int);
    if n - i == 1 {
        let a = bytes[i];
        string_push(&mut out, b64_char_exec(a / 4));
        string_push(&mut out, b64_char_exec((a % 4) * 16));
        string_push(&mut out, '=');
        string_push(&mut out, '=');
        assert(base64(rest) =~= seq![b64_char(a as int / 4), b64_char((a as int % 4) * 16), '=', '=']);
    } else if n - i == 2 {
        let a = bytes[i];
        let b = bytes[i + 1];
        string_push(&mut out, b64_char_exec(a / 4));
        string_push(&mut out, b64_char_exec((a % 4) * 16 + b / 16));
        string_push(&mut out, b64_char_exec((b % 16) * 4));
        string_push(&mut out, '=');
    } else {
        assert(rest.len() == 0);
    }
    proof {
        assert(out@ =~= base64(bytes@));
    }
    out
}

/// The legacy `Digest:` value for `body`.
pub open spec fn spec_sha256_digest_header(body: Seq<u8>) -> Seq<char> {
    "SHA-256="@ + base64(spec_sha256(body))
}

/// The legacy `Digest:` value and the `Content-Digest:` value of a body
/// carry the same base64 text of the same SHA-256 digest.
pub proof fn lemma_digests_share_the_hash(body: Seq<u8>)
    ensures
        spec_sha256_digest_header(body) == "SHA-256="@ + base64(spec_sha256(body)),
        spec_content_digest_header(body) == "sha-256=:"@ + base64(spec_sha256(body)) + ":"@,
{
    reveal_strlit("sha-256");
    reveal_strlit("=:");
    reveal_strlit("sha-256=:");
    assert("sha-256"@ + "=:"@ =~= "sha-256=:"@);
}

/// Computes the legacy `Digest:` header value `SHA-256=<base64>` of `body`.
pub fn sha256_digest_header(body: &[u8]) -> (h: String)
    ensures
        h@ == spec_sha256_digest_header(body@),
{
    let hash = sha256(body);
    let mut h = String::new();
    push_str(&mut h, "SHA-256=");
    let enc = base64_encode(hash.as_slice());
    push_str(&mut h, enc.as_str());
    h
}

} // verus!
