//! Parsing and emitting the Cavage draft-12 `Signature:` header value.
//!
//! The header is a comma-separated list of `name=value` pairs where
//! string-typed parameters (`keyId`, `algorithm`, `headers`, `signature`)
//! are double-quoted and numeric ones (`created`, `expires`) appear
//! without quotes. Parameter order is not significant.
use vstd::prelude::*;

use crate::text::{
    lemma_i64_decimal_roundtrip, lemma_index_of_found, lemma_nat_to_decimal, lemma_trim_noop,
    is_ws, is_ascii_digit, nat_to_decimal, i64_to_decimal, push_decimal_i64, chars_of, find_char, is_ascii_ws, is_ascii_ws_exec, parse_i64_range, push_range, push_str,
    range_eq_str, spec_parse_i64, split_once, string_from_chars, string_push, trim, trim_range,
};

verus! {

/// Name of the `Signature:` HTTP header.
pub const SIGNATURE_HEADER: &'static str = "signature";

/// Errors produced while parsing, signing or verifying HTTP messages.
#[derive(Debug, Clone, PartialEq, Eq)]
pub enum Error {
    /// The `Signature:` header could not be decoded.
    MalformedSignatureHeader(String),
    /// A mandatory `Signature:` parameter is absent.
    MissingSignatureParameter(&'static str),
    /// An algorithm or derived component that this crate does not support.
    UnsupportedAlgorithm(String),
    /// A header that the signature covers is not on the request.
    RequiredHeaderAbsent(String),
    /// A header value is not well formed.
    InvalidHeader { name: &'static str, reason: String },
    /// No digest entry of a supported algorithm.
    UnsupportedDigestAlgorithm(String),
    /// The body does not hash to the announced digest.
    DigestMismatch,
}

/// The mathematical content of an [`Error`]: its variant and its texts.
pub enum ErrorView {
    MalformedSignatureHeader(Seq<char>),
    MissingSignatureParameter(Seq<char>),
    UnsupportedAlgorithm(Seq<char>),
    RequiredHeaderAbsent(Seq<char>),
    InvalidHeader(Seq<char>, Seq<char>),
    UnsupportedDigestAlgorithm(Seq<char>),
    DigestMismatch,
}

impl View for Error {
    type V = ErrorView;

    open spec fn view(&self) -> ErrorView {
        match self {
            Error::MalformedSignatureHeader(m) => ErrorView::MalformedSignatureHeader(m@),
            Error::MissingSignatureParameter(p) => ErrorView::MissingSignatureParameter(p@),
            Error::UnsupportedAlgorithm(m) => ErrorView::UnsupportedAlgorithm(m@),
            Error::RequiredHeaderAbsent(h) => ErrorView::RequiredHeaderAbsent(h@),
            Error::InvalidHeader { name, reason } => ErrorView::InvalidHeader(name@, reason@),
            Error::UnsupportedDigestAlgorithm(m) => ErrorView::UnsupportedDigestAlgorithm(m@),
            Error::DigestMismatch => ErrorView::DigestMismatch,
        }
    }
}

// ---------------------------------------------------------------------------
// Header sets
// ---------------------------------------------------------------------------

/// The ordered list of header names that participate in a Cavage
/// signature base (the `headers` parameter).
#[derive(Debug, Clone, PartialEq, Eq)]
pub struct CavageHeaderSet {
    names: Vec<String>,
}

impl View for CavageHeaderSet {
    type V = Seq<Seq<char>>;

    closed spec fn view(&self) -> Seq<Seq<char>> {
        self.names.deep_view()
    }
}

/// The names joined with single spaces.
pub open spec fn join_spaces(ns: Seq<Seq<char>>) -> Seq<char>
    decreases ns.len(),
{
    if ns.len() == 0 {
        seq![]
    } else if ns.len() == 1 {
        ns[0]
    } else {
        join_spaces(ns.drop_last()) + seq![' '] + ns.last()
    }
}

impl CavageHeaderSet {
    /// A header set holding `names`, in order.
    pub fn new(names: Vec<String>) -> (s: Self)
        ensures
            s@ == names.deep_view(),
    {
        CavageHeaderSet { names }
    }

    /// Number of header names.
    pub fn len(&self) -> (n: usize)
        ensures
            n == self@.len(),
    {
        self.names.len()
    }

    /// The header names, in order.
    pub fn names(&self) -> (r: &Vec<String>)
        ensures
            r.deep_view() == self@,
    {
        &self.names
    }

    /// The names joined by single spaces, as the `headers` parameter carries them.
    pub fn join_spaces(&self) -> (r: String)
        ensures
            r@ == join_spaces(self@),
    {
        let mut out = String::new();
        let mut k: usize = 0;
        while k < self.names.len()
            invariant
                k <= self.names@.len(),
                out@ == join_spaces(self@.take(k as int)),
            decreases self.names@.len() - k,
        {
            proof {
                assert(self@.take(k + 1).drop_last() == self@.take(k as int));
                assert(self@.take(k + 1).last() == self.names@[k as int]@);
                if k == 0 {
                    assert(self@.take(0) =~= Seq::<Seq<char>>::empty());
                }
            }
            if k > 0 {
                string_push(&mut out, ' ');
            }
            push_str(&mut out, self.names[k].as_str());
            k = k + 1;
        }
        assert(self@.take(self@.len() as int) == self@);
        out
    }
}

// ---------------------------------------------------------------------------
// Lexical layer: top-level commas, quoting
// ---------------------------------------------------------------------------

/// Adds `p` in front of the first piece.
pub open spec fn prepend_first(p: Seq<char>, pieces: Seq<Seq<char>>) -> Seq<Seq<char>> {
    pieces.update(0, p + pieces[0])
}

/// The pieces of `s` between commas that stand outside double quotes; `q`
/// says whether the scan starts inside a quoted region.
pub open spec fn split_commas_from(s: Seq<char>, q: bool) -> Seq<Seq<char>>
    decreases s.len(),
{
    if s.len() == 0 {
        seq![seq![]]
    } else if s[0] == ',' && !q {
        seq![seq![]] + split_commas_from(s.drop_first(), q)
    } else {
        let q2 = if s[0] == '"' {
            !q
        } else {
            q
        };
        prepend_first(seq![s[0]], split_commas_from(s.drop_first(), q2))
    }
}

/// The pieces of the raw header between its top-level commas.
pub open spec fn split_top_level_commas_spec(s: Seq<char>) -> Seq<Seq<char>> {
    split_commas_from(s, false)
}

pub proof fn lemma_split_nonempty(s: Seq<char>, q: bool)
    ensures
        split_commas_from(s, q).len() >= 1,
    decreases s.len(),
{
    if s.len() > 0 {
        let q2 = if s[0] == '"' {
            !q
        } else {
            q
        };
        lemma_split_nonempty(s.drop_first(), q);
        lemma_split_nonempty(s.drop_first(), q2);
    }
}

/// The sub-ranges of `s` that `rs` delimits.
pub open spec fn ranges_view(s: Seq<char>, rs: Seq<(usize, usize)>) -> Seq<Seq<char>> {
    rs.map_values(|r: (usize, usize)| s.subrange(r.0 as int, r.1 as int))
}

pub open spec fn ranges_within(rs: Seq<(usize, usize)>, n: int) -> bool {
    forall|j: int| 0 <= j < rs.len() ==> #[trigger] rs[j].0 <= rs[j].1 <= n
}

/// Splits `v` on commas that stand outside double-quoted regions, so that
/// `signature="a,b,c"` stays one piece. Returns the pieces as ranges.
pub fn split_top_level_commas(v: &Vec<char>) -> (parts: Vec<(usize, usize)>)
    ensures
        ranges_within(parts@, v@.len() as int),
        ranges_view(v@, parts@) == split_top_level_commas_spec(v@),
{
    let mut parts: Vec<(usize, usize)> = Vec::new();
    let mut start: usize = 0;
    let mut in_q = false;
    let mut i: usize = 0;
    assert(v@.skip(0) == v@);
    assert(v@.subrange(0, 0) =~= Seq::<char>::empty());
    proof {
        lemma_split_nonempty(v@, false);
        assert(prepend_first(Seq::<char>::empty(), split_commas_from(v@, false)) =~= split_commas_from(v@, false));
    }
    while i < v.len()
        invariant
            start <= i <= v@.len(),
            ranges_within(parts@, v@.len() as int),
            split_top_level_commas_spec(v@) == ranges_view(v@, parts@) + prepend_first(
                v@.subrange(start as int, i as int),
                split_commas_from(v@.skip(i as int), in_q),
            ),
        decreases v@.len() - i,
    {
        let c = v[i];
        let ghost rest = v@.skip(i + 1);
        let ghost sub = v@.subrange(start as int, i as int);
        assert(v@.skip(i as int).drop_first() == rest);
        assert(v@.skip(i as int)[0] == c);
        if c == ',' && !in_q {
            proof {
                lemma_split_nonempty(rest, in_q);
                let r = split_commas_from(rest, in_q);
                assert(prepend_first(sub, seq![seq![]] + r) =~= seq![sub] + r);
                assert(v@.subrange(i + 1, i + 1) =~= Seq::<char>::empty());
                assert(prepend_first(Seq::<char>::empty(), r) =~= r);
                assert(ranges_view(v@, parts@.push((start, i))) =~= ranges_view(v@, parts@).push(
                    sub,
                ));
            }
            parts.push((start, i));
            start = i + 1;
        } else {
            let ghost q2 = if c == '"' {
                !in_q
            } else {
                in_q
            };
            proof {
                lemma_split_nonempty(rest, q2);
                let r = split_commas_from(rest, q2);
                assert(v@.subrange(start as int, i + 1) =~= sub.push(c));
                assert(sub + (seq![c] + r[0]) =~= sub.push(c) + r[0]);
                assert(prepend_first(sub, prepend_first(seq![c], r)) =~= prepend_first(
                    v@.subrange(start as int, i + 1),
                    r,
                ));
            }
            if c == '"' {
                in_q = !in_q;
            }
        }
        i = i + 1;
    }
    proof {
        let sub = v@.subrange(start as int, i as int);
        assert(v@.skip(i as int) =~= Seq::<char>::empty());
        assert(prepend_first(sub, seq![seq![]]) =~= seq![sub]);
        assert(ranges_view(v@, parts@.push((start, i))) =~= ranges_view(v@, parts@).push(sub));
    }
    parts.push((start, i));
    parts
}

/// Backslash escapes removed: `\x` stands for `x`; a trailing lone
/// backslash is dropped.
pub open spec fn unescape(s: Seq<char>) -> Seq<char>
    decreases s.len(),
{
    if s.len() == 0 {
        seq![]
    } else if s[0] == '\\' {
        if s.len() >= 2 {
            seq![s[1]] + unescape(s.skip(2))
        } else {
            seq![]
        }
    } else {
        seq![s[0]] + unescape(s.drop_first())
    }
}

/// A double-quoted value loses its quotes and escapes; any other value is
/// kept as it is.
pub open spec fn unquote(s: Seq<char>) -> Seq<char> {
    if s.len() >= 2 && s[0] == '"' && s.last() == '"' {
        unescape(s.subrange(1, s.len() - 1))
    } else {
        s
    }
}

pub proof fn lemma_unescape_noop(s: Seq<char>)
    requires
        !s.contains('\\'),
    ensures
        unescape(s) == s,
    decreases s.len(),
{
    if s.len() > 0 {
        assert(!s.drop_first().contains('\\')) by {
            if s.drop_first().contains('\\') {
                let j = choose|j: int| 0 <= j < s.drop_first().len() && s.drop_first()[j] == '\\';
                assert(s[j + 1] == '\\');
            }
        }
        lemma_unescape_noop(s.drop_first());
        assert(s[0] != '\\');
        assert(seq![s[0]] + s.drop_first() =~= s);
    }
}

/// `unescape(v[start..end])`.
fn unescape_range(v: &Vec<char>, start: usize, end: usize) -> (out: Vec<char>)
    requires
        start <= end <= v@.len(),
    ensures
        out@ == unescape(v@.subrange(start as int, end as int)),
{
    let mut out: Vec<char> = Vec::new();
    let mut i = start;
    while i < end
        invariant
            start <= i <= end <= v@.len(),
            unescape(v@.subrange(start as int, end as int)) == out@ + unescape(
                v@.subrange(i as int, end as int),
            ),
        decreases end - i,
    {
        let ghost s = v@.subrange(i as int, end as int);
        let c = v[i];
        if c == '\\' {
            if i + 1 < end {
                let n = v[i + 1];
                proof {
                    assert(s.skip(2) == v@.subrange(i + 2, end as int));
                    assert(out@.push(n) + unescape(s.skip(2)) =~= out@ + (seq![n] + unescape(
                        s.skip(2),
                    )));
                }
                out.push(n);
                i = i + 2;
            } else {
                proof {
                    assert(v@.subrange(end as int, end as int) =~= Seq::<char>::empty());
                    assert(out@ + Seq::<char>::empty() =~= out@);
                }
                i = end;
            }
        } else {
            proof {
                assert(s.drop_first() == v@.subrange(i + 1, end as int));
                assert(out@.push(c) + unescape(s.drop_first()) =~= out@ + (seq![c] + unescape(
                    s.drop_first(),
                )));
            }
            out.push(c);
            i = i + 1;
        }
    }
    assert(v@.subrange(end as int, end as int) =~= Seq::<char>::empty());
    assert(out@ + Seq::<char>::empty() =~= out@);
    out
}

/// `unquote(v[start..end])`.
fn unquote_range(v: &Vec<char>, start: usize, end: usize) -> (out: Vec<char>)
    requires
        start <= end <= v@.len(),
    ensures
        out@ == unquote(v@.subrange(start as int, end as int)),
{
    let ghost s = v@.subrange(start as int, end as int);
    if end - start >= 2 && v[start] == '"' && v[end - 1] == '"' {
        assert(s.subrange(1, s.len() - 1) == v@.subrange(start + 1, end - 1));
        unescape_range(v, start + 1, end - 1)
    } else {
        let mut out: Vec<char> = Vec::new();
        let mut i = start;
        while i < end
            invariant
                start <= i <= end <= v@.len(),
                out@ == v@.subrange(start as int, i as int),
            decreases end - i,
        {
            out.push(v[i]);
            i = i + 1;
            assert(out@ =~= v@.subrange(start as int, i as int));
        }
        out
    }
}

/// Tokens of `s` separated by ASCII whitespace, empty ones skipped
/// (`str::split_ascii_whitespace`).
pub open spec fn ws_tokens(s: Seq<char>) -> Seq<Seq<char>>
    decreases s.len(),
{
    if s.len() == 0 {
        seq![]
    } else {
        let prev = ws_tokens(s.drop_last());
        let c = s.last();
        if is_ascii_ws(c) {
            prev
        } else if s.len() >= 2 && !is_ascii_ws(s[s.len() - 2]) {
            prev.update(prev.len() - 1, prev.last().push(c))
        } else {
            prev.push(seq![c])
        }
    }
}

/// `ws_tokens` of a prefix ending in a word has that word as its last token.
proof fn lemma_ws_tokens_tail(s: Seq<char>)
    requires
        s.len() > 0,
        !is_ascii_ws(s.last()),
    ensures
        ws_tokens(s).len() > 0,
    decreases s.len(),
{
    if s.len() >= 2 && !is_ascii_ws(s[s.len() - 2]) {
        lemma_ws_tokens_tail(s.drop_last());
    }
}

/// Splits `v` on ASCII whitespace into owned tokens.
fn split_ascii_whitespace(v: &Vec<char>) -> (tokens: Vec<String>)
    ensures
        tokens.deep_view() == ws_tokens(v@),
{
    let mut tokens: Vec<String> = Vec::new();
    let mut cur = String::new();
    let mut i: usize = 0;
    assert(v@.take(0) =~= Seq::<char>::empty());
    while i < v.len()
        invariant
            i <= v@.len(),
            ws_tokens(v@.take(i as int)) == tokens.deep_view() + (if cur@.len() > 0 {
                seq![cur@]
            } else {
                seq![]
            }),
            cur@.len() > 0 <==> (i > 0 && !is_ascii_ws(v@[i - 1])),
        decreases v@.len() - i,
    {
        let c = v[i];
        let ghost pre = v@.take(i as int);
        let ghost post = v@.take(i + 1);
        assert(post.drop_last() == pre);
        assert(post.last() == c);
        if is_ascii_ws_exec(c) {
            if !cur.as_str().is_empty() {
                assert(cur@.len() > 0);
                let ghost old_cur = cur@;
                tokens.push(cur);
                cur = String::new();
                assert(tokens.deep_view() =~= ws_tokens(pre).drop_last().push(old_cur));
                proof {
                    assert(tokens.deep_view() + Seq::<Seq<char>>::empty() =~= tokens.deep_view());
                }
            } else {
                assert(tokens.deep_view() + Seq::<Seq<char>>::empty() =~= tokens.deep_view());
            }
        } else {
            proof {
                if i > 0 && !is_ascii_ws(v@[i - 1]) {
                    assert(post[post.len() - 2] == v@[i - 1]);
                    assert(tokens.deep_view() + seq![cur@.push(c)] =~= ws_tokens(post));
                } else {
                    if i > 0 {
                        assert(post[post.len() - 2] == v@[i - 1]);
                    }
                    assert(cur@.len() == 0);
                    assert(cur@.push(c) =~= seq![c]);
                    assert(tokens.deep_view() + seq![cur@.push(c)] =~= (tokens.deep_view()
                        + Seq::<Seq<char>>::empty()).push(seq![c]));
                }
            }
            string_push(&mut cur, c);
        }
        i = i + 1;
    }
    assert(v@.take(v@.len() as int) == v@);
    if !cur.as_str().is_empty() {
        let ghost old_tokens = tokens.deep_view();
        tokens.push(cur);
        assert(tokens.deep_view() =~= old_tokens + seq![cur@]);
    } else {
        assert(tokens.deep_view() + Seq::<Seq<char>>::empty() =~= tokens.deep_view());
    }
    tokens
}

// ---------------------------------------------------------------------------
// The `Signature:` header
// ---------------------------------------------------------------------------

/// Parsed `Signature:` header parameters.
#[derive(Debug, Clone, PartialEq, Eq)]
#[non_exhaustive]
pub struct CavageHeaderParams {
    /// Reference to the public key to verify against.
    pub key_id: String,
    /// Algorithm hint; `None` means "detect from the key itself".
    pub algorithm: Option<String>,
    /// Which headers participate in the signature base string.
    pub headers: CavageHeaderSet,
    /// Base64-encoded signature bytes.
    pub signature: String,
    /// Optional `(created)` timestamp in seconds since the UNIX epoch.
    pub created: Option<i64>,
    /// Optional `(expires)` timestamp in seconds since the UNIX epoch.
    pub expires: Option<i64>,
}

/// The content of [`CavageHeaderParams`].
pub struct CavageParamsView {
    pub key_id: Seq<char>,
    pub algorithm: Option<Seq<char>>,
    pub headers: Seq<Seq<char>>,
    pub signature: Seq<char>,
    pub created: Option<i64>,
    pub expires: Option<i64>,
}

impl View for CavageHeaderParams {
    type V = CavageParamsView;

    open spec fn view(&self) -> CavageParamsView {
        CavageParamsView {
            key_id: self.key_id@,
            algorithm: self.algorithm.deep_view(),
            headers: self.headers@,
            signature: self.signature@,
            created: self.created,
            expires: self.expires,
        }
    }
}

/// What the parameters gathered so far hold, before the mandatory ones are
/// checked.
pub struct ScanState {
    pub key_id: Option<Seq<char>>,
    pub algorithm: Option<Seq<char>>,
    pub headers: Option<Seq<char>>,
    pub signature: Option<Seq<char>>,
    pub created: Option<i64>,
    pub expires: Option<i64>,
}

pub open spec fn empty_scan() -> ScanState {
    ScanState {
        key_id: None,
        algorithm: None,
        headers: None,
        signature: None,
        created: None,
        expires: None,
    }
}

/// The message of a pair without `=`.
pub open spec fn missing_eq_message(pair: Seq<char>) -> Seq<char> {
    "missing `=` in `"@ + pair + "`"@
}

/// The message of a numeric parameter that is not an integer.
pub open spec fn not_integer_message(name: Seq<char>, value: Seq<char>) -> Seq<char> {
    "`"@ + name + "` is not an integer: `"@ + value + "`"@
}

/// What one parameter named `name` with the (unquoted) value `value` does.
pub open spec fn apply_param(acc: ScanState, name: Seq<char>, value: Seq<char>) -> Result<
    ScanState,
    ErrorView,
> {
    if name == "keyId"@ || name == "keyid"@ {
        Ok(ScanState { key_id: Some(value), ..acc })
    } else if name == "algorithm"@ {
        Ok(ScanState { algorithm: Some(value), ..acc })
    } else if name == "headers"@ {
        Ok(ScanState { headers: Some(value), ..acc })
    } else if name == "signature"@ {
        Ok(ScanState { signature: Some(value), ..acc })
    } else if name == "created"@ {
        match spec_parse_i64(value) {
            Some(n) => Ok(ScanState { created: Some(n), ..acc }),
            None => Err(
                ErrorView::MalformedSignatureHeader(not_integer_message("created"@, value)),
            ),
        }
    } else if name == "expires"@ {
        match spec_parse_i64(value) {
            Some(n) => Ok(ScanState { expires: Some(n), ..acc }),
            None => Err(
                ErrorView::MalformedSignatureHeader(not_integer_message("expires"@, value)),
            ),
        }
    } else {
        Ok(acc)
    }
}

/// One trimmed, non-empty `name=value` pair.
pub open spec fn scan_pair(acc: ScanState, pair: Seq<char>) -> Result<ScanState, ErrorView> {
    match split_once(pair, '=') {
        None => Err(ErrorView::MalformedSignatureHeader(missing_eq_message(pair))),
        Some((n, v)) => apply_param(acc, trim(n), unquote(trim(v))),
    }
}

/// All pieces, in order; the first failing pair decides the error.
pub open spec fn scan(pieces: Seq<Seq<char>>) -> Result<ScanState, ErrorView>
    decreases pieces.len(),
{
    if pieces.len() == 0 {
        Ok(empty_scan())
    } else {
        match scan(pieces.drop_last()) {
            Err(e) => Err(e),
            Ok(acc) => {
                let p = trim(pieces.last());
                if p.len() == 0 {
                    Ok(acc)
                } else {
                    scan_pair(acc, p)
                }
            },
        }
    }
}

/// What [`CavageHeaderParams::parse`] computes from the raw header value.
pub open spec fn spec_parse_signature_header(raw: Seq<char>) -> Result<CavageParamsView, ErrorView> {
    match scan(split_top_level_commas_spec(raw)) {
        Err(e) => Err(e),
        Ok(acc) => {
            if acc.key_id is None {
                Err(ErrorView::MissingSignatureParameter("keyId"@))
            } else if acc.signature is None {
                Err(ErrorView::MissingSignatureParameter("signature"@))
            } else {
                Ok(
                    CavageParamsView {
                        key_id: acc.key_id.unwrap(),
                        algorithm: acc.algorithm,
                        headers: match acc.headers {
                            None => seq!["(created)"@],
                            Some(h) => ws_tokens(h),
                        },
                        signature: acc.signature.unwrap(),
                        created: acc.created,
                        expires: acc.expires,
                    },
                )
            }
        },
    }
}

pub open spec fn params_result_view(r: Result<CavageHeaderParams, Error>) -> Result<
    CavageParamsView,
    ErrorView,
> {
    match r {
        Ok(p) => Ok(p@),
        Err(e) => Err(e@),
    }
}

/// An error is final: scanning more pieces keeps it.
proof fn lemma_scan_err_sticks(ps: Seq<Seq<char>>, j: int, m: int)
    requires
        0 <= j <= m <= ps.len(),
        scan(ps.take(j)) is Err,
    ensures
        scan(ps.take(m)) == scan(ps.take(j)),
    decreases m - j,
{
    if m > j {
        lemma_scan_err_sticks(ps, j, m - 1);
        assert(ps.take(m).drop_last() == ps.take(m - 1));
    }
}

/// The exec state of the scan, as a [`ScanState`].
pub open spec fn scan_state_of(
    key_id: Option<String>,
    algorithm: Option<String>,
    headers: Option<Vec<char>>,
    signature: Option<String>,
    created: Option<i64>,
    expires: Option<i64>,
) -> ScanState {
    ScanState {
        key_id: key_id.deep_view(),
        algorithm: algorithm.deep_view(),
        headers: match headers {
            Some(h) => Some(h@),
            None => None,
        },
        signature: signature.deep_view(),
        created: created,
        expires: expires,
    }
}

impl CavageHeaderParams {
    /// Parses the raw `Signature:` header value.
    ///
    /// # Errors
    ///
    /// Returns [`Error::MalformedSignatureHeader`] if the parameter list
    /// cannot be decoded, and [`Error::MissingSignatureParameter`] if
    /// `keyId` or `signature` is absent.
    pub fn parse(raw: &str) -> (res: Result<Self, Error>)
        ensures
            params_result_view(res) == spec_parse_signature_header(raw@),
    {
        let v = chars_of(raw);
        let parts = split_top_level_commas(&v);
        let ghost ps = split_top_level_commas_spec(v@);
        let mut key_id: Option<String> = None;
        let mut algorithm: Option<String> = None;
        let mut headers_field: Option<Vec<char>> = None;
        let mut signature: Option<String> = None;
        let mut created: Option<i64> = None;
        let mut expires: Option<i64> = None;
        let mut k: usize = 0;
        assert(ps.take(0) =~= Seq::<Seq<char>>::empty());
        while k < parts.len()
            invariant
                k <= parts@.len(),
                v@ == raw@,
                ps == split_top_level_commas_spec(v@),
                ranges_within(parts@, v@.len() as int),
                ranges_view(v@, parts@) == ps,
                scan(ps.take(k as int)) == Ok::<ScanState, ErrorView>(
                    scan_state_of(key_id, algorithm, headers_field, signature, created, expires),
                ),
            decreases parts@.len() - k,
        {
            let (a, b) = parts[k];
            let ghost acc = scan_state_of(
                key_id,
                algorithm,
                headers_field,
                signature,
                created,
                expires,
            );
            assert(ps[k as int] == v@.subrange(a as int, b as int));
            assert(ps.take(k + 1).drop_last() == ps.take(k as int));
            assert(ps.take(k + 1).last() == ps[k as int]);
            let (s, e) = trim_range(&v, a, b);
            let ghost pair = v@.subrange(s as int, e as int);
            if s == e {
                k = k + 1;
                continue ;
            }
            match find_char(&v, s, e, '=') {
                None => {
                    let mut msg = String::new();
                    push_str(&mut msg, "missing `=` in `");
                    push_range(&mut msg, &v, s, e);
                    push_str(&mut msg, "`");
                    proof {
                        assert(msg@ =~= missing_eq_message(pair));
                        assert(scan(ps.take(k + 1)) == Err::<ScanState, ErrorView>(
                            ErrorView::MalformedSignatureHeader(missing_eq_message(pair)),
                        ));
                        lemma_scan_err_sticks(ps, k + 1, ps.len() as int);
                        assert(ps.take(ps.len() as int) == ps);
                    }
                    return Err(Error::MalformedSignatureHeader(msg));
                },
                Some(i) => {
                    assert(pair.take(i - s) == v@.subrange(s as int, i as int));
                    assert(pair.skip(i - s + 1) == v@.subrange(i + 1, e as int));
                    let (ns, ne) = trim_range(&v, s, i);
                    let (vs, ve) = trim_range(&v, i + 1, e);
                    let value = unquote_range(&v, vs, ve);
                    let ghost nm = v@.subrange(ns as int, ne as int);
                    if range_eq_str(&v, ns, ne, "keyId") || range_eq_str(&v, ns, ne, "keyid") {
                        key_id = Some(string_from_chars(&value));
                    } else if range_eq_str(&v, ns, ne, "algorithm") {
                        algorithm = Some(string_from_chars(&value));
                    } else if range_eq_str(&v, ns, ne, "headers") {
                        headers_field = Some(value);
                    } else if range_eq_str(&v, ns, ne, "signature") {
                        signature = Some(string_from_chars(&value));
                    } else if range_eq_str(&v, ns, ne, "created") {
                        match parse_i64_range(&value, 0, value.len()) {
                            Some(n) => {
                                created = Some(n);
                            },
                            None => {
                                assert(value@.subrange(0, value@.len() as int) == value@);
                                let mut msg = String::new();
                                push_str(&mut msg, "`");
                                push_str(&mut msg, "created");
                                push_str(&mut msg, "` is not an integer: `");
                                push_range(&mut msg, &value, 0, value.len());
                                push_str(&mut msg, "`");
                                proof {
                                    assert(msg@ =~= not_integer_message("created"@, value@));
                                    assert(scan(ps.take(k + 1)) == Err::<ScanState, ErrorView>(
                                        ErrorView::MalformedSignatureHeader(
                                            not_integer_message("created"@, value@),
                                        ),
                                    ));
                                    lemma_scan_err_sticks(ps, k + 1, ps.len() as int);
                                    assert(ps.take(ps.len() as int) == ps);
                                }
                                return Err(Error::MalformedSignatureHeader(msg));
                            },
                        }
                        assert(value@.subrange(0, value@.len() as int) == value@);
                    } else if range_eq_str(&v, ns, ne, "expires") {
                        match parse_i64_range(&value, 0, value.len()) {
                            Some(n) => {
                                expires = Some(n);
                            },
                            None => {
                                assert(value@.subrange(0, value@.len() as int) == value@);
                                let mut msg = String::new();
                                push_str(&mut msg, "`");
                                push_str(&mut msg, "expires");
                                push_str(&mut msg, "` is not an integer: `");
                                push_range(&mut msg, &value, 0, value.len());
                                push_str(&mut msg, "`");
                                proof {
                                    assert(msg@ =~= not_integer_message("expires"@, value@));
                                    assert(scan(ps.take(k + 1)) == Err::<ScanState, ErrorView>(
                                        ErrorView::MalformedSignatureHeader(
                                            not_integer_message("expires"@, value@),
                                        ),
                                    ));
                                    lemma_scan_err_sticks(ps, k + 1, ps.len() as int);
                                    assert(ps.take(ps.len() as int) == ps);
                                }
                                return Err(Error::MalformedSignatureHeader(msg));
                            },
                        }
                        assert(value@.subrange(0, value@.len() as int) == value@);
                    }
                },
            }
            k = k + 1;
        }
        assert(ps.take(ps.len() as int) == ps);
        let key_id = match key_id {
            Some(k) => k,
            None => {
                return Err(Error::MissingSignatureParameter("keyId"));
            },
        };
        let signature = match signature {
            Some(s) => s,
            None => {
                return Err(Error::MissingSignatureParameter("signature"));
            },
        };
        let headers = match headers_field {
            None => {
                let mut names: Vec<String> = Vec::new();
                names.push("(created)".to_owned());
                assert(names.deep_view() =~= seq!["(created)"@]);
                CavageHeaderSet::new(names)
            },
            Some(h) => CavageHeaderSet::new(split_ascii_whitespace(&h)),
        };
        Ok(CavageHeaderParams { key_id, algorithm, headers, signature, created, expires })
    }
}


// ---------------------------------------------------------------------------
// Emission
// ---------------------------------------------------------------------------

/// `name="value"`.
pub open spec fn quoted_pair(name: Seq<char>, value: Seq<char>) -> Seq<char> {
    name + "=\""@ + value + "\""@
}

/// `name=<decimal>`.
pub open spec fn int_pair(name: Seq<char>, n: i64) -> Seq<char> {
    name + "="@ + i64_to_decimal(n)
}

/// The pairs that [`CavageHeaderParams::to_header_value`] writes, in order.
pub open spec fn header_pairs(p: CavageParamsView) -> Seq<Seq<char>> {
    seq![quoted_pair("keyId"@, p.key_id)] + match p.algorithm {
        Some(a) => seq![quoted_pair("algorithm"@, a)],
        None => seq![],
    } + seq![quoted_pair("headers"@, join_spaces(p.headers))] + match p.created {
        Some(c) => seq![int_pair("created"@, c)],
        None => seq![],
    } + match p.expires {
        Some(e) => seq![int_pair("expires"@, e)],
        None => seq![],
    } + seq![quoted_pair("signature"@, p.signature)]
}

/// The pieces joined by commas.
pub open spec fn join_commas(ps: Seq<Seq<char>>) -> Seq<char>
    decreases ps.len(),
{
    if ps.len() == 0 {
        seq![]
    } else if ps.len() == 1 {
        ps[0]
    } else {
        ps[0] + seq![','] + join_commas(ps.drop_first())
    }
}

/// What [`CavageHeaderParams::to_header_value`] writes.
pub open spec fn spec_header_value(p: CavageParamsView) -> Seq<char> {
    join_commas(header_pairs(p))
}

proof fn lemma_join_commas_push(ps: Seq<Seq<char>>, x: Seq<char>)
    requires
        ps.len() >= 1,
    ensures
        join_commas(ps.push(x)) == join_commas(ps) + seq![','] + x,
    decreases ps.len(),
{
    if ps.len() == 1 {
        assert(ps.push(x).drop_first() =~= seq![x]);
        assert(join_commas(seq![x]) == x);
        assert(join_commas(ps.push(x)) =~= join_commas(ps) + seq![','] + x);
    } else {
        lemma_join_commas_push(ps.drop_first(), x);
        assert(ps.push(x).drop_first() =~= ps.drop_first().push(x));
        assert(join_commas(ps.push(x)) =~= join_commas(ps) + seq![','] + x);
    }
}

/// Appends `name="value"`.
fn push_quoted(out: &mut String, name: &str, value: &str)
    ensures
        final(out)@ == old(out)@ + quoted_pair(name@, value@),
{
    push_str(out, name);
    push_str(out, "=\"");
    push_str(out, value);
    push_str(out, "\"");
    assert(final(out)@ =~= old(out)@ + quoted_pair(name@, value@));
}

/// Appends `name=<decimal>`.
fn push_int(out: &mut String, name: &str, n: i64)
    ensures
        final(out)@ == old(out)@ + int_pair(name@, n),
{
    push_str(out, name);
    push_str(out, "=");
    push_decimal_i64(out, n);
    assert(final(out)@ =~= old(out)@ + int_pair(name@, n));
}

impl CavageHeaderParams {
    /// Serialises back into a `Signature:` header value.
    pub fn to_header_value(&self) -> (r: String)
        ensures
            r@ == spec_header_value(self@),
    {
        let ghost p = self@;
        let mut out = String::new();
        push_quoted(&mut out, "keyId", self.key_id.as_str());
        let ghost mut ps: Seq<Seq<char>> = seq![quoted_pair("keyId"@, p.key_id)];
        assert(out@ =~= join_commas(ps));
        if let Some(alg) = &self.algorithm {
            string_push(&mut out, ',');
            push_quoted(&mut out, "algorithm", alg.as_str());
            proof {
                lemma_join_commas_push(ps, quoted_pair("algorithm"@, alg@));
                ps = ps.push(quoted_pair("algorithm"@, alg@));
                assert(out@ =~= join_commas(ps));
            }
        }
        let ghost after_alg = ps;
        let joined = self.headers.join_spaces();
        string_push(&mut out, ',');
        push_quoted(&mut out, "headers", joined.as_str());
        proof {
            lemma_join_commas_push(ps, quoted_pair("headers"@, joined@));
            ps = ps.push(quoted_pair("headers"@, joined@));
            assert(out@ =~= join_commas(ps));
        }
        let ghost after_headers = ps;
        if let Some(c) = self.created {
            string_push(&mut out, ',');
            push_int(&mut out, "created", c);
            proof {
                lemma_join_commas_push(ps, int_pair("created"@, c));
                ps = ps.push(int_pair("created"@, c));
                assert(out@ =~= join_commas(ps));
            }
        }
        let ghost after_created = ps;
        if let Some(e) = self.expires {
            string_push(&mut out, ',');
            push_int(&mut out, "expires", e);
            proof {
                lemma_join_commas_push(ps, int_pair("expires"@, e));
                ps = ps.push(int_pair("expires"@, e));
                assert(out@ =~= join_commas(ps));
            }
        }
        let ghost after_expires = ps;
        string_push(&mut out, ',');
        push_quoted(&mut out, "signature", self.signature.as_str());
        proof {
            lemma_join_commas_push(ps, quoted_pair("signature"@, p.signature));
            ps = ps.push(quoted_pair("signature"@, p.signature));
            assert(out@ =~= join_commas(ps));
            assert(ps =~= header_pairs(p));
        }
        out
    }
}


// ---------------------------------------------------------------------------
// Emitting and parsing back
// ---------------------------------------------------------------------------

/// Whether the scan of `a` ends inside quotes, starting in state `q`.
pub open spec fn quote_after(a: Seq<char>, q: bool) -> bool
    decreases a.len(),
{
    if a.len() == 0 {
        q
    } else {
        quote_after(
            a.drop_first(),
            if a[0] == '"' {
                !q
            } else {
                q
            },
        )
    }
}

/// Whether `a` holds no comma outside quotes, starting in state `q`.
pub open spec fn no_top_comma(a: Seq<char>, q: bool) -> bool
    decreases a.len(),
{
    if a.len() == 0 {
        true
    } else {
        (a[0] != ',' || q) && no_top_comma(
            a.drop_first(),
            if a[0] == '"' {
                !q
            } else {
                q
            },
        )
    }
}

/// A piece that survives the comma split whole.
pub open spec fn clean_piece(a: Seq<char>) -> bool {
    no_top_comma(a, false) && !quote_after(a, false)
}

proof fn lemma_prepend_first_assoc(x: Seq<char>, y: Seq<char>, r: Seq<Seq<char>>)
    requires
        r.len() >= 1,
    ensures
        prepend_first(x, prepend_first(y, r)) == prepend_first(x + y, r),
{
    assert(x + (y + r[0]) =~= (x + y) + r[0]);
    assert(prepend_first(x, prepend_first(y, r)) =~= prepend_first(x + y, r));
}

proof fn lemma_split_prefix(a: Seq<char>, t: Seq<char>, q: bool)
    requires
        no_top_comma(a, q),
    ensures
        split_commas_from(a + t, q) == prepend_first(a, split_commas_from(t, quote_after(a, q))),
    decreases a.len(),
{
    if a.len() == 0 {
        assert(a + t =~= t);
        lemma_split_nonempty(t, q);
        let r = split_commas_from(t, q);
        assert(a + r[0] =~= r[0]);
        assert(prepend_first(a, r) =~= r);
    } else {
        let c = a[0];
        let q2 = if c == '"' {
            !q
        } else {
            q
        };
        assert((a + t)[0] == c);
        assert((a + t).drop_first() =~= a.drop_first() + t);
        lemma_split_prefix(a.drop_first(), t, q2);
        lemma_split_nonempty(t, quote_after(a, q));
        lemma_prepend_first_assoc(seq![c], a.drop_first(), split_commas_from(t, quote_after(a, q)));
        assert(seq![c] + a.drop_first() =~= a);
    }
}

proof fn lemma_quote_concat(a: Seq<char>, b: Seq<char>, q: bool)
    ensures
        quote_after(a + b, q) == quote_after(b, quote_after(a, q)),
        no_top_comma(a + b, q) == (no_top_comma(a, q) && no_top_comma(b, quote_after(a, q))),
    decreases a.len(),
{
    if a.len() == 0 {
        assert(a + b =~= b);
    } else {
        let q2 = if a[0] == '"' {
            !q
        } else {
            q
        };
        assert((a + b)[0] == a[0]);
        assert((a + b).drop_first() =~= a.drop_first() + b);
        lemma_quote_concat(a.drop_first(), b, q2);
    }
}

proof fn lemma_plain_segment(a: Seq<char>, q: bool)
    requires
        !a.contains('"'),
    ensures
        quote_after(a, q) == q,
        (q || !a.contains(',')) ==> no_top_comma(a, q),
    decreases a.len(),
{
    if a.len() > 0 {
        assert(a[0] != '"');
        assert(!a.drop_first().contains('"')) by {
            if a.drop_first().contains('"') {
                let j = choose|j: int| 0 <= j < a.drop_first().len() && a.drop_first()[j] == '"';
                assert(a[j + 1] == '"');
            }
        }
        if !q && !a.contains(',') {
            assert(a[0] != ',');
            assert(!a.drop_first().contains(',')) by {
                if a.drop_first().contains(',') {
                    let j = choose|j: int|
                        0 <= j < a.drop_first().len() && a.drop_first()[j] == ',';
                    assert(a[j + 1] == ',');
                }
            }
        }
        lemma_plain_segment(a.drop_first(), q);
    }
}

/// A parameter name this crate emits: non-empty, no whitespace at either
/// end, and none of `=`, `"`, `,`, `\`.
pub open spec fn name_ok(n: Seq<char>) -> bool {
    &&& n.len() > 0
    &&& !is_ws(n[0])
    &&& !is_ws(n.last())
    &&& !n.contains('=')
    &&& !n.contains('"')
    &&& !n.contains(',')
}

/// A quoted value that reads back as itself: no `"` and no `\`.
pub open spec fn plain_value(v: Seq<char>) -> bool {
    !v.contains('"') && !v.contains('\\')
}

proof fn lemma_quoted_pair_clean(n: Seq<char>, v: Seq<char>)
    requires
        name_ok(n),
        !v.contains('"'),
    ensures
        clean_piece(quoted_pair(n, v)),
{
    reveal_strlit("=\"");
    reveal_strlit("\"");
    let eq = "=\""@;
    let qt = "\""@;
    lemma_plain_segment(n, false);
    assert(eq.drop_first() =~= qt);
    assert(qt.drop_first() =~= Seq::<char>::empty());
    let e = Seq::<char>::empty();
    assert(eq[0] == '=');
    assert(qt[0] == '"');
    assert(quote_after(e, true));
    assert(no_top_comma(e, true));
    assert(!quote_after(e, false));
    assert(no_top_comma(e, false));
    assert(quote_after(qt, false));
    assert(no_top_comma(qt, false));
    assert(quote_after(eq, false));
    assert(no_top_comma(eq, false));
    assert(!quote_after(qt, true));
    assert(no_top_comma(qt, true));
    lemma_plain_segment(v, true);
    lemma_quote_concat(n, eq, false);
    lemma_quote_concat(n + eq, v, false);
    lemma_quote_concat(n + eq + v, qt, false);
}

proof fn lemma_decimal_chars(k: i64)
    ensures
        !i64_to_decimal(k).contains('"'),
        !i64_to_decimal(k).contains(','),
        !i64_to_decimal(k).contains('\\'),
        !i64_to_decimal(k).contains('='),
{
    let d = i64_to_decimal(k);
    if k < 0 {
        lemma_nat_to_decimal((-(k as int)) as nat);
    } else {
        lemma_nat_to_decimal(k as nat);
    }
    assert(forall|i: int| 0 <= i < d.len() ==> d[i] == '-' || is_ascii_digit(d[i])) by {
        if k < 0 {
            assert(forall|i: int|
                1 <= i < d.len() ==> d[i] == nat_to_decimal((-(k as int)) as nat)[i - 1]);
        }
    }
}

proof fn lemma_int_pair_clean(n: Seq<char>, k: i64)
    requires
        name_ok(n),
    ensures
        clean_piece(int_pair(n, k)),
{
    reveal_strlit("=");
    let eq = "="@;
    lemma_decimal_chars(k);
    assert(!eq.contains('"') && !eq.contains(','));
    lemma_plain_segment(n, false);
    lemma_plain_segment(eq, false);
    lemma_plain_segment(i64_to_decimal(k), false);
    lemma_quote_concat(n, eq, false);
    lemma_quote_concat(n + eq, i64_to_decimal(k), false);
}

proof fn lemma_split_join(ps: Seq<Seq<char>>)
    requires
        ps.len() >= 1,
        forall|i: int| 0 <= i < ps.len() ==> clean_piece(#[trigger] ps[i]),
    ensures
        split_commas_from(join_commas(ps), false) == ps,
    decreases ps.len(),
{
    let p0 = ps[0];
    assert(clean_piece(p0));
    if ps.len() == 1 {
        lemma_split_prefix(p0, Seq::<char>::empty(), false);
        assert(p0 + Seq::<char>::empty() =~= p0);
        assert(prepend_first(p0, seq![seq![]]) =~= ps);
    } else {
        let rest = ps.drop_first();
        assert(forall|i: int| 0 <= i < rest.len() ==> clean_piece(#[trigger] rest[i])) by {
            assert(forall|i: int| 0 <= i < rest.len() ==> rest[i] == ps[i + 1]);
        }
        lemma_split_join(rest);
        let t = seq![','] + join_commas(rest);
        assert(join_commas(ps) =~= p0 + t);
        lemma_split_prefix(p0, t, false);
        assert(t.drop_first() =~= join_commas(rest));
        assert(split_commas_from(t, false) == seq![seq![]] + rest);
        assert(prepend_first(p0, seq![seq![]] + rest) =~= ps);
    }
}

proof fn lemma_scan_push(l: Seq<Seq<char>>, x: Seq<char>)
    ensures
        scan(l.push(x)) == (match scan(l) {
            Err(e) => Err(e),
            Ok(acc) => {
                let p = trim(x);
                if p.len() == 0 {
                    Ok(acc)
                } else {
                    scan_pair(acc, p)
                }
            },
        }),
{
    assert(l.push(x).drop_last() == l);
}

proof fn lemma_scan_quoted(acc: ScanState, n: Seq<char>, v: Seq<char>)
    requires
        name_ok(n),
        plain_value(v),
    ensures
        trim(quoted_pair(n, v)) == quoted_pair(n, v),
        quoted_pair(n, v).len() > 0,
        scan_pair(acc, quoted_pair(n, v)) == apply_param(acc, n, v),
{
    reveal_strlit("=\"");
    reveal_strlit("\"");
    let qp = quoted_pair(n, v);
    let val = "\""@ + v + "\""@;
    assert(qp =~= n + seq!['='] + val);
    assert(qp[0] == n[0]);
    assert(qp.last() == '"');
    lemma_trim_noop(qp);
    assert forall|j: int| 0 <= j < n.len() implies qp[j] != '=' by {
        assert(qp[j] == n[j]);
    }
    lemma_index_of_found(qp, '=', n.len() as int);
    assert(qp.take(n.len() as int) =~= n);
    assert(qp.skip(n.len() + 1 as int) =~= val);
    lemma_trim_noop(n);
    lemma_trim_noop(val);
    assert(val.subrange(1, val.len() - 1) =~= v);
    lemma_unescape_noop(v);
}

proof fn lemma_scan_int(acc: ScanState, n: Seq<char>, k: i64)
    requires
        name_ok(n),
    ensures
        trim(int_pair(n, k)) == int_pair(n, k),
        int_pair(n, k).len() > 0,
        scan_pair(acc, int_pair(n, k)) == apply_param(acc, n, i64_to_decimal(k)),
        spec_parse_i64(i64_to_decimal(k)) == Some(k),
{
    reveal_strlit("=");
    let d = i64_to_decimal(k);
    let ip = int_pair(n, k);
    lemma_i64_decimal_roundtrip(k);
    assert(ip =~= n + seq!['='] + d);
    assert(ip[0] == n[0]);
    assert(ip.last() == d.last());
    lemma_trim_noop(ip);
    assert forall|j: int| 0 <= j < n.len() implies ip[j] != '=' by {
        assert(ip[j] == n[j]);
    }
    lemma_index_of_found(ip, '=', n.len() as int);
    assert(ip.take(n.len() as int) =~= n);
    assert(ip.skip(n.len() + 1 as int) =~= d);
    lemma_trim_noop(n);
    lemma_trim_noop(d);
}

proof fn lemma_tokens_append_word(x: Seq<char>, w: Seq<char>)
    requires
        w.len() > 0,
        forall|i: int| 0 <= i < w.len() ==> !is_ascii_ws(#[trigger] w[i]),
        x.len() == 0 || is_ascii_ws(x.last()),
    ensures
        ws_tokens(x + w) == ws_tokens(x).push(w),
    decreases w.len(),
{
    let s = x + w;
    if w.len() == 1 {
        assert(s.drop_last() =~= x);
        assert(s.last() == w[0]);
        if s.len() >= 2 {
            assert(s[s.len() - 2] == x.last());
        }
        assert(seq![w[0]] =~= w);
    } else {
        let w2 = w.drop_last();
        lemma_tokens_append_word(x, w2);
        assert(s.drop_last() =~= x + w2);
        assert(s[s.len() - 2] == w[w.len() - 2]);
        assert(w2.push(w.last()) =~= w);
        assert(ws_tokens(s) =~= ws_tokens(x).push(w));
    }
}

/// A header name that survives being joined with spaces and split again.
pub open spec fn header_name_ok(n: Seq<char>) -> bool {
    &&& n.len() > 0
    &&& forall|i: int| 0 <= i < n.len() ==> !is_ascii_ws(#[trigger] n[i])
    &&& plain_value(n)
}

proof fn lemma_tokens_join_spaces(ns: Seq<Seq<char>>)
    requires
        forall|i: int| 0 <= i < ns.len() ==> header_name_ok(#[trigger] ns[i]),
    ensures
        ws_tokens(join_spaces(ns)) == ns,
    decreases ns.len(),
{
    if ns.len() == 0 {
    } else if ns.len() == 1 {
        assert(header_name_ok(ns[0]));
        lemma_tokens_append_word(Seq::<char>::empty(), ns[0]);
        assert(Seq::<char>::empty() + ns[0] =~= ns[0]);
        assert(ws_tokens(Seq::<char>::empty()).push(ns[0]) =~= ns);
    } else {
        let init = ns.drop_last();
        assert(forall|i: int| 0 <= i < init.len() ==> header_name_ok(#[trigger] init[i])) by {
            assert(forall|i: int| 0 <= i < init.len() ==> init[i] == ns[i]);
        }
        lemma_tokens_join_spaces(init);
        let x = join_spaces(init) + seq![' '];
        assert(x.drop_last() =~= join_spaces(init));
        assert(ws_tokens(x) == ws_tokens(join_spaces(init)));
        assert(header_name_ok(ns.last()));
        lemma_tokens_append_word(x, ns.last());
        assert(init.push(ns.last()) =~= ns);
    }
}

/// The parameters that [`CavageHeaderParams::to_header_value`] can write so
/// that [`CavageHeaderParams::parse`] reads them back: the quoted values
/// hold no `"` and no `\`, and each header name is a non-empty word without
/// ASCII whitespace.
pub open spec fn emittable(p: CavageParamsView) -> bool {
    &&& plain_value(p.key_id)
    &&& plain_value(p.signature)
    &&& (p.algorithm matches Some(a) ==> plain_value(a))
    &&& forall|i: int| 0 <= i < p.headers.len() ==> header_name_ok(#[trigger] p.headers[i])
}

/// A successful parse yielding `p`.
pub open spec fn parsed_as(p: CavageParamsView) -> Result<CavageParamsView, ErrorView> {
    Ok(p)
}

/// Writing a `Signature:` header value and parsing it back yields the same
/// parameters, for every parameter set whose values need no escaping.
#[verifier::spinoff_prover]
#[verifier::rlimit(40)]
pub proof fn lemma_header_value_roundtrip(p: CavageParamsView)
    requires
        emittable(p),
    ensures
        spec_parse_signature_header(spec_header_value(p)) == parsed_as(p),
{
    reveal_strlit("keyId");
    reveal_strlit("keyid");
    reveal_strlit("algorithm");
    reveal_strlit("headers");
    reveal_strlit("signature");
    reveal_strlit("created");
    reveal_strlit("expires");
    let hs = join_spaces(p.headers);
    assert(plain_value(hs)) by {
        lemma_join_spaces_plain(p.headers);
    }
    assert(name_ok("keyId"@));
    assert(name_ok("algorithm"@));
    assert(name_ok("headers"@));
    assert(name_ok("signature"@));
    assert(name_ok("created"@));
    assert(name_ok("expires"@));
    let ps = header_pairs(p);
    // every pair survives the comma split
    lemma_quoted_pair_clean("keyId"@, p.key_id);
    lemma_quoted_pair_clean("headers"@, hs);
    lemma_quoted_pair_clean("signature"@, p.signature);
    if let Some(a) = p.algorithm {
        lemma_quoted_pair_clean("algorithm"@, a);
    }
    if let Some(c) = p.created {
        lemma_int_pair_clean("created"@, c);
    }
    if let Some(e) = p.expires {
        lemma_int_pair_clean("expires"@, e);
    }
    assert(forall|i: int| 0 <= i < ps.len() ==> clean_piece(#[trigger] ps[i]));
    lemma_split_join(ps);
    // scanning the pairs one by one
    let l1 = seq![quoted_pair("keyId"@, p.key_id)];
    assert(l1 =~= Seq::<Seq<char>>::empty().push(quoted_pair("keyId"@, p.key_id)));
    lemma_scan_push(Seq::<Seq<char>>::empty(), quoted_pair("keyId"@, p.key_id));
    lemma_scan_quoted(empty_scan(), "keyId"@, p.key_id);
    let s1 = ScanState { key_id: Some(p.key_id), ..empty_scan() };
    assert(scan(l1) == Ok::<ScanState, ErrorView>(s1));
    let (l2, s2) = match p.algorithm {
        Some(a) => {
            lemma_scan_push(l1, quoted_pair("algorithm"@, a));
            lemma_scan_quoted(s1, "algorithm"@, a);
            (l1.push(quoted_pair("algorithm"@, a)), ScanState { algorithm: Some(a), ..s1 })
        },
        None => (l1, s1),
    };
    assert(scan(l2) == Ok::<ScanState, ErrorView>(s2));
    lemma_scan_push(l2, quoted_pair("headers"@, hs));
    lemma_scan_quoted(s2, "headers"@, hs);
    let l3 = l2.push(quoted_pair("headers"@, hs));
    let s3 = ScanState { headers: Some(hs), ..s2 };
    assert(scan(l3) == Ok::<ScanState, ErrorView>(s3));
    let (l4, s4) = match p.created {
        Some(c) => {
            lemma_scan_push(l3, int_pair("created"@, c));
            lemma_scan_int(s3, "created"@, c);
            (l3.push(int_pair("created"@, c)), ScanState { created: Some(c), ..s3 })
        },
        None => (l3, s3),
    };
    assert(scan(l4) == Ok::<ScanState, ErrorView>(s4));
    let (l5, s5) = match p.expires {
        Some(e) => {
            lemma_scan_push(l4, int_pair("expires"@, e));
            lemma_scan_int(s4, "expires"@, e);
            (l4.push(int_pair("expires"@, e)), ScanState { expires: Some(e), ..s4 })
        },
        None => (l4, s4),
    };
    assert(scan(l5) == Ok::<ScanState, ErrorView>(s5));
    lemma_scan_push(l5, quoted_pair("signature"@, p.signature));
    lemma_scan_quoted(s5, "signature"@, p.signature);
    let l6 = l5.push(quoted_pair("signature"@, p.signature));
    let s6 = ScanState { signature: Some(p.signature), ..s5 };
    assert(scan(l6) == Ok::<ScanState, ErrorView>(s6));
    assert(l6 =~= ps);
    lemma_tokens_join_spaces(p.headers);
}

proof fn lemma_join_spaces_plain(ns: Seq<Seq<char>>)
    requires
        forall|i: int| 0 <= i < ns.len() ==> header_name_ok(#[trigger] ns[i]),
    ensures
        plain_value(join_spaces(ns)),
    decreases ns.len(),
{
    if ns.len() == 1 {
        assert(header_name_ok(ns[0]));
    } else if ns.len() > 1 {
        let init = ns.drop_last();
        assert(forall|i: int| 0 <= i < init.len() ==> header_name_ok(#[trigger] init[i])) by {
            assert(forall|i: int| 0 <= i < init.len() ==> init[i] == ns[i]);
        }
        lemma_join_spaces_plain(init);
        assert(header_name_ok(ns.last()));
        let j = join_spaces(ns);
        let a = join_spaces(init);
        let b = ns.last();
        assert(j =~= a + seq![' '] + b);
        assert forall|c: char| c == '"' || c == '\\' implies !j.contains(c) by {
            if j.contains(c) {
                let i = choose|i: int| 0 <= i < j.len() && j[i] == c;
                if i < a.len() {
                    assert(a[i] == c);
                } else if i > a.len() {
                    assert(b[i - a.len() - 1] == c);
                }
            }
        }
    }
}

proof fn lemma_split_concat(a: Seq<char>, b: Seq<char>, q: bool)
    requires
        !quote_after(a, q),
    ensures
        split_commas_from(a + seq![','] + b, q) == split_commas_from(a, q) + split_commas_from(
            b,
            false,
        ),
    decreases a.len(),
{
    let s = a + seq![','] + b;
    if a.len() == 0 {
        assert(s =~= seq![','] + b);
        assert(s[0] == ',');
        assert(s.drop_first() =~= b);
    } else {
        let c = a[0];
        let q2 = if c == '"' {
            !q
        } else {
            q
        };
        assert(s[0] == c);
        assert(s.drop_first() =~= a.drop_first() + seq![','] + b);
        lemma_split_concat(a.drop_first(), b, q2);
        let x = split_commas_from(a.drop_first(), q2);
        let t = split_commas_from(b, false);
        if c == ',' && !q {
            assert(seq![seq![]] + (x + t) =~= (seq![seq![]] + x) + t);
        } else {
            lemma_split_nonempty(a.drop_first(), q2);
            assert(prepend_first(seq![c], x + t) =~= prepend_first(seq![c], x) + t);
        }
    }
}

/// The parameter names that parsing reads; any other is ignored.
pub open spec fn known_param(n: Seq<char>) -> bool {
    n == "keyId"@ || n == "keyid"@ || n == "algorithm"@ || n == "headers"@ || n == "signature"@
        || n == "created"@ || n == "expires"@
}

proof fn lemma_scan_any_quoted(acc: ScanState, n: Seq<char>, v: Seq<char>)
    requires
        name_ok(n),
    ensures
        trim(quoted_pair(n, v)) == quoted_pair(n, v),
        quoted_pair(n, v).len() > 0,
        scan_pair(acc, quoted_pair(n, v)) == apply_param(acc, n, unescape(v)),
{
    reveal_strlit("=\"");
    reveal_strlit("\"");
    let qp = quoted_pair(n, v);
    let val = "\""@ + v + "\""@;
    assert(qp =~= n + seq!['='] + val);
    assert(qp[0] == n[0]);
    assert(qp.last() == '"');
    lemma_trim_noop(qp);
    assert forall|j: int| 0 <= j < n.len() implies qp[j] != '=' by {
        assert(qp[j] == n[j]);
    }
    lemma_index_of_found(qp, '=', n.len() as int);
    assert(qp.take(n.len() as int) =~= n);
    assert(qp.skip(n.len() + 1 as int) =~= val);
    lemma_trim_noop(n);
    lemma_trim_noop(val);
    assert(val.subrange(1, val.len() - 1) =~= v);
}

proof fn lemma_scan_unknown(acc: ScanState, n: Seq<char>, v: Seq<char>)
    requires
        name_ok(n),
        !known_param(n),
    ensures
        trim(quoted_pair(n, v)) == quoted_pair(n, v),
        quoted_pair(n, v).len() > 0,
        scan_pair(acc, quoted_pair(n, v)) matches Ok(a) && a == acc,
{
    lemma_scan_any_quoted(acc, n, v);
}

/// Parameters that parsing does not know are ignored: appending one,
/// `,name="value"`, to a header value whose quotes are balanced leaves the
/// parse as it was (the same parameters, or the same error).
pub proof fn lemma_unknown_parameter_ignored(raw: Seq<char>, n: Seq<char>, v: Seq<char>)
    requires
        !quote_after(raw, false),
        name_ok(n),
        !known_param(n),
        !v.contains('"'),
    ensures
        spec_parse_signature_header(raw + seq![','] + quoted_pair(n, v))
            == spec_parse_signature_header(raw),
{
    let qp = quoted_pair(n, v);
    lemma_split_concat(raw, qp, false);
    lemma_quoted_pair_clean(n, v);
    lemma_split_join(seq![qp]);
    assert(join_commas(seq![qp]) == qp);
    let ps = split_commas_from(raw, false);
    assert(ps + seq![qp] =~= ps.push(qp));
    lemma_scan_push(ps, qp);
    lemma_scan_unknown(empty_scan(), n, v);
    if let Ok(acc) = scan(ps) {
        lemma_scan_unknown(acc, n, v);
    }
}

/// Whether the names `a` and `b` set the same parameter.
pub open spec fn same_param(a: Seq<char>, b: Seq<char>) -> bool {
    a == b || ((a == "keyId"@ || a == "keyid"@) && (b == "keyId"@ || b == "keyid"@))
}

/// Whether `name="value"` is read without error: `created` and `expires`
/// need an integer.
pub open spec fn accepted_param(n: Seq<char>, v: Seq<char>) -> bool {
    (n == "created"@ || n == "expires"@) ==> spec_parse_i64(unescape(v)) is Some
}

/// Parameter order is not significant: appending two parameters that set
/// different fields, and that are read without error, to a header value
/// whose quotes are balanced parses the same in either order.
pub proof fn lemma_parameter_order(
    raw: Seq<char>,
    n1: Seq<char>,
    v1: Seq<char>,
    n2: Seq<char>,
    v2: Seq<char>,
)
    requires
        !quote_after(raw, false),
        name_ok(n1),
        name_ok(n2),
        !v1.contains('"'),
        !v2.contains('"'),
        !same_param(n1, n2),
        accepted_param(n1, v1),
        accepted_param(n2, v2),
    ensures
        spec_parse_signature_header(
            raw + seq![','] + quoted_pair(n1, v1) + seq![','] + quoted_pair(n2, v2),
        ) == spec_parse_signature_header(
            raw + seq![','] + quoted_pair(n2, v2) + seq![','] + quoted_pair(n1, v1),
        ),
{
    reveal_strlit("keyId");
    reveal_strlit("keyid");
    reveal_strlit("algorithm");
    reveal_strlit("headers");
    reveal_strlit("signature");
    reveal_strlit("created");
    reveal_strlit("expires");
    let q1 = quoted_pair(n1, v1);
    let q2 = quoted_pair(n2, v2);
    lemma_quoted_pair_clean(n1, v1);
    lemma_quoted_pair_clean(n2, v2);
    let comma = seq![','];
    assert(comma.drop_first() =~= Seq::<char>::empty());
    assert(!quote_after(comma.drop_first(), false));
    assert(!quote_after(comma, false));
    lemma_quote_concat(raw, comma, false);
    lemma_quote_concat(raw + comma, q1, false);
    lemma_quote_concat(raw + comma, q2, false);
    let a1 = raw + comma + q1;
    let a2 = raw + comma + q2;
    lemma_split_concat(raw, q1, false);
    lemma_split_concat(raw, q2, false);
    lemma_split_concat(a1, q2, false);
    lemma_split_concat(a2, q1, false);
    lemma_split_join(seq![q1]);
    lemma_split_join(seq![q2]);
    assert(join_commas(seq![q1]) == q1);
    assert(join_commas(seq![q2]) == q2);
    let ps = split_commas_from(raw, false);
    assert(split_commas_from(a1, false) =~= ps.push(q1));
    assert(split_commas_from(a2, false) =~= ps.push(q2));
    assert(split_commas_from(a1 + comma + q2, false) =~= ps.push(q1).push(q2));
    assert(split_commas_from(a2 + comma + q1, false) =~= ps.push(q2).push(q1));
    lemma_scan_push(ps, q1);
    lemma_scan_push(ps, q2);
    lemma_scan_push(ps.push(q1), q2);
    lemma_scan_push(ps.push(q2), q1);
    if let Ok(acc) = scan(ps) {
        let x1 = unescape(v1);
        let x2 = unescape(v2);
        lemma_scan_any_quoted(acc, n1, v1);
        lemma_scan_any_quoted(acc, n2, v2);
        let b1 = apply_param(acc, n1, x1);
        let b2 = apply_param(acc, n2, x2);
        assert(b1 is Ok);
        assert(b2 is Ok);
        lemma_scan_any_quoted(b1->Ok_0, n2, v2);
        lemma_scan_any_quoted(b2->Ok_0, n1, v1);
        assert(apply_param(b1->Ok_0, n2, x2) == apply_param(b2->Ok_0, n1, x1));
    }
}

} // verus!
