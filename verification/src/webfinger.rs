//! WebFinger (RFC 7033) primitives: `acct:` URIs (RFC 7565) and the
//! well-known lookup URL.
use vstd::prelude::*;
use vstd::utf8::encode_utf8;

use crate::text::{
    all_ascii, ascii_lower, chars_of, find_char, has_prefix, index_of, push_range, push_str,
    range_eq_str, spec_to_lowercase, split_once, str_to_lowercase, string_from_range, string_push,
};
use crate::urls::{parse_url_text, url_parses, url_serialization};

verus! {

/// Path of the WebFinger endpoint.
pub const WELL_KNOWN_PATH: &'static str = "/.well-known/webfinger";

/// Media type of a JSON Resource Descriptor.
pub const MEDIA_TYPE: &'static str = "application/jrd+json";

/// Errors of account parsing and WebFinger discovery.
#[derive(Debug, PartialEq, Eq)]
pub enum Error {
    /// The text is not an `acct:` identifier.
    InvalidAcct(String),
    /// The WebFinger URL could not be built.
    InvalidUrl(url::ParseError),
    /// The server answered with a non-2xx status.
    BadStatus(u16),
    /// The JRD has an empty `subject`.
    MissingSubject,
    /// The JRD describes another resource than the one requested.
    SubjectMismatch { requested: String, returned: String },
    /// The request could not be sent or its answer not read.
    Http(String),
    /// The answer is not a JRD.
    Json(String),
}

pub enum ErrorView {
    InvalidAcct(Seq<char>),
    InvalidUrl,
    BadStatus(u16),
    MissingSubject,
    SubjectMismatch(Seq<char>, Seq<char>),
    Http(Seq<char>),
    Json(Seq<char>),
}

impl View for Error {
    type V = ErrorView;

    open spec fn view(&self) -> ErrorView {
        match self {
            Error::InvalidAcct(m) => ErrorView::InvalidAcct(m@),
            Error::InvalidUrl(_) => ErrorView::InvalidUrl,
            Error::BadStatus(s) => ErrorView::BadStatus(*s),
            Error::MissingSubject => ErrorView::MissingSubject,
            Error::SubjectMismatch { requested, returned } => ErrorView::SubjectMismatch(
                requested@,
                returned@,
            ),
            Error::Http(m) => ErrorView::Http(m@),
            Error::Json(m) => ErrorView::Json(m@),
        }
    }
}

/// A Fediverse account identifier of the form `acct:user@host`: a non-empty
/// user part and a non-empty host, the host in lowercase.
#[derive(Debug, PartialEq, Eq, Hash)]
pub struct Account {
    user: String,
    host: String,
}

pub struct AccountView {
    pub user: Seq<char>,
    pub host: Seq<char>,
}

impl View for Account {
    type V = AccountView;

    closed spec fn view(&self) -> AccountView {
        AccountView { user: self.user@, host: self.host@ }
    }
}

impl Clone for Account {
    fn clone(&self) -> (c: Self)
        ensures
            c@ == self@,
    {
        proof {
            use_type_invariant(self);
        }
        Account { user: self.user.clone(), host: self.host.clone() }
    }
}

/// The canonical `acct:user@host` text.
pub open spec fn spec_resource(a: AccountView) -> Seq<char> {
    "acct:"@ + a.user + "@"@ + a.host
}

/// What [`Account::new`] builds from its parts.
pub open spec fn spec_new_account(user: Seq<char>, host: Seq<char>) -> Result<
    AccountView,
    ErrorView,
> {
    if user.len() == 0 || host.len() == 0 {
        Err(ErrorView::InvalidAcct("empty user or host"@))
    } else {
        Ok(AccountView { user, host: spec_to_lowercase(host) })
    }
}

/// The text after an optional `acct:` or `@` prefix.
pub open spec fn acct_body(s: Seq<char>) -> Seq<char> {
    if s.len() >= 5 && s.take(5) == "acct:"@ {
        s.skip(5)
    } else if s.len() >= 1 && s[0] == '@' {
        s.skip(1)
    } else {
        s
    }
}

/// The host part of the text `s` of an account: what follows its first `@`
/// once the `acct:` or `@` prefix is dropped.
pub open spec fn acct_host_text(s: Seq<char>) -> Seq<char> {
    match split_once(acct_body(s), '@') {
        Some((_, h)) => h,
        None => seq![],
    }
}

/// What [`Account::parse`] makes of `s`.
pub open spec fn spec_parse_account(s: Seq<char>) -> Result<AccountView, ErrorView> {
    match split_once(acct_body(s), '@') {
        None => Err(ErrorView::InvalidAcct("missing `@`: "@ + s)),
        Some((u, h)) => if u.len() == 0 || h.len() == 0 {
            Err(ErrorView::InvalidAcct("empty user or host: "@ + s))
        } else if u.contains('@') || h.contains('@') {
            Err(ErrorView::InvalidAcct("unexpected additional `@`: "@ + s))
        } else {
            Ok(AccountView { user: u, host: spec_to_lowercase(h) })
        },
    }
}

pub open spec fn account_result_view(r: Result<Account, Error>) -> Result<AccountView, ErrorView> {
    match r {
        Ok(a) => Ok(a@),
        Err(e) => Err(e@),
    }
}

// ---------------------------------------------------------------------------
// Percent-encoding of the `resource=` value
// ---------------------------------------------------------------------------

/// Bytes that the `resource=` value keeps as they are.
pub open spec fn unreserved_byte(b: u8) -> bool {
    ||| (65 <= b && b <= 90)
    ||| (97 <= b && b <= 122)
    ||| (48 <= b && b <= 57)
    ||| b == 45
    ||| b == 95
    ||| b == 46
    ||| b == 126
    ||| b == 58
    ||| b == 64
}

/// An upper-case hexadecimal digit.
pub open spec fn hex_digit(d: u8) -> char {
    if d < 10 {
        (d + 48) as char
    } else {
        (d + 55) as char
    }
}

/// One byte of the value: itself, or `%` and two upper-case hex digits.
pub open spec fn encode_byte(b: u8) -> Seq<char> {
    if unreserved_byte(b) {
        seq![b as char]
    } else {
        seq!['%', hex_digit(b / 16), hex_digit(b % 16)]
    }
}

pub open spec fn percent_encode_bytes(bs: Seq<u8>) -> Seq<char>
    decreases bs.len(),
{
    if bs.len() == 0 {
        seq![]
    } else {
        percent_encode_bytes(bs.drop_last()) + encode_byte(bs.last())
    }
}

/// The `resource=` encoding of `s`: its UTF-8 bytes, those outside the
/// unreserved set written as `%XX`.
pub open spec fn spec_percent_encode(s: Seq<char>) -> Seq<char> {
    percent_encode_bytes(encode_utf8(s))
}

fn hex_digit_exec(d: u8) -> (c: char)
    requires
        d < 16,
    ensures
        c == hex_digit(d),
{
    if d < 10 {
        (d + 48) as char
    } else {
        (d + 55) as char
    }
}

/// Minimal percent-encoder for the `resource=` query-string value: only
/// characters that the URL parser would otherwise interpret are encoded;
/// `:` and `@` inside the `acct:` URI are left intact.
pub fn percent_encode(input: &str) -> (out: String)
    ensures
        out@ == spec_percent_encode(input@),
{
    let bytes = input.as_bytes();
    let ghost bs = bytes@;
    let mut out = String::new();
    let mut i: usize = 0;
    assert(bs.take(0) =~= Seq::<u8>::empty());
    while i < bytes.len()
        invariant
            i <= bs.len(),
            bs == bytes@,
            out@ == percent_encode_bytes(bs.take(i as int)),
        decreases bs.len() - i,
    {
        let b = bytes[i];
        let ghost before = out@;
        if (65 <= b && b <= 90) || (97 <= b && b <= 122) || (48 <= b && b <= 57) || b == 45 || b
            == 95 || b == 46 || b == 126 || b == 58 || b == 64 {
            string_push(&mut out, b as char);
        } else {
            string_push(&mut out, '%');
            string_push(&mut out, hex_digit_exec(b / 16));
            string_push(&mut out, hex_digit_exec(b % 16));
        }
        proof {
            assert(bs.take(i + 1).drop_last() == bs.take(i as int));
            assert(bs.take(i + 1).last() == b);
            assert(out@ =~= before + encode_byte(b));
        }
        i = i + 1;
    }
    assert(bs.take(bs.len() as int) == bs);
    out
}

// ---------------------------------------------------------------------------
// Accounts
// ---------------------------------------------------------------------------

/// The text of the WebFinger lookup URL for an account.
pub open spec fn spec_webfinger_text(scheme: Seq<char>, a: AccountView) -> Seq<char> {
    scheme + "://"@ + a.host + "/.well-known/webfinger"@ + "?resource="@ + spec_percent_encode(
        spec_resource(a),
    )
}

impl Account {
    #[verifier::type_invariant]
    spec fn parts_non_empty(self) -> bool {
        self.user@.len() > 0 && self.host@.len() > 0 && ascii_lower(self.host@) == self.host@
    }

    /// Constructs an [`Account`] from its components. Both must be
    /// non-empty. The host is normalised to lowercase.
    ///
    /// # Errors
    ///
    /// Returns [`Error::InvalidAcct`] if `user` or `host` is empty.
    pub fn new(user: &str, host: &str) -> (r: Result<Self, Error>)
        ensures
            account_result_view(r) == spec_new_account(user@, host@),
            r is Ok <==> (user@.len() > 0 && host@.len() > 0),
            r matches Ok(a) ==> ascii_lower(a@.host) == a@.host,
            all_ascii(host@) ==> (r matches Ok(a) ==> a@.host == ascii_lower(host@)),
    {
        let user = user.to_owned();
        let host = str_to_lowercase(host);
        assert(ascii_lower(host@) =~= host@);
        if user.as_str().is_empty() || host.as_str().is_empty() {
            return Err(Error::InvalidAcct("empty user or host".to_owned()));
        }
        Ok(Account { user, host })
    }

    /// Parses `acct:user@host`, `@user@host` or `user@host`.
    ///
    /// # Errors
    ///
    /// Returns [`Error::InvalidAcct`] if the string does not match any of
    /// the supported forms or if any component is empty.
    pub fn parse(input: &str) -> (r: Result<Self, Error>)
        ensures
            account_result_view(r) == spec_parse_account(input@),
            r matches Ok(a) ==> ascii_lower(a@.host) == a@.host,
            all_ascii(acct_host_text(input@)) ==> (r matches Ok(a) ==> a@.host == ascii_lower(
                acct_host_text(input@),
            )),
    {
        let v = chars_of(input);
        let n = v.len();
        let start: usize = if n >= 5 && range_eq_str(&v, 0, 5, "acct:") {
            5
        } else if n >= 1 && v[0] == '@' {
            1
        } else {
            0
        };
        let ghost body = acct_body(v@);
        assert(v@.take(5) == v@.subrange(0, 5)) by {
            if n >= 5 {
                assert(v@.take(5) =~= v@.subrange(0, 5));
            }
        }
        assert(body =~= v@.subrange(start as int, n as int));
        match find_char(&v, start, n, '@') {
            None => {
                let mut msg = String::new();
                push_str(&mut msg, "missing `@`: ");
                push_str(&mut msg, input);
                Err(Error::InvalidAcct(msg))
            },
            Some(i) => {
                assert(body.take(i - start) =~= v@.subrange(start as int, i as int));
                assert(body.skip(i - start + 1) =~= v@.subrange(i + 1, n as int));
                if i == start || i + 1 == n {
                    let mut msg = String::new();
                    push_str(&mut msg, "empty user or host: ");
                    push_str(&mut msg, input);
                    return Err(Error::InvalidAcct(msg));
                }
                let in_user = find_char(&v, start, i, '@');
                let in_host = find_char(&v, i + 1, n, '@');
                proof {
                    crate::text::lemma_index_of_contains(v@.subrange(start as int, i as int), '@');
                    crate::text::lemma_index_of_contains(v@.subrange(i + 1, n as int), '@');
                }
                if in_user.is_some() || in_host.is_some() {
                    let mut msg = String::new();
                    push_str(&mut msg, "unexpected additional `@`: ");
                    push_str(&mut msg, input);
                    return Err(Error::InvalidAcct(msg));
                }
                let user = string_from_range(&v, start, i);
                let host = string_from_range(&v, i + 1, n);
                Self::new(user.as_str(), host.as_str())
            },
        }
    }

    /// Returns the local-part (username), which is never empty.
    pub fn user(&self) -> (u: &str)
        ensures
            u@ == self@.user,
            u@.len() > 0,
    {
        proof {
            use_type_invariant(self);
        }
        self.user.as_str()
    }

    /// Returns the host component (always lowercase: it holds no ASCII
    /// uppercase letter).
    pub fn host(&self) -> (h: &str)
        ensures
            h@ == self@.host,
            ascii_lower(h@) == h@,
            all_ascii(h@) ==> spec_to_lowercase(h@) == h@,
            h@.len() > 0,
    {
        proof {
            use_type_invariant(self);
        }
        self.host.as_str()
    }

    /// Returns the resource URI in canonical `acct:` form.
    pub fn to_resource(&self) -> (s: String)
        ensures
            s@ == spec_resource(self@),
    {
        let mut out = String::new();
        push_str(&mut out, "acct:");
        push_str(&mut out, self.user.as_str());
        push_str(&mut out, "@");
        push_str(&mut out, self.host.as_str());
        assert(out@ =~= spec_resource(self@));
        out
    }

    /// The account as text: the same `acct:user@host` form as
    /// [`Account::to_resource`].
    pub fn to_string(&self) -> (s: String)
        ensures
            s@ == spec_resource(self@),
    {
        self.to_resource()
    }

    /// Builds the `https://{host}/.well-known/webfinger?resource=…` URL and
    /// returns its serialisation.
    ///
    /// # Errors
    ///
    /// Returns [`Error::InvalidUrl`] if the host is not a valid authority.
    pub fn webfinger_url(&self) -> (r: Result<String, Error>)
        ensures
            r is Ok <==> url_parses(spec_webfinger_text("https"@, self@)),
            r matches Ok(t) ==> t@ == url_serialization(spec_webfinger_text("https"@, self@)),
            r matches Err(e) ==> e@ is InvalidUrl,
    {
        self.webfinger_url_with_scheme("https")
    }

    /// Builds the `{scheme}://{host}/.well-known/webfinger?resource=…` URL
    /// and returns its serialisation,
    /// allowing the caller to override the scheme (test fixtures, local
    /// development, Tor hidden services).
    ///
    /// # Errors
    ///
    /// Returns [`Error::InvalidUrl`] if the resulting URL is malformed.
    pub fn webfinger_url_with_scheme(&self, scheme: &str) -> (r: Result<String, Error>)
        ensures
            r is Ok <==> url_parses(spec_webfinger_text(scheme@, self@)),
            r matches Ok(t) ==> t@ == url_serialization(spec_webfinger_text(scheme@, self@)),
            r matches Err(e) ==> e@ is InvalidUrl,
    {
        let resource = self.to_resource();
        let encoded = percent_encode(resource.as_str());
        let mut raw = String::new();
        push_str(&mut raw, scheme);
        push_str(&mut raw, "://");
        push_str(&mut raw, self.host.as_str());
        push_str(&mut raw, WELL_KNOWN_PATH);
        push_str(&mut raw, "?resource=");
        push_str(&mut raw, encoded.as_str());
        assert(raw@ =~= spec_webfinger_text(scheme@, self@));
        match parse_url_text(raw.as_str()) {
            Ok(u) => Ok(u),
            Err(e) => Err(Error::InvalidUrl(e)),
        }
    }
}

/// Parsing the canonical text of an account gives the account back, for
/// every account whose user and host hold no `@` and whose host lowering
/// leaves unchanged.
pub proof fn lemma_account_text_roundtrip(a: AccountView)
    requires
        a.user.len() > 0,
        a.host.len() > 0,
        !a.user.contains('@'),
        !a.host.contains('@'),
        spec_to_lowercase(a.host) == a.host,
    ensures
        spec_parse_account(spec_resource(a)) == parsed_account(a),
{
    reveal_strlit("acct:");
    reveal_strlit("@");
    let s = spec_resource(a);
    assert(s.take(5) =~= "acct:"@);
    let body = s.skip(5);
    assert(body =~= a.user + seq!['@'] + a.host);
    assert forall|j: int| 0 <= j < a.user.len() implies body[j] != '@' by {
        assert(body[j] == a.user[j]);
    }
    crate::text::lemma_index_of_found(body, '@', a.user.len() as int);
    assert(body.take(a.user.len() as int) =~= a.user);
    assert(body.skip(a.user.len() + 1 as int) =~= a.host);
}

/// Parsing the canonical text of an account gives the account back, for
/// every account whose user and host hold no `@` and whose host is ASCII:
/// [`Account::user`] and [`Account::host`] ensure the rest of `requires`.
pub proof fn lemma_ascii_account_text_roundtrip(a: AccountView)
    requires
        a.user.len() > 0,
        a.host.len() > 0,
        ascii_lower(a.host) == a.host,
        all_ascii(a.host),
        !a.user.contains('@'),
        !a.host.contains('@'),
    ensures
        spec_parse_account(spec_resource(a)) == parsed_account(a),
{
    lemma_account_text_roundtrip(a);
}

/// The account that `s` parses to, if it parses.
pub open spec fn parsed(s: Seq<char>) -> Option<AccountView> {
    match spec_parse_account(s) {
        Ok(a) => Some(a),
        Err(_) => None,
    }
}

/// The three written forms name the same account: `acct:user@host`,
/// `@user@host`, and the bare `user@host` (where the bare text does not
/// itself begin with `acct:` or `@`).
pub proof fn lemma_written_forms_agree(s: Seq<char>)
    ensures
        parsed("acct:"@ + s) == parsed("@"@ + s),
        !has_prefix(s, "acct:"@) && !has_prefix(s, "@"@) ==> parsed(s) == parsed("@"@ + s),
{
    reveal_strlit("acct:");
    reveal_strlit("@");
    let a = "acct:"@ + s;
    let b = "@"@ + s;
    assert(a.take(5) =~= "acct:"@);
    assert(a.skip(5) =~= s);
    assert(acct_body(a) == s);
    assert(b[0] == '@');
    assert(!(b.len() >= 5 && b.take(5) == "acct:"@)) by {
        if b.len() >= 5 {
            assert(b.take(5)[0] == '@');
            assert("acct:"@[0] == 'a');
        }
    }
    assert(b.skip(1) =~= s);
    assert(acct_body(b) == s);
    if !has_prefix(s, "acct:"@) && !has_prefix(s, "@"@) {
        if s.len() >= 1 && s[0] == '@' {
            assert(s.take(1) =~= "@"@);
        }
        assert(acct_body(s) == s);
    }
}

/// The account that parsing yields.
pub open spec fn parsed_account(a: AccountView) -> Result<AccountView, ErrorView> {
    Ok(a)
}

impl std::str::FromStr for Account {
    type Err = Error;

    /// Parses `s` as [`Account::parse`] does.
    fn from_str(s: &str) -> (r: Result<Self, Error>)
        ensures
            account_result_view(r) == spec_parse_account(s@),
    {
        Account::parse(s)
    }
}

/// The `Accept:` value of a WebFinger request: the JRD media type, then
/// plain JSON, which many servers serve instead.
pub fn jrd_accept_header() -> (h: String)
    ensures
        h@ == MEDIA_TYPE@ + ", application/json"@,
{
    let mut h = String::new();
    push_str(&mut h, MEDIA_TYPE);
    push_str(&mut h, ", application/json");
    h
}

/// Only the host is normalised: building an account from a non-empty user
/// and host keeps the user exactly as given, whatever its case, and lowers
/// the host; parsing `acct:user@host` does the same with the two parts of
/// the text.
pub proof fn lemma_user_kept_verbatim(user: Seq<char>, host: Seq<char>)
    ensures
        user.len() > 0 && host.len() > 0 ==> (spec_new_account(user, host) matches Ok(a) && a.user
            == user && a.host == spec_to_lowercase(host)),
        (user.len() > 0 && host.len() > 0 && !user.contains('@') && !host.contains('@')) ==> (
        spec_parse_account("acct:"@ + user + "@"@ + host) matches Ok(a) && a.user == user && a.host
            == spec_to_lowercase(host)),
{
    if user.len() > 0 && host.len() > 0 && !user.contains('@') && !host.contains('@') {
        reveal_strlit("acct:");
        reveal_strlit("@");
        let s = "acct:"@ + user + "@"@ + host;
        assert(s.take(5) =~= "acct:"@);
        let body = s.skip(5);
        assert(body =~= user + seq!['@'] + host);
        assert forall|j: int| 0 <= j < user.len() implies body[j] != '@' by {
            assert(body[j] == user[j]);
        }
        crate::text::lemma_index_of_found(body, '@', user.len() as int);
        assert(body.take(user.len() as int) =~= user);
        assert(body.skip(user.len() + 1 as int) =~= host);
    }
}

} // verus!
