//! Derived components and header references for RFC 9421 signatures.
//!
//! The signature base is a sequence of lines, each of the form
//! `"<component-identifier>": <canonicalised-value>`. Identifiers starting
//! with `@` are "derived components" computed from the request itself;
//! all others name HTTP headers:
//!
//! | Identifier        | Value                                    |
//! | ----------------- | ---------------------------------------- |
//! | `@method`         | HTTP method, upper-case                  |
//! | `@target-uri`     | full request target URL                  |
//! | `@authority`      | `Host` header / authority, lowercase     |
//! | `@scheme`         | scheme, lowercase (`http` / `https`)     |
//! | `@path`           | URI path                                 |
//! | `@query`          | URI query string including the `?`       |
//! | `@request-target` | `<lower-method>` `<path-and-query>`      |
//! | `<header-name>`   | comma-joined values, OWS-trimmed         |
//!
//! The request is described by [`RequestParts`], the plain values of an
//! HTTP request that these rules read.
use vstd::prelude::*;

use crate::httpsig::{Error, ErrorView};
use crate::text::{
    ascii_lower, ascii_upper, chars_of, push_ascii_lower, push_ascii_upper, push_str,
    push_trimmed, starts_with_char, str_eq, string_push, trim,
};

verus! {

/// A single component in an RFC 9421 signature base.
#[derive(Debug, Clone, PartialEq, Eq, Hash)]
#[non_exhaustive]
pub enum Component {
    /// HTTP method (upper-case).
    Method,
    /// Full request target URI.
    TargetUri,
    /// Authority (`host` equivalent).
    Authority,
    /// Request scheme (`http` / `https`).
    Scheme,
    /// URI path component.
    Path,
    /// URI query component including leading `?`.
    Query,
    /// Legacy `(request-target)` pseudo-header, kept for signers that
    /// still emit it inside RFC 9421 signature bases.
    RequestTarget,
    /// An ordinary lower-cased HTTP header name.
    Header(String),
}

pub enum ComponentView {
    Method,
    TargetUri,
    Authority,
    Scheme,
    Path,
    Query,
    RequestTarget,
    Header(Seq<char>),
}

impl View for Component {
    type V = ComponentView;

    open spec fn view(&self) -> ComponentView {
        match self {
            Component::Method => ComponentView::Method,
            Component::TargetUri => ComponentView::TargetUri,
            Component::Authority => ComponentView::Authority,
            Component::Scheme => ComponentView::Scheme,
            Component::Path => ComponentView::Path,
            Component::Query => ComponentView::Query,
            Component::RequestTarget => ComponentView::RequestTarget,
            Component::Header(n) => ComponentView::Header(n@),
        }
    }
}

/// The raw identifier of a component.
pub open spec fn spec_identifier(c: ComponentView) -> Seq<char> {
    match c {
        ComponentView::Method => "@method"@,
        ComponentView::TargetUri => "@target-uri"@,
        ComponentView::Authority => "@authority"@,
        ComponentView::Scheme => "@scheme"@,
        ComponentView::Path => "@path"@,
        ComponentView::Query => "@query"@,
        ComponentView::RequestTarget => "@request-target"@,
        ComponentView::Header(n) => n,
    }
}

/// The identifier between double quotes.
pub open spec fn spec_lexical(c: ComponentView) -> Seq<char> {
    "\""@ + spec_identifier(c) + "\""@
}

/// What [`Component::parse`] makes of an identifier.
pub open spec fn spec_parse_component(id: Seq<char>) -> Result<ComponentView, ErrorView> {
    if !(id.len() > 0 && id[0] == '@') {
        Ok(ComponentView::Header(ascii_lower(id)))
    } else if id == "@method"@ {
        Ok(ComponentView::Method)
    } else if id == "@target-uri"@ {
        Ok(ComponentView::TargetUri)
    } else if id == "@authority"@ {
        Ok(ComponentView::Authority)
    } else if id == "@scheme"@ {
        Ok(ComponentView::Scheme)
    } else if id == "@path"@ {
        Ok(ComponentView::Path)
    } else if id == "@query"@ {
        Ok(ComponentView::Query)
    } else if id == "@request-target"@ {
        Ok(ComponentView::RequestTarget)
    } else {
        Err(
            ErrorView::UnsupportedAlgorithm(
                "derived component `"@ + id + "` is not supported"@,
            ),
        )
    }
}

pub open spec fn component_result_view(r: Result<Component, Error>) -> Result<
    ComponentView,
    ErrorView,
> {
    match r {
        Ok(c) => Ok(c@),
        Err(e) => Err(e@),
    }
}

impl Component {
    /// Returns the quoted lexical form that appears in a `Signature-Input:`
    /// inner list and in the signature base.
    pub fn lexical(&self) -> (s: String)
        ensures
            s@ == spec_lexical(self@),
    {
        let mut out = String::new();
        push_str(&mut out, "\"");
        push_str(&mut out, self.identifier());
        push_str(&mut out, "\"");
        assert(out@ =~= spec_lexical(self@));
        out
    }

    /// Returns the raw identifier without quotes.
    pub fn identifier(&self) -> (s: &str)
        ensures
            s@ == spec_identifier(self@),
    {
        match self {
            Component::Method => "@method",
            Component::TargetUri => "@target-uri",
            Component::Authority => "@authority",
            Component::Scheme => "@scheme",
            Component::Path => "@path",
            Component::Query => "@query",
            Component::RequestTarget => "@request-target",
            Component::Header(name) => name.as_str(),
        }
    }

    /// Parses an identifier back into a [`Component`].
    ///
    /// # Errors
    ///
    /// Returns [`Error::UnsupportedAlgorithm`] for any `@`-prefixed
    /// identifier that is not one of the seven supported derived
    /// components. Header names are accepted verbatim and lower-cased.
    pub fn parse(identifier: &str) -> (r: Result<Self, Error>)
        ensures
            component_result_view(r) == spec_parse_component(identifier@),
    {
        if !starts_with_char(identifier, '@') {
            let mut name = String::new();
            push_ascii_lower(&mut name, identifier);
            assert(name@ =~= ascii_lower(identifier@));
            return Ok(Component::Header(name));
        }
        if str_eq(identifier, "@method") {
            Ok(Component::Method)
        } else if str_eq(identifier, "@target-uri") {
            Ok(Component::TargetUri)
        } else if str_eq(identifier, "@authority") {
            Ok(Component::Authority)
        } else if str_eq(identifier, "@scheme") {
            Ok(Component::Scheme)
        } else if str_eq(identifier, "@path") {
            Ok(Component::Path)
        } else if str_eq(identifier, "@query") {
            Ok(Component::Query)
        } else if str_eq(identifier, "@request-target") {
            Ok(Component::RequestTarget)
        } else {
            let mut msg = String::new();
            push_str(&mut msg, "derived component `");
            push_str(&mut msg, identifier);
            push_str(&mut msg, "` is not supported");
            assert(msg@ =~= "derived component `"@ + identifier@ + "` is not supported"@);
            Err(Error::UnsupportedAlgorithm(msg))
        }
    }
}

/// A header name that [`Component::parse`] gives back unchanged: it does
/// not start with `@` and has no upper-case ASCII letter.
pub open spec fn plain_header_name(n: Seq<char>) -> bool {
    !(n.len() > 0 && n[0] == '@') && ascii_lower(n) == n
}

/// The component whose identifier parses back to it.
pub open spec fn parsed_component(c: ComponentView) -> Result<ComponentView, ErrorView> {
    Ok(c)
}

/// Parsing the identifier of a component gives the component back, for
/// every derived component and every header name that is already in lower
/// case and does not start with `@`.
pub proof fn lemma_identifier_roundtrip(c: ComponentView)
    requires
        c matches ComponentView::Header(n) ==> plain_header_name(n),
    ensures
        spec_parse_component(spec_identifier(c)) == parsed_component(c),
{
    reveal_strlit("@method");
    reveal_strlit("@target-uri");
    reveal_strlit("@authority");
    reveal_strlit("@scheme");
    reveal_strlit("@path");
    reveal_strlit("@query");
    reveal_strlit("@request-target");
    match c {
        ComponentView::Header(n) => {},
        _ => {
            assert(spec_identifier(c)[0] == '@');
            assert("@scheme"@[1] != "@method"@[1]);
        },
    }
}

// ---------------------------------------------------------------------------
// Requests
// ---------------------------------------------------------------------------

/// The plain values of an HTTP request that signature components read.
#[derive(Debug, Clone, PartialEq, Eq)]
pub struct RequestParts {
    /// The method token (for example `POST`); HTTP method tokens are ASCII.
    pub method: String,
    /// The URI scheme, when the request target is in absolute form.
    pub scheme: Option<String>,
    /// The URI authority, when the request target carries one.
    pub authority: Option<String>,
    /// The URI path (`""` when the target has none).
    pub path: String,
    /// The URI query, without its `?`.
    pub query: Option<String>,
    /// The path and query as the URI writes them, when the target has them.
    pub path_and_query: Option<String>,
    /// Every header value in the order the header map yields them, with the
    /// lower-case header name; `None` for a value that is not visible ASCII.
    pub headers: Vec<(String, Option<String>)>,
}

pub struct RequestView {
    pub method: Seq<char>,
    pub scheme: Option<Seq<char>>,
    pub authority: Option<Seq<char>>,
    pub path: Seq<char>,
    pub query: Option<Seq<char>>,
    pub path_and_query: Option<Seq<char>>,
    pub headers: Seq<(Seq<char>, Option<Seq<char>>)>,
}

impl View for RequestParts {
    type V = RequestView;

    open spec fn view(&self) -> RequestView {
        RequestView {
            method: self.method@,
            scheme: self.scheme.deep_view(),
            authority: self.authority.deep_view(),
            path: self.path@,
            query: self.query.deep_view(),
            path_and_query: self.path_and_query.deep_view(),
            headers: self.headers.deep_view(),
        }
    }
}

/// The first value of the header `name`, if that header is present.
pub open spec fn first_header(hs: Seq<(Seq<char>, Option<Seq<char>>)>, name: Seq<char>) -> Option<
    Option<Seq<char>>,
>
    decreases hs.len(),
{
    if hs.len() == 0 {
        None
    } else if hs[0].0 == name {
        Some(hs[0].1)
    } else {
        first_header(hs.drop_first(), name)
    }
}

/// `@scheme`: the URI scheme in lower case, `https` when absent.
pub open spec fn spec_scheme(r: RequestView) -> Seq<char> {
    match r.scheme {
        Some(s) => ascii_lower(s),
        None => "https"@,
    }
}

/// `@authority`: the URI authority in lower case, else the trimmed,
/// lower-cased first `Host` header, else empty.
pub open spec fn spec_authority(r: RequestView) -> Seq<char> {
    match r.authority {
        Some(a) => ascii_lower(a),
        None => match first_header(r.headers, "host"@) {
            Some(Some(h)) => ascii_lower(trim(h)),
            _ => seq![],
        },
    }
}

/// The path and query, or the path alone when the target has neither.
pub open spec fn spec_path_and_query(r: RequestView) -> Seq<char> {
    match r.path_and_query {
        Some(pq) => pq,
        None => r.path,
    }
}

/// `@query`: `?` and the query, or empty.
pub open spec fn spec_query(r: RequestView) -> Seq<char> {
    match r.query {
        Some(q) => "?"@ + q,
        None => seq![],
    }
}

/// The trimmed values of header `name`, in order (a value that is not
/// visible ASCII counts as empty).
pub open spec fn header_values(hs: Seq<(Seq<char>, Option<Seq<char>>)>, name: Seq<char>) -> Seq<
    Seq<char>,
>
    decreases hs.len(),
{
    if hs.len() == 0 {
        seq![]
    } else {
        let prev = header_values(hs.drop_last(), name);
        let (n, v) = hs.last();
        if n == name {
            prev.push(
                trim(
                    match v {
                        Some(s) => s,
                        None => seq![],
                    },
                ),
            )
        } else {
            prev
        }
    }
}

/// Values joined by `", "`.
pub open spec fn join_comma_space(vs: Seq<Seq<char>>) -> Seq<char>
    decreases vs.len(),
{
    if vs.len() == 0 {
        seq![]
    } else if vs.len() == 1 {
        vs[0]
    } else {
        join_comma_space(vs.drop_last()) + ", "@ + vs.last()
    }
}

/// A header reference: all its values joined, or an error when absent.
pub open spec fn spec_header_value(r: RequestView, name: Seq<char>) -> Result<
    Seq<char>,
    ErrorView,
> {
    let vs = header_values(r.headers, name);
    if vs.len() == 0 {
        Err(ErrorView::RequiredHeaderAbsent(name))
    } else {
        Ok(join_comma_space(vs))
    }
}

/// The canonical value of a component on a request.
pub open spec fn spec_canonical_value(c: ComponentView, r: RequestView) -> Result<
    Seq<char>,
    ErrorView,
> {
    match c {
        ComponentView::Method => Ok(ascii_upper(r.method)),
        ComponentView::TargetUri => Ok(
            spec_scheme(r) + "://"@ + spec_authority(r) + spec_path_and_query(r),
        ),
        ComponentView::Authority => Ok(spec_authority(r)),
        ComponentView::Scheme => Ok(spec_scheme(r)),
        ComponentView::Path => Ok(r.path),
        ComponentView::Query => Ok(spec_query(r)),
        ComponentView::RequestTarget => Ok(
            ascii_lower(r.method) + " "@ + spec_path_and_query(r),
        ),
        ComponentView::Header(n) => spec_header_value(r, n),
    }
}

pub open spec fn string_result_view(r: Result<String, Error>) -> Result<Seq<char>, ErrorView> {
    match r {
        Ok(s) => Ok(s@),
        Err(e) => Err(e@),
    }
}

fn push_scheme(out: &mut String, req: &RequestParts)
    ensures
        final(out)@ == old(out)@ + spec_scheme(req@),
{
    match &req.scheme {
        Some(s) => push_ascii_lower(out, s.as_str()),
        None => push_str(out, "https"),
    }
}

fn push_authority(out: &mut String, req: &RequestParts)
    ensures
        final(out)@ == old(out)@ + spec_authority(req@),
{
    match &req.authority {
        Some(a) => push_ascii_lower(out, a.as_str()),
        None => {
            let mut i: usize = 0;
            let ghost hs = req@.headers;
            assert(hs.skip(0) == hs);
            while i < req.headers.len()
                invariant
                    i <= hs.len(),
                    hs == req@.headers,
                    req@.authority is None,
                    out@ == old(out)@,
                    first_header(hs, "host"@) == first_header(hs.skip(i as int), "host"@),
                decreases hs.len() - i,
            {
                assert(hs.skip(i as int).drop_first() == hs.skip(i + 1));
                assert(hs.skip(i as int)[0] == hs[i as int]);
                if str_eq(req.headers[i].0.as_str(), "host") {
                    match &req.headers[i].1 {
                        Some(v) => {
                            let mut t = String::new();
                            push_trimmed(&mut t, v.as_str());
                            push_ascii_lower(out, t.as_str());
                            assert(t@ =~= trim(v@));
                        },
                        None => {
                            assert(old(out)@ + Seq::<char>::empty() =~= old(out)@);
                        },
                    }
                    return ;
                }
                i = i + 1;
            }
            assert(hs.skip(i as int) =~= Seq::<(Seq<char>, Option<Seq<char>>)>::empty());
            assert(old(out)@ + Seq::<char>::empty() =~= old(out)@);
        },
    }
}

fn push_path_and_query(out: &mut String, req: &RequestParts)
    ensures
        final(out)@ == old(out)@ + spec_path_and_query(req@),
{
    match &req.path_and_query {
        Some(pq) => push_str(out, pq.as_str()),
        None => push_str(out, req.path.as_str()),
    }
}

/// `header_value`: all values of `lower_name`, trimmed and joined by `", "`.
pub fn header_value(req: &RequestParts, lower_name: &str) -> (r: Result<String, Error>)
    ensures
        string_result_view(r) == spec_header_value(req@, lower_name@),
{
    let mut joined = String::new();
    let mut seen = false;
    let mut i: usize = 0;
    let ghost hs = req@.headers;
    assert(hs.take(0) =~= Seq::<(Seq<char>, Option<Seq<char>>)>::empty());
    while i < req.headers.len()
        invariant
            i <= hs.len(),
            hs == req@.headers,
            seen == (header_values(hs.take(i as int), lower_name@).len() > 0),
            joined@ == join_comma_space(header_values(hs.take(i as int), lower_name@)),
        decreases hs.len() - i,
    {
        let ghost pre = hs.take(i as int);
        let ghost post = hs.take(i + 1);
        assert(post.drop_last() == pre);
        assert(post.last() == hs[i as int]);
        if str_eq(req.headers[i].0.as_str(), lower_name) {
            if seen {
                push_str(&mut joined, ", ");
            }
            seen = true;
            match &req.headers[i].1 {
                Some(v) => push_trimmed(&mut joined, v.as_str()),
                None => {
                    proof {
                        assert(trim(Seq::<char>::empty()) =~= Seq::<char>::empty());
                        assert(joined@ + Seq::<char>::empty() =~= joined@);
                    }
                },
            }
            proof {
                let vs = header_values(post, lower_name@);
                assert(vs.drop_last() == header_values(pre, lower_name@));
                if vs.len() == 1 {
                    assert(header_values(pre, lower_name@).len() == 0);
                    assert(joined@ =~= vs[0]);
                } else {
                    assert(joined@ =~= join_comma_space(vs));
                }
            }
        }
        i = i + 1;
    }
    assert(hs.take(hs.len() as int) == hs);
    if seen {
        Ok(joined)
    } else {
        Err(Error::RequiredHeaderAbsent(lower_name.to_owned()))
    }
}

/// Canonicalises a component's value against `req`.
///
/// # Errors
///
/// Returns [`Error::RequiredHeaderAbsent`] when a header reference
/// cannot be resolved on the request.
pub fn canonical_value(component: &Component, req: &RequestParts) -> (r: Result<String, Error>)
    ensures
        string_result_view(r) == spec_canonical_value(component@, req@),
{
    match component {
        Component::Method => {
            let mut out = String::new();
            push_ascii_upper(&mut out, req.method.as_str());
            assert(out@ =~= ascii_upper(req@.method));
            Ok(out)
        },
        Component::TargetUri => {
            let mut out = String::new();
            push_scheme(&mut out, req);
            push_str(&mut out, "://");
            push_authority(&mut out, req);
            push_path_and_query(&mut out, req);
            assert(out@ =~= spec_scheme(req@) + "://"@ + spec_authority(req@)
                + spec_path_and_query(req@));
            Ok(out)
        },
        Component::Authority => {
            let mut out = String::new();
            push_authority(&mut out, req);
            assert(out@ =~= spec_authority(req@));
            Ok(out)
        },
        Component::Scheme => {
            let mut out = String::new();
            push_scheme(&mut out, req);
            assert(out@ =~= spec_scheme(req@));
            Ok(out)
        },
        Component::Path => Ok(req.path.clone()),
        Component::Query => {
            let mut out = String::new();
            match &req.query {
                Some(q) => {
                    push_str(&mut out, "?");
                    push_str(&mut out, q.as_str());
                },
                None => {},
            }
            assert(out@ =~= spec_query(req@));
            Ok(out)
        },
        Component::RequestTarget => {
            let mut out = String::new();
            push_ascii_lower(&mut out, req.method.as_str());
            push_str(&mut out, " ");
            push_path_and_query(&mut out, req);
            assert(out@ =~= ascii_lower(req@.method) + " "@ + spec_path_and_query(req@));
            Ok(out)
        },
        Component::Header(name) => header_value(req, name.as_str()),
    }
}

/// The lines of a signature base for `cs`, or the first component's error.
pub open spec fn spec_base_lines(r: RequestView, cs: Seq<ComponentView>) -> Result<
    Seq<char>,
    ErrorView,
>
    decreases cs.len(),
{
    if cs.len() == 0 {
        Ok(seq![])
    } else {
        match spec_base_lines(r, cs.drop_last()) {
            Err(e) => Err(e),
            Ok(acc) => match spec_canonical_value(cs.last(), r) {
                Err(e) => Err(e),
                Ok(v) => Ok(acc + spec_lexical(cs.last()) + ": "@ + v + "\n"@),
            },
        }
    }
}

/// The signature base: one line per component, then the
/// `"@signature-params"` line.
pub open spec fn spec_signature_base(r: RequestView, cs: Seq<ComponentView>, params: Seq<char>) -> Result<
    Seq<char>,
    ErrorView,
> {
    match spec_base_lines(r, cs) {
        Err(e) => Err(e),
        Ok(lines) => Ok(lines + "\"@signature-params\": "@ + params),
    }
}

proof fn lemma_base_lines_err_sticks(r: RequestView, cs: Seq<ComponentView>, j: int, m: int)
    requires
        0 <= j <= m <= cs.len(),
        spec_base_lines(r, cs.take(j)) is Err,
    ensures
        spec_base_lines(r, cs.take(m)) == spec_base_lines(r, cs.take(j)),
    decreases m - j,
{
    if m > j {
        lemma_base_lines_err_sticks(r, cs, j, m - 1);
        assert(cs.take(m).drop_last() == cs.take(m - 1));
    }
}

/// Builds the RFC 9421 signature base for `req` using the given ordered
/// list of components, ending with the `"@signature-params"` line that
/// binds the parameter tuple to the signature.
///
/// # Errors
///
/// Returns [`Error::RequiredHeaderAbsent`] when a referenced header is not
/// present on `req`.
pub fn build_signature_base(
    req: &RequestParts,
    components: &[Component],
    signature_params_inner_list: &str,
) -> (r: Result<String, Error>)
    ensures
        string_result_view(r) == spec_signature_base(
            req@,
            components@.map_values(|c: Component| c@),
            signature_params_inner_list@,
        ),
{
    let ghost cs = components@.map_values(|c: Component| c@);
    let mut out = String::new();
    let mut i: usize = 0;
    assert(cs.take(0) =~= Seq::<ComponentView>::empty());
    while i < components.len()
        invariant
            i <= components@.len(),
            cs == components@.map_values(|c: Component| c@),
            spec_base_lines(req@, cs.take(i as int)) == Ok::<Seq<char>, ErrorView>(out@),
        decreases components@.len() - i,
    {
        assert(cs.take(i + 1).drop_last() == cs.take(i as int));
        assert(cs.take(i + 1).last() == components@[i as int]@);
        let line = match canonical_value(&components[i], req) {
            Ok(l) => l,
            Err(e) => {
                proof {
                    lemma_base_lines_err_sticks(req@, cs, i + 1, cs.len() as int);
                    assert(cs.take(cs.len() as int) == cs);
                }
                return Err(e);
            },
        };
        let lex = components[i].lexical();
        let ghost before = out@;
        push_str(&mut out, lex.as_str());
        push_str(&mut out, ": ");
        push_str(&mut out, line.as_str());
        push_str(&mut out, "\n");
        assert(out@ =~= before + spec_lexical(components@[i as int]@) + ": "@ + line@ + "\n"@);
        i = i + 1;
    }
    assert(cs.take(cs.len() as int) == cs);
    push_str(&mut out, "\"@signature-params\": ");
    push_str(&mut out, signature_params_inner_list);
    Ok(out)
}

/// `@request-target` is the lower-cased method, a space, and the request's
/// path and query exactly as the URI writes them (the path alone only when
/// the target has no path-and-query); it ends with the same text as
/// `@target-uri`, and when the path-and-query is the path, `?` and the query
/// it is the method, a space, the `@path` value and the `@query` value.
pub proof fn lemma_request_target_keeps_the_query(r: RequestView)
    ensures
        r.path_and_query matches Some(pq) ==> (spec_canonical_value(ComponentView::RequestTarget, r) matches Ok(t)
            && t == ascii_lower(r.method) + " "@ + pq),
        r.path_and_query is None ==> (spec_canonical_value(ComponentView::RequestTarget, r) matches Ok(t)
            && t == ascii_lower(r.method) + " "@ + r.path),
        r.path_and_query matches Some(pq) ==> (spec_canonical_value(ComponentView::TargetUri, r) matches Ok(u)
            && u == spec_scheme(r) + "://"@ + spec_authority(r) + pq),
        (r.query matches Some(q) && r.path_and_query == Some(r.path + "?"@ + q)) ==> (
        spec_canonical_value(ComponentView::RequestTarget, r) matches Ok(t)
            && spec_canonical_value(ComponentView::Path, r) matches Ok(p)
            && spec_canonical_value(ComponentView::Query, r) matches Ok(qv)
            && t == ascii_lower(r.method) + " "@ + p + qv),
{
    if let (Some(q), Some(pq)) = (r.query, r.path_and_query) {
        if pq == r.path + "?"@ + q {
            assert(ascii_lower(r.method) + " "@ + pq =~= ascii_lower(r.method) + " "@ + r.path + (
            "?"@ + q));
        }
    }
}

} // verus!
