//! The `url` crate's types and the calls this library makes into it. A URL
//! that the library hands on is its serialisation, as text.
use vstd::prelude::*;

verus! {

/// `url::Url`, carried through the library as an opaque value.
#[verifier::external_type_specification]
#[verifier::external_body]
pub struct ExUrl(url::Url);

/// `url::ParseError`, carried through the library as an opaque value.
#[verifier::external_type_specification]
#[verifier::external_body]
pub struct ExParseError(url::ParseError);

/// Whether `url::Url::parse` accepts `s`.
pub uninterp spec fn url_parses(s: Seq<char>) -> bool;

/// The serialisation of the URL that `url::Url::parse` makes of `s`.
pub uninterp spec fn url_serialization(s: Seq<char>) -> Seq<char>;

/// The serialisation of the URL that `url::Url::parse` makes of `s`, once
/// `set_fragment(None)` has removed its fragment.
pub uninterp spec fn url_without_fragment(s: Seq<char>) -> Seq<char>;

/// `url::Url::parse`, the URL handed back as its serialisation
/// (`String::from(Url)`). Whether it succeeds and what text it gives are
/// only named: both are functions of the input text.
#[verifier::external_body]
pub(crate) fn parse_url_text(s: &str) -> (r: Result<String, url::ParseError>)
    ensures
        r is Ok <==> url_parses(s@),
        r matches Ok(t) ==> t@ == url_serialization(s@),
{
    url::Url::parse(s).map(String::from)
}

/// `url::Url::parse`, then `Url::set_fragment(None)`, the URL handed back as
/// its serialisation. Whether it succeeds and what text it gives are only
/// named: both are functions of the input text.
#[verifier::external_body]
pub(crate) fn parse_url_without_fragment(s: &str) -> (r: Result<String, url::ParseError>)
    ensures
        r is Ok <==> url_parses(s@),
        r matches Ok(t) ==> t@ == url_without_fragment(s@),
{
    let mut u = url::Url::parse(s)?;
    u.set_fragment(None);
    Ok(String::from(u))
}

} // verus!
