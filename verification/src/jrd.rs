//! JSON Resource Descriptor (JRD) types, RFC 7033 §4.4, and the checks a
//! WebFinger client applies to a fetched descriptor.
use vstd::prelude::*;

use crate::rels::{MEDIA_TYPE_ACTIVITYPUB, MEDIA_TYPE_LD_JSON, SELF};
use crate::string_map::StringMap;
use crate::text::{has_prefix, starts_with_str, str_eq};
use crate::webfinger::{Error, ErrorView};

verus! {

/// A link entry inside a [`Jrd`].
#[derive(Debug, Clone, PartialEq, Eq)]
pub struct JrdLink {
    /// Link relation (IANA registered name or URI).
    pub rel: String,
    /// Media type of the resource referenced by `href` (`type` on the wire).
    pub media_type: Option<String>,
    /// URI of the related resource.
    pub href: Option<url::Url>,
    /// Localised titles keyed by BCP-47 language tag.
    pub titles: StringMap<String>,
    /// Link-specific properties.
    pub properties: StringMap<Option<String>>,
    /// URI template for links that synthesise a URI from parameters.
    pub template: Option<String>,
}

/// A `WebFinger` JSON Resource Descriptor.
#[derive(Debug, Clone, PartialEq, Eq)]
pub struct Jrd {
    /// The URI of the resource described by this JRD.
    pub subject: String,
    /// Alternative URIs that also identify the subject.
    pub aliases: Vec<String>,
    /// Scalar properties keyed by URI; a value may be `null`.
    pub properties: StringMap<Option<String>>,
    /// Links describing related resources.
    pub links: Vec<JrdLink>,
}

/// Index of the first link that `p` accepts, or -1.
pub open spec fn first_link_where(links: Seq<JrdLink>, p: spec_fn(JrdLink) -> bool) -> int
    decreases links.len(),
{
    if links.len() == 0 {
        -1
    } else if p(links[0]) {
        0
    } else {
        let r = first_link_where(links.drop_first(), p);
        if r < 0 {
            -1
        } else {
            r + 1
        }
    }
}

proof fn lemma_first_link_found(links: Seq<JrdLink>, p: spec_fn(JrdLink) -> bool, k: int)
    requires
        0 <= k < links.len(),
        p(links[k]),
        forall|j: int| 0 <= j < k ==> !p(#[trigger] links[j]),
    ensures
        first_link_where(links, p) == k,
    decreases k,
{
    if k > 0 {
        assert(!p(links[0]));
        assert forall|j: int| 0 <= j < k - 1 implies !p(#[trigger] links.drop_first()[j]) by {
            assert(links.drop_first()[j] == links[j + 1]);
        }
        lemma_first_link_found(links.drop_first(), p, k - 1);
    }
}

proof fn lemma_first_link_absent(links: Seq<JrdLink>, p: spec_fn(JrdLink) -> bool)
    requires
        forall|j: int| 0 <= j < links.len() ==> !p(#[trigger] links[j]),
    ensures
        first_link_where(links, p) == -1,
    decreases links.len(),
{
    if links.len() > 0 {
        assert(!p(links[0]));
        assert forall|j: int| 0 <= j < links.len() - 1 implies !p(
            #[trigger] links.drop_first()[j],
        ) by {
            assert(links.drop_first()[j] == links[j + 1]);
        }
        lemma_first_link_absent(links.drop_first(), p);
    }
}

/// The link relation is `rel`.
pub open spec fn has_rel(rel: Seq<char>) -> spec_fn(JrdLink) -> bool {
    |l: JrdLink| l.rel@ == rel
}

/// The canonical ActivityPub actor link: `rel="self"` with the ActivityPub
/// media type.
pub open spec fn is_activitypub_link(l: JrdLink) -> bool {
    l.rel@ == SELF@ && l.media_type.deep_view() == Some(MEDIA_TYPE_ACTIVITYPUB@)
}

/// The fallback actor link: `rel="self"` with a JSON-LD media type.
pub open spec fn is_json_ld_link(l: JrdLink) -> bool {
    l.rel@ == SELF@ && match l.media_type {
        Some(m) => has_prefix(m@, MEDIA_TYPE_LD_JSON@),
        None => false,
    }
}

/// Index of the actor link: the first canonical one, else the first
/// JSON-LD one, else -1.
pub open spec fn actor_link_index(links: Seq<JrdLink>) -> int {
    let i = first_link_where(links, activitypub_pred());
    if i >= 0 {
        i
    } else {
        first_link_where(links, json_ld_pred())
    }
}

pub open spec fn activitypub_pred() -> spec_fn(JrdLink) -> bool {
    |l: JrdLink| is_activitypub_link(l)
}

pub open spec fn json_ld_pred() -> spec_fn(JrdLink) -> bool {
    |l: JrdLink| is_json_ld_link(l)
}

/// `r` is the link at `index`, or `None` when `index` is -1.
pub open spec fn link_at(links: Seq<JrdLink>, index: int, r: Option<&JrdLink>) -> bool {
    match r {
        Some(l) => 0 <= index < links.len() && *l == links[index],
        None => index == -1,
    }
}

impl Jrd {
    /// An empty descriptor of `subject`.
    pub fn empty(subject: &str) -> (j: Jrd)
        ensures
            j.subject@ == subject@,
            j.aliases@.len() == 0,
            j.properties.entry_seq().len() == 0,
            j.links@.len() == 0,
    {
        Jrd {
            subject: subject.to_owned(),
            aliases: Vec::new(),
            properties: StringMap::new(),
            links: Vec::new(),
        }
    }

    /// Returns a new [`JrdBuilder`] initialised with the given subject.
    pub fn builder(subject: &str) -> (b: JrdBuilder)
        ensures
            b.current().subject@ == subject@,
            b.current().aliases@.len() == 0,
            b.current().properties.entry_seq().len() == 0,
            b.current().links@.len() == 0,
    {
        JrdBuilder { inner: Jrd::empty(subject) }
    }

    /// Finds the first link with the given relation.
    pub fn find_link(&self, rel: &str) -> (r: Option<&JrdLink>)
        ensures
            link_at(self.links@, first_link_where(self.links@, has_rel(rel@)), r),
    {
        let mut i: usize = 0;
        while i < self.links.len()
            invariant
                i <= self.links@.len(),
                forall|j: int| 0 <= j < i ==> !has_rel(rel@)(#[trigger] self.links@[j]),
            decreases self.links@.len() - i,
        {
            if str_eq(self.links[i].rel.as_str(), rel) {
                proof {
                    lemma_first_link_found(self.links@, has_rel(rel@), i as int);
                }
                return Some(&self.links[i]);
            }
            i = i + 1;
        }
        proof {
            lemma_first_link_absent(self.links@, has_rel(rel@));
        }
        None
    }

    /// Returns the `ActivityPub` actor link for this subject: the first
    /// `rel="self"` link of type `application/activity+json`, else the first
    /// `rel="self"` link whose type starts with `application/ld+json`.
    pub fn activitypub_actor(&self) -> (r: Option<&JrdLink>)
        ensures
            link_at(self.links@, actor_link_index(self.links@), r),
    {
        let mut i: usize = 0;
        while i < self.links.len()
            invariant
                i <= self.links@.len(),
                forall|j: int| 0 <= j < i ==> !activitypub_pred()(#[trigger] self.links@[j]),
            decreases self.links@.len() - i,
        {
            let l = &self.links[i];
            let mut hit = false;
            if str_eq(l.rel.as_str(), SELF) {
                if let Some(m) = &l.media_type {
                    if str_eq(m.as_str(), MEDIA_TYPE_ACTIVITYPUB) {
                        hit = true;
                    }
                }
            }
            assert(hit == is_activitypub_link(self.links@[i as int]));
            if hit {
                proof {
                    lemma_first_link_found(self.links@, activitypub_pred(), i as int);
                }
                return Some(l);
            }
            i = i + 1;
        }
        proof {
            lemma_first_link_absent(self.links@, activitypub_pred());
        }
        let mut k: usize = 0;
        while k < self.links.len()
            invariant
                k <= self.links@.len(),
                first_link_where(self.links@, activitypub_pred()) == -1,
                forall|j: int| 0 <= j < k ==> !json_ld_pred()(#[trigger] self.links@[j]),
            decreases self.links@.len() - k,
        {
            let l = &self.links[k];
            let mut hit = false;
            if str_eq(l.rel.as_str(), SELF) {
                if let Some(m) = &l.media_type {
                    if starts_with_str(m.as_str(), MEDIA_TYPE_LD_JSON) {
                        hit = true;
                    }
                }
            }
            assert(hit == is_json_ld_link(self.links@[k as int]));
            if hit {
                proof {
                    lemma_first_link_found(self.links@, json_ld_pred(), k as int);
                }
                return Some(l);
            }
            k = k + 1;
        }
        proof {
            lemma_first_link_absent(self.links@, json_ld_pred());
        }
        None
    }
}

/// Builder for [`Jrd`] produced by [`Jrd::builder`].
#[derive(Debug)]
pub struct JrdBuilder {
    inner: Jrd,
}

impl JrdBuilder {
    /// The descriptor being built.
    pub closed spec fn current(&self) -> Jrd {
        self.inner
    }

    /// Appends an alias URI.
    pub fn alias(self, alias: &str) -> (b: Self)
        ensures
            b.current().aliases.deep_view() == self.current().aliases.deep_view().push(alias@),
            b.current().subject == self.current().subject,
            b.current().properties == self.current().properties,
            b.current().links == self.current().links,
    {
        let mut s = self;
        s.inner.aliases.push(alias.to_owned());
        assert(s.inner.aliases.deep_view() =~= self.current().aliases.deep_view().push(alias@));
        s
    }

    /// Sets a property.
    pub fn property(self, key: &str, value: Option<String>) -> (b: Self)
        ensures
            b.current().properties.as_map() == self.current().properties.as_map().insert(
                key@,
                value,
            ),
            b.current().subject == self.current().subject,
            b.current().aliases == self.current().aliases,
            b.current().links == self.current().links,
    {
        let mut s = self;
        let mut props = StringMap::new();
        std::mem::swap(&mut props, &mut s.inner.properties);
        props.insert(key.to_owned(), value);
        s.inner.properties = props;
        s
    }

    /// Appends a link.
    pub fn link(self, link: JrdLink) -> (b: Self)
        ensures
            b.current().links@ == self.current().links@.push(link),
            b.current().subject == self.current().subject,
            b.current().aliases == self.current().aliases,
            b.current().properties == self.current().properties,
    {
        let mut s = self;
        s.inner.links.push(link);
        s
    }

    /// Finalises the [`Jrd`].
    pub fn build(self) -> (j: Jrd)
        ensures
            j == self.current(),
    {
        self.inner
    }
}

impl JrdLink {
    /// A link with relation `rel` and nothing else.
    pub fn empty(rel: &str) -> (l: JrdLink)
        ensures
            l.rel@ == rel@,
            l.media_type is None,
            l.href is None,
            l.titles.entry_seq().len() == 0,
            l.properties.entry_seq().len() == 0,
            l.template is None,
    {
        JrdLink {
            rel: rel.to_owned(),
            media_type: None,
            href: None,
            titles: StringMap::new(),
            properties: StringMap::new(),
            template: None,
        }
    }

    /// Returns a new [`JrdLinkBuilder`].
    pub fn builder(rel: &str) -> (b: JrdLinkBuilder)
        ensures
            b.current().rel@ == rel@,
            b.current().media_type is None,
            b.current().href is None,
            b.current().titles.entry_seq().len() == 0,
            b.current().properties.entry_seq().len() == 0,
            b.current().template is None,
    {
        JrdLinkBuilder { inner: JrdLink::empty(rel) }
    }
}

/// Builder for [`JrdLink`] produced by [`JrdLink::builder`].
#[derive(Debug)]
pub struct JrdLinkBuilder {
    inner: JrdLink,
}

/// Two links agree on every field but the ones a builder step sets.
pub open spec fn same_link_but(a: JrdLink, b: JrdLink, field: int) -> bool {
    &&& (field != 0 ==> a.rel == b.rel)
    &&& (field != 1 ==> a.media_type == b.media_type)
    &&& (field != 2 ==> a.href == b.href)
    &&& (field != 3 ==> a.titles == b.titles)
    &&& (field != 4 ==> a.properties == b.properties)
    &&& (field != 5 ==> a.template == b.template)
}

impl JrdLinkBuilder {
    /// The link being built.
    pub closed spec fn current(&self) -> JrdLink {
        self.inner
    }

    /// Sets the MIME type (`type` property).
    pub fn media_type(self, media_type: &str) -> (b: Self)
        ensures
            b.current().media_type.deep_view() == Some(media_type@),
            same_link_but(b.current(), self.current(), 1),
    {
        let mut s = self;
        s.inner.media_type = Some(media_type.to_owned());
        s
    }

    /// Sets the `href` URL.
    pub fn href(self, href: url::Url) -> (b: Self)
        ensures
            b.current().href == Some(href),
            same_link_but(b.current(), self.current(), 2),
    {
        let mut s = self;
        s.inner.href = Some(href);
        s
    }

    /// Sets a localised title.
    pub fn title(self, lang: &str, title: &str) -> (b: Self)
        ensures
            b.current().titles.as_map().dom() == self.current().titles.as_map().dom().insert(lang@),
            b.current().titles.as_map()[lang@]@ == title@,
            forall|k: Seq<char>| k != lang@ && self.current().titles.as_map().contains_key(k) ==>
                b.current().titles.as_map()[k] == self.current().titles.as_map()[k],
            same_link_but(b.current(), self.current(), 3),
    {
        let mut s = self;
        let mut titles = StringMap::new();
        std::mem::swap(&mut titles, &mut s.inner.titles);
        titles.insert(lang.to_owned(), title.to_owned());
        s.inner.titles = titles;
        s
    }

    /// Sets a property.
    pub fn property(self, key: &str, value: Option<String>) -> (b: Self)
        ensures
            b.current().properties.as_map() == self.current().properties.as_map().insert(
                key@,
                value,
            ),
            same_link_but(b.current(), self.current(), 4),
    {
        let mut s = self;
        let mut props = StringMap::new();
        std::mem::swap(&mut props, &mut s.inner.properties);
        props.insert(key.to_owned(), value);
        s.inner.properties = props;
        s
    }

    /// Sets the URI template.
    pub fn template(self, template: &str) -> (b: Self)
        ensures
            b.current().template.deep_view() == Some(template@),
            same_link_but(b.current(), self.current(), 5),
    {
        let mut s = self;
        s.inner.template = Some(template.to_owned());
        s
    }

    /// Finalises the [`JrdLink`].
    pub fn build(self) -> (l: JrdLink)
        ensures
            l == self.current(),
    {
        self.inner
    }
}

// ---------------------------------------------------------------------------
// Checks on a fetched descriptor
// ---------------------------------------------------------------------------

/// `StatusCode::is_success`: 200 to 299.
pub open spec fn is_success(status: u16) -> bool {
    200 <= status && status <= 299
}

/// What a WebFinger client makes of a response status: non-2xx is refused.
pub fn check_status(status: u16) -> (r: Result<(), Error>)
    ensures
        r is Ok <==> is_success(status),
        r matches Err(e) ==> e@ == ErrorView::BadStatus(status),
{
    if 200 <= status && status <= 299 {
        Ok(())
    } else {
        Err(Error::BadStatus(status))
    }
}

/// Whether `jrd` describes `expected`: as its subject or as one of its
/// aliases.
pub open spec fn describes(jrd: Jrd, expected: Seq<char>) -> bool {
    jrd.subject@ == expected || jrd.aliases.deep_view().contains(expected)
}

/// A refusal with `e`.
pub open spec fn refusal(e: ErrorView) -> Result<(), ErrorView> {
    Err(e)
}

/// What a WebFinger client accepts of a fetched descriptor.
pub open spec fn spec_check_subject(jrd: Jrd, expected: Option<Seq<char>>) -> Result<(), ErrorView> {
    if jrd.subject@.len() == 0 {
        Err(ErrorView::MissingSubject)
    } else {
        match expected {
            Some(e) => if describes(jrd, e) {
                Ok(())
            } else {
                Err(ErrorView::SubjectMismatch(e, jrd.subject@))
            },
            None => Ok(()),
        }
    }
}

/// Accepts a fetched descriptor: its `subject` must be non-empty and, when
/// a subject is expected, the descriptor's subject or one of its aliases
/// must equal it. On success the descriptor is handed back unchanged.
///
/// # Errors
///
/// [`Error::MissingSubject`] for an empty subject and
/// [`Error::SubjectMismatch`] for a descriptor of another resource.
pub fn check_subject(jrd: Jrd, expected_subject: Option<&str>) -> (r: Result<Jrd, Error>)
    ensures
        r is Ok <==> spec_check_subject(jrd, expected_subject.deep_view()) is Ok,
        r matches Ok(j) ==> j == jrd,
        r matches Err(e) ==> spec_check_subject(jrd, expected_subject.deep_view()) == refusal(e@),
{
    if jrd.subject.as_str().is_empty() {
        return Err(Error::MissingSubject);
    }
    if let Some(expected) = expected_subject {
        if !str_eq(jrd.subject.as_str(), expected) {
            let mut i: usize = 0;
            while i < jrd.aliases.len()
                invariant
                    i <= jrd.aliases@.len(),
                    expected_subject == Some(expected),
                    jrd.subject@.len() > 0,
                    forall|j: int| 0 <= j < i ==> #[trigger] jrd.aliases@[j]@ != expected@,
                decreases jrd.aliases@.len() - i,
            {
                if str_eq(jrd.aliases[i].as_str(), expected) {
                    assert(jrd.aliases.deep_view()[i as int] == expected@);
                    assert(jrd.aliases.deep_view().contains(expected@));
                    return Ok(jrd);
                }
                i = i + 1;
            }
            assert(!jrd.aliases.deep_view().contains(expected@)) by {
                if jrd.aliases.deep_view().contains(expected@) {
                    let j = choose|j: int|
                        0 <= j < jrd.aliases.deep_view().len() && jrd.aliases.deep_view()[j]
                            == expected@;
                    assert(jrd.aliases@[j]@ == expected@);
                }
            }
            return Err(
                Error::SubjectMismatch { requested: expected.to_owned(), returned: jrd.subject },
            );
        }
    }
    Ok(jrd)
}

/// The subject check accepts a descriptor with a non-empty subject when the
/// requested resource is its subject or any one of its aliases, at any
/// position; it refuses an empty subject, and a descriptor that names the
/// resource nowhere with the requested and the returned subject.
pub proof fn lemma_subject_or_any_alias(jrd: Jrd, expected: Seq<char>, i: int)
    ensures
        jrd.subject@.len() > 0 && jrd.subject@ == expected ==> spec_check_subject(jrd, Some(expected)) is Ok,
        jrd.subject@.len() > 0 && 0 <= i < jrd.aliases@.len() && jrd.aliases@[i]@ == expected
            ==> spec_check_subject(jrd, Some(expected)) is Ok,
        jrd.subject@.len() > 0 ==> spec_check_subject(jrd, None) is Ok,
        jrd.subject@.len() == 0 ==> spec_check_subject(jrd, Some(expected)) == refusal(
            ErrorView::MissingSubject,
        ),
        (jrd.subject@.len() > 0 && jrd.subject@ != expected && forall|j: int|
            0 <= j < jrd.aliases@.len() ==> #[trigger] jrd.aliases@[j]@ != expected)
            ==> spec_check_subject(jrd, Some(expected)) == refusal(
            ErrorView::SubjectMismatch(expected, jrd.subject@),
        ),
{
    if 0 <= i < jrd.aliases@.len() && jrd.aliases@[i]@ == expected {
        assert(jrd.aliases.deep_view()[i] == expected);
    }
    if forall|j: int| 0 <= j < jrd.aliases@.len() ==> #[trigger] jrd.aliases@[j]@ != expected {
        assert(!jrd.aliases.deep_view().contains(expected)) by {
            if jrd.aliases.deep_view().contains(expected) {
                let j = choose|j: int|
                    0 <= j < jrd.aliases.deep_view().len() && jrd.aliases.deep_view()[j] == expected;
                assert(jrd.aliases@[j]@ == expected);
            }
        }
    }
}

} // verus!
