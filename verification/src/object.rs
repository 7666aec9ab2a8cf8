//! The universal Activity Streams 2.0 object container.
//!
//! Every specialisation of the vocabulary (actors, activities, collections,
//! pages, notes, ...) is held by one [`Object`] type whose standard
//! properties are typed fields; unknown properties are kept in `extra`.
use vstd::prelude::*;

use crate::kind;
use crate::string_map::StringMap;
use crate::text::str_eq;
use crate::time::Timestamp;
use crate::value::{is_public_iri, OneOrMany, Public};

verus! {

/// A reference-valued property: a bare URL (its serialisation) or an
/// inlined object.
#[derive(Debug, PartialEq)]
pub enum ObjectRef {
    Url(String),
    Object(Box<Object>),
}

/// A language map keyed by BCP-47 language tag.
pub type LanguageMap = StringMap<String>;

/// The universal Activity Streams 2.0 object container. URL-valued
/// properties hold the URL's serialisation.
#[derive(Debug, PartialEq)]
pub struct Object {
    pub id: Option<String>,
    pub kind: OneOrMany<String>,
    pub attachment: Vec<ObjectRef>,
    pub attributed_to: Vec<ObjectRef>,
    pub audience: Vec<ObjectRef>,
    pub content: Option<String>,
    pub content_map: Option<LanguageMap>,
    pub context: Vec<ObjectRef>,
    pub name: Option<String>,
    pub name_map: Option<LanguageMap>,
    pub end_time: Option<Timestamp>,
    pub generator: Vec<ObjectRef>,
    pub icon: Vec<ObjectRef>,
    pub image: Vec<ObjectRef>,
    pub in_reply_to: Vec<ObjectRef>,
    pub location: Vec<ObjectRef>,
    pub preview: Vec<ObjectRef>,
    pub published: Option<Timestamp>,
    pub replies: Option<Box<ObjectRef>>,
    pub start_time: Option<Timestamp>,
    pub summary: Option<String>,
    pub summary_map: Option<LanguageMap>,
    pub tag: Vec<ObjectRef>,
    pub updated: Option<Timestamp>,
    pub url: Vec<ObjectRef>,
    pub to: Vec<ObjectRef>,
    pub bto: Vec<ObjectRef>,
    pub cc: Vec<ObjectRef>,
    pub bcc: Vec<ObjectRef>,
    pub media_type: Option<String>,
    pub duration: Option<String>,
    pub actor: Vec<ObjectRef>,
    pub object: Vec<ObjectRef>,
    pub target: Vec<ObjectRef>,
    pub result: Vec<ObjectRef>,
    pub origin: Vec<ObjectRef>,
    pub instrument: Vec<ObjectRef>,
    pub total_items: Option<u64>,
    pub current: Option<Box<ObjectRef>>,
    pub first: Option<Box<ObjectRef>>,
    pub last: Option<Box<ObjectRef>>,
    pub items: Vec<ObjectRef>,
    pub ordered_items: Vec<ObjectRef>,
    pub part_of: Option<Box<ObjectRef>>,
    pub next: Option<Box<ObjectRef>>,
    pub prev: Option<Box<ObjectRef>>,
    pub start_index: Option<u64>,
    pub extra: StringMap<serde_json::Value>,
}

/// Every property but `id` and `kind` is absent.
pub open spec fn rest_blank(o: Object) -> bool {
    &&& o.attachment@.len() == 0
    &&& o.attributed_to@.len() == 0
    &&& o.audience@.len() == 0
    &&& o.content is None
    &&& o.content_map is None
    &&& o.context@.len() == 0
    &&& o.name is None
    &&& o.name_map is None
    &&& o.end_time is None
    &&& o.generator@.len() == 0
    &&& o.icon@.len() == 0
    &&& o.image@.len() == 0
    &&& o.in_reply_to@.len() == 0
    &&& o.location@.len() == 0
    &&& o.preview@.len() == 0
    &&& o.published is None
    &&& o.replies is None
    &&& o.start_time is None
    &&& o.summary is None
    &&& o.summary_map is None
    &&& o.tag@.len() == 0
    &&& o.updated is None
    &&& o.url@.len() == 0
    &&& o.to@.len() == 0
    &&& o.bto@.len() == 0
    &&& o.cc@.len() == 0
    &&& o.bcc@.len() == 0
    &&& o.media_type is None
    &&& o.duration is None
    &&& o.actor@.len() == 0
    &&& o.object@.len() == 0
    &&& o.target@.len() == 0
    &&& o.result@.len() == 0
    &&& o.origin@.len() == 0
    &&& o.instrument@.len() == 0
    &&& o.total_items is None
    &&& o.current is None
    &&& o.first is None
    &&& o.last is None
    &&& o.items@.len() == 0
    &&& o.ordered_items@.len() == 0
    &&& o.part_of is None
    &&& o.next is None
    &&& o.prev is None
    &&& o.start_index is None
    &&& o.extra.as_map().len() == 0
}

/// No property at all is set.
pub open spec fn is_blank(o: Object) -> bool {
    &&& o.id is None
    &&& o.kind.0@.len() == 0
    &&& rest_blank(o)
}

/// The declared type names of an object.
pub open spec fn kinds_of(o: Object) -> Seq<Seq<char>> {
    o.kind.0@.map_values(|k: String| k@)
}


/// Whether a spelling of the `Public` pseudo-actor is what `r` addresses:
/// the URL itself, or the `id` of the inlined object.
pub open spec fn ref_is_public(r: ObjectRef) -> bool {
    match r {
        ObjectRef::Url(u) => is_public_iri(u@),
        ObjectRef::Object(o) => o.id matches Some(u) && is_public_iri(u@),
    }
}

/// Whether any of `refs` addresses the `Public` pseudo-actor.
pub open spec fn any_public(refs: Seq<ObjectRef>) -> bool {
    exists|i: int| 0 <= i < refs.len() && #[trigger] ref_is_public(refs[i])
}

/// Whether `o` names one of the five standard actor types.
pub open spec fn spec_is_actor(o: Object) -> bool {
    let ks = kinds_of(o);
    ks.contains(kind::actor::PERSON@) || ks.contains(kind::actor::GROUP@) || ks.contains(
        kind::actor::ORGANIZATION@,
    ) || ks.contains(kind::actor::APPLICATION@) || ks.contains(kind::actor::SERVICE@)
}

/// Whether `o` names one of the collection or collection-page types.
pub open spec fn spec_is_collection(o: Object) -> bool {
    let ks = kinds_of(o);
    ks.contains(kind::collection::COLLECTION@) || ks.contains(kind::collection::ORDERED_COLLECTION@)
        || ks.contains(kind::collection::COLLECTION_PAGE@) || ks.contains(
        kind::collection::ORDERED_COLLECTION_PAGE@,
    )
}

/// Whether `o` addresses the `Public` pseudo-actor through `to`, `cc`,
/// `bto`, `bcc` or `audience`.
pub open spec fn spec_is_public(o: Object) -> bool {
    any_public(o.to@) || any_public(o.cc@) || any_public(o.bto@) || any_public(o.bcc@)
        || any_public(o.audience@)
}

fn ref_is_public_exec(r: &ObjectRef) -> (b: bool)
    ensures
        b == ref_is_public(*r),
{
    match r {
        ObjectRef::Url(u) => Public::is_public(u.as_str()),
        ObjectRef::Object(o) => match &o.id {
            Some(u) => Public::is_public(u.as_str()),
            None => false,
        },
    }
}

fn any_public_exec(refs: &Vec<ObjectRef>) -> (b: bool)
    ensures
        b == any_public(refs@),
{
    let mut i: usize = 0;
    while i < refs.len()
        invariant
            0 <= i <= refs.len(),
            forall|j: int| 0 <= j < i ==> !#[trigger] ref_is_public(refs@[j]),
        decreases refs.len() - i,
    {
        if ref_is_public_exec(&refs[i]) {
            return true;
        }
        i = i + 1;
    }
    false
}

impl Object {
    /// An object with no property set.
    pub fn new() -> (o: Self)
        ensures
            is_blank(o),
    {
        Object {
            id: None,
            kind: OneOrMany::empty(),
            attachment: Vec::new(),
            attributed_to: Vec::new(),
            audience: Vec::new(),
            content: None,
            content_map: None,
            context: Vec::new(),
            name: None,
            name_map: None,
            end_time: None,
            generator: Vec::new(),
            icon: Vec::new(),
            image: Vec::new(),
            in_reply_to: Vec::new(),
            location: Vec::new(),
            preview: Vec::new(),
            published: None,
            replies: None,
            start_time: None,
            summary: None,
            summary_map: None,
            tag: Vec::new(),
            updated: None,
            url: Vec::new(),
            to: Vec::new(),
            bto: Vec::new(),
            cc: Vec::new(),
            bcc: Vec::new(),
            media_type: None,
            duration: None,
            actor: Vec::new(),
            object: Vec::new(),
            target: Vec::new(),
            result: Vec::new(),
            origin: Vec::new(),
            instrument: Vec::new(),
            total_items: None,
            current: None,
            first: None,
            last: None,
            items: Vec::new(),
            ordered_items: Vec::new(),
            part_of: None,
            next: None,
            prev: None,
            start_index: None,
            extra: StringMap::new(),
        }
    }
    /// An object whose only property is the single type `kind`.
    pub fn with_kind(kind: &str) -> (o: Self)
        ensures
            o.id is None,
            kinds_of(o) == seq![kind@],
            rest_blank(o),
    {
        let mut o = Object::new();
        o.kind = OneOrMany::one(kind.to_string());
        proof {
            assert(kinds_of(o) =~= seq![kind@]);
        }
        o
    }

    /// The same object with its `id` set to `id`.
    pub fn with_id(self, id: String) -> (o: Self)
        ensures
            o == (Object { id: Some(id), ..self }),
    {
        let mut o = self;
        o.id = Some(id);
        o
    }

    /// Whether any of the declared types equals `kind`.
    pub fn is_kind(&self, kind: &str) -> (b: bool)
        ensures
            b == kinds_of(*self).contains(kind@),
    {
        let ks = &self.kind.0;
        let mut i: usize = 0;
        while i < ks.len()
            invariant
                0 <= i <= ks.len(),
                ks == &self.kind.0,
                forall|j: int| 0 <= j < i ==> ks@[j]@ != kind@,
            decreases ks.len() - i,
        {
            if str_eq(ks[i].as_str(), kind) {
                proof {
                    assert(kinds_of(*self)[i as int] == kind@);
                }
                return true;
            }
            i = i + 1;
        }
        proof {
            if kinds_of(*self).contains(kind@) {
                let j = choose|j: int| 0 <= j < kinds_of(*self).len() && kinds_of(*self)[j] == kind@;
                assert(ks@[j]@ == kind@);
            }
        }
        false
    }

    /// The first declared type, if any.
    pub fn primary_kind(&self) -> (r: Option<&str>)
        ensures
            kinds_of(*self).len() == 0 ==> r is None,
            kinds_of(*self).len() > 0 ==> (r matches Some(k) && k@ == kinds_of(*self)[0]),
    {
        match self.kind.first() {
            Some(k) => Some(k.as_str()),
            None => None,
        }
    }

    /// Whether the object is one of the five standard actor types
    /// (Person, Group, Organization, Application, Service).
    pub fn is_actor(&self) -> (b: bool)
        ensures
            b == spec_is_actor(*self),
    {
        self.is_kind(kind::actor::PERSON) || self.is_kind(kind::actor::GROUP) || self.is_kind(
            kind::actor::ORGANIZATION,
        ) || self.is_kind(kind::actor::APPLICATION) || self.is_kind(kind::actor::SERVICE)
    }

    /// Whether the object is a collection or a collection page.
    pub fn is_collection(&self) -> (b: bool)
        ensures
            b == spec_is_collection(*self),
    {
        self.is_kind(kind::collection::COLLECTION) || self.is_kind(
            kind::collection::ORDERED_COLLECTION,
        ) || self.is_kind(kind::collection::COLLECTION_PAGE) || self.is_kind(
            kind::collection::ORDERED_COLLECTION_PAGE,
        )
    }

    /// Whether `to`, `cc`, `bto`, `bcc` or `audience` address the `Public`
    /// pseudo-actor in any of its spellings.
    pub fn is_public(&self) -> (b: bool)
        ensures
            b == spec_is_public(*self),
    {
        any_public_exec(&self.to) || any_public_exec(&self.cc) || any_public_exec(&self.bto)
            || any_public_exec(&self.bcc) || any_public_exec(&self.audience)
    }
}

/// `b` is a clone of the map `a`: the same keys in the same order, each
/// value a clone of the value it stands for.
pub open spec fn map_cloned<V: Clone>(a: StringMap<V>, b: StringMap<V>) -> bool {
    &&& b.entry_seq().len() == a.entry_seq().len()
    &&& forall|i: int|
        0 <= i < a.entry_seq().len() ==> #[trigger] b.entry_seq()[i].0 == a.entry_seq()[i].0
            && cloned(a.entry_seq()[i].1, b.entry_seq()[i].1)
}

/// `b` is a clone of the optional map `a`.
pub open spec fn opt_map_cloned(a: Option<LanguageMap>, b: Option<LanguageMap>) -> bool {
    match a {
        None => b is None,
        Some(x) => b matches Some(y) && map_cloned(x, y),
    }
}

/// `b` is a clone of the reference `a`: the same URL, or a clone of the
/// inlined object.
pub open spec fn ref_cloned(a: ObjectRef, b: ObjectRef) -> bool
    decreases a, 0nat,
{
    match a {
        ObjectRef::Url(u) => b matches ObjectRef::Url(v) && v@ == u@,
        ObjectRef::Object(o) => b matches ObjectRef::Object(p) && object_cloned(*o, *p),
    }
}

/// `b` is an element-wise clone of the references `a`.
pub open spec fn refs_cloned(a: Seq<ObjectRef>, b: Seq<ObjectRef>) -> bool
    decreases a, a.len() + 1,
{
    b.len() == a.len() && refs_cloned_from(a, b, 0)
}

/// From index `i` on, each reference of `b` is a clone of that of `a`.
pub open spec fn refs_cloned_from(a: Seq<ObjectRef>, b: Seq<ObjectRef>, i: int) -> bool
    decreases a, a.len() - i,
{
    if 0 <= i < a.len() {
        ref_cloned(a[i], b[i]) && refs_cloned_from(a, b, i + 1)
    } else {
        true
    }
}

/// `b` is a clone of the optional boxed reference `a`.
pub open spec fn opt_ref_cloned(a: Option<Box<ObjectRef>>, b: Option<Box<ObjectRef>>) -> bool
    decreases a, 0nat,
{
    match a {
        None => b is None,
        Some(x) => b matches Some(y) && ref_cloned(*x, *y),
    }
}

/// `b` is a clone of the object `a`: every property the same, inlined
/// objects cloned in turn, and each `extra` value a clone of its original.
pub open spec fn object_cloned(a: Object, b: Object) -> bool
    decreases a, 0nat,
{
    &&& b.id == a.id
    &&& b.kind.0@ == a.kind.0@
    &&& refs_cloned(a.attachment@, b.attachment@)
    &&& refs_cloned(a.attributed_to@, b.attributed_to@)
    &&& refs_cloned(a.audience@, b.audience@)
    &&& b.content == a.content
    &&& opt_map_cloned(a.content_map, b.content_map)
    &&& refs_cloned(a.context@, b.context@)
    &&& b.name == a.name
    &&& opt_map_cloned(a.name_map, b.name_map)
    &&& b.end_time == a.end_time
    &&& refs_cloned(a.generator@, b.generator@)
    &&& refs_cloned(a.icon@, b.icon@)
    &&& refs_cloned(a.image@, b.image@)
    &&& refs_cloned(a.in_reply_to@, b.in_reply_to@)
    &&& refs_cloned(a.location@, b.location@)
    &&& refs_cloned(a.preview@, b.preview@)
    &&& b.published == a.published
    &&& opt_ref_cloned(a.replies, b.replies)
    &&& b.start_time == a.start_time
    &&& b.summary == a.summary
    &&& opt_map_cloned(a.summary_map, b.summary_map)
    &&& refs_cloned(a.tag@, b.tag@)
    &&& b.updated == a.updated
    &&& refs_cloned(a.url@, b.url@)
    &&& refs_cloned(a.to@, b.to@)
    &&& refs_cloned(a.bto@, b.bto@)
    &&& refs_cloned(a.cc@, b.cc@)
    &&& refs_cloned(a.bcc@, b.bcc@)
    &&& b.media_type == a.media_type
    &&& b.duration == a.duration
    &&& refs_cloned(a.actor@, b.actor@)
    &&& refs_cloned(a.object@, b.object@)
    &&& refs_cloned(a.target@, b.target@)
    &&& refs_cloned(a.result@, b.result@)
    &&& refs_cloned(a.origin@, b.origin@)
    &&& refs_cloned(a.instrument@, b.instrument@)
    &&& b.total_items == a.total_items
    &&& opt_ref_cloned(a.current, b.current)
    &&& opt_ref_cloned(a.first, b.first)
    &&& opt_ref_cloned(a.last, b.last)
    &&& refs_cloned(a.items@, b.items@)
    &&& refs_cloned(a.ordered_items@, b.ordered_items@)
    &&& opt_ref_cloned(a.part_of, b.part_of)
    &&& opt_ref_cloned(a.next, b.next)
    &&& opt_ref_cloned(a.prev, b.prev)
    &&& b.start_index == a.start_index
    &&& map_cloned(a.extra, b.extra)
}

fn clone_text(t: &Option<String>) -> (r: Option<String>)
    ensures
        r == *t,
{
    match t {
        Some(s) => Some(s.clone()),
        None => None,
    }
}

fn clone_texts(v: &Vec<String>) -> (r: Vec<String>)
    ensures
        r@ == v@,
{
    let mut out: Vec<String> = Vec::new();
    let mut i: usize = 0;
    while i < v.len()
        invariant
            i <= v@.len(),
            out@ == v@.take(i as int),
        decreases v@.len() - i,
    {
        out.push(v[i].clone());
        proof {
            assert(v@.take(i + 1) =~= v@.take(i as int).push(v@[i as int]));
        }
        i = i + 1;
    }
    proof {
        assert(v@.take(v@.len() as int) =~= v@);
    }
    out
}

fn clone_lang_map(m: &Option<LanguageMap>) -> (r: Option<LanguageMap>)
    ensures
        opt_map_cloned(*m, r),
{
    match m {
        Some(x) => Some(x.clone()),
        None => None,
    }
}

proof fn lemma_refs_cloned_from(a: Seq<ObjectRef>, b: Seq<ObjectRef>, i: int)
    requires
        0 <= i <= a.len(),
        forall|j: int| i <= j < a.len() ==> #[trigger] ref_cloned(a[j], b[j]),
    ensures
        refs_cloned_from(a, b, i),
    decreases a.len() - i,
{
    if i < a.len() {
        lemma_refs_cloned_from(a, b, i + 1);
        assert(ref_cloned(a[i], b[i]));
        assert(refs_cloned_from(a, b, i + 1));
    }
}

fn clone_ref(r: &ObjectRef) -> (c: ObjectRef)
    ensures
        ref_cloned(*r, c),
    decreases r, 1nat,
{
    match r {
        ObjectRef::Url(u) => ObjectRef::Url(u.clone()),
        ObjectRef::Object(o) => ObjectRef::Object(Box::new(clone_object(&**o))),
    }
}

fn clone_refs(rs: &Vec<ObjectRef>) -> (c: Vec<ObjectRef>)
    ensures
        refs_cloned(rs@, c@),
    decreases rs, 1nat,
{
    let mut out: Vec<ObjectRef> = Vec::new();
    let mut i: usize = 0;
    while i < rs.len()
        invariant
            i <= rs@.len(),
            out@.len() == i,
            forall|j: int| 0 <= j < i ==> #[trigger] ref_cloned(rs@[j], out@[j]),
        decreases rs@.len() - i,
    {
        assert(decreases_to!(rs => rs@[i as int]));
        out.push(clone_ref(&rs[i]));
        i = i + 1;
    }
    proof {
        lemma_refs_cloned_from(rs@, out@, 0);
    }
    out
}

fn clone_boxed_ref(r: &Option<Box<ObjectRef>>) -> (c: Option<Box<ObjectRef>>)
    ensures
        opt_ref_cloned(*r, c),
    decreases r, 1nat,
{
    match r {
        Some(b) => Some(Box::new(clone_ref(&**b))),
        None => None,
    }
}

fn clone_object(o: &Object) -> (c: Object)
    ensures
        object_cloned(*o, c),
    decreases o, 0nat,
{
    Object {
        id: clone_text(&o.id),
        kind: OneOrMany(clone_texts(&o.kind.0)),
        attachment: clone_refs(&o.attachment),
        attributed_to: clone_refs(&o.attributed_to),
        audience: clone_refs(&o.audience),
        content: clone_text(&o.content),
        content_map: clone_lang_map(&o.content_map),
        context: clone_refs(&o.context),
        name: clone_text(&o.name),
        name_map: clone_lang_map(&o.name_map),
        end_time: o.end_time,
        generator: clone_refs(&o.generator),
        icon: clone_refs(&o.icon),
        image: clone_refs(&o.image),
        in_reply_to: clone_refs(&o.in_reply_to),
        location: clone_refs(&o.location),
        preview: clone_refs(&o.preview),
        published: o.published,
        replies: clone_boxed_ref(&o.replies),
        start_time: o.start_time,
        summary: clone_text(&o.summary),
        summary_map: clone_lang_map(&o.summary_map),
        tag: clone_refs(&o.tag),
        updated: o.updated,
        url: clone_refs(&o.url),
        to: clone_refs(&o.to),
        bto: clone_refs(&o.bto),
        cc: clone_refs(&o.cc),
        bcc: clone_refs(&o.bcc),
        media_type: clone_text(&o.media_type),
        duration: clone_text(&o.duration),
        actor: clone_refs(&o.actor),
        object: clone_refs(&o.object),
        target: clone_refs(&o.target),
        result: clone_refs(&o.result),
        origin: clone_refs(&o.origin),
        instrument: clone_refs(&o.instrument),
        total_items: o.total_items,
        current: clone_boxed_ref(&o.current),
        first: clone_boxed_ref(&o.first),
        last: clone_boxed_ref(&o.last),
        items: clone_refs(&o.items),
        ordered_items: clone_refs(&o.ordered_items),
        part_of: clone_boxed_ref(&o.part_of),
        next: clone_boxed_ref(&o.next),
        prev: clone_boxed_ref(&o.prev),
        start_index: o.start_index,
        extra: o.extra.clone(),
    }
}

impl Clone for Object {
    /// A deep copy: see [`object_cloned`].
    fn clone(&self) -> (c: Self)
        ensures
            object_cloned(*self, c),
    {
        clone_object(self)
    }
}

impl Clone for ObjectRef {
    /// A deep copy: see [`ref_cloned`].
    fn clone(&self) -> (c: Self)
        ensures
            ref_cloned(*self, c),
    {
        clone_ref(self)
    }
}

impl Default for Object {
    fn default() -> (o: Self)
        ensures
            is_blank(o),
    {
        Object::new()
    }
}

/// Whether a reference is one of the spellings of the `Public` pseudo-actor
/// (its full IRI, `as:Public` or `Public`), as a URL or as the `id` of an
/// inlined object.
pub open spec fn names_public(r: ObjectRef) -> bool {
    let spelled = |t: Seq<char>|
        t == "https://www.w3.org/ns/activitystreams#Public"@ || t == "as:Public"@ || t
            == "Public"@;
    match r {
        ObjectRef::Url(u) => spelled(u@),
        ObjectRef::Object(o) => o.id matches Some(u) && spelled(u@),
    }
}

/// An object is public exactly when some entry, at any position, of its
/// `to`, `cc`, `bto`, `bcc` or `audience` names the `Public` pseudo-actor.
pub proof fn lemma_public_at_any_position(o: Object, i: int)
    ensures
        0 <= i < o.to@.len() && names_public(o.to@[i]) ==> spec_is_public(o),
        0 <= i < o.cc@.len() && names_public(o.cc@[i]) ==> spec_is_public(o),
        0 <= i < o.bto@.len() && names_public(o.bto@[i]) ==> spec_is_public(o),
        0 <= i < o.bcc@.len() && names_public(o.bcc@[i]) ==> spec_is_public(o),
        0 <= i < o.audience@.len() && names_public(o.audience@[i]) ==> spec_is_public(o),
        spec_is_public(o) ==> exists|l: Seq<ObjectRef>, j: int|
            (l == o.to@ || l == o.cc@ || l == o.bto@ || l == o.bcc@ || l == o.audience@) && 0 <= j
                < l.len() && #[trigger] names_public(l[j]),
{
    assert forall|r: ObjectRef| names_public(r) == ref_is_public(r) by {}
    if spec_is_public(o) {
        let l = if any_public(o.to@) {
            o.to@
        } else if any_public(o.cc@) {
            o.cc@
        } else if any_public(o.bto@) {
            o.bto@
        } else if any_public(o.bcc@) {
            o.bcc@
        } else {
            o.audience@
        };
        let j = choose|j: int| 0 <= j < l.len() && #[trigger] ref_is_public(l[j]);
        assert(names_public(l[j]));
    }
}

} // verus!
