//! `NodeInfo` schema types (2.0 / 2.1) and the discovery relation names.
use vstd::prelude::*;

use crate::string_map::StringMap;

verus! {

/// The `NodeInfo` schema version a document conforms to.
#[derive(Debug, Clone, Copy, PartialEq, Eq, Hash)]
pub enum Version {
    /// `NodeInfo` 2.0.
    V2_0,
    /// `NodeInfo` 2.1.
    V2_1,
}

impl Version {
    /// Returns the version as the lexical string used on the wire.
    pub fn as_str(self) -> (s: &'static str)
        ensures
            s@ == version_text(self),
    {
        match self {
            Version::V2_0 => "2.0",
            Version::V2_1 => "2.1",
        }
    }

    /// Returns the full schema URI this version corresponds to, as emitted
    /// in the `rel` field of the `/.well-known/nodeinfo` discovery document.
    pub fn schema_uri(self) -> (s: &'static str)
        ensures
            s@ == version_schema_uri(self),
    {
        match self {
            Version::V2_0 => "http://nodeinfo.diaspora.software/ns/schema/2.0",
            Version::V2_1 => "http://nodeinfo.diaspora.software/ns/schema/2.1",
        }
    }
}

/// The lexical form of a version.
pub open spec fn version_text(v: Version) -> Seq<char> {
    match v {
        Version::V2_0 => "2.0"@,
        Version::V2_1 => "2.1"@,
    }
}

/// The schema URI of a version.
pub open spec fn version_schema_uri(v: Version) -> Seq<char> {
    match v {
        Version::V2_0 => "http://nodeinfo.diaspora.software/ns/schema/2.0"@,
        Version::V2_1 => "http://nodeinfo.diaspora.software/ns/schema/2.1"@,
    }
}

/// A version's schema URI is the NodeInfo schema namespace followed by the
/// version's lexical form, and distinct versions have distinct forms.
pub proof fn lemma_schema_uri_names_the_version(v: Version, w: Version)
    ensures
        version_schema_uri(v) == "http://nodeinfo.diaspora.software/ns/schema/"@ + version_text(v),
        v != w ==> version_text(v) != version_text(w),
{
    reveal_strlit("2.0");
    reveal_strlit("2.1");
    reveal_strlit("http://nodeinfo.diaspora.software/ns/schema/2.0");
    reveal_strlit("http://nodeinfo.diaspora.software/ns/schema/2.1");
    reveal_strlit("http://nodeinfo.diaspora.software/ns/schema/");
    assert(version_schema_uri(v) =~= "http://nodeinfo.diaspora.software/ns/schema/"@ + version_text(v));
    if v != w {
        assert(version_text(v)[2] != version_text(w)[2]);
    }
}

/// A federation protocol supported by a NodeInfo-described server; unknown
/// values are kept in [`Protocol::Other`].
#[derive(Debug, Clone, PartialEq, Eq, Hash)]
#[non_exhaustive]
pub enum Protocol {
    ActivityPub,
    Diaspora,
    GnuSocial,
    Libertree,
    OStatus,
    PumpIo,
    Tent,
    Xmpp,
    Zot,
    Matrix,
    /// An unrecognised protocol identifier, preserved verbatim.
    Other(String),
}

/// An inbound bridge service defined in `NodeInfo`.
#[derive(Debug, Clone, PartialEq, Eq)]
#[non_exhaustive]
pub enum InboundService {
    Atom1_0,
    GnuSocial,
    Imap,
    Pnut,
    Pop3,
    PumpIo,
    Rss2_0,
    Twitter,
    /// Unknown service identifier.
    Other(String),
}

/// An outbound bridge service defined in `NodeInfo`.
#[derive(Debug, Clone, PartialEq, Eq)]
#[non_exhaustive]
pub enum OutboundService {
    Atom1_0,
    Blogger,
    Buddycloud,
    Diaspora,
    Dreamwidth,
    Drupal,
    Facebook,
    Friendica,
    GnuSocial,
    Google,
    InsaneJournal,
    LiveJournal,
    Libertree,
    LinkedIn,
    LotusNotes,
    MySpace,
    Pinterest,
    Pnut,
    Posterous,
    PumpIo,
    RedMatrix,
    Rss2_0,
    Smtp,
    Tent,
    Tumblr,
    Twitter,
    WordPress,
    Xmpp,
    /// An unrecognised service identifier, preserved verbatim.
    Other(String),
}

/// Set of inbound/outbound bridge services.
#[derive(Debug, Clone, PartialEq, Eq)]
pub struct Services {
    pub inbound: Vec<InboundService>,
    pub outbound: Vec<OutboundService>,
}

impl Default for Services {
    fn default() -> (s: Self)
        ensures
            s.inbound@.len() == 0,
            s.outbound@.len() == 0,
    {
        Services { inbound: Vec::new(), outbound: Vec::new() }
    }
}

/// Whether a services block is left out of the wire form: both lists empty.
pub fn skip_empty_services(s: &Services) -> (b: bool)
    ensures
        b == (s.inbound@.len() == 0 && s.outbound@.len() == 0),
{
    s.inbound.len() == 0 && s.outbound.len() == 0
}

/// Metadata about the software powering a server.
#[derive(Debug, Clone, PartialEq, Eq)]
pub struct Software {
    /// Canonical software name (e.g. `mastodon`, `lemmy`, `mitra`).
    pub name: String,
    /// Version string. Required, but may be empty.
    pub version: String,
    /// Repository URL (`NodeInfo` 2.1 only).
    pub repository: Option<url::Url>,
    /// Homepage URL (`NodeInfo` 2.1 only).
    pub homepage: Option<url::Url>,
}

impl Software {
    /// Constructs a minimal [`Software`] description.
    pub fn new(name: &str, version: &str) -> (s: Self)
        ensures
            s.name@ == name@,
            s.version@ == version@,
            s.repository is None,
            s.homepage is None,
    {
        Software {
            name: name.to_owned(),
            version: version.to_owned(),
            repository: None,
            homepage: None,
        }
    }
}

/// Per-user activity counts.
#[derive(Debug, Clone, Copy, PartialEq, Eq)]
pub struct UserCount {
    pub total: Option<u64>,
    pub active_halfyear: Option<u64>,
    pub active_month: Option<u64>,
}

impl Default for UserCount {
    fn default() -> (c: Self)
        ensures
            c.total is None,
            c.active_halfyear is None,
            c.active_month is None,
    {
        UserCount { total: None, active_halfyear: None, active_month: None }
    }
}

/// Aggregate server usage statistics.
#[derive(Debug, Clone, PartialEq, Eq)]
pub struct Usage {
    pub users: Option<UserCount>,
    pub local_posts: Option<u64>,
    pub local_comments: Option<u64>,
}

impl Default for Usage {
    fn default() -> (u: Self)
        ensures
            u.users is None,
            u.local_posts is None,
            u.local_comments is None,
    {
        Usage { users: None, local_posts: None, local_comments: None }
    }
}

/// The `metadata` member of a document.
#[derive(Debug, PartialEq)]
pub enum Metadata {
    /// Absent, or `null`.
    Null,
    /// A JSON object, by key.
    Object(StringMap<serde_json::Value>),
    /// Any other JSON value.
    Other(serde_json::Value),
}

/// The map that a sequence of entries gives when inserted in order: a
/// later entry replaces an earlier one with the same key.
pub open spec fn entries_inserted<V>(es: Seq<(Seq<char>, V)>) -> Map<Seq<char>, V>
    decreases es.len(),
{
    if es.len() == 0 {
        Map::empty()
    } else {
        entries_inserted(es.drop_last()).insert(es.last().0, es.last().1)
    }
}

/// Metadata that is the object of `entries`, inserted in order.
pub fn metadata_from(entries: Vec<(String, serde_json::Value)>) -> (m: Metadata)
    ensures
        m matches Metadata::Object(map) && map.as_map() == entries_inserted(
            entries@.map_values(|e: (String, serde_json::Value)| (e.0@, e.1)),
        ),
{
    let ghost es = entries@.map_values(|e: (String, serde_json::Value)| (e.0@, e.1));
    let mut map: StringMap<serde_json::Value> = StringMap::new();
    let mut entries = entries;
    let ghost mut k: int = 0;
    proof {
        assert(map.as_map() =~= entries_inserted(es.take(0)));
        assert(entries@.map_values(|e: (String, serde_json::Value)| (e.0@, e.1)) =~= es.skip(0));
    }
    while entries.len() > 0
        invariant
            0 <= k <= es.len(),
            entries@.map_values(|e: (String, serde_json::Value)| (e.0@, e.1)) == es.skip(k),
            map.as_map() == entries_inserted(es.take(k)),
        decreases entries.len(),
    {
        let ghost before = entries@;
        let e = entries.remove(0);
        proof {
            assert(before.map_values(|e: (String, serde_json::Value)| (e.0@, e.1)).len() == before.len());
            assert(es.skip(k).len() == es.len() - k);
            assert(k < es.len());
            assert(es.skip(k)[0] == es[k]);
            assert(before.map_values(|e: (String, serde_json::Value)| (e.0@, e.1))[0] == es[k]);
            assert(es.take(k + 1).drop_last() =~= es.take(k));
            assert(entries@ =~= before.subrange(1, before.len() as int));
            let f = |e: (String, serde_json::Value)| (e.0@, e.1);
            assert forall|j: int| 0 <= j < entries@.len() implies #[trigger] entries@.map_values(f)[j]
                == es.skip(k + 1)[j] by {
                assert(entries@[j] == before[j + 1]);
                assert(before.map_values(f)[j + 1] == es.skip(k)[j + 1]);
            }
            assert(entries@.map_values(|e: (String, serde_json::Value)| (e.0@, e.1)) =~= es.skip(
                k + 1,
            ));
        }
        map.insert(e.0, e.1);
        proof {
            k = k + 1;
        }
    }
    proof {
        assert(es.take(k) =~= es);
    }
    Metadata::Object(map)
}

/// A `NodeInfo` 2.0 / 2.1 document.
#[derive(Debug, PartialEq)]
pub struct NodeInfo {
    pub version: Version,
    pub software: Software,
    pub protocols: Vec<Protocol>,
    pub services: Services,
    pub open_registrations: bool,
    pub usage: Usage,
    /// Arbitrary software-specific metadata.
    pub metadata: Metadata,
}

/// Builder for [`NodeInfo`] produced by [`NodeInfo::builder`].
#[derive(Debug)]
pub struct NodeInfoBuilder {
    inner: NodeInfo,
}

impl NodeInfoBuilder {
    /// The document being built.
    pub closed spec fn doc(&self) -> NodeInfo {
        self.inner
    }
}

/// Two documents agree on everything but the fields a builder step sets.
pub open spec fn same_head(a: NodeInfo, b: NodeInfo) -> bool {
    a.version == b.version && a.software == b.software
}

impl NodeInfo {
    /// Returns a new builder at the given schema version: no protocols, no
    /// services, closed registrations, empty usage and `null` metadata.
    pub fn builder(version: Version, software: Software) -> (b: NodeInfoBuilder)
        ensures
            b.doc().version == version,
            b.doc().software == software,
            b.doc().protocols@.len() == 0,
            b.doc().services.inbound@.len() == 0,
            b.doc().services.outbound@.len() == 0,
            !b.doc().open_registrations,
            b.doc().usage.users is None,
            b.doc().usage.local_posts is None,
            b.doc().usage.local_comments is None,
            b.doc().metadata == Metadata::Null,
    {
        NodeInfoBuilder {
            inner: NodeInfo {
                version,
                software,
                protocols: Vec::new(),
                services: Services::default(),
                open_registrations: false,
                usage: Usage::default(),
                metadata: Metadata::Null,
            },
        }
    }
}

impl NodeInfoBuilder {
    /// Appends a supported protocol.
    pub fn protocol(self, p: Protocol) -> (b: Self)
        ensures
            b.doc().protocols@ == self.doc().protocols@.push(p),
            same_head(b.doc(), self.doc()),
            b.doc().services == self.doc().services,
            b.doc().open_registrations == self.doc().open_registrations,
            b.doc().usage == self.doc().usage,
            b.doc().metadata == self.doc().metadata,
    {
        let mut s = self;
        s.inner.protocols.push(p);
        s
    }

    /// Replaces all protocols.
    pub fn protocols(self, ps: Vec<Protocol>) -> (b: Self)
        ensures
            b.doc().protocols == ps,
            same_head(b.doc(), self.doc()),
            b.doc().services == self.doc().services,
            b.doc().open_registrations == self.doc().open_registrations,
            b.doc().usage == self.doc().usage,
            b.doc().metadata == self.doc().metadata,
    {
        let mut s = self;
        s.inner.protocols = ps;
        s
    }

    /// Replaces the services block.
    pub fn services(self, services: Services) -> (b: Self)
        ensures
            b.doc().services == services,
            same_head(b.doc(), self.doc()),
            b.doc().protocols == self.doc().protocols,
            b.doc().open_registrations == self.doc().open_registrations,
            b.doc().usage == self.doc().usage,
            b.doc().metadata == self.doc().metadata,
    {
        let mut s = self;
        s.inner.services = services;
        s
    }

    /// Sets the `openRegistrations` flag.
    pub fn open_registrations(self, open: bool) -> (b: Self)
        ensures
            b.doc().open_registrations == open,
            same_head(b.doc(), self.doc()),
            b.doc().protocols == self.doc().protocols,
            b.doc().services == self.doc().services,
            b.doc().usage == self.doc().usage,
            b.doc().metadata == self.doc().metadata,
    {
        let mut s = self;
        s.inner.open_registrations = open;
        s
    }

    /// Sets the usage block.
    pub fn usage(self, usage: Usage) -> (b: Self)
        ensures
            b.doc().usage == usage,
            same_head(b.doc(), self.doc()),
            b.doc().protocols == self.doc().protocols,
            b.doc().services == self.doc().services,
            b.doc().open_registrations == self.doc().open_registrations,
            b.doc().metadata == self.doc().metadata,
    {
        let mut s = self;
        s.inner.usage = usage;
        s
    }

    /// Attaches arbitrary metadata.
    pub fn metadata(self, m: Metadata) -> (b: Self)
        ensures
            b.doc().metadata == m,
            same_head(b.doc(), self.doc()),
            b.doc().protocols == self.doc().protocols,
            b.doc().services == self.doc().services,
            b.doc().open_registrations == self.doc().open_registrations,
            b.doc().usage == self.doc().usage,
    {
        let mut s = self;
        s.inner.metadata = m;
        s
    }

    /// Attaches a single metadata entry: the metadata becomes an object (the
    /// current one, if it is an object; else a new one) holding `key`.
    pub fn metadata_entry(self, key: String, value: serde_json::Value) -> (b: Self)
        ensures
            b.doc().metadata matches Metadata::Object(m) && m.as_map() == (match self.doc().metadata {
                Metadata::Object(old) => old.as_map(),
                _ => Map::empty(),
            }).insert(key@, value),
            same_head(b.doc(), self.doc()),
            b.doc().protocols == self.doc().protocols,
            b.doc().services == self.doc().services,
            b.doc().open_registrations == self.doc().open_registrations,
            b.doc().usage == self.doc().usage,
    {
        let mut s = self;
        let mut current = Metadata::Null;
        std::mem::swap(&mut current, &mut s.inner.metadata);
        let mut map = match current {
            Metadata::Object(m) => m,
            _ => StringMap::new(),
        };
        map.insert(key, value);
        s.inner.metadata = Metadata::Object(map);
        s
    }

    /// Finalises the [`NodeInfo`].
    pub fn build(self) -> (n: NodeInfo)
        ensures
            n == self.doc(),
    {
        self.inner
    }
}

} // verus!
