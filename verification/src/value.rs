//! Value shapes shared by Activity Streams properties.
use vstd::prelude::*;

use crate::text::str_eq;

verus! {

/// A property that the wire form writes as a single value or as an array.
#[derive(Debug, Clone, PartialEq, Eq)]
pub struct OneOrMany<T>(pub Vec<T>);

impl<T> OneOrMany<T> {
    /// No values.
    pub fn empty() -> (m: Self)
        ensures
            m.0@.len() == 0,
    {
        OneOrMany(Vec::new())
    }

    /// Exactly `t`.
    pub fn one(t: T) -> (m: Self)
        ensures
            m.0@ == seq![t],
    {
        let mut v = Vec::new();
        v.push(t);
        OneOrMany(v)
    }

    /// Number of values.
    pub fn len(&self) -> (n: usize)
        ensures
            n == self.0@.len(),
    {
        self.0.len()
    }

    /// Whether there is no value.
    pub fn is_empty(&self) -> (b: bool)
        ensures
            b == (self.0@.len() == 0),
    {
        self.0.len() == 0
    }

    /// The first value, if any.
    pub fn first(&self) -> (r: Option<&T>)
        ensures
            r == (if self.0@.len() > 0 {
                Some(&self.0@[0])
            } else {
                None
            }),
    {
        if self.0.len() > 0 {
            Some(&self.0[0])
        } else {
            None
        }
    }

    /// Appends a value.
    pub fn push(&mut self, t: T)
        ensures
            final(self).0@ == old(self).0@.push(t),
    {
        self.0.push(t);
    }
}

/// The `ActivityPub` `Public` pseudo-actor.
pub struct Public;

impl Public {
    /// The full IRI of the `Public` collection.
    pub const URI: &'static str = "https://www.w3.org/ns/activitystreams#Public";

    /// Whether `s` addresses the `Public` pseudo-actor in any of its
    /// spellings.
    pub fn is_public(s: &str) -> (b: bool)
        ensures
            b == is_public_iri(s@),
    {
        str_eq(s, "https://www.w3.org/ns/activitystreams#Public") || str_eq(s, "as:Public")
            || str_eq(s, "Public")
    }
}

/// The spellings of the `Public` pseudo-actor: its full IRI and the
/// compact forms `as:Public` and `Public`.
pub open spec fn is_public_iri(s: Seq<char>) -> bool {
    s == "https://www.w3.org/ns/activitystreams#Public"@ || s == "as:Public"@ || s == "Public"@
}

} // verus!
